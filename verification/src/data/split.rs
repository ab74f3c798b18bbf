use rand::rngs::StdRng;
use rand::seq::SliceRandom;
use rand::SeedableRng;
use vstd::prelude::*;
use vstd::seq_lib::lemma_multiset_commutative;

use crate::text::{insert_text_sorted, string_views, text_equal, texts_strictly_sorted};

verus! {

#[verifier::external_type_specification]
#[verifier::external_body]
pub struct ExStdRng(StdRng);

/// The generator that `StdRng::seed_from_u64` builds from `seed`. The seed
/// alone fixes it: the bytes of the ChaCha key are drawn from the seed by a
/// fixed PCG sequence.
pub uninterp spec fn seeded_generator(seed: u64) -> StdRng;

/// The order in which `SliceRandom::shuffle`, drawing from a generator in
/// state `rng`, leaves `entries`.
pub uninterp spec fn shuffled_by(rng: StdRng, entries: Seq<usize>) -> Seq<usize>;

/// The state of a generator in state `rng` once it has shuffled `len`
/// entries.
pub uninterp spec fn generator_after_shuffle(rng: StdRng, len: nat) -> StdRng;

/// Generator seeded deterministically from `seed` (`SeedableRng::seed_from_u64`).
#[verifier::external_body]
fn seeded_rng(seed: u64) -> (r: StdRng)
    ensures
        r == seeded_generator(seed),
{
    StdRng::seed_from_u64(seed)
}

/// Generator seeded from the thread-local generator (`SeedableRng::from_rng`
/// on `rand::rng()`); what it holds depends on chance and is not stated.
#[verifier::external_body]
fn entropy_rng() -> StdRng {
    StdRng::from_rng(&mut rand::rng())
}

/// `SliceRandom::shuffle`, which permutes the entries by swaps: the result
/// holds the same entries, each as often. The swaps are drawn from `rng`
/// and depend on nothing but its state and the number of entries, so the
/// new order is fixed by the generator's state and the entries, and the
/// generator's next state by its state and the number of entries.
#[verifier::external_body]
fn shuffle_indices(indices: &mut Vec<usize>, rng: &mut StdRng)
    ensures
        final(indices)@.to_multiset() == old(indices)@.to_multiset(),
        final(indices)@ == shuffled_by(*old(rng), old(indices)@),
        *final(rng) == generator_after_shuffle(*old(rng), old(indices)@.len()),
{
    indices.as_mut_slice().shuffle(rng);
}

/// The generator for a split: seeded from `seed` when given, otherwise from
/// the thread-local generator.
pub fn rng_from_seed(seed: Option<u64>) -> (r: StdRng)
    ensures
        seed matches Some(s) ==> r == seeded_generator(s),
{
    match seed {
        Some(seed_value) => seeded_rng(seed_value),
        None => entropy_rng(),
    }
}

/// The state of a generator that started in state `rng` once it has
/// shuffled the groups, one after another.
pub open spec fn generator_after_groups(groups: Seq<Seq<usize>>, rng: StdRng) -> StdRng
    decreases groups.len(),
{
    if groups.len() == 0 {
        rng
    } else {
        generator_after_shuffle(generator_after_groups(groups.drop_last(), rng), groups.last().len())
    }
}

/// Every group in the order that shuffling it gives, the groups being
/// shuffled one after another by a generator that started in state `rng`.
pub open spec fn shuffled_groups(groups: Seq<Seq<usize>>, rng: StdRng) -> Seq<Seq<usize>>
    decreases groups.len(),
{
    if groups.len() == 0 {
        Seq::empty()
    } else {
        shuffled_groups(groups.drop_last(), rng).push(
            shuffled_by(generator_after_groups(groups.drop_last(), rng), groups.last()),
        )
    }
}

/// Rows `i < n` whose key is `key`, in increasing order.
pub open spec fn rows_with_key(keys: Seq<Seq<char>>, key: Seq<char>, n: int) -> Seq<usize>
    decreases n,
{
    if n <= 0 {
        Seq::empty()
    } else if keys[n - 1] == key {
        rows_with_key(keys, key, n - 1).push((n - 1) as usize)
    } else {
        rows_with_key(keys, key, n - 1)
    }
}

/// `groups` lists, for each distinct key in sorted order, the rows that have
/// it.
pub open spec fn groups_match(keys: Seq<Seq<char>>, sorted_keys: Seq<Seq<char>>, groups: Seq<Seq<usize>>) -> bool {
    &&& texts_strictly_sorted(sorted_keys)
    &&& forall|x: Seq<char>| #[trigger] sorted_keys.contains(x) <==> keys.contains(x)
    &&& groups.len() == sorted_keys.len()
    &&& forall|g: int| 0 <= g < groups.len() ==> #[trigger] groups[g] == rows_with_key(keys, sorted_keys[g], keys.len() as int)
}

pub open spec fn vec_views(v: Seq<Vec<usize>>) -> Seq<Seq<usize>> {
    v.map_values(|x: Vec<usize>| x@)
}

/// Row `j` is listed for `key` exactly when it is below `n` and has that
/// key, and the list is strictly increasing.
pub proof fn lemma_rows_with_key(keys: Seq<Seq<char>>, key: Seq<char>, n: int)
    requires
        0 <= n <= keys.len(),
        n <= usize::MAX + 1,
    ensures
        forall|j: usize| #[trigger] rows_with_key(keys, key, n).contains(j) <==> (j < n && keys[j as int] == key),
        forall|a: int, b: int|
            0 <= a < b < rows_with_key(keys, key, n).len() ==> rows_with_key(keys, key, n)[a]
                < rows_with_key(keys, key, n)[b],
        forall|a: int|
            0 <= a < rows_with_key(keys, key, n).len() ==> rows_with_key(keys, key, n)[a] < n,
    decreases n,
{
    if n > 0 {
        lemma_rows_with_key(keys, key, n - 1);
        let prev = rows_with_key(keys, key, n - 1);
        if keys[n - 1] == key {
            let cur = prev.push((n - 1) as usize);
            assert forall|j: usize| #[trigger] cur.contains(j) <==> (j < n && keys[j as int] == key) by {
                if j == n - 1 {
                    assert(cur[prev.len() as int] == j);
                } else if cur.contains(j) {
                    let k = choose|k: int| 0 <= k < cur.len() && cur[k] == j;
                    assert(prev[k] == j);
                    assert(prev.contains(j));
                } else if j < n && keys[j as int] == key {
                    assert(prev.contains(j));
                    let k = choose|k: int| 0 <= k < prev.len() && prev[k] == j;
                    assert(cur[k] == j);
                }
            }
        } else {
            assert forall|j: usize| #[trigger] prev.contains(j) <==> (j < n && keys[j as int] == key) by {
                if j == n - 1 {
                    if prev.contains(j) {
                        let k = choose|k: int| 0 <= k < prev.len() && prev[k] == j;
                    }
                }
            }
        }
    }
}

/// Groups the rows by key: one group per distinct key, in sorted key order,
/// each listing its rows in increasing order.
pub fn group_rows_by_key(keys: &Vec<String>) -> (r: Vec<Vec<usize>>)
    ensures
        exists|sorted_keys: Seq<Seq<char>>| groups_match(string_views(keys@), sorted_keys, vec_views(r@)),
{
    let ghost kv = string_views(keys@);
    let mut sorted: Vec<String> = Vec::new();
    let mut groups: Vec<Vec<usize>> = Vec::new();
    let mut i: usize = 0;
    while i < keys.len()
        invariant
            i <= keys@.len(),
            kv == string_views(keys@),
            texts_strictly_sorted(string_views(sorted@)),
            forall|x: Seq<char>| #[trigger] string_views(sorted@).contains(x) <==> kv.subrange(0, i as int).contains(x),
            groups@.len() == sorted@.len(),
            forall|g: int| 0 <= g < groups@.len() ==> (#[trigger] groups@[g])@ == rows_with_key(kv, string_views(sorted@)[g], i as int),
        decreases keys@.len() - i,
    {
        let ghost sv = string_views(sorted@);
        let ghost gv = groups@;
        let (pos, inserted) = insert_text_sorted(&mut sorted, keys[i].as_str());
        let ghost sv2 = string_views(sorted@);
        assert(kv[i as int] == keys@[i as int]@);
        assert(kv.subrange(0, i + 1) =~= kv.subrange(0, i as int).push(kv[i as int]));
        if inserted {
            let mut fresh: Vec<usize> = Vec::new();
            fresh.push(i);
            groups.insert(pos, fresh);
            proof {
                assert(sv2 == sv.insert(pos as int, kv[i as int]));
                assert(!kv.subrange(0, i as int).contains(kv[i as int]));
                assert forall|g: int| 0 <= g < groups@.len() implies (#[trigger] groups@[g])@ == rows_with_key(kv, sv2[g], i + 1) by {
                    if g < pos {
                        assert(groups@[g] == gv[g]);
                        assert(sv2[g] == sv[g]);
                        assert(sv[g] != kv[i as int]);
                    } else if g == pos {
                        assert(rows_with_key(kv, kv[i as int], i as int) =~= Seq::<usize>::empty()) by {
                            lemma_rows_with_key(kv, kv[i as int], i as int);
                            let r0 = rows_with_key(kv, kv[i as int], i as int);
                            if r0.len() > 0 {
                                assert(r0.contains(r0[0]));
                                assert(kv[r0[0] as int] == kv[i as int]);
                                assert(kv.subrange(0, i as int)[r0[0] as int] == kv[i as int]);
                            }
                        }
                        assert(groups@[g]@ =~= seq![i]);
                    } else {
                        assert(groups@[g] == gv[g - 1]);
                        assert(sv2[g] == sv[g - 1]);
                        assert(sv[g - 1] != kv[i as int]);
                    }
                }
                assert forall|x: Seq<char>| #[trigger] sv2.contains(x) <==> kv.subrange(0, i + 1).contains(x) by {
                    lemma_prefix_contains(kv, i as int, x);
                    if sv2.contains(x) {
                        let k = choose|k: int| 0 <= k < sv2.len() && sv2[k] == x;
                        if k < pos {
                            assert(sv[k] == x);
                            assert(sv.contains(x));
                        } else if k > pos {
                            assert(sv[k - 1] == x);
                            assert(sv.contains(x));
                        }
                    }
                    if kv.subrange(0, i + 1).contains(x) && x != kv[i as int] {
                        let k = choose|k: int| 0 <= k < i + 1 && #[trigger] kv.subrange(0, i + 1)[k] == x;
                        assert(kv.subrange(0, i as int)[k] == x);
                        assert(sv.contains(x));
                        let m = choose|m: int| 0 <= m < sv.len() && sv[m] == x;
                        if m < pos {
                            assert(sv2[m] == x);
                        } else {
                            assert(sv2[m + 1] == x);
                        }
                    }
                    if x == kv[i as int] {
                        assert(sv2[pos as int] == x);
                    }
                }
            }
        } else {
            let mut group = groups.remove(pos);
            group.push(i);
            groups.insert(pos, group);
            proof {
                assert(sv2 == sv);
                assert(sv[pos as int] == kv[i as int]);
                assert forall|g: int| 0 <= g < groups@.len() implies (#[trigger] groups@[g])@ == rows_with_key(kv, sv2[g], i + 1) by {
                    if g == pos {
                        assert(groups@[g]@ =~= gv[g]@.push(i));
                    } else {
                        assert(groups@[g] == gv[g]);
                        assert(sv[g] != sv[pos as int]) by {
                            lemma_distinct_sorted(sv, g, pos as int);
                        }
                    }
                }
                assert forall|x: Seq<char>| #[trigger] sv2.contains(x) <==> kv.subrange(0, i + 1).contains(x) by {
                    lemma_prefix_contains(kv, i as int, x);
                    if kv.subrange(0, i + 1).contains(x) && x != kv[i as int] {
                        let k = choose|k: int| 0 <= k < i + 1 && #[trigger] kv.subrange(0, i + 1)[k] == x;
                        assert(kv.subrange(0, i as int)[k] == x);
                    }
                    if x == kv[i as int] {
                        assert(sv2[pos as int] == x);
                    }
                    if sv2.contains(x) && x != kv[i as int] {
                        assert(kv.subrange(0, i as int).contains(x));
                        let k = choose|k: int| 0 <= k < i && #[trigger] kv.subrange(0, i as int)[k] == x;
                        assert(kv.subrange(0, i + 1)[k] == x);
                    }
                }
            }
        }
        i = i + 1;
    }
    proof {
        assert(kv.subrange(0, keys@.len() as int) =~= kv);
        assert(vec_views(groups@).len() == groups@.len());
        assert forall|g: int| 0 <= g < vec_views(groups@).len() implies #[trigger] vec_views(groups@)[g] == rows_with_key(kv, string_views(sorted@)[g], kv.len() as int) by {
            assert(vec_views(groups@)[g] == groups@[g]@);
        }
        assert(groups_match(kv, string_views(sorted@), vec_views(groups@)));
    }
    groups
}

/// The first `sizes[g]` entries of each of the first `n` parts, joined.
pub open spec fn joined_heads(parts: Seq<Seq<usize>>, sizes: Seq<usize>, n: int) -> Seq<usize>
    decreases n,
{
    if n <= 0 {
        Seq::empty()
    } else {
        joined_heads(parts, sizes, n - 1) + parts[n - 1].take(sizes[n - 1] as int)
    }
}

/// The rest of each of the first `n` parts, joined.
pub open spec fn joined_tails(parts: Seq<Seq<usize>>, sizes: Seq<usize>, n: int) -> Seq<usize>
    decreases n,
{
    if n <= 0 {
        Seq::empty()
    } else {
        joined_tails(parts, sizes, n - 1) + parts[n - 1].skip(sizes[n - 1] as int)
    }
}

/// The first `n` parts, joined.
pub open spec fn joined(parts: Seq<Seq<usize>>, n: int) -> Seq<usize>
    decreases n,
{
    if n <= 0 {
        Seq::empty()
    } else {
        joined(parts, n - 1) + parts[n - 1]
    }
}

/// `shuffled` holds each group reordered, and the two halves of the split
/// take the first `sizes[g]` rows of every reordered group for training and
/// the others for validation, group by group.
pub open spec fn split_outcome(
    groups: Seq<Seq<usize>>,
    sizes: Seq<usize>,
    shuffled: Seq<Seq<usize>>,
    train: Seq<usize>,
    test: Seq<usize>,
) -> bool {
    &&& shuffled.len() == groups.len()
    &&& forall|g: int| 0 <= g < groups.len() ==> (#[trigger] shuffled[g]).to_multiset() == groups[g].to_multiset()
    &&& train == joined_heads(shuffled, sizes, groups.len() as int)
    &&& test == joined_tails(shuffled, sizes, groups.len() as int)
}

/// The same groups split with the same sizes by generators seeded with the
/// same seed give the same split.
pub proof fn lemma_same_seed_same_split(
    groups: Seq<Seq<usize>>,
    sizes: Seq<usize>,
    seed: u64,
    first: (Seq<usize>, Seq<usize>),
    second: (Seq<usize>, Seq<usize>),
)
    requires
        split_outcome(groups, sizes, shuffled_groups(groups, seeded_generator(seed)), first.0, first.1),
        split_outcome(groups, sizes, shuffled_groups(groups, seeded_generator(seed)), second.0, second.1),
    ensures
        first == second,
{
}

/// Splitting loses and repeats no row: the rows of the two halves together
/// are, with multiplicity, the rows of the groups; and the training half has
/// exactly `sizes[g]` rows from group `g`, so `sum(sizes)` in all.
pub proof fn lemma_split_is_partition(
    groups: Seq<Seq<usize>>,
    sizes: Seq<usize>,
    shuffled: Seq<Seq<usize>>,
    n: int,
)
    requires
        0 <= n <= groups.len(),
        shuffled.len() == groups.len(),
        sizes.len() == groups.len(),
        forall|g: int| 0 <= g < groups.len() ==> (#[trigger] shuffled[g]).to_multiset() == groups[g].to_multiset(),
        forall|g: int| 0 <= g < groups.len() ==> #[trigger] sizes[g] <= groups[g].len(),
    ensures
        (joined_heads(shuffled, sizes, n) + joined_tails(shuffled, sizes, n)).to_multiset()
            == joined(groups, n).to_multiset(),
        joined_heads(shuffled, sizes, n).len() == sum_sizes(sizes, n),
    decreases n,
{
    if n > 0 {
        lemma_split_is_partition(groups, sizes, shuffled, n - 1);
        let h = joined_heads(shuffled, sizes, n - 1);
        let t = joined_tails(shuffled, sizes, n - 1);
        let p = shuffled[n - 1];
        let k = sizes[n - 1] as int;
        assert(p.to_multiset().len() == p.len()) by {
            p.to_multiset_ensures();
        }
        assert(groups[n - 1].to_multiset().len() == groups[n - 1].len()) by {
            groups[n - 1].to_multiset_ensures();
        }
        assert(p.take(k) + p.skip(k) =~= p);
        lemma_multiset_commutative(h, p.take(k));
        lemma_multiset_commutative(t, p.skip(k));
        lemma_multiset_commutative(h, t);
        lemma_multiset_commutative(h + p.take(k), t + p.skip(k));
        lemma_multiset_commutative(p.take(k), p.skip(k));
        lemma_multiset_commutative(joined(groups, n - 1), groups[n - 1]);
        assert((joined_heads(shuffled, sizes, n) + joined_tails(shuffled, sizes, n)).to_multiset()
            =~= joined(groups, n).to_multiset());
    }
}

/// Sum of the first `n` sizes.
pub open spec fn sum_sizes(sizes: Seq<usize>, n: int) -> int
    decreases n,
{
    if n <= 0 {
        0
    } else {
        sum_sizes(sizes, n - 1) + sizes[n - 1]
    }
}

fn copy_indices(v: &Vec<usize>) -> (r: Vec<usize>)
    ensures
        r@ == v@,
{
    let mut out: Vec<usize> = Vec::new();
    let mut i: usize = 0;
    while i < v.len()
        invariant
            i <= v@.len(),
            out@ == v@.subrange(0, i as int),
        decreases v@.len() - i,
    {
        out.push(v[i]);
        assert(out@ =~= v@.subrange(0, i + 1));
        i = i + 1;
    }
    assert(out@ =~= v@);
    out
}

/// Shuffles every group with `rng` and splits it after `train_sizes[g]`
/// rows: the heads go to the training half, the tails to the validation half,
/// group after group.
pub fn split_groups_by_ratio(
    groups: &Vec<Vec<usize>>,
    train_sizes: &Vec<usize>,
    rng: &mut StdRng,
) -> (r: (Vec<usize>, Vec<usize>))
    requires
        train_sizes@.len() == groups@.len(),
        forall|g: int| 0 <= g < groups@.len() ==> #[trigger] train_sizes@[g] <= groups@[g]@.len(),
    ensures
        split_outcome(
            vec_views(groups@),
            train_sizes@,
            shuffled_groups(vec_views(groups@), *old(rng)),
            r.0@,
            r.1@,
        ),
        *final(rng) == generator_after_groups(vec_views(groups@), *old(rng)),
{
    let ghost gv = vec_views(groups@);
    let ghost rng0 = *rng;
    let ghost mut shuffled: Seq<Seq<usize>> = Seq::empty();
    let mut train: Vec<usize> = Vec::new();
    let mut test: Vec<usize> = Vec::new();
    let mut g: usize = 0;
    while g < groups.len()
        invariant
            g <= groups@.len(),
            gv == vec_views(groups@),
            train_sizes@.len() == groups@.len(),
            forall|h: int| 0 <= h < groups@.len() ==> #[trigger] train_sizes@[h] <= groups@[h]@.len(),
            shuffled.len() == g,
            shuffled == shuffled_groups(gv.take(g as int), rng0),
            *rng == generator_after_groups(gv.take(g as int), rng0),
            forall|h: int| 0 <= h < g ==> (#[trigger] shuffled[h]).to_multiset() == gv[h].to_multiset(),
            train@ == joined_heads(shuffled, train_sizes@, g as int),
            test@ == joined_tails(shuffled, train_sizes@, g as int),
        decreases groups@.len() - g,
    {
        let mut group = copy_indices(&groups[g]);
        let ghost rng_before = *rng;
        shuffle_indices(&mut group, rng);
        proof {
            assert(gv.take(g + 1).drop_last() =~= gv.take(g as int));
            assert(gv.take(g + 1).last() == gv[g as int]);
        }
        let size = train_sizes[g];
        proof {
            assert(gv[g as int] == groups@[g as int]@);
            group@.to_multiset_ensures();
            groups@[g as int]@.to_multiset_ensures();
            assert(group@.len() == groups@[g as int]@.len());
        }
        let ghost start_train = train@;
        let ghost start_test = test@;
        let mut k: usize = 0;
        while k < group.len()
            invariant
                k <= group@.len(),
                size <= group@.len(),
                k <= size ==> train@ == start_train + group@.take(k as int) && test@ == start_test,
                k > size ==> train@ == start_train + group@.take(size as int) && test@
                    == start_test + group@.subrange(size as int, k as int),
            decreases group@.len() - k,
        {
            if k < size {
                train.push(group[k]);
                assert(group@.take(k + 1) =~= group@.take(k as int).push(group@[k as int]));
            } else {
                test.push(group[k]);
                if k == size {
                    assert(group@.subrange(size as int, k + 1) =~= seq![group@[k as int]]);
                } else {
                    assert(group@.subrange(size as int, k + 1) =~= group@.subrange(size as int, k as int).push(group@[k as int]));
                }
            }
            k = k + 1;
        }
        proof {
            if group@.len() == size {
                assert(group@.skip(size as int) =~= Seq::<usize>::empty());
                assert(test@ =~= start_test + group@.skip(size as int));
                assert(train@ == start_train + group@.take(size as int));
            } else {
                assert(group@.subrange(size as int, group@.len() as int) =~= group@.skip(size as int));
            }
            let old_shuffled = shuffled;
            shuffled = shuffled.push(group@);
            assert(shuffled.drop_last() =~= old_shuffled);
            lemma_joined_prefix(shuffled, train_sizes@, g as int);
            assert(joined_heads(shuffled, train_sizes@, g + 1) == joined_heads(shuffled, train_sizes@, g as int) + group@.take(size as int));
            assert(joined_tails(shuffled, train_sizes@, g + 1) == joined_tails(shuffled, train_sizes@, g as int) + group@.skip(size as int));
            assert forall|h: int| 0 <= h < g + 1 implies (#[trigger] shuffled[h]).to_multiset() == gv[h].to_multiset() by {
                if h < g {
                    assert(shuffled[h] == old_shuffled[h]);
                }
            }
        }
        g = g + 1;
    }
    assert(gv.take(gv.len() as int) =~= gv);
    assert(split_outcome(gv, train_sizes@, shuffled, train@, test@));
    (train, test)
}

proof fn lemma_joined_prefix(parts: Seq<Seq<usize>>, sizes: Seq<usize>, n: int)
    requires
        0 <= n < parts.len(),
    ensures
        joined_heads(parts.drop_last(), sizes, n) == joined_heads(parts, sizes, n),
        joined_tails(parts.drop_last(), sizes, n) == joined_tails(parts, sizes, n),
    decreases n,
{
    if n > 0 {
        lemma_joined_prefix(parts, sizes, n - 1);
    }
}

proof fn lemma_prefix_contains(kv: Seq<Seq<char>>, i: int, x: Seq<char>)
    requires
        0 <= i < kv.len(),
    ensures
        kv.subrange(0, i + 1).contains(x) <==> (kv.subrange(0, i).contains(x) || kv[i] == x),
{
    if kv.subrange(0, i + 1).contains(x) {
        let k = choose|k: int| 0 <= k < i + 1 && #[trigger] kv.subrange(0, i + 1)[k] == x;
        if k < i {
            assert(kv.subrange(0, i)[k] == x);
        }
    }
    if kv.subrange(0, i).contains(x) {
        let k = choose|k: int| 0 <= k < i && #[trigger] kv.subrange(0, i)[k] == x;
        assert(kv.subrange(0, i + 1)[k] == x);
    }
    if kv[i] == x {
        assert(kv.subrange(0, i + 1)[i] == x);
    }
}

proof fn lemma_distinct_sorted(s: Seq<Seq<char>>, a: int, b: int)
    requires
        texts_strictly_sorted(s),
        0 <= a < s.len(),
        0 <= b < s.len(),
        a != b,
    ensures
        s[a] != s[b],
{
    if a < b {
        crate::text::lemma_text_lt_irreflexive(s[a]);
    } else {
        crate::text::lemma_text_lt_irreflexive(s[b]);
    }
}

} // verus!
