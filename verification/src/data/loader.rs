use vstd::prelude::*;
use vstd::seq_lib::lemma_flatten_concat;

use crate::text::{insert_text_sorted, string_views, text_equal, texts_strictly_sorted};

verus! {

/// `x` is a non-empty entry among the first `n` of `values`.
pub open spec fn text_present(values: Seq<Option<String>>, n: int, x: Seq<char>) -> bool {
    x.len() > 0 && exists|i: int| 0 <= i < n && #[trigger] values[i] is Some && values[i]->0@ == x
}

/// The codes of a text column: with `classes` the distinct non-empty entries
/// in sorted order, every non-empty entry is coded by its position there and
/// every missing or empty entry by 0.
pub open spec fn codes_match(values: Seq<Option<String>>, classes: Seq<Seq<char>>, codes: Seq<usize>) -> bool {
    &&& codes.len() == values.len()
    &&& texts_strictly_sorted(classes)
    &&& forall|x: Seq<char>| #[trigger] classes.contains(x) <==> text_present(values, values.len() as int, x)
    &&& forall|i: int|
        0 <= i < values.len() ==> match #[trigger] values[i] {
            Some(s) => if s@.len() > 0 {
                codes[i] < classes.len() && classes[codes[i] as int] == s@
            } else {
                codes[i] == 0
            },
            None => codes[i] == 0,
        }
}

/// Column of the `k`-th feature when column `label_col` holds the labels.
pub open spec fn feature_column(k: int, label_col: int) -> int {
    if k < label_col {
        k
    } else {
        k + 1
    }
}

/// The feature rows of a table given by columns: row `r` holds entry `r` of
/// every column but the label column, in column order.
pub open spec fn feature_rows<T>(columns: Seq<Seq<T>>, label_col: int, n_rows: int) -> Seq<Seq<T>> {
    Seq::new(
        n_rows as nat,
        |r: int| Seq::new((columns.len() - 1) as nat, |k: int| columns[feature_column(k, label_col)][r]),
    )
}

pub open spec fn column_views<T>(columns: Seq<Vec<T>>) -> Seq<Seq<T>> {
    columns.map_values(|c: Vec<T>| c@)
}

/// Splits a table given by columns into its label column and its features in
/// row-major order (every column but the label column, row after row).
pub fn split_label_column<T: Copy>(columns: &Vec<Vec<T>>, n_rows: usize, label_col: usize) -> (r: (
    Vec<T>,
    Vec<T>,
))
    requires
        label_col < columns@.len(),
        forall|c: int| 0 <= c < columns@.len() ==> (#[trigger] columns@[c])@.len() == n_rows,
    ensures
        r.0@ == feature_rows(column_views(columns@), label_col as int, n_rows as int).flatten(),
        r.1@ == columns@[label_col as int]@,
        r.0@.len() == n_rows * (columns@.len() - 1),
        forall|row: int, k: int|
            0 <= row < n_rows && 0 <= k < label_col ==> r.0@[row * (columns@.len() - 1) + k]
                == #[trigger] columns@[k]@[row],
        forall|row: int, k: int|
            0 <= row < n_rows && label_col <= k < columns@.len() - 1 ==> r.0@[row * (
            columns@.len() - 1) + k] == #[trigger] columns@[k + 1]@[row],
{
    let ghost cv = column_views(columns@);
    let n_cols = columns.len();
    let mut labels: Vec<T> = Vec::new();
    let mut i: usize = 0;
    while i < n_rows
        invariant
            i <= n_rows,
            columns@[label_col as int]@.len() == n_rows,
            label_col < columns@.len(),
            labels@ == columns@[label_col as int]@.subrange(0, i as int),
        decreases n_rows - i,
    {
        labels.push(columns[label_col][i]);
        assert(labels@ =~= columns@[label_col as int]@.subrange(0, i + 1));
        i = i + 1;
    }
    assert(labels@ =~= columns@[label_col as int]@);
    let mut features: Vec<T> = Vec::new();
    let mut row: usize = 0;
    while row < n_rows
        invariant
            row <= n_rows,
            n_cols == columns@.len(),
            label_col < n_cols,
            cv == column_views(columns@),
            forall|c: int| 0 <= c < columns@.len() ==> (#[trigger] columns@[c])@.len() == n_rows,
            features@ == feature_rows(cv, label_col as int, n_rows as int).subrange(0, row as int).flatten(),
        decreases n_rows - row,
    {
        let ghost before = features@;
        let ghost target = feature_rows(cv, label_col as int, n_rows as int)[row as int];
        let mut c: usize = 0;
        while c < n_cols
            invariant
                c <= n_cols,
                row < n_rows,
                n_cols == columns@.len(),
                label_col < n_cols,
                cv == column_views(columns@),
                forall|c2: int| 0 <= c2 < columns@.len() ==> (#[trigger] columns@[c2])@.len() == n_rows,
                target == feature_rows(cv, label_col as int, n_rows as int)[row as int],
                c <= label_col ==> features@ == before + target.subrange(0, c as int),
                c > label_col ==> features@ == before + target.subrange(0, c - 1),
            decreases n_cols - c,
        {
            if c != label_col {
                features.push(columns[c][row]);
                proof {
                    let k: int = if c < label_col { c as int } else { c - 1 };
                    assert(feature_column(k, label_col as int) == c);
                    assert(target[k] == cv[c as int][row as int]);
                    assert(cv[c as int] == columns@[c as int]@);
                    assert(target.subrange(0, k + 1) =~= target.subrange(0, k).push(target[k]));
                }
            }
            c = c + 1;
        }
        proof {
            assert(target.len() == n_cols - 1);
            assert(target.subrange(0, n_cols - 1) =~= target);
            let rows = feature_rows(cv, label_col as int, n_rows as int);
            assert(rows.subrange(0, row + 1) =~= rows.subrange(0, row as int) + seq![target]);
            lemma_flatten_concat(rows.subrange(0, row as int), seq![target]);
            seq![target].lemma_flatten_one_element();
        }
        row = row + 1;
    }
    proof {
        let rows = feature_rows(cv, label_col as int, n_rows as int);
        assert(rows.subrange(0, n_rows as int) =~= rows);
        assert forall|c: int| 0 <= c < cv.len() implies (#[trigger] cv[c]).len() == n_rows by {
            assert(cv[c] == columns@[c]@);
        }
        lemma_feature_layout(cv, label_col as int, n_rows as int, features@);
        let m = columns@.len() - 1;
        assert forall|row: int, k: int| 0 <= row < n_rows && 0 <= k < label_col implies features@[row
            * m + k] == #[trigger] columns@[k]@[row] by {
            assert(cv[k] == columns@[k]@);
            assert(features@[row * m + k] == cv[k][row]);
        }
        assert forall|row: int, k: int| 0 <= row < n_rows && label_col <= k < m implies features@[row
            * m + k] == #[trigger] columns@[k + 1]@[row] by {
            assert(cv[k + 1] == columns@[k + 1]@);
            assert(features@[row * m + k] == cv[k + 1][row]);
        }
    }
    (features, labels)
}

proof fn lemma_flatten_uniform<T>(s: Seq<Seq<T>>, m: int)
    requires
        m >= 0,
        forall|i: int| 0 <= i < s.len() ==> (#[trigger] s[i]).len() == m,
    ensures
        s.flatten().len() == s.len() * m,
        forall|r: int, k: int|
            0 <= r < s.len() && 0 <= k < m ==> s.flatten()[r * m + k] == #[trigger] s[r][k],
    decreases s.len(),
{
    if s.len() > 0 {
        let rest = s.drop_first();
        lemma_flatten_uniform(rest, m);
        assert(s.flatten() == s.first() + rest.flatten());
        assert(s.len() * m == m + rest.len() * m) by (nonlinear_arith)
            requires
                s.len() == rest.len() + 1,
        ;
        assert forall|r: int, k: int| 0 <= r < s.len() && 0 <= k < m implies s.flatten()[r * m + k]
            == #[trigger] s[r][k] by {
            if r > 0 {
                assert(r * m + k == m + ((r - 1) * m + k)) by (nonlinear_arith);
                assert(r * m <= rest.len() * m) by (nonlinear_arith)
                    requires
                        r <= rest.len(),
                        m >= 0,
                ;
                assert((r - 1) * m + m == r * m) by (nonlinear_arith);
                assert((r - 1) * m + k < rest.len() * m);
                assert(0 <= (r - 1) * m) by (nonlinear_arith)
                    requires
                        r >= 1,
                        m >= 0,
                ;
                assert(rest[r - 1] == s[r]);
            } else {
                assert(r * m == 0) by (nonlinear_arith)
                    requires
                        r == 0,
                ;
            }
        }
    }
}

/// The layout of the features that `split_label_column` returns: with `m`
/// the number of columns but one, row `r` takes the places `r * m` to
/// `r * m + m - 1`, and its feature `k` is entry `r` of column `k` before
/// the label column and of column `k + 1` from it on, so the label column
/// never appears among the features and every other column does, in column
/// order.
pub proof fn lemma_feature_layout<T>(columns: Seq<Seq<T>>, label_col: int, n_rows: int, features: Seq<T>)
    requires
        0 <= label_col < columns.len(),
        n_rows >= 0,
        forall|c: int| 0 <= c < columns.len() ==> (#[trigger] columns[c]).len() == n_rows,
        features == feature_rows(columns, label_col, n_rows).flatten(),
    ensures
        features.len() == n_rows * (columns.len() - 1),
        forall|r: int, k: int|
            0 <= r < n_rows && 0 <= k < label_col ==> features[r * (columns.len() - 1) + k]
                == #[trigger] columns[k][r],
        forall|r: int, k: int|
            0 <= r < n_rows && label_col <= k < columns.len() - 1 ==> features[r * (columns.len()
                - 1) + k] == #[trigger] columns[k + 1][r],
{
    let m = columns.len() - 1;
    let rows = feature_rows(columns, label_col, n_rows);
    lemma_flatten_uniform(rows, m);
    assert(rows.len() * m == n_rows * m);
    assert forall|r: int, k: int| 0 <= r < n_rows && 0 <= k < label_col implies features[r * m + k]
        == #[trigger] columns[k][r] by {
        assert(rows[r][k] == columns[k][r]);
    }
    assert forall|r: int, k: int| 0 <= r < n_rows && label_col <= k < m implies features[r * m + k]
        == #[trigger] columns[k + 1][r] by {
        assert(rows[r][k] == columns[k + 1][r]);
    }
}

/// Codes follow the text order: two non-empty entries get the same code
/// exactly when they are the same text, and a smaller code exactly when their
/// text sorts first.
pub proof fn lemma_codes_follow_text_order(
    values: Seq<Option<String>>,
    classes: Seq<Seq<char>>,
    codes: Seq<usize>,
    i: int,
    j: int,
)
    requires
        codes_match(values, classes, codes),
        0 <= i < values.len(),
        0 <= j < values.len(),
        values[i] is Some && values[i]->0@.len() > 0,
        values[j] is Some && values[j]->0@.len() > 0,
    ensures
        (codes[i] == codes[j]) == (values[i]->0@ == values[j]->0@),
        (codes[i] < codes[j]) == crate::text::text_lt(values[i]->0@, values[j]->0@),
{
    let x = values[i]->0@;
    let y = values[j]->0@;
    let a = codes[i] as int;
    let b = codes[j] as int;
    assert(classes[a] == x);
    assert(classes[b] == y);
    crate::text::lemma_text_lt_total(x, y);
    crate::text::lemma_text_lt_irreflexive(x);
    if a < b {
        assert(crate::text::text_lt(x, y));
    } else if a > b {
        assert(crate::text::text_lt(y, x));
    }
}

/// Codes a text column as class numbers: the distinct non-empty entries are
/// sorted and each entry is replaced by its position in that order; missing
/// and empty entries become 0.
pub fn encode_text_column(values: &Vec<Option<String>>) -> (r: Vec<usize>)
    ensures
        exists|classes: Seq<Seq<char>>| codes_match(values@, classes, r@),
{
    let mut classes: Vec<String> = Vec::new();
    let mut i: usize = 0;
    while i < values.len()
        invariant
            i <= values@.len(),
            texts_strictly_sorted(string_views(classes@)),
            forall|x: Seq<char>|
                #[trigger] string_views(classes@).contains(x) <==> text_present(values@, i as int, x),
        decreases values@.len() - i,
    {
        let ghost before = string_views(classes@);
        match &values[i] {
            Some(s) => {
                if s.as_str().unicode_len() > 0 {
                    let (pos, inserted) = insert_text_sorted(&mut classes, s.as_str());
                    proof {
                        let after = string_views(classes@);
                        assert(after[pos as int] == s@);
                        if inserted {
                            assert(after == before.insert(pos as int, s@));
                            assert(after.len() == before.len() + 1);
                        } else {
                            assert(after == before);
                        }
                        assert forall|x: Seq<char>| #[trigger] after.contains(x) <==> text_present(
                            values@,
                            i + 1,
                            x,
                        ) by {
                            if after.contains(x) {
                                let k = choose|k: int| 0 <= k < after.len() && after[k] == x;
                                if x != s@ {
                                    if inserted {
                                        if k < pos {
                                            assert(after[k] == before.insert(pos as int, s@)[k]);
                                            assert(before[k] == x);
                                        } else {
                                            assert(k != pos);
                                            assert(after[k] == before.insert(pos as int, s@)[k]);
                                            assert(before[k - 1] == x);
                                        }
                                    } else {
                                        assert(before[k] == x);
                                    }
                                    assert(before.contains(x));
                                }
                                assert(values@[i as int] is Some);
                            }
                            if text_present(values@, i + 1, x) {
                                if x == s@ {
                                    assert(after[pos as int] == x);
                                } else {
                                    let j = choose|j: int|
                                        0 <= j < i + 1 && #[trigger] values@[j] is Some
                                            && values@[j]->0@ == x;
                                    assert(j < i);
                                    assert(text_present(values@, i as int, x));
                                    assert(before.contains(x));
                                    let k = choose|k: int| 0 <= k < before.len() && before[k] == x;
                                    if inserted {
                                        if k < pos {
                                            assert(after[k] == x);
                                        } else {
                                            assert(after[k + 1] == x);
                                        }
                                    } else {
                                        assert(after[k] == x);
                                    }
                                }
                            }
                        }
                    }
                } else {
                    proof {
                        assert forall|x: Seq<char>| #[trigger] before.contains(x) <==> text_present(
                            values@,
                            i + 1,
                            x,
                        ) by {
                            if text_present(values@, i + 1, x) {
                                let j = choose|j: int|
                                    0 <= j < i + 1 && #[trigger] values@[j] is Some && values@[j]->0@
                                        == x;
                                assert(j < i);
                            }
                        }
                    }
                }
            },
            None => {
                proof {
                    assert forall|x: Seq<char>| #[trigger] before.contains(x) <==> text_present(
                        values@,
                        i + 1,
                        x,
                    ) by {
                        if text_present(values@, i + 1, x) {
                            let j = choose|j: int|
                                0 <= j < i + 1 && #[trigger] values@[j] is Some && values@[j]->0@
                                    == x;
                            assert(j < i);
                        }
                    }
                }
            },
        }
        i = i + 1;
    }
    let ghost views = string_views(classes@);
    let mut codes: Vec<usize> = Vec::new();
    let mut i: usize = 0;
    while i < values.len()
        invariant
            i <= values@.len(),
            views == string_views(classes@),
            texts_strictly_sorted(views),
            forall|x: Seq<char>|
                #[trigger] views.contains(x) <==> text_present(values@, values@.len() as int, x),
            codes@.len() == i,
            forall|j: int|
                0 <= j < i ==> match #[trigger] values@[j] {
                    Some(s) => if s@.len() > 0 {
                        codes@[j] < views.len() && views[codes@[j] as int] == s@
                    } else {
                        codes@[j] == 0
                    },
                    None => codes@[j] == 0,
                },
        decreases values@.len() - i,
    {
        match &values[i] {
            Some(s) => {
                if s.as_str().unicode_len() > 0 {
                    assert(text_present(values@, values@.len() as int, s@));
                    assert(views.contains(s@));
                    let mut k: usize = 0;
                    while k < classes.len() && !text_equal(&classes[k], s)
                        invariant
                            k <= classes@.len(),
                            views == string_views(classes@),
                            views.contains(s@),
                            forall|m: int| 0 <= m < k ==> views[m] != s@,
                        decreases classes@.len() - k,
                    {
                        k = k + 1;
                    }
                    if k == classes.len() {
                        proof {
                            let m = choose|m: int| 0 <= m < views.len() && views[m] == s@;
                            assert(views[m] != s@);
                        }
                    }
                    codes.push(k);
                } else {
                    codes.push(0);
                }
            },
            None => {
                codes.push(0);
            },
        }
        i = i + 1;
    }
    assert(codes_match(values@, views, codes@));
    codes
}

} // verus!
