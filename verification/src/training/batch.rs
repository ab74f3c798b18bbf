use vstd::prelude::*;

verus! {

/// End of the batch that starts at `start`.
pub open spec fn batch_end(len: int, batch_size: int, start: int) -> int {
    if start + batch_size < len {
        start + batch_size
    } else {
        len
    }
}

/// The batches of row indices that an iterator at `start` still yields: runs
/// of `batch_size` consecutive entries of `indices`, the last possibly
/// shorter.
pub open spec fn batches_from(indices: Seq<usize>, batch_size: usize, start: int) -> Seq<Seq<usize>>
    decreases indices.len() - start,
{
    if batch_size == 0 || start >= indices.len() || start < 0 {
        Seq::empty()
    } else {
        let end = batch_end(indices.len() as int, batch_size as int, start);
        seq![indices.subrange(start, end)] + batches_from(indices, batch_size, end)
    }
}

/// Walks a list of row indices batch by batch.
pub struct BatchIterator {
    indices: Vec<usize>,
    batch_size: usize,
    batch_start: usize,
}

/// An iterator over `indices` in batches of `batch_size`, starting at the
/// first entry.
pub fn create_batches(indices: &[usize], batch_size: usize) -> (r: BatchIterator)
    ensures
        r.indices() == indices@,
        r.batch_size() == batch_size,
        r.position() == 0,
{
    let mut owned: Vec<usize> = Vec::new();
    let mut i: usize = 0;
    while i < indices.len()
        invariant
            i <= indices@.len(),
            owned@ == indices@.subrange(0, i as int),
        decreases indices@.len() - i,
    {
        owned.push(indices[i]);
        assert(owned@ =~= indices@.subrange(0, i + 1));
        i = i + 1;
    }
    assert(owned@ =~= indices@);
    BatchIterator { indices: owned, batch_size, batch_start: 0 }
}

impl BatchIterator {
    /// The row indices being walked.
    pub closed spec fn indices(&self) -> Seq<usize> {
        self.indices@
    }

    pub closed spec fn batch_size(&self) -> usize {
        self.batch_size
    }

    /// Index into `indices()` at which the next batch starts.
    pub closed spec fn position(&self) -> int {
        self.batch_start as int
    }

    /// The next batch of row indices, or `None` once every index was handed
    /// out.
    pub fn next_batch(&mut self) -> (r: Option<Vec<usize>>)
        ensures
            final(self).indices() == old(self).indices(),
            final(self).batch_size() == old(self).batch_size(),
            old(self).position() >= old(self).indices().len() ==> r is None && final(self).position()
                == old(self).position(),
            old(self).position() < old(self).indices().len() ==> {
                let end = batch_end(
                    old(self).indices().len() as int,
                    old(self).batch_size() as int,
                    old(self).position(),
                );
                &&& r matches Some(b) && b@ == old(self).indices().subrange(old(self).position(), end)
                &&& final(self).position() == end
            },
            old(self).batch_size() > 0 ==> (r matches Some(b) ==> batches_from(
                old(self).indices(),
                old(self).batch_size(),
                old(self).position(),
            ) == seq![b@] + batches_from(
                final(self).indices(),
                final(self).batch_size(),
                final(self).position(),
            )),
            r is None ==> batches_from(
                old(self).indices(),
                old(self).batch_size(),
                old(self).position(),
            ) == Seq::<Seq<usize>>::empty(),
    {
        let len = self.indices.len();
        if self.batch_start >= len {
            return None;
        }
        let batch_end = if self.batch_size < len - self.batch_start {
            self.batch_start + self.batch_size
        } else {
            len
        };
        let mut rows: Vec<usize> = Vec::new();
        let mut k: usize = self.batch_start;
        while k < batch_end
            invariant
                self.batch_start <= k <= batch_end <= self.indices@.len(),
                rows@ == self.indices@.subrange(self.batch_start as int, k as int),
            decreases batch_end - k,
        {
            rows.push(self.indices[k]);
            assert(rows@ =~= self.indices@.subrange(self.batch_start as int, k + 1));
            k = k + 1;
        }
        self.batch_start = batch_end;
        Some(rows)
    }
}

/// Batching loses and repeats nothing: with a positive batch size the
/// batches, joined in order, are exactly the index list; every batch holds
/// between 1 and `batch_size` entries, all but the last exactly
/// `batch_size`, so there are `ceil(len / batch_size)` of them.
pub proof fn lemma_batches_partition(indices: Seq<usize>, batch_size: usize, start: int)
    requires
        batch_size > 0,
        0 <= start <= indices.len(),
    ensures
        batches_from(indices, batch_size, start).flatten() == indices.subrange(
            start,
            indices.len() as int,
        ),
        batches_from(indices, batch_size, start).len() * batch_size >= indices.len() - start,
        batches_from(indices, batch_size, start).len() * batch_size < indices.len() - start
            + batch_size,
        forall|i: int|
            0 <= i < batches_from(indices, batch_size, start).len() ==> 1 <= (#[trigger] batches_from(
                indices,
                batch_size,
                start,
            )[i]).len() <= batch_size,
        forall|i: int|
            0 <= i < batches_from(indices, batch_size, start).len() - 1 ==> (#[trigger] batches_from(
                indices,
                batch_size,
                start,
            )[i]).len() == batch_size,
    decreases indices.len() - start,
{
    let b = batches_from(indices, batch_size, start);
    if start >= indices.len() {
        assert(indices.subrange(start, indices.len() as int) =~= Seq::<usize>::empty());
    } else {
        let end = batch_end(indices.len() as int, batch_size as int, start);
        lemma_batches_partition(indices, batch_size, end);
        let rest = batches_from(indices, batch_size, end);
        assert(b == seq![indices.subrange(start, end)] + rest);
        assert(b.drop_first() =~= rest);
        assert(b.first() == indices.subrange(start, end));
        assert(indices.subrange(start, end) + indices.subrange(end, indices.len() as int)
            =~= indices.subrange(start, indices.len() as int));
        assert forall|i: int| 0 <= i < b.len() implies 1 <= (#[trigger] b[i]).len()
            <= batch_size by {
            if i > 0 {
                assert(b[i] == rest[i - 1]);
            }
        }
        assert forall|i: int| 0 <= i < b.len() - 1 implies (#[trigger] b[i]).len()
            == batch_size by {
            if i > 0 {
                assert(b[i] == rest[i - 1]);
            } else {
                if end == indices.len() {
                    assert(rest.len() == 0);
                }
            }
        }
        assert(b.len() == rest.len() + 1);
        assert(b.len() * batch_size == rest.len() * batch_size + batch_size) by (nonlinear_arith)
            requires
                b.len() == rest.len() + 1,
        ;
    }
}

/// Batch `j` (counting from the batch at `start`) holds the entries from
/// `start + j * batch_size` up to `batch_size` further, or to the end of the
/// list.
pub proof fn lemma_batch_positions(indices: Seq<usize>, batch_size: usize, start: int, j: int)
    requires
        batch_size > 0,
        0 <= start <= indices.len(),
        0 <= j < batches_from(indices, batch_size, start).len(),
    ensures
        start + j * batch_size < indices.len(),
        batches_from(indices, batch_size, start)[j] == indices.subrange(
            start + j * batch_size,
            batch_end(indices.len() as int, batch_size as int, start + j * batch_size),
        ),
    decreases j,
{
    let end = batch_end(indices.len() as int, batch_size as int, start);
    let b = batches_from(indices, batch_size, start);
    assert(start < indices.len());
    assert(b == seq![indices.subrange(start, end)] + batches_from(indices, batch_size, end));
    if j > 0 {
        if end >= indices.len() {
            assert(batches_from(indices, batch_size, end).len() == 0);
        }
        assert(end == start + batch_size);
        lemma_batch_positions(indices, batch_size, end, j - 1);
        assert(end + (j - 1) * batch_size == start + j * batch_size) by (nonlinear_arith)
            requires
                end == start + batch_size,
        ;
        assert(b[j] == batches_from(indices, batch_size, end)[j - 1]);
    } else {
        assert(j * batch_size == 0) by (nonlinear_arith)
            requires
                j == 0,
        ;
        assert(b[0] == indices.subrange(start, end));
    }
}

} // verus!
