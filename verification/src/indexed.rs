//! Indexed, splittable iteration over a bound fetch.
//!
//! The adapter knows its exact length, hands out rows by position, and can
//! be partitioned at any index into two independent halves over disjoint
//! row ranges — the primitive that lets independent workers consume one
//! fetch by recursive halving, with no shared mutable state and no locks.
//! Sequential consumption is the degenerate case: repeated positional
//! access over `0..len()`.

use vstd::prelude::*;

use crate::tracked_write::TrackedWriteFetch;

verus! {

/// A random-access, length-known cursor over one fetch's rows.
pub struct IndexedIter<T> {
    /// The fetch being consumed.
    pub fetch: TrackedWriteFetch<T>,
    /// The next row a sequential `next` call hands out.
    pub pos: usize,
}

impl<T> IndexedIter<T> {
    /// Starts iteration at row zero.
    pub fn new(fetch: TrackedWriteFetch<T>) -> (r: Self)
        ensures
            r.fetch == fetch,
            r.pos == 0,
    {
        IndexedIter { fetch, pos: 0 }
    }

    /// Exact number of rows; stable for the iterator's whole existence.
    pub fn len(&self) -> (r: usize)
        ensures
            r == self.fetch.0.data@.len(),
    {
        self.fetch.len()
    }

    /// Shared access to row `i`.
    pub fn get(&self, i: usize) -> (r: &T)
        requires
            i < self.fetch.0.data@.len(),
        ensures
            *r == self.fetch.0.data@[i as int],
    {
        &self.fetch.0.data[i]
    }

    /// Sequential consumption: exclusive access to the next row, or `None`
    /// once every row has been visited. Rows are visited in index order,
    /// exactly the order positional access over `0..len()` would use.
    pub fn next(&mut self) -> (r: Option<&mut T>)
        ensures
            match r {
                Some(m) => {
                    &&& old(self).pos < old(self).fetch.0.data@.len()
                    &&& final(self).pos == old(self).pos + 1
                    &&& *m == old(self).fetch.0.data@[old(self).pos as int]
                    &&& final(self).fetch.0.data@ == old(self).fetch.0.data@.update(
                        old(self).pos as int,
                        *final(m),
                    )
                    &&& final(self).fetch.0.tag == old(self).fetch.0.tag
                    &&& final(self).fetch.0.version == old(self).fetch.0.version
                },
                None => {
                    &&& old(self).pos >= old(self).fetch.0.data@.len()
                    &&& *final(self) == *old(self)
                },
            },
    {
        if self.pos < self.fetch.len() {
            let i = self.pos;
            self.pos = self.pos + 1;
            Some(self.fetch.get_unchecked(i))
        } else {
            None
        }
    }

    /// Partitions an unconsumed iterator at row `k` into two independent
    /// iterators over the disjoint ranges `[0, k)` and `[k, len)`, both
    /// starting at their own row zero. The split divides the index range,
    /// not the storage: together the halves cover exactly the original
    /// rows, in order.
    pub fn split_at(self, k: usize) -> (r: (Self, Self))
        requires
            self.pos == 0,
            k <= self.fetch.0.data@.len(),
        ensures
            r.0.pos == 0 && r.1.pos == 0,
            r.0.fetch.0.data@ == self.fetch.0.data@.subrange(0, k as int),
            r.1.fetch.0.data@ == self.fetch.0.data@.subrange(
                k as int,
                self.fetch.0.data@.len() as int,
            ),
            r.0.fetch.0.data@ + r.1.fetch.0.data@ == self.fetch.0.data@,
            r.0.fetch.0.tag == self.fetch.0.tag && r.1.fetch.0.tag == self.fetch.0.tag,
            r.0.fetch.0.version == self.fetch.0.version && r.1.fetch.0.version
                == self.fetch.0.version,
    {
        let (left, right) = self.fetch.split_at(k);
        (IndexedIter { fetch: left, pos: 0 }, IndexedIter { fetch: right, pos: 0 })
    }
}

/// Split correctness: partitioning a row sequence at `k` yields halves of
/// lengths `k` and `len - k` whose concatenation — left half first — is
/// element-for-element the original sequence; so recursive splitting down
/// to single rows and traversing the leaves left to right preserves order.
pub proof fn lemma_split_correct<T>(whole: Seq<T>, left: Seq<T>, right: Seq<T>, k: int)
    requires
        0 <= k <= whole.len(),
        left == whole.subrange(0, k),
        right == whole.subrange(k, whole.len() as int),
    ensures
        left.len() == k,
        right.len() == whole.len() - k,
        left + right == whole,
        forall|i: int| 0 <= i < k ==> left[i] == whole[i],
        forall|i: int| k <= i < whole.len() ==> right[i - k] == whole[i],
{
    assert(left + right =~= whole);
}

} // verus!
