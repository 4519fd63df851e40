//! The rolling window of two Bloom filters.
//!
//! Every insertion is written into both filters; membership is tested
//! against the older one only. On rotation the older filter is discarded,
//! the newer one is promoted to oldest, and a fresh empty filter takes
//! the newest slot. An inserted element is therefore visible at once and
//! stays visible for at least one full window and at most just under two.

use crate::base::bits_contain;
use crate::base::empty_bits;
use crate::base::filter_size;
use crate::base::fits;
use crate::base::indices_of;
use crate::base::set_bits;
use crate::base::supported_count;
use crate::base::BloomFilter;
use crate::base::BloomHash;
use crate::base::BloomHashCount;
use crate::base::BloomHashCounter;
use crate::base::lemma_added_is_contained;
use crate::base::lemma_contained_is_monotone;
use crate::base::lemma_empty_contains_nothing;
use crate::base::lemma_indices_in_range;
use crate::shift::ShiftByInsertions;
use crate::shift::ShiftCondition;
use vstd::prelude::*;

verus! {

/// A rolling window of two Bloom filters: slot `oldest` is always the
/// older filter and the only one queried, slot `newest` the younger one,
/// rotated under the guidance of a [`ShiftCondition`].
pub struct RollingBloomFilter<const N: usize, T, const S: u64> where
    BloomHashCounter<N>: BloomHashCount,
    T: ShiftCondition,
 {
    /// The older filter: the one `contains` reads.
    pub oldest: BloomFilter<N, S>,
    /// The younger filter, promoted to oldest at the next rotation.
    pub newest: BloomFilter<N, S>,
    /// The policy deciding when to rotate.
    pub shift_condition: T,
}

impl<const N: usize, T, const S: u64> RollingBloomFilter<N, T, S> where
    BloomHashCounter<N>: BloomHashCount,
    T: ShiftCondition,
 {
    /// Both filters are well-formed.
    pub open spec fn wf(&self) -> bool {
        &&& self.oldest.wf()
        &&& self.newest.wf()
    }

    /// How one insertion may change the window: the shift condition
    /// records the insertion; then either it did not ask for a rotation
    /// and both filters took the record, or it did, and the newer filter
    /// — which took the record too — was promoted to oldest while a
    /// fresh empty filter filled the newest slot.
    pub open spec fn add_step(self, post: Self, idxs: Seq<usize>) -> bool {
        exists|mid: T|
            #[trigger] self.shift_condition.incremented(mid) && {
                ||| (mid.decision(false) && post.shift_condition == mid && post.oldest@ == set_bits(
                    self.oldest@,
                    idxs,
                ) && post.newest@ == set_bits(self.newest@, idxs))
                ||| (mid.decision(true) && mid.reset(post.shift_condition) && post.oldest@
                    == set_bits(self.newest@, idxs) && post.newest@ == empty_bits(N))
            }
    }

    /// Create a rolling window of two empty filters with the provided
    /// shift condition.
    pub fn new(shift_condition: T) -> (r: Self)
        requires
            supported_count(N),
            N == 4 ==> fits(N),
        ensures
            r.wf(),
            r.oldest@ == empty_bits(N),
            r.newest@ == empty_bits(N),
            r.shift_condition == shift_condition,
    {
        RollingBloomFilter { oldest: BloomFilter::new(), newest: BloomFilter::new(), shift_condition }
    }

    /// Add an element: write its hash record into both filters, record
    /// the insertion with the shift condition, and rotate if it asks to.
    pub fn add(&mut self, value: &[u8])
        requires
            old(self).wf(),
            old(self).shift_condition.ready(),
        ensures
            final(self).wf(),
            old(self).add_step(*final(self), indices_of(value@, N, S)),
    {
        let hash: BloomHash<N, S> = BloomHash::from_bytes(value);
        self.oldest.add_hash(&hash);
        self.newest.add_hash(&hash);
        let rotate = self.shift_condition.should_shift_after_increment();
        let ghost mid = self.shift_condition;
        if rotate {
            self.shift();
        }
        proof {
            assert(old(self).shift_condition.incremented(mid));
        }
    }

    /// Rotate the window: reset the shift condition, discard the oldest
    /// filter, promote the newest to oldest, and put a fresh empty
    /// filter in the newest slot.
    pub fn shift(&mut self)
        requires
            old(self).wf(),
        ensures
            final(self).wf(),
            final(self).oldest@ == old(self).newest@,
            final(self).newest@ == empty_bits(N),
            old(self).shift_condition.reset(final(self).shift_condition),
    {
        self.shift_condition.do_shift();
        core::mem::swap(&mut self.oldest, &mut self.newest);
        self.newest = BloomFilter::new();
    }

    /// Test membership against the oldest filter only. An element added
    /// since the last rotation is nonetheless visible, since every
    /// insertion writes both filters.
    pub fn contains(&self, value: &[u8]) -> (r: bool)
        requires
            self.wf(),
        ensures
            r == bits_contain(self.oldest@, indices_of(value@, N, S)),
    {
        self.oldest.contains(value)
    }
}

impl<T, const S: u64> Default for RollingBloomFilter<8, T, S> where T: ShiftCondition {
    /// Create a rolling window of two empty filters with the strategy's
    /// default shift condition.
    ///
    /// Only the `2^16`-bit configuration has a `Default`: `Default` can
    /// carry no precondition, and a filter of `2^32` bits cannot be shown
    /// to fit every machine's address space. That configuration is built
    /// with `new`, whose contract assumes that it fits.
    fn default() -> (r: Self)
        ensures
            r.wf(),
            r.oldest@ == empty_bits(8),
            r.newest@ == empty_bits(8),
    {
        RollingBloomFilter::new(T::default())
    }
}

/// With the insertion-count strategy, the insertion that brings the count
/// up to the limit rotates the window on that very call: the newer filter
/// — holding that insertion — is promoted to oldest, a fresh filter
/// fills the newest slot, and the count starts over at zero.
pub proof fn lemma_insertion_limit_rotates<const N: usize, const S: u64>(
    pre: RollingBloomFilter<N, ShiftByInsertions, S>,
    post: RollingBloomFilter<N, ShiftByInsertions, S>,
    idxs: Seq<usize>,
) where BloomHashCounter<N>: BloomHashCount
    requires
        pre.add_step(post, idxs),
        pre.shift_condition.insertion_count + 1 >= pre.shift_condition.insertions,
    ensures
        post.oldest@ == set_bits(pre.newest@, idxs),
        post.newest@ == empty_bits(N),
        post.shift_condition.insertions == pre.shift_condition.insertions,
        post.shift_condition.insertion_count == 0,
{
    let mid = choose|mid: ShiftByInsertions|
        #[trigger] pre.shift_condition.incremented(mid) && {
            ||| (mid.decision(false) && post.shift_condition == mid && post.oldest@ == set_bits(
                pre.oldest@,
                idxs,
            ) && post.newest@ == set_bits(pre.newest@, idxs))
            ||| (mid.decision(true) && mid.reset(post.shift_condition) && post.oldest@ == set_bits(
                pre.newest@,
                idxs,
            ) && post.newest@ == empty_bits(N))
        };
    assert(mid.insertion_count >= mid.insertions);
}

/// With the insertion-count strategy, an insertion that leaves the count
/// below the limit does not rotate: both filters take the record and the
/// count only grows by one.
pub proof fn lemma_below_limit_keeps_window<const N: usize, const S: u64>(
    pre: RollingBloomFilter<N, ShiftByInsertions, S>,
    post: RollingBloomFilter<N, ShiftByInsertions, S>,
    idxs: Seq<usize>,
) where BloomHashCounter<N>: BloomHashCount
    requires
        pre.add_step(post, idxs),
        pre.shift_condition.insertion_count + 1 < pre.shift_condition.insertions,
    ensures
        post.oldest@ == set_bits(pre.oldest@, idxs),
        post.newest@ == set_bits(pre.newest@, idxs),
        post.shift_condition.insertions == pre.shift_condition.insertions,
        post.shift_condition.insertion_count == pre.shift_condition.insertion_count + 1,
{
    let mid = choose|mid: ShiftByInsertions|
        #[trigger] pre.shift_condition.incremented(mid) && {
            ||| (mid.decision(false) && post.shift_condition == mid && post.oldest@ == set_bits(
                pre.oldest@,
                idxs,
            ) && post.newest@ == set_bits(pre.newest@, idxs))
            ||| (mid.decision(true) && mid.reset(post.shift_condition) && post.oldest@ == set_bits(
                pre.newest@,
                idxs,
            ) && post.newest@ == empty_bits(N))
        };
    assert(mid.insertion_count < mid.insertions);
}

/// An element is visible immediately after its insertion, whether or not
/// that insertion rotated the window: the element's record was written
/// into both filters, so the slot that `contains` reads — the old oldest
/// if no rotation happened, the promoted newest if one did — holds it.
pub proof fn lemma_add_is_visible<const N: usize, T, const S: u64>(
    pre: RollingBloomFilter<N, T, S>,
    post: RollingBloomFilter<N, T, S>,
    input: Seq<u8>,
) where BloomHashCounter<N>: BloomHashCount, T: ShiftCondition
    requires
        pre.wf(),
        pre.add_step(post, indices_of(input, N, S)),
    ensures
        bits_contain(post.oldest@, indices_of(input, N, S)),
{
    let idxs = indices_of(input, N, S);
    lemma_indices_in_range(input, N, S);
    lemma_added_is_contained(pre.oldest@, idxs);
    lemma_added_is_contained(pre.newest@, idxs);
}

/// The retention bound of the rolling window. An element whose record the
/// newest filter holds right after its insertion stays queryable through
/// the next rotation, whatever else is inserted meanwhile: the rotation
/// promotes the newer filter, which still holds every bit of the record,
/// into the slot that `contains` reads. And after a second rotation with
/// nothing inserted in between, the read slot is the fresh filter of the
/// first rotation, which holds nothing: the element is gone.
pub proof fn lemma_rolling_retention(
    n: usize,
    newest_after_add: Seq<bool>,
    newest_at_rotation: Seq<bool>,
    idxs: Seq<usize>,
)
    requires
        idxs.len() > 0,
        forall|m: int| 0 <= m < idxs.len() ==> (idxs[m] as nat) < filter_size(n),
        newest_after_add.len() == filter_size(n),
        newest_at_rotation.len() == filter_size(n),
        bits_contain(newest_after_add, idxs),
        forall|j: int| 0 <= j < newest_after_add.len() && newest_after_add[j] ==> newest_at_rotation[j],
    ensures
        bits_contain(newest_at_rotation, idxs),
        !bits_contain(empty_bits(n), idxs),
{
    lemma_contained_is_monotone(newest_after_add, newest_at_rotation, idxs);
    lemma_empty_contains_nothing(n, idxs);
}

} // verus!
