//! The trailing average over the last ten rate samples.
//!
//! A fixed ring of ten per-tick rate samples is kept beside their running
//! sum.  Each tick pushes the newest sample, evicts the oldest, and adjusts
//! the sum by their difference — constant work per sample — so the trailing
//! average is always the sum divided by ten.

use vstd::prelude::*;

verus! {

/// Number of samples the ring holds.
pub const SAMPLE_SLOTS: usize = 10;

/// The sum of a sequence of samples.
pub open spec fn sum_of(s: Seq<u32>) -> int
    decreases s.len(),
{
    if s.len() == 0 {
        0
    } else {
        sum_of(s.drop_last()) + s.last()
    }
}

/// A sum of samples is bounded by the largest value a sample can take.
pub proof fn lemma_sum_of_bounds(s: Seq<u32>)
    ensures
        0 <= sum_of(s) <= s.len() * u32::MAX,
    decreases s.len(),
{
    if s.len() > 0 {
        lemma_sum_of_bounds(s.drop_last());
        let n = s.len() as int;
        assert(s.drop_last().len() == n - 1);
        assert((n - 1) * u32::MAX + u32::MAX == n * u32::MAX) by (nonlinear_arith);
    }
}

/// If every sample in a sequence equals `v`, the sum is `len * v`.
pub proof fn lemma_sum_of_uniform(s: Seq<u32>, v: u32)
    requires
        forall|i: int| 0 <= i < s.len() ==> s[i] == v,
    ensures
        sum_of(s) == s.len() * v,
    decreases s.len(),
{
    if s.len() == 0 {
    } else {
        lemma_sum_of_uniform(s.drop_last(), v);
        let n = s.len() as int;
        assert(s.drop_last().len() == n - 1);
        assert((n - 1) * v + v == n * v) by (nonlinear_arith);
    }
}

/// The ten-slot ring of rate samples with its running sum.
pub struct TrailingAverage {
    samples: std::collections::VecDeque<u32>,
    sum: u64,
}

impl View for TrailingAverage {
    type V = Seq<u32>;

    /// The buffered samples, oldest first.
    closed spec fn view(&self) -> Seq<u32> {
        self.samples@
    }
}

impl TrailingAverage {
    /// The running sum.
    pub closed spec fn spec_sum(&self) -> int {
        self.sum as int
    }

    /// The ring invariant: always exactly ten samples, and the running sum
    /// really is their sum.
    pub open spec fn wf(&self) -> bool {
        &&& self@.len() == SAMPLE_SLOTS
        &&& self.spec_sum() == sum_of(self@)
    }

    /// Creates the ring, filled with zero samples.
    pub fn new() -> (r: Self)
        ensures
            r.wf(),
            forall|i: int| 0 <= i < r@.len() ==> r@[i] == 0,
            r.spec_sum() == 0,
    {
        let mut samples: std::collections::VecDeque<u32> = std::collections::VecDeque::new();
        let mut i: usize = 0;
        while i < SAMPLE_SLOTS
            invariant
                i <= SAMPLE_SLOTS,
                samples@.len() == i,
                forall|j: int| 0 <= j < i ==> samples@[j] == 0,
                sum_of(samples@) == 0,
            decreases SAMPLE_SLOTS - i,
        {
            let ghost prev = samples@;
            samples.push_back(0);
            proof {
                assert(samples@.drop_last() =~= prev);
            }
            i = i + 1;
        }
        TrailingAverage { samples, sum: 0 }
    }

    /// Pushes the newest sample and evicts the oldest, adjusting the running
    /// sum by their difference in constant time.
    pub fn push(&mut self, sample: u32) -> (evicted: u32)
        requires
            old(self).wf(),
        ensures
            final(self).wf(),
            evicted == old(self)@[0],
            final(self)@ == old(self)@.skip(1) + seq![sample],
            final(self).spec_sum() == old(self).spec_sum() - evicted + sample,
    {
        proof {
            lemma_sum_of_skip_one(self@);
            lemma_sum_of_bounds(self@.skip(1));
            lemma_sum_of_bounds(self@);
        }
        let evicted = self.samples.pop_front().unwrap();
        self.samples.push_back(sample);
        self.sum = self.sum - evicted as u64 + sample as u64;
        proof {
            assert(self@ =~= old(self)@.skip(1) + seq![sample]);
            assert(self@.drop_last() =~= old(self)@.skip(1));
            lemma_sum_of_skip_one(old(self)@);
        }
        evicted
    }

    /// The trailing average: the running sum divided by the slot count.
    pub fn average(&self) -> (r: u64)
        requires
            self.wf(),
        ensures
            r == self.spec_sum() / (SAMPLE_SLOTS as int),
    {
        self.sum / (SAMPLE_SLOTS as u64)
    }
}

/// Law of the ring: when every buffered sample equals `v`, the trailing
/// average is exactly `v`.
pub proof fn lemma_uniform_trailing_average(avg: &TrailingAverage, v: u32)
    requires
        avg.wf(),
        forall|i: int| 0 <= i < avg@.len() ==> avg@[i] == v,
    ensures
        avg.spec_sum() / (SAMPLE_SLOTS as int) == v,
{
    lemma_sum_of_uniform(avg@, v);
    assert((SAMPLE_SLOTS as int) * v / (SAMPLE_SLOTS as int) == v) by (nonlinear_arith);
}

/// Dropping the oldest entry lowers the sum by exactly that entry.
proof fn lemma_sum_of_skip_one(s: Seq<u32>)
    requires
        s.len() > 0,
    ensures
        sum_of(s.skip(1)) == sum_of(s) - s[0],
    decreases s.len(),
{
    if s.len() == 1 {
        assert(s.skip(1) =~= Seq::<u32>::empty());
        assert(s.drop_last() =~= Seq::<u32>::empty());
        assert(sum_of(s.skip(1)) == sum_of(s) - s[0]);
    } else {
        lemma_sum_of_skip_one(s.drop_last());
        assert(s.skip(1).drop_last() =~= s.drop_last().skip(1));
        assert(s.skip(1).last() == s.last());
        assert(s.drop_last()[0] == s[0]);
        assert(sum_of(s.skip(1)) == sum_of(s) - s[0]);
    }
}

} // verus!
