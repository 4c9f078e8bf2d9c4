//! The per-tick rate aggregator.
//!
//! Once per consumer tick, everything newly buffered at the bridge is drained
//! and handed here: the events are appended to the sliding window in arrival
//! order, the window is trimmed against the tick time, and its length becomes
//! the tick's rate sample.  When the owning view is engaged the sample also
//! enters the ten-slot trailing-average ring and, if the display is on, the
//! append-only historical log.

use vstd::prelude::*;

use crate::event::InstantWrap;
use crate::trailing::{sum_of, TrailingAverage, SAMPLE_SLOTS};
use crate::window::{spec_deadline, time_sorted, trimmed, SlidingWindow};

verus! {

/// The rate sample a window of `len` events yields: the length, saturated at
/// the widest value a sample slot holds.
pub open spec fn sample_of(len: int) -> u32 {
    if len > u32::MAX {
        u32::MAX
    } else if len < 0 {
        0
    } else {
        len as u32
    }
}

/// A batch drained from the bridge may follow a window: the window's newest
/// entry is no younger than the batch's oldest.
pub open spec fn follows(w: Seq<InstantWrap>, d: Seq<InstantWrap>) -> bool {
    w.len() > 0 && d.len() > 0 ==> w[w.len() - 1].0 <= d[0].0
}

/// Room reserved for the historical log up front.  The log is append-only
/// and a long engaged session can outgrow any reservation; growth beyond
/// this one is left to the allocator.
pub const HISTORY_RESERVE: usize = 1024 * 1024;

/// Sliding window, trailing-average ring and historical log, advanced once
/// per consumer tick.
pub struct RateAggregator {
    window: SlidingWindow,
    avg: TrailingAverage,
    history: Vec<u32>,
}

impl RateAggregator {
    /// The events currently inside the sliding window, oldest first.
    pub closed spec fn window_view(&self) -> Seq<InstantWrap> {
        self.window@
    }

    /// The ten buffered rate samples, oldest first.
    pub closed spec fn samples(&self) -> Seq<u32> {
        self.avg@
    }

    /// The running sum of the buffered samples.
    pub closed spec fn sum(&self) -> int {
        self.avg.spec_sum()
    }

    /// The historical log of displayed samples, oldest first.
    pub closed spec fn history_view(&self) -> Seq<u32> {
        self.history@
    }

    /// The aggregator invariant: the window is time-ordered and the ring is
    /// full with a faithful running sum.
    pub open spec fn wf(&self) -> bool {
        &&& time_sorted(self.window_view())
        &&& self.samples().len() == SAMPLE_SLOTS
        &&& self.sum() == sum_of(self.samples())
    }

    /// Creates an aggregator with an empty window, a zeroed ring and an
    /// empty log.
    pub fn new() -> (r: Self)
        ensures
            r.wf(),
            r.window_view() == Seq::<InstantWrap>::empty(),
            forall|i: int| 0 <= i < r.samples().len() ==> r.samples()[i] == 0,
            r.sum() == 0,
            r.history_view() == Seq::<u32>::empty(),
    {
        RateAggregator {
            window: SlidingWindow::new(),
            avg: TrailingAverage::new(),
            history: Vec::with_capacity(HISTORY_RESERVE),
        }
    }

    /// One consumer tick.  `drained` is everything the bridge buffered since
    /// the last tick, in arrival order; `now` is the tick time; `engaged`
    /// says whether the owning view is engaged this tick, and `show` whether
    /// the log is being displayed.  Appends, trims, samples, and returns the
    /// current rate: the number of events observed in the trailing window.
    pub fn tick(
        &mut self,
        drained: &Vec<InstantWrap>,
        now: InstantWrap,
        engaged: bool,
        show: bool,
    ) -> (rate: usize)
        requires
            old(self).wf(),
            time_sorted(drained@),
            follows(old(self).window_view(), drained@),
        ensures
            final(self).wf(),
            final(self).window_view() == trimmed(
                old(self).window_view() + drained@,
                spec_deadline(now.0),
            ),
            rate == final(self).window_view().len(),
            engaged ==> final(self).samples() == old(self).samples().skip(1) + seq![
                sample_of(rate as int),
            ],
            engaged ==> final(self).sum() == old(self).sum() - old(self).samples()[0] + sample_of(
                rate as int,
            ),
            !engaged ==> final(self).samples() == old(self).samples() && final(self).sum() == old(
                self,
            ).sum(),
            engaged && show ==> final(self).history_view() == old(self).history_view() + seq![
                sample_of(rate as int),
            ],
            !(engaged && show) ==> final(self).history_view() == old(self).history_view(),
    {
        let mut i: usize = 0;
        while i < drained.len()
            invariant
                self.window.wf(),
                i <= drained@.len(),
                time_sorted(drained@),
                follows(old(self).window_view(), drained@),
                self.window@ == old(self).window_view() + drained@.take(i as int),
                self.avg == old(self).avg,
                self.history == old(self).history,
            decreases drained@.len() - i,
        {
            proof {
                if i > 0 {
                    assert(self.window@[self.window@.len() - 1] == drained@[i as int - 1]);
                }
            }
            self.window.append(drained[i]);
            proof {
                assert(self.window@ =~= old(self).window_view() + drained@.take(i as int + 1));
            }
            i = i + 1;
        }
        proof {
            assert(old(self).window_view() + drained@.take(drained@.len() as int)
                =~= old(self).window_view() + drained@);
        }
        self.window.trim(now);
        let rate = self.window.rate();
        let sample: u32 = if rate as u64 > u32::MAX as u64 {
            u32::MAX
        } else {
            rate as u32
        };
        if engaged {
            self.avg.push(sample);
            if show {
                self.history.push(sample);
            }
        }
        rate
    }

    /// The current rate: how many events the trailing window holds.
    pub fn current_rate(&self) -> (n: usize)
        ensures
            n == self.window_view().len(),
    {
        self.window.rate()
    }

    /// The trailing average: the running sum of the ring divided by its slot
    /// count.
    pub fn trailing_average(&self) -> (r: u64)
        requires
            self.wf(),
        ensures
            r == self.sum() / (SAMPLE_SLOTS as int),
    {
        self.avg.average()
    }

    /// The historical log, for display.
    pub fn history(&self) -> (r: &Vec<u32>)
        ensures
            r@ == self.history_view(),
    {
        &self.history
    }
}

} // verus!
