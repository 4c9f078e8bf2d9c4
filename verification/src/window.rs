//! The one-second sliding window over the arrival stream.
//!
//! Events are appended at the tail in arrival order, which keeps the window
//! sorted by time; whenever the clock is read, every entry at the head whose
//! age exceeds one second is evicted.  The window's length is then the number
//! of events observed in the trailing second — the instantaneous rate in
//! hertz.

use vstd::prelude::*;

use crate::event::InstantWrap;

verus! {

/// Width of the sliding window, in nanoseconds.
pub const WINDOW_NANOS: u64 = 1_000_000_000;

/// Room reserved for window entries up front: one second of events at a
/// generous report rate.
pub const WINDOW_RESERVE: usize = 1024 * 64;

/// Timestamps in nondecreasing order: the shape of any arrival stream.
pub open spec fn time_sorted(s: Seq<InstantWrap>) -> bool {
    forall|i: int, j: int| 0 <= i <= j < s.len() ==> s[i].0 <= s[j].0
}

/// The eviction deadline for a clock reading `now`: entries strictly older
/// than this leave the window.  The clock starts within the first second, so
/// the deadline saturates at zero there.
pub open spec fn spec_deadline(now: u64) -> u64 {
    if now >= WINDOW_NANOS {
        (now - WINDOW_NANOS) as u64
    } else {
        0
    }
}

/// What is left of a time-sorted sequence once every leading entry strictly
/// older than `ddl` is removed.
pub open spec fn trimmed(s: Seq<InstantWrap>, ddl: u64) -> Seq<InstantWrap>
    decreases s.len(),
{
    if s.len() > 0 && s[0].0 < ddl {
        trimmed(s.skip(1), ddl)
    } else {
        s
    }
}

/// Trimming a sorted sequence keeps exactly the entries at or after the
/// deadline: what remains is a suffix, nothing younger was evicted, and
/// nothing older survived.
pub proof fn lemma_trimmed_keeps_recent(s: Seq<InstantWrap>, ddl: u64)
    requires
        time_sorted(s),
    ensures
        trimmed(s, ddl).len() <= s.len(),
        trimmed(s, ddl) == s.skip(s.len() - trimmed(s, ddl).len()),
        forall|i: int| 0 <= i < trimmed(s, ddl).len() ==> (#[trigger] trimmed(s, ddl)[i].0) >= ddl,
        forall|i: int| 0 <= i < s.len() - trimmed(s, ddl).len() ==> (#[trigger] s[i].0) < ddl,
    decreases s.len(),
{
    if s.len() > 0 && s[0].0 < ddl {
        assert(time_sorted(s.skip(1)));
        lemma_trimmed_keeps_recent(s.skip(1), ddl);
        let t = trimmed(s, ddl);
        assert(s.skip(1).skip(s.skip(1).len() - t.len()) =~= s.skip(s.len() - t.len()));
        assert forall|i: int| 0 <= i < s.len() - t.len() implies (#[trigger] s[i].0) < ddl by {
            if i > 0 {
                assert(s[i] == s.skip(1)[i - 1]);
            }
        }
    } else {
        assert(trimmed(s, ddl) =~= s.skip(0));
        if s.len() > 0 {
            assert(forall|i: int| 0 <= i < s.len() ==> (#[trigger] s[i].0) >= s[0].0);
        }
    }
}

/// The time-ordered window of recently observed events.
pub struct SlidingWindow {
    times: std::collections::VecDeque<InstantWrap>,
}

impl View for SlidingWindow {
    type V = Seq<InstantWrap>;

    /// The buffered events, oldest first.
    closed spec fn view(&self) -> Seq<InstantWrap> {
        self.times@
    }
}

impl SlidingWindow {
    /// The window invariant: entries are in arrival order, so eviction is a
    /// prefix trim.
    pub open spec fn wf(&self) -> bool {
        time_sorted(self@)
    }

    /// Creates an empty window.
    pub fn new() -> (w: Self)
        ensures
            w.wf(),
            w@ == Seq::<InstantWrap>::empty(),
    {
        SlidingWindow { times: std::collections::VecDeque::with_capacity(WINDOW_RESERVE) }
    }

    /// How many events the window currently holds: the rate sample, in
    /// events per window width.
    pub fn rate(&self) -> (n: usize)
        ensures
            n == self@.len(),
    {
        self.times.len()
    }

    /// A snapshot of the window's contents, oldest first.
    pub fn events(&self) -> (r: Vec<InstantWrap>)
        ensures
            r@ == self@,
    {
        let mut r: Vec<InstantWrap> = Vec::new();
        let mut i: usize = 0;
        proof {
            assert(r@ =~= self@.take(0));
        }
        while i < self.times.len()
            invariant
                i <= self@.len(),
                r@ == self@.take(i as int),
            decreases self@.len() - i,
        {
            r.push(self.times[i]);
            proof {
                assert(r@ =~= self@.take(i as int + 1));
            }
            i = i + 1;
        }
        proof {
            assert(r@ =~= self@);
        }
        r
    }

    /// The most recent entry, if any.
    pub fn newest(&self) -> (r: Option<InstantWrap>)
        ensures
            self@.len() == 0 ==> r is None,
            self@.len() > 0 ==> r == Some(self@[self@.len() - 1]),
    {
        if self.times.len() == 0 {
            None
        } else {
            Some(self.times[self.times.len() - 1])
        }
    }

    /// Appends one event at the tail.  Arrival order is the only order the
    /// pipeline delivers, so the new event is no older than the tail.
    pub fn append(&mut self, e: InstantWrap)
        requires
            old(self).wf(),
            old(self)@.len() > 0 ==> old(self)@[old(self)@.len() - 1].0 <= e.0,
        ensures
            final(self).wf(),
            final(self)@ == old(self)@ + seq![e],
    {
        self.times.push_back(e);
        proof {
            assert(self@ =~= old(self)@ + seq![e]);
        }
    }

    /// Evicts every entry strictly older than the deadline for `now`,
    /// stopping at the first that is not: the prefix trim of the sliding
    /// window.  A tick with no new arrivals still shrinks the window here.
    pub fn trim(&mut self, now: InstantWrap)
        requires
            old(self).wf(),
        ensures
            final(self).wf(),
            final(self)@ == trimmed(old(self)@, spec_deadline(now.0)),
    {
        let ddl: u64 = if now.0 >= WINDOW_NANOS {
            now.0 - WINDOW_NANOS
        } else {
            0
        };
        loop
            invariant
                self.wf(),
                trimmed(self@, ddl) == trimmed(old(self)@, ddl),
            ensures
                self.wf(),
                self@ == trimmed(old(self)@, ddl),
            decreases self@.len(),
        {
            if self.times.len() == 0 {
                break;
            }
            let head = self.times[0];
            if head.0 >= ddl {
                break;
            }
            let _ = self.times.pop_front();
            proof {
                assert(time_sorted(self@));
            }
        }
    }
}

} // verus!
