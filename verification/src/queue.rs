//! Bounded FIFO queues with backpressure.
//!
//! Every hand-off inside the pipeline goes through a fixed-capacity queue:
//! the capture callback feeds the local relay through one, and the bridge
//! republishes received events through another.  The policy on a full queue
//! is backpressure, never loss: an offered event that does not fit is handed
//! back to the caller intact, who blocks and offers it again.  Each queue
//! carries the ghost history of everything ever accepted and everything ever
//! removed, so that order preservation and conservation are stated over whole
//! histories, not just the current contents.

use vstd::prelude::*;

use crate::event::InstantWrap;

verus! {

/// A fixed-capacity FIFO queue of timestamped events.
pub struct BoundedQueue {
    items: std::collections::VecDeque<InstantWrap>,
    capacity: usize,
    accepted: Ghost<Seq<InstantWrap>>,
    removed: Ghost<Seq<InstantWrap>>,
}

impl View for BoundedQueue {
    type V = Seq<InstantWrap>;

    /// The events currently buffered, oldest first.
    closed spec fn view(&self) -> Seq<InstantWrap> {
        self.items@
    }
}

impl BoundedQueue {
    /// The fixed capacity the queue was created with.
    pub closed spec fn cap(&self) -> usize {
        self.capacity
    }

    /// Every event the queue ever accepted, in acceptance order.
    pub closed spec fn accepted(&self) -> Seq<InstantWrap> {
        self.accepted@
    }

    /// Every event ever removed from the queue, in removal order.
    pub closed spec fn removed(&self) -> Seq<InstantWrap> {
        self.removed@
    }

    /// The queue invariant: contents fit the capacity, and whatever was
    /// accepted is exactly what was removed followed by what is buffered.
    pub open spec fn wf(&self) -> bool {
        &&& self.cap() >= 1
        &&& self@.len() <= self.cap()
        &&& self.accepted() == self.removed() + self@
    }

    /// Creates an empty queue of the given capacity.
    pub fn new(capacity: usize) -> (q: Self)
        requires
            capacity >= 1,
        ensures
            q.wf(),
            q.cap() == capacity,
            q@ == Seq::<InstantWrap>::empty(),
            q.accepted() == Seq::<InstantWrap>::empty(),
            q.removed() == Seq::<InstantWrap>::empty(),
    {
        let q = BoundedQueue {
            items: std::collections::VecDeque::new(),
            capacity,
            accepted: Ghost(Seq::empty()),
            removed: Ghost(Seq::empty()),
        };
        assert(q.accepted() =~= q.removed() + q@);
        q
    }

    /// How many events are currently buffered.
    pub fn len(&self) -> (n: usize)
        ensures
            n == self@.len(),
    {
        self.items.len()
    }

    /// Offers one event.  If there is room it is appended after everything
    /// already buffered; if the queue is full the event comes back unchanged
    /// and nothing is lost — the caller blocks and offers it again.
    pub fn try_push(&mut self, e: InstantWrap) -> (r: Result<(), InstantWrap>)
        requires
            old(self).wf(),
        ensures
            final(self).wf(),
            final(self).cap() == old(self).cap(),
            final(self).removed() == old(self).removed(),
            old(self)@.len() < old(self).cap() ==> {
                &&& r == Ok::<(), InstantWrap>(())
                &&& final(self)@ == old(self)@ + seq![e]
                &&& final(self).accepted() == old(self).accepted() + seq![e]
            },
            old(self)@.len() == old(self).cap() ==> {
                &&& r == Err::<(), InstantWrap>(e)
                &&& final(self)@ == old(self)@
                &&& final(self).accepted() == old(self).accepted()
            },
    {
        if self.items.len() == self.capacity {
            return Err(e);
        }
        self.items.push_back(e);
        proof {
            self.accepted@ = self.accepted@ + seq![e];
            assert(self@ =~= old(self)@ + seq![e]);
            assert(self.accepted() =~= self.removed() + self@);
        }
        Ok(())
    }

    /// Removes and returns the oldest buffered event, if any.
    pub fn pop_front(&mut self) -> (r: Option<InstantWrap>)
        requires
            old(self).wf(),
        ensures
            final(self).wf(),
            final(self).cap() == old(self).cap(),
            final(self).accepted() == old(self).accepted(),
            old(self)@.len() == 0 ==> {
                &&& r is None
                &&& final(self)@ == old(self)@
                &&& final(self).removed() == old(self).removed()
            },
            old(self)@.len() > 0 ==> {
                &&& r == Some(old(self)@[0])
                &&& final(self)@ == old(self)@.skip(1)
                &&& final(self).removed() == old(self).removed() + seq![old(self)@[0]]
            },
    {
        match self.items.pop_front() {
            None => None,
            Some(e) => {
                proof {
                    self.removed@ = self.removed@ + seq![e];
                    assert(self.accepted() =~= self.removed() + self@);
                }
                Some(e)
            },
        }
    }

    /// Removes everything currently buffered and returns it, oldest first:
    /// the non-blocking per-tick drain the consumer calls.
    pub fn drain(&mut self) -> (r: Vec<InstantWrap>)
        requires
            old(self).wf(),
        ensures
            final(self).wf(),
            final(self).cap() == old(self).cap(),
            final(self).accepted() == old(self).accepted(),
            r@ == old(self)@,
            final(self)@ == Seq::<InstantWrap>::empty(),
            final(self).removed() == old(self).removed() + old(self)@,
    {
        let mut out: Vec<InstantWrap> = Vec::new();
        proof {
            assert(out@ + self@ =~= old(self)@);
            assert(self.removed() =~= old(self).removed() + out@);
        }
        loop
            invariant
                self.wf(),
                self.cap() == old(self).cap(),
                self.accepted() == old(self).accepted(),
                out@ + self@ == old(self)@,
                self.removed() == old(self).removed() + out@,
            ensures
                self@.len() == 0,
                self.wf(),
                self.cap() == old(self).cap(),
                self.accepted() == old(self).accepted(),
                out@ + self@ == old(self)@,
                self.removed() == old(self).removed() + out@,
            decreases self@.len(),
        {
            match self.pop_front() {
                None => {
                    break;
                },
                Some(e) => {
                    out.push(e);
                    proof {
                        assert(out@ + self@ =~= old(self)@);
                        assert(self.removed() =~= old(self).removed() + out@);
                    }
                },
            }
        }
        proof {
            assert(self@ =~= Seq::<InstantWrap>::empty());
            assert(out@ =~= old(self)@);
            assert(self.removed() =~= old(self).removed() + old(self)@);
        }
        out
    }
}

/// Law of the queue: nothing is reordered and nothing is lost.  What was
/// removed is an exact prefix of what was accepted, the buffered remainder
/// accounts for the difference, and a drained queue has handed out precisely
/// what it took in.
pub proof fn lemma_queue_conservation(q: &BoundedQueue)
    requires
        q.wf(),
    ensures
        q.accepted() == q.removed() + q@,
        q.removed().is_prefix_of(q.accepted()),
        q@.len() == 0 ==> q.removed() == q.accepted(),
{
    assert(q.removed() =~= q.accepted().take(q.removed().len() as int));
    if q@.len() == 0 {
        assert(q.removed() =~= q.accepted());
    }
}

} // verus!
