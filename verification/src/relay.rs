//! Decisions of the relay and bridge threads, and the order law of the whole
//! pipeline.
//!
//! A relay thread sits between a bounded queue and a blocking transport: it
//! waits on the queue, forwards each event in arrival order, and exits when
//! told to stop, when the queue closes, or when the transport fails — no
//! retry, no reconnection.  The bridge's receiving thread is the mirror
//! image.  The threads themselves block on outside calls and run outside the
//! library; the step they take each turn is decided here, and the law that
//! the stages compose into an order-preserving, loss-free pipeline is proved
//! at the bottom.

use vstd::prelude::*;

use crate::event::{
    encode_stream, lemma_stream_round_trip, stream_bytes, stream_values, InstantWrap,
};
use crate::queue::{lemma_queue_conservation, BoundedQueue};

verus! {

/// What a relay or bridge thread does next.
#[derive(Debug, Clone, Copy, PartialEq, Eq, Structural)]
pub enum RelayStep {
    /// Forward this event to the downstream side, in arrival order.
    Forward(InstantWrap),
    /// Leave the loop: the thread drains nothing further and terminates, so
    /// the owner's join completes.
    Exit,
}

/// The decision a relay or bridge thread takes each turn, given whether its
/// owner still wants it running and what its blocking wait produced.  A
/// fetched event is forwarded; a stop signal, a closed queue or a failed
/// transport (`None`) ends the thread.
pub fn relay_next(running: bool, fetched: Option<InstantWrap>) -> (step: RelayStep)
    ensures
        running && fetched is Some ==> step == RelayStep::Forward(fetched->0),
        !running || fetched is None ==> step == RelayStep::Exit,
{
    if !running {
        return RelayStep::Exit;
    }
    match fetched {
        Some(e) => RelayStep::Forward(e),
        None => RelayStep::Exit,
    }
}

/// One forwarding turn of the relay thread: everything buffered in the
/// queue leaves it, in arrival order, as the exact run of records to write
/// to the wire in one go.
pub fn relay_flush(q: &mut BoundedQueue) -> (bytes: Vec<u8>)
    requires
        old(q).wf(),
    ensures
        final(q).wf(),
        final(q)@ == Seq::<InstantWrap>::empty(),
        final(q).cap() == old(q).cap(),
        final(q).accepted() == old(q).accepted(),
        final(q).removed() == old(q).removed() + old(q)@,
        bytes@ == stream_bytes(old(q)@),
{
    let drained = q.drain();
    encode_stream(&drained)
}

/// Order preservation, end to end.  `relay` is the bounded queue the capture
/// side fills; everything the relay thread took out of it was encoded and
/// written to the wire, and everything read off the wire was accepted by the
/// bridge's queue `bridge`.  Then whatever the consumer has drained from the
/// bridge is an exact prefix of what the capture side sent, in the identical
/// order; and once both queues are empty, the two sides have seen exactly
/// the same events.
pub proof fn lemma_pipeline_preserves_order(relay: &BoundedQueue, bridge: &BoundedQueue)
    requires
        relay.wf(),
        bridge.wf(),
        bridge.accepted() == stream_values(stream_bytes(relay.removed())),
    ensures
        bridge.removed().is_prefix_of(relay.accepted()),
        relay@.len() == 0 && bridge@.len() == 0 ==> bridge.removed() == relay.accepted(),
{
    lemma_stream_round_trip(relay.removed());
    lemma_queue_conservation(relay);
    lemma_queue_conservation(bridge);
    assert(relay.accepted() == bridge.removed() + bridge@ + relay@);
    assert(bridge.removed() =~= relay.accepted().take(bridge.removed().len() as int));
    if relay@.len() == 0 && bridge@.len() == 0 {
        assert(bridge.removed() =~= relay.accepted());
    }
}

} // verus!
