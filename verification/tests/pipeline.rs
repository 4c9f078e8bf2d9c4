use std::io::{Read, Write};

use mouse_rate_checker::aggregator::RateAggregator;
use mouse_rate_checker::event::{
    decode_record, decode_stream, encode_record, InstantWrap, RECORD_SIZE,
};
use mouse_rate_checker::listener::{
    loop_should_exit, should_capture, suppress_dispatch, RIM_TYPEMOUSE, WM_CLOSE, WM_INPUT,
};
use mouse_rate_checker::main_app::MainApp;
use mouse_rate_checker::queue::BoundedQueue;
use mouse_rate_checker::relay::{relay_flush, relay_next, RelayStep};

#[test]
fn events_cross_every_stage_in_order() {
    let t1 = InstantWrap(11);
    let t2 = InstantWrap(22);
    let t3 = InstantWrap(33);

    // Capture side: the callback enqueues into the local relay queue.
    let mut relay = BoundedQueue::new(4);
    for e in [t1, t2, t3] {
        relay.try_push(e).unwrap();
    }

    // Relay thread: drains in arrival order and writes records to the wire.
    let wire = relay_flush(&mut relay);
    assert_eq!(relay.len(), 0);

    // Bridge thread on the far side: reads records off the wire and
    // republishes them into its bounded queue.
    let mut bridge = BoundedQueue::new(4);
    for e in decode_stream(&wire).unwrap() {
        bridge.try_push(e).unwrap();
    }

    // Consumer tick: the non-blocking drain sees the identical order.
    let drained = bridge.drain();
    assert_eq!(drained, vec![t1, t2, t3]);

    // And the aggregator receives them as one tick's batch.
    let mut agg = RateAggregator::new();
    let rate = agg.tick(&drained, InstantWrap(40), true, false);
    assert_eq!(rate, 3);
}

#[test]
fn records_cross_a_real_pipe() {
    // The cross-process transport: a unidirectional byte pipe whose two ends
    // are separately owned, exchanging fixed-size records with no framing.
    let (mut tx, mut rx) = interprocess::unnamed_pipe::pipe().unwrap();
    let sent = [InstantWrap(123_456_789), InstantWrap(987_654_321)];
    for e in sent {
        let record = encode_record(e);
        // One write-all per record; the pipe is unbuffered, so there is
        // nothing to flush.
        tx.write_all(&record).unwrap();
    }
    drop(tx);
    let mut received = Vec::new();
    let mut buf = [0u8; RECORD_SIZE];
    while rx.read_exact(&mut buf).is_ok() {
        received.push(decode_record(&buf));
    }
    assert_eq!(received, vec![sent[0], sent[1]]);
}

#[test]
fn bounded_channel_of_the_relay_is_fifo() {
    // The in-process bounded channel the relay and bridge threads block on.
    let (tx, rx) = crossbeam::channel::bounded(4);
    for n in [1u64, 2, 3] {
        tx.send(InstantWrap(n)).unwrap();
    }
    let drained: Vec<InstantWrap> = rx.try_iter().collect();
    assert_eq!(
        drained,
        vec![InstantWrap(1), InstantWrap(2), InstantWrap(3)]
    );
    // A full bounded channel refuses without losing the value.
    let (tx, _rx) = crossbeam::channel::bounded(1);
    tx.send(InstantWrap(7)).unwrap();
    match tx.try_send(InstantWrap(8)) {
        Err(crossbeam::channel::TrySendError::Full(e)) => assert_eq!(e, InstantWrap(8)),
        other => panic!("expected a full channel, got {:?}", other),
    }
}

#[test]
fn relay_thread_decisions() {
    let e = InstantWrap(5);
    assert_eq!(relay_next(true, Some(e)), RelayStep::Forward(e));
    // A stop signal ends the thread, whatever the queue held.
    assert_eq!(relay_next(false, Some(e)), RelayStep::Exit);
    assert_eq!(relay_next(false, None), RelayStep::Exit);
    // A closed queue or failed transport ends the thread.
    assert_eq!(relay_next(true, None), RelayStep::Exit);
}

#[test]
fn capture_loop_decisions() {
    // Only the raw-input notification with the mouse device class is
    // captured.
    assert!(should_capture(WM_INPUT, RIM_TYPEMOUSE));
    assert!(!should_capture(WM_INPUT, RIM_TYPEMOUSE + 1));
    assert!(!should_capture(WM_CLOSE, RIM_TYPEMOUSE));
    // Raw-input messages are telemetry only and never dispatched onward.
    assert!(suppress_dispatch(WM_INPUT));
    assert!(!suppress_dispatch(WM_CLOSE));
    // A zero or failed wait ends the capture loop.
    assert!(loop_should_exit(0));
    assert!(loop_should_exit(-1));
    assert!(!loop_should_exit(1));
}

#[test]
fn main_app_constructs() {
    let app = MainApp::new();
    assert_eq!(app, MainApp {});
    assert_eq!(MainApp::CHANNEL_CAP, 65536);
}
