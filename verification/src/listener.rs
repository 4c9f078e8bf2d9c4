//! Decisions of the capture loop.
//!
//! The capture thread blocks on the message queue of a hidden surface; every
//! dequeued message is timestamped first and inspected second.  The loop
//! itself blocks on operating-system calls and runs outside the library;
//! what it decides about each dequeued message — leave the loop, capture the
//! event, suppress default dispatch — is decided here.

use vstd::prelude::*;

verus! {

/// The message number of a raw-input notification.
pub const WM_INPUT: u32 = 0x00FF;

/// The message number of a close notification, the only supported way to end
/// the capture loop from outside.
pub const WM_CLOSE: u32 = 0x0010;

/// The device-class tag of relative mouse movement, the one class the
/// capture surface registers for.
pub const RIM_TYPEMOUSE: u32 = 0;

/// Whether the wait on the message queue ended the loop: a result of zero is
/// the close notification, minus one a dead queue.  Anything else is a
/// message to process.
pub fn loop_should_exit(wait_result: i32) -> (exit: bool)
    ensures
        exit == (wait_result == 0 || wait_result == -1),
{
    wait_result == 0 || wait_result == -1
}

/// Whether a dequeued message is an event to capture: it must be the
/// raw-input notification, and its payload's device-class tag must be the
/// registered mouse class.  Every other message is discarded without a
/// timestamp and without forwarding.
pub fn should_capture(message: u32, device_type: u32) -> (capture: bool)
    ensures
        capture == (message == WM_INPUT && device_type == RIM_TYPEMOUSE),
{
    message == WM_INPUT && device_type == RIM_TYPEMOUSE
}

/// Whether a dequeued message is suppressed from default dispatch: the
/// raw-input notification is telemetry only and never reaches ordinary
/// window processing; everything else passes through.
pub fn suppress_dispatch(message: u32) -> (suppress: bool)
    ensures
        suppress == (message == WM_INPUT),
{
    message == WM_INPUT
}

} // verus!
