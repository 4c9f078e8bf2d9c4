//! The application front.
//!
//! Both executables of the meter — the capture side and the consumer side —
//! construct a `MainApp` and run it; running it wires the operating-system
//! surfaces, threads and window chrome around this library, and is no part
//! of it.  What the two sides must agree on at build time lives here: the
//! capacity of every bounded queue in the pipeline.

use vstd::prelude::*;

verus! {

/// The application front both executables construct at startup.
#[derive(Debug, Clone, Copy, PartialEq, Eq, Structural)]
pub struct MainApp {}

impl MainApp {
    /// Capacity of each bounded queue in the pipeline: large enough that the
    /// capture thread rarely feels backpressure, small enough to bound the
    /// memory either side can hold.
    pub const CHANNEL_CAP: usize = 65536;

    /// Creates the application front.
    pub fn new() -> (r: Self)
        ensures
            r == (MainApp {  }),
    {
        MainApp {  }
    }
}

} // verus!
