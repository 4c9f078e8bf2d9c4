//! Core of a hardware-input rate meter.
//!
//! Input events are timestamped the moment the capture thread observes them,
//! carried through bounded FIFO queues and a fixed-size binary record channel
//! into a second process, and turned into instantaneous and trailing-average
//! rates by a sliding-window aggregator.  This crate holds the verified logic
//! of that pipeline: the record codec, the bounded queues, the sliding window,
//! the trailing-average ring, the spawn-time handle handshake, and the
//! decisions the capture and relay threads act on.  The thread loops and the
//! operating-system calls themselves live outside the library.

pub mod aggregator;
pub mod event;
pub mod handshake;
pub mod listener;
pub mod main_app;
pub mod queue;
pub mod relay;
pub mod trailing;
pub mod window;
