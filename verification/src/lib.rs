//! `fawnd`: a userspace driver library for the DrunkDeer A75 Hall-effect keyboard.
//!
//! - [`protocol`]: the wire format (constants, key layout, packet codecs).
//! - [`device`]: report framing and device selection.
//! - [`controller`]: the per-key state mirror and the packets that push it.
pub mod controller;
pub mod daemon;
pub mod device;
pub mod error;
pub mod gui;
pub mod ipc;
pub mod protocol;
pub mod rules;
pub mod watch;

pub use error::Error;
