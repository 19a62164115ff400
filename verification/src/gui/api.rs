//! Messages from the UI's background worker back to the UI.
use vstd::prelude::*;

use crate::ipc::Status;
use crate::protocol::consts::TOTAL_KEYS;

verus! {

/// A notification from the worker back to the UI.
#[derive(Debug)]
pub enum Event {
    Connected(Status),
    Disconnected(String),
    Status(String),
    Error(String),
    /// One live key-depth frame (per-slot travel, ~0.1 mm units).
    Depths(Box<[u8; TOTAL_KEYS]>),
}

} // verus!
