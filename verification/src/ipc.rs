//! Messages between the daemon (which owns the keyboard) and its clients.
//!
//! On the wire these are newline-delimited JSON over a Unix domain socket; the
//! encoding and the socket live with the caller.
use vstd::prelude::*;

verus! {

/// Keyboard status snapshot.
#[derive(Debug, Clone)]
pub struct Status {
    pub model: String,
    pub firmware: String,
    pub rapid_trigger: bool,
    pub turbo: bool,
    pub active_profile: Option<String>,
}

/// The daemon's reply to a request.
#[derive(Debug, Clone)]
pub enum Response {
    Success,
    Status(Status),
    Profiles(Vec<String>),
    Depths(Vec<u8>),
    Error(String),
}

} // verus!
