//! How the UI worker turns daemon replies into UI events.
use vstd::prelude::*;

use super::api::Event;
use crate::error::Error;
use crate::ipc::Response;
use crate::protocol::consts::TOTAL_KEYS;

verus! {

/// The text `"on"` or `"off"`.
pub open spec fn on_off_text(b: bool) -> Seq<char> {
    if b {
        "on"@
    } else {
        "off"@
    }
}

/// `"on"` or `"off"`.
pub fn on_off(b: bool) -> (s: &'static str)
    ensures
        s@ == on_off_text(b),
{
    if b {
        "on"
    } else {
        "off"
    }
}

/// The status line shown after toggling rapid trigger and turbo.
pub fn rapid_trigger_status(rapid_trigger: bool, turbo: bool) -> (s: String)
    ensures
        s@ == "rapid trigger "@ + on_off_text(rapid_trigger) + ", turbo "@ + on_off_text(turbo),
{
    let mut s = String::from_str("rapid trigger ");
    s.append(on_off(rapid_trigger));
    s.append(", turbo ");
    s.append(on_off(turbo));
    s
}

/// The outcome of connecting: the reply to the initial status request (or the
/// error that prevented it). Returns whether the connection is kept, and the
/// event for the UI: connected with the status, or disconnected with the reason.
pub fn connect_outcome(reply: Result<Response, Error>) -> (r: (bool, Event))
    ensures
        r.0 == (reply matches Ok(Response::Status(_))),
        match reply {
            Ok(Response::Status(s)) => r.1 == Event::Connected(s),
            Ok(Response::Error(e)) => r.1 matches Event::Disconnected(m) && m@ == e@,
            Ok(_) => r.1 matches Event::Disconnected(m) && m@ == "unexpected daemon reply"@,
            Err(e) => r.1 matches Event::Disconnected(m) && m@ == e.spec_message(),
        },
{
    match reply {
        Ok(Response::Status(status)) => (true, Event::Connected(status)),
        Ok(Response::Error(e)) => (false, Event::Disconnected(e)),
        Ok(_) => (false, Event::Disconnected(String::from_str("unexpected daemon reply"))),
        Err(e) => (false, Event::Disconnected(e.message())),
    }
}

/// The outcome of a mutating request: whether the connection is kept, and the
/// event for the UI. A daemon error is shown as an error; any other reply as the
/// success message `ok_status`; a transport error drops the connection.
pub fn reply_outcome(reply: Result<Response, Error>, ok_status: String) -> (r: (bool, Event))
    ensures
        r.0 == (reply is Ok),
        match reply {
            Ok(Response::Error(e)) => r.1 matches Event::Error(m) && m@ == e@,
            Ok(_) => r.1 matches Event::Status(m) && m@ == ok_status@,
            Err(e) => r.1 matches Event::Disconnected(m) && m@ == e.spec_message(),
        },
{
    match reply {
        Ok(Response::Error(e)) => (true, Event::Error(e)),
        Ok(_) => (true, Event::Status(ok_status)),
        Err(e) => (false, Event::Disconnected(e.message())),
    }
}

/// A full key-depth frame from the values of a depth reply: the first values
/// fill the slots in order, extra values are dropped, and missing slots are 0.
pub fn depth_frame_from(values: &[u8]) -> (frame: [u8; TOTAL_KEYS])
    ensures
        forall|i: int|
            0 <= i < TOTAL_KEYS ==> #[trigger] frame@[i] == if i < values@.len() {
                values@[i]
            } else {
                0u8
            },
{
    let mut frame = [0u8; TOTAL_KEYS];
    let n: usize = if values.len() < TOTAL_KEYS { values.len() } else { TOTAL_KEYS };
    let mut i: usize = 0;
    while i < n
        invariant
            n <= TOTAL_KEYS,
            n <= values@.len(),
            n == values@.len() || n == TOTAL_KEYS,
            i <= n,
            forall|j: int|
                0 <= j < TOTAL_KEYS ==> #[trigger] frame@[j] == if j < i {
                    values@[j]
                } else {
                    0u8
                },
        decreases n - i,
    {
        frame[i] = values[i];
        i = i + 1;
    }
    frame
}

} // verus!
