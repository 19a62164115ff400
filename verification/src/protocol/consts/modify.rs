//! Sub-command byte (payload\[1]) for `MODIFY_KEY` packets.
use vstd::prelude::*;

verus! {

/// Per-key actuation point.
pub const ACTUATION: u8 = 0x01;

/// Live key-tracking toggle.
pub const KEY_TRACKING: u8 = 0x03;

/// Rapid-trigger downstroke sensitivity.
pub const DOWNSTROKE: u8 = 0x04;

/// Rapid-trigger upstroke sensitivity.
pub const UPSTROKE: u8 = 0x05;

} // verus!
