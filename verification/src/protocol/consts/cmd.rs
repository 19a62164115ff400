//! Command byte (payload\[0]) for each packet family.
use vstd::prelude::*;

verus! {

/// Identity / handshake query and reply.
pub const IDENTITY: u8 = 0xA0;

/// LED mode selection.
pub const LED_MODE: u8 = 0xAE;

/// Per-key modify (actuation / downstroke / upstroke / key-tracking toggle).
pub const MODIFY_KEY: u8 = 0xB6;

/// Global rapid-trigger + turbo (snap-tap) toggle.
pub const RAPID_TRIGGER: u8 = 0xB5;

/// Live key-depth tracking stream (inbound reports).
pub const KEY_TRACKING: u8 = 0xB7;

} // verus!
