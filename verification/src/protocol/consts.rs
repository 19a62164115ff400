//! Wire-level constants for the DrunkDeer HID protocol.
use vstd::prelude::*;

pub mod cmd;
pub mod modify;

verus! {

/// DrunkDeer USB vendor ID.
pub const VENDOR_ID: u16 = 0x352D;

/// Known DrunkDeer product IDs. The A75 ANSI enumerates as `0x2383`.
pub const PRODUCT_IDS: [u16; 4] = [0x2382, 0x2383, 0x2384, 0x2386];

/// Vendor-defined usage page of the configuration interface.
pub const USAGE_PAGE: u16 = 0xFF00;

/// Usage of the configuration interface.
pub const USAGE: u16 = 0x00;

/// First byte of every outbound HID report (the HID report ID).
pub const REPORT_ID: u8 = 0x04;

/// Total HID report length, including the leading report ID byte.
pub const REPORT_LEN: usize = 64;

/// Payload length after the report ID byte.
pub const PAYLOAD_LEN: usize = 63;

/// Keys addressed per row packet (rows 0 and 1).
pub const KEYS_PER_ROW: usize = 59;

/// Number of key slots in the final (short) row.
pub const LAST_ROW_KEYS: usize = 8;

/// Total addressable key slots across all rows.
pub const TOTAL_KEYS: usize = 126;

/// Default actuation byte = 2.0 mm (encoded as `mm * 10`).
pub const DEFAULT_ACTUATION: u8 = 0x14;

/// Smallest actuation, in encoded byte units (0.2 mm).
pub const ACTUATION_MIN: u8 = 0x02;

/// Largest actuation, in encoded byte units (3.8 mm).
pub const ACTUATION_MAX: u8 = 0x26;

/// LED lighting effect sequences (payload value for `LED_MODE`).
#[derive(Debug, Clone, Copy, PartialEq, Eq, Structural)]
pub enum LedSequence {
    Off,
    Always,
    Spectrum,
    Breath,
    Press,
    Stars,
    Wave,
    Surf,
    SurfDown,
    Ripple,
    Fish,
    Fountain,
    Traffic,
    Snake,
    SurfRepeat,
    SurfCross,
    LaserKey,
    FountainRandom,
    Custom,
}

impl LedSequence {
    /// The wire byte of each sequence.
    pub open spec fn spec_byte(self) -> u8 {
        match self {
            LedSequence::Off => 0x00,
            LedSequence::Always => 0x02,
            LedSequence::Spectrum => 0x03,
            LedSequence::Breath => 0x04,
            LedSequence::Press => 0x05,
            LedSequence::Stars => 0x06,
            LedSequence::Wave => 0x07,
            LedSequence::Surf => 0x08,
            LedSequence::SurfDown => 0x09,
            LedSequence::Ripple => 0x0A,
            LedSequence::Fish => 0x0B,
            LedSequence::Fountain => 0x0C,
            LedSequence::Traffic => 0x0D,
            LedSequence::Snake => 0x0E,
            LedSequence::SurfRepeat => 0x0F,
            LedSequence::SurfCross => 0x10,
            LedSequence::LaserKey => 0x11,
            LedSequence::FountainRandom => 0x12,
            LedSequence::Custom => 0x13,
        }
    }

    /// The byte this sequence is encoded as in an LED-mode packet.
    #[verifier::when_used_as_spec(spec_byte)]
    pub fn byte(self) -> (b: u8)
        ensures
            b == self.spec_byte(),
    {
        match self {
            LedSequence::Off => 0x00,
            LedSequence::Always => 0x02,
            LedSequence::Spectrum => 0x03,
            LedSequence::Breath => 0x04,
            LedSequence::Press => 0x05,
            LedSequence::Stars => 0x06,
            LedSequence::Wave => 0x07,
            LedSequence::Surf => 0x08,
            LedSequence::SurfDown => 0x09,
            LedSequence::Ripple => 0x0A,
            LedSequence::Fish => 0x0B,
            LedSequence::Fountain => 0x0C,
            LedSequence::Traffic => 0x0D,
            LedSequence::Snake => 0x0E,
            LedSequence::SurfRepeat => 0x0F,
            LedSequence::SurfCross => 0x10,
            LedSequence::LaserKey => 0x11,
            LedSequence::FountainRandom => 0x12,
            LedSequence::Custom => 0x13,
        }
    }
}

} // verus!
