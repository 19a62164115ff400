//! DrunkDeer HID wire protocol: constants, key layout, and packet codecs.
//!
//! This module is transport-agnostic: it builds and parses bytes but never
//! touches a device.
pub mod consts;
pub mod layout;
pub mod layout_names;
pub mod packet;

use vstd::prelude::*;

pub use consts::{LedSequence, TOTAL_KEYS};
pub use packet::{Payload, RowKind};

verus! {

/// The keyboard model, as reported in the identity handshake.
#[derive(Debug, Clone, Copy, PartialEq, Eq, Structural)]
pub enum Model {
    A75,
    A75Pro,
    G60,
    G65,
    G75,
    Unknown,
}

/// The model a 3-byte identity signature denotes.
pub open spec fn spec_model_of(sig: Seq<u8>) -> Model {
    if sig == seq![0x0bu8, 0x01u8, 0x01u8] || sig == seq![0x0bu8, 0x04u8, 0x01u8] {
        Model::A75
    } else if sig == seq![0x0bu8, 0x04u8, 0x03u8] {
        Model::A75Pro
    } else if sig == seq![0x0bu8, 0x03u8, 0x01u8] {
        Model::G60
    } else if sig == seq![0x0fu8, 0x01u8, 0x01u8] || sig == seq![0x0bu8, 0x02u8, 0x01u8] {
        Model::G65
    } else if sig == seq![0x0bu8, 0x04u8, 0x05u8] {
        Model::G75
    } else {
        Model::Unknown
    }
}

impl Model {
    /// The model's name, as its `Debug` form prints it.
    pub open spec fn spec_name(self) -> Seq<char> {
        match self {
            Model::A75 => "A75"@,
            Model::A75Pro => "A75Pro"@,
            Model::G60 => "G60"@,
            Model::G65 => "G65"@,
            Model::G75 => "G75"@,
            Model::Unknown => "Unknown"@,
        }
    }

    /// The model's name, as its `Debug` form prints it.
    pub fn name(self) -> (s: &'static str)
        ensures
            s@ == self.spec_name(),
    {
        match self {
            Model::A75 => "A75",
            Model::A75Pro => "A75Pro",
            Model::G60 => "G60",
            Model::G65 => "G65",
            Model::G75 => "G75",
            Model::Unknown => "Unknown",
        }
    }

    /// Map the 3-byte model signature from an identity reply to a [`Model`].
    pub fn from_signature(sig: [u8; 3]) -> (m: Model)
        ensures
            m == spec_model_of(sig@),
    {
        let (a, b, c) = (sig[0], sig[1], sig[2]);
        proof {
            assert(sig@ =~= seq![a, b, c]);
        }
        if a == 0x0b && b == 0x01 && c == 0x01 || a == 0x0b && b == 0x04 && c == 0x01 {
            Model::A75
        } else if a == 0x0b && b == 0x04 && c == 0x03 {
            Model::A75Pro
        } else if a == 0x0b && b == 0x03 && c == 0x01 {
            Model::G60
        } else if a == 0x0f && b == 0x01 && c == 0x01 || a == 0x0b && b == 0x02 && c == 0x01 {
            Model::G65
        } else if a == 0x0b && b == 0x04 && c == 0x05 {
            Model::G75
        } else {
            Model::Unknown
        }
    }
}

/// The ASCII digit character for `d < 10`.
pub open spec fn digit_char(d: nat) -> char {
    ((d + 48) as u8) as char
}

/// Decimal representation of `n`, without leading zeros.
pub open spec fn decimal(n: nat) -> Seq<char>
    decreases n,
{
    if n < 10 {
        seq![digit_char(n)]
    } else {
        decimal(n / 10).push(digit_char(n % 10))
    }
}

/// The text of a single decimal digit.
fn digit_str(d: u16) -> (s: &'static str)
    requires
        d < 10,
    ensures
        s@ == seq![digit_char(d as nat)],
{
    proof {
        reveal_strlit("0");
        reveal_strlit("1");
        reveal_strlit("2");
        reveal_strlit("3");
        reveal_strlit("4");
        reveal_strlit("5");
        reveal_strlit("6");
        reveal_strlit("7");
        reveal_strlit("8");
        reveal_strlit("9");
    }
    match d {
        0 => "0",
        1 => "1",
        2 => "2",
        3 => "3",
        4 => "4",
        5 => "5",
        6 => "6",
        7 => "7",
        8 => "8",
        _ => "9",
    }
}

/// Append the decimal representation of `n` to `out`.
fn push_decimal(out: &mut String, n: u16)
    ensures
        final(out)@ == old(out)@ + decimal(n as nat),
    decreases n,
{
    if n >= 10 {
        push_decimal(out, n / 10);
    }
    out.append(digit_str(n % 10));
    proof {
        if n >= 10 {
            assert(decimal(n as nat) == decimal((n / 10) as nat).push(digit_char((n % 10) as nat)));
        }
    }
}

/// Parsed identity-handshake reply.
#[derive(Debug, Clone)]
pub struct Identity {
    pub model: Model,
    pub firmware_version: String,
    pub rapid_trigger: bool,
    pub turbo: bool,
}

/// The firmware version text for the little-endian word at payload bytes 7..9:
/// `"0.0"` followed by its decimal value.
pub open spec fn spec_firmware_text(lo: u8, hi: u8) -> Seq<char> {
    seq!['0', '.', '0'] + decimal(lo as nat + 256 * (hi as nat))
}

/// `data` is a genuine identity reply: it starts with the identity command byte,
/// is long enough, and carries a nonzero model signature (an all-zero signature is
/// a stub the device emits while busy).
pub open spec fn is_identity_reply(data: Seq<u8>) -> bool {
    &&& data.len() >= 17
    &&& data[0] == 0xA0u8
    &&& !(data[4] == 0 && data[5] == 0 && data[6] == 0)
}

impl Identity {
    /// What an identity reply decodes to, field by field.
    pub open spec fn decodes(self, data: Seq<u8>) -> bool {
        &&& self.model == spec_model_of(data.subrange(4, 7))
        &&& self.firmware_version@ == spec_firmware_text(data[7], data[8])
        &&& self.turbo == (data[15] != 0)
        &&& self.rapid_trigger == (data[16] != 0)
    }

    /// Parse an identity reply. `data` is the report payload after the report ID
    /// (starting at the command byte). Returns `None` if the command byte is not
    /// the identity command, the payload is too short, or the model signature is
    /// all zero.
    pub fn parse(data: &[u8]) -> (r: Option<Identity>)
        ensures
            r is Some <==> is_identity_reply(data@),
            r matches Some(id) ==> id.decodes(data@),
    {
        if data.len() < 17 || data[0] != consts::cmd::IDENTITY {
            return None;
        }
        let sig = [data[4], data[5], data[6]];
        if sig[0] == 0 && sig[1] == 0 && sig[2] == 0 {
            return None;
        }
        proof {
            assert(sig@ =~= data@.subrange(4, 7));
        }
        let version: u16 = data[7] as u16 + 256 * (data[8] as u16);
        let mut firmware_version = String::from_str("0.0");
        proof {
            reveal_strlit("0.0");
            assert(firmware_version@ =~= seq!['0', '.', '0']);
        }
        push_decimal(&mut firmware_version, version);
        assert(firmware_version@ == spec_firmware_text(data@[7], data@[8]));
        Some(
            Identity {
                model: Model::from_signature(sig),
                firmware_version,
                turbo: data[15] != 0,
                rapid_trigger: data[16] != 0,
            },
        )
    }
}

} // verus!
