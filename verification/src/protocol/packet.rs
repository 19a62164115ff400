//! Builders for outbound config packets.
//!
//! Every builder returns a [`PAYLOAD_LEN`]-byte payload (the bytes after the HID
//! report ID). The transport layer prepends [`super::consts::REPORT_ID`].
use vstd::prelude::*;

use super::consts::{
    cmd, modify, LedSequence, ACTUATION_MAX, ACTUATION_MIN, DEFAULT_ACTUATION, KEYS_PER_ROW,
    LAST_ROW_KEYS, PAYLOAD_LEN,
};

verus! {

/// One outbound payload: the bytes of a report after its report ID.
pub type Payload = [u8; PAYLOAD_LEN];

/// A payload whose first bytes are `prefix` and whose remaining bytes are zero.
pub open spec fn spec_payload(prefix: Seq<u8>) -> Seq<u8> {
    Seq::new(PAYLOAD_LEN as nat, |i: int| if i < prefix.len() { prefix[i] } else { 0u8 })
}

/// Zero-padded payload starting with `prefix`.
pub fn payload(prefix: &[u8]) -> (p: Payload)
    requires
        prefix@.len() <= PAYLOAD_LEN,
    ensures
        p@ == spec_payload(prefix@),
{
    let mut p = [0u8; PAYLOAD_LEN];
    let mut i: usize = 0;
    while i < prefix.len()
        invariant
            i <= prefix@.len() <= PAYLOAD_LEN,
            forall|j: int| 0 <= j < i ==> p@[j] == prefix@[j],
            forall|j: int| i <= j < PAYLOAD_LEN ==> p@[j] == 0u8,
        decreases prefix@.len() - i,
    {
        p[i] = prefix[i];
        i = i + 1;
    }
    assert(p@ =~= spec_payload(prefix@));
    p
}

/// The encoded actuation byte for a raw `mm * 10` reading, clamped to the
/// supported range `[ACTUATION_MIN, ACTUATION_MAX]`.
pub open spec fn spec_actuation_from_raw(raw: int) -> u8 {
    if raw < ACTUATION_MIN as int {
        ACTUATION_MIN
    } else if raw > ACTUATION_MAX as int {
        ACTUATION_MAX
    } else {
        raw as u8
    }
}

/// Clamp a rounded `mm * 10` value into the device's actuation range. This is the
/// integer half of converting millimetres to the device byte encoding.
pub fn actuation_from_raw(raw: i32) -> (b: u8)
    ensures
        b == spec_actuation_from_raw(raw as int),
        ACTUATION_MIN <= b <= ACTUATION_MAX,
{
    if raw < ACTUATION_MIN as i32 {
        ACTUATION_MIN
    } else if raw > ACTUATION_MAX as i32 {
        ACTUATION_MAX
    } else {
        raw as u8
    }
}

/// Clamping keeps every in-range byte as it is, and clamping twice is clamping
/// once.
pub proof fn lemma_actuation_clamp(raw: int)
    ensures
        ACTUATION_MIN <= raw <= ACTUATION_MAX ==> spec_actuation_from_raw(raw) == raw,
        spec_actuation_from_raw(spec_actuation_from_raw(raw) as int) == spec_actuation_from_raw(raw),
        ACTUATION_MIN <= spec_actuation_from_raw(raw) <= ACTUATION_MAX,
{
}

/// Handshake: ask the keyboard to report its identity.
pub fn identity() -> (p: Payload)
    ensures
        p@ == spec_payload(seq![cmd::IDENTITY, 0x02u8]),
{
    payload(&[cmd::IDENTITY, 0x02])
}

/// The bytes of an LED-mode packet.
pub open spec fn spec_led_mode(
    direction: u8,
    sequence: LedSequence,
    speed: u8,
    brightness: u8,
    rgb: u8,
    turbo: bool,
) -> Seq<u8> {
    spec_payload(
        seq![
            cmd::LED_MODE,
            0x01u8,
            if turbo { 0x01u8 } else { 0x00u8 },
            direction,
            sequence.spec_byte(),
            speed,
            brightness,
            rgb,
        ],
    )
}

/// Select an LED lighting mode.
pub fn led_mode(
    direction: u8,
    sequence: LedSequence,
    speed: u8,
    brightness: u8,
    rgb: u8,
    turbo: bool,
) -> (p: Payload)
    ensures
        p@ == spec_led_mode(direction, sequence, speed, brightness, rgb, turbo),
{
    payload(
        &[
            cmd::LED_MODE,
            0x01,
            if turbo { 0x01 } else { 0x00 },
            direction,
            sequence.byte(),
            speed,
            brightness,
            rgb,
        ],
    )
}

/// The bytes of a rapid-trigger / turbo toggle packet.
pub open spec fn spec_rapid_trigger_turbo(rapid_trigger: bool, turbo: bool) -> Seq<u8> {
    spec_payload(
        seq![
            cmd::RAPID_TRIGGER,
            0x00u8,
            0x1Eu8,
            0x01u8,
            0x00u8,
            0x00u8,
            0x01u8,
            if turbo { 1u8 } else { 0u8 },
            if rapid_trigger { 1u8 } else { 0u8 },
        ],
    )
}

/// The rapid-trigger packet is `[B5 00 1E 01 00 00 01 turbo rt]` padded with
/// zeros: byte 7 is 1 exactly when turbo is on and byte 8 is 1 exactly when
/// rapid trigger is on, each independent of the other switch.
pub proof fn lemma_rapid_trigger_turbo_bytes(rapid_trigger: bool, turbo: bool)
    ensures
        ({
            let p = spec_rapid_trigger_turbo(rapid_trigger, turbo);
            &&& p.len() == 63
            &&& p.subrange(0, 7) == seq![0xB5u8, 0x00u8, 0x1Eu8, 0x01u8, 0x00u8, 0x00u8, 0x01u8]
            &&& p[7] == (if turbo { 1u8 } else { 0u8 })
            &&& p[8] == (if rapid_trigger { 1u8 } else { 0u8 })
            &&& forall|j: int| 9 <= j < 63 ==> p[j] == 0u8
        }),
        spec_rapid_trigger_turbo(rapid_trigger, true)[7] == 1u8,
        spec_rapid_trigger_turbo(rapid_trigger, false)[7] == 0u8,
        spec_rapid_trigger_turbo(true, turbo)[8] == 1u8,
        spec_rapid_trigger_turbo(false, turbo)[8] == 0u8,
{
    let p = spec_rapid_trigger_turbo(rapid_trigger, turbo);
    assert(p.subrange(0, 7) =~= seq![0xB5u8, 0x00u8, 0x1Eu8, 0x01u8, 0x00u8, 0x00u8, 0x01u8]);
}

/// Toggle global rapid trigger and turbo (snap-tap).
pub fn rapid_trigger_turbo(rapid_trigger: bool, turbo: bool) -> (p: Payload)
    ensures
        p@ == spec_rapid_trigger_turbo(rapid_trigger, turbo),
        p@.subrange(0, 7) == seq![0xB5u8, 0x00u8, 0x1Eu8, 0x01u8, 0x00u8, 0x00u8, 0x01u8],
        p@[7] == (if turbo { 1u8 } else { 0u8 }),
        p@[8] == (if rapid_trigger { 1u8 } else { 0u8 }),
        forall|j: int| 9 <= j < 63 ==> p@[j] == 0u8,
{
    proof {
        lemma_rapid_trigger_turbo_bytes(rapid_trigger, turbo);
    }
    payload(
        &[
            cmd::RAPID_TRIGGER,
            0x00,
            0x1E,
            0x01,
            0x00,
            0x00,
            0x01,
            if turbo { 1 } else { 0 },
            if rapid_trigger { 1 } else { 0 },
        ],
    )
}

/// The bytes of a key-tracking toggle packet.
pub open spec fn spec_key_tracking(enabled: bool) -> Seq<u8> {
    spec_payload(seq![cmd::MODIFY_KEY, modify::KEY_TRACKING, if enabled { 1u8 } else { 0u8 }])
}

/// Toggle (and, when enabled, request one round of) the live key-depth stream.
pub fn key_tracking(enabled: bool) -> (p: Payload)
    ensures
        p@ == spec_key_tracking(enabled),
{
    payload(&[cmd::MODIFY_KEY, modify::KEY_TRACKING, if enabled { 1 } else { 0 }])
}

/// Which per-key value a modify-row packet carries.
#[derive(Debug, Clone, Copy, PartialEq, Eq, Structural)]
pub enum RowKind {
    /// Actuation point (default 2.0 mm).
    Actuation,
    /// Rapid-trigger downstroke sensitivity (default 0.0 mm).
    Downstroke,
    /// Rapid-trigger upstroke sensitivity (default 0.0 mm).
    Upstroke,
}

impl RowKind {
    /// Sub-command byte that selects this kind in a modify-row packet.
    pub open spec fn spec_sub_command(self) -> u8 {
        match self {
            RowKind::Actuation => modify::ACTUATION,
            RowKind::Downstroke => modify::DOWNSTROKE,
            RowKind::Upstroke => modify::UPSTROKE,
        }
    }

    /// Value that pads the unused slots of a row of this kind.
    pub open spec fn spec_default_value(self) -> u8 {
        match self {
            RowKind::Actuation => DEFAULT_ACTUATION,
            RowKind::Downstroke | RowKind::Upstroke => 0x00,
        }
    }

    /// Sub-command byte that selects this kind in a modify-row packet.
    pub fn sub_command(self) -> (b: u8)
        ensures
            b == self.spec_sub_command(),
    {
        match self {
            RowKind::Actuation => modify::ACTUATION,
            RowKind::Downstroke => modify::DOWNSTROKE,
            RowKind::Upstroke => modify::UPSTROKE,
        }
    }

    /// Value that pads the unused slots of a row of this kind.
    pub fn default_value(self) -> (b: u8)
        ensures
            b == self.spec_default_value(),
    {
        match self {
            RowKind::Actuation => DEFAULT_ACTUATION,
            RowKind::Downstroke | RowKind::Upstroke => 0x00,
        }
    }
}

/// Number of key slots a modify-row packet for `row` carries.
pub open spec fn row_capacity(row: u8) -> nat {
    if row == 2 {
        LAST_ROW_KEYS as nat
    } else {
        KEYS_PER_ROW as nat
    }
}

/// The bytes of a modify-row packet: header `[B6 sub 00 row]`, then the row's
/// slots (`keys`, padded with the kind's default value), then zeros.
pub open spec fn spec_modify_row(row: u8, keys: Seq<u8>, kind: RowKind) -> Seq<u8> {
    Seq::new(
        PAYLOAD_LEN as nat,
        |j: int|
            if j == 0 {
                cmd::MODIFY_KEY
            } else if j == 1 {
                kind.spec_sub_command()
            } else if j == 2 {
                0u8
            } else if j == 3 {
                row
            } else if j - 4 < row_capacity(row) {
                if j - 4 < keys.len() {
                    keys[j - 4]
                } else {
                    kind.spec_default_value()
                }
            } else {
                0u8
            },
    )
}

/// A modify-row packet is `[B6 sub 00 row]` followed by the row's keys: byte 0
/// is the modify command, byte 2 is zero for every row, byte 3 names the row,
/// and the `k`-th key given (for `k` below the row's 59, or 8 for row 2, slots)
/// sits at byte `4 + k`. The sub-command is 01, 04 or 05 by kind.
pub proof fn lemma_modify_row_bytes(row: u8, keys: Seq<u8>, kind: RowKind)
    ensures
        ({
            let p = spec_modify_row(row, keys, kind);
            &&& p.len() == 63
            &&& p[0] == 0xB6u8
            &&& p[1] == (match kind {
                RowKind::Actuation => 0x01u8,
                RowKind::Downstroke => 0x04u8,
                RowKind::Upstroke => 0x05u8,
            })
            &&& p[2] == 0x00u8
            &&& p[3] == row
            &&& forall|i: int|
                0 <= i < (if row == 2 { 8int } else { 59int }) && i < keys.len() ==> #[trigger] p[4
                    + i] == keys[i]
        }),
{
}

/// Build a per-key modify packet for one protocol row (0, 1, or 2).
///
/// `keys` are placed starting at row offset 0; any remaining slots in the row
/// are padded with the kind's default value. Row 2 only carries
/// [`LAST_ROW_KEYS`] slots.
pub fn modify_row(row: u8, keys: &[u8], kind: RowKind) -> (p: Payload)
    ensures
        p@ == spec_modify_row(row, keys@, kind),
        p@[0] == 0xB6u8,
        p@[1] == kind.spec_sub_command(),
        p@[2] == 0x00u8,
        p@[3] == row,
        forall|i: int|
            0 <= i < (if row == 2 { 8int } else { 59int }) && i < keys@.len() ==> #[trigger] p@[4 + i]
                == keys@[i],
{
    proof {
        lemma_modify_row_bytes(row, keys@, kind);
    }
    let capacity: usize = if row == 2 { LAST_ROW_KEYS } else { KEYS_PER_ROW };
    let mut p = payload(&[cmd::MODIFY_KEY, kind.sub_command(), 0x00, row]);
    let n: usize = if keys.len() < capacity { keys.len() } else { capacity };
    let default = kind.default_value();
    let mut i: usize = 0;
    while i < capacity
        invariant
            capacity == row_capacity(row),
            n <= capacity,
            n <= keys@.len(),
            n == keys@.len() || n == capacity,
            default == kind.spec_default_value(),
            i <= capacity,
            forall|j: int|
                0 <= j < PAYLOAD_LEN && !(4 <= j < 4 + i) ==> p@[j] == spec_payload(
                    seq![cmd::MODIFY_KEY, kind.spec_sub_command(), 0x00u8, row],
                )[j],
            forall|j: int|
                4 <= j < 4 + i ==> p@[j] == spec_modify_row(row, keys@, kind)[j],
        decreases capacity - i,
    {
        p[4 + i] = if i < n { keys[i] } else { default };
        i = i + 1;
    }
    assert(p@ =~= spec_modify_row(row, keys@, kind));
    p
}

} // verus!
