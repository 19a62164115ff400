//! The keyboard's per-key configuration, mirrored in memory, and the packets
//! that push it to the device.
//!
//! The device has no read-back for per-key values, so this mirror is the source
//! of truth: mutations change the mirror, and the `flush_*` methods produce the
//! row packets that carry it to the keyboard.
use vstd::prelude::*;
use vstd::string::StringSliceAdditionalSpecFns;

use crate::error::Error;
use crate::protocol::consts::{
    cmd, LedSequence, DEFAULT_ACTUATION, KEYS_PER_ROW, LAST_ROW_KEYS, TOTAL_KEYS,
};
use crate::protocol::layout::{index_of, spec_index_of};
use crate::protocol::consts::{ACTUATION_MAX, ACTUATION_MIN};
use crate::protocol::packet::{
    actuation_from_raw, lemma_modify_row_bytes, led_mode, modify_row, rapid_trigger_turbo, row_capacity, spec_actuation_from_raw,
    spec_led_mode, spec_modify_row, spec_rapid_trigger_turbo, Payload, RowKind,
};

verus! {

/// Approximate maximum travel reading from the key-depth stream (about 4.0 mm).
pub const DEPTH_MAX_RAW: u8 = 40;

/// The three per-key maps, as sequences of encoded bytes.
pub struct KeyMaps {
    pub actuation: Seq<u8>,
    pub downstroke: Seq<u8>,
    pub upstroke: Seq<u8>,
}

/// Per-key configuration, mirrored from what was last pushed to the device.
pub struct Controller {
    actuation: [u8; TOTAL_KEYS],
    downstroke: [u8; TOTAL_KEYS],
    upstroke: [u8; TOTAL_KEYS],
}

impl View for Controller {
    type V = KeyMaps;

    closed spec fn view(&self) -> KeyMaps {
        KeyMaps {
            actuation: self.actuation@,
            downstroke: self.downstroke@,
            upstroke: self.upstroke@,
        }
    }
}

/// Every slot of a map holds an actuation within the supported range
/// `[ACTUATION_MIN, ACTUATION_MAX]`.
pub open spec fn actuation_in_range(map: Seq<u8>) -> bool {
    forall|i: int| 0 <= i < map.len() ==> ACTUATION_MIN <= #[trigger] map[i] <= ACTUATION_MAX
}

/// The encoded actuation bytes of raw `mm * 10` readings, each clamped.
pub open spec fn clamp_all(raws: Seq<i32>) -> Seq<u8> {
    raws.map_values(|r: i32| spec_actuation_from_raw(r as int))
}

/// A map that holds `value` in every slot.
pub open spec fn uniform(value: u8) -> Seq<u8> {
    Seq::new(TOTAL_KEYS as nat, |i: int| value)
}

/// The actuation map after setting every key named in `names`, in order, to
/// `value` (names that resolve to no slot leave the map as it is).
pub open spec fn with_keys(acts: Seq<u8>, names: Seq<&str>, value: u8) -> Seq<u8>
    decreases names.len(),
{
    if names.len() == 0 {
        acts
    } else {
        let prev = with_keys(acts, names.drop_last(), value);
        match spec_index_of(names.last().spec_bytes()) {
            Some(i) => prev.update(i as int, value),
            None => prev,
        }
    }
}

/// The actuation map after setting each key named in `names`, in order, to the
/// value at the same position of `values` (names that resolve to no slot leave
/// the map as it is).
pub open spec fn with_overrides(acts: Seq<u8>, names: Seq<&str>, values: Seq<u8>) -> Seq<u8>
    decreases names.len(),
{
    if names.len() == 0 {
        acts
    } else {
        let prev = with_overrides(acts, names.drop_last(), values);
        match spec_index_of(names.last().spec_bytes()) {
            Some(i) => prev.update(i as int, values[names.len() - 1]),
            None => prev,
        }
    }
}

/// The position of the first name in `names`, at or after `from`, that resolves
/// to no key slot.
pub open spec fn first_unknown_from(names: Seq<&str>, from: int) -> Option<int>
    decreases names.len() - from,
{
    if from < 0 || from >= names.len() {
        None
    } else if spec_index_of(names[from].spec_bytes()) is None {
        Some(from)
    } else {
        first_unknown_from(names, from + 1)
    }
}

/// The position of the first name in `names` that resolves to no key slot.
pub open spec fn first_unknown(names: Seq<&str>) -> Option<int> {
    first_unknown_from(names, 0)
}

/// The map after writing `value` to slot `index`; an index past the last slot
/// leaves the map as it is.
pub open spec fn spec_write_slot(map: Seq<u8>, index: int, value: u8) -> Seq<u8> {
    if 0 <= index < TOTAL_KEYS {
        map.update(index, value)
    } else {
        map
    }
}

/// The byte a map holds at slot `index`, or 0 past the last slot.
pub open spec fn spec_read_slot(map: Seq<u8>, index: int) -> u8 {
    if 0 <= index < TOTAL_KEYS {
        map[index]
    } else {
        0u8
    }
}

/// Reading a slot gives back what was last written to it, and a write to one
/// slot leaves every other slot as it was.
pub proof fn lemma_read_after_write(map: Seq<u8>, index: int, value: u8, other: int)
    requires
        map.len() == TOTAL_KEYS,
    ensures
        0 <= index < TOTAL_KEYS ==> spec_read_slot(spec_write_slot(map, index, value), index)
            == value,
        other != index ==> spec_read_slot(spec_write_slot(map, index, value), other)
            == spec_read_slot(map, other),
        spec_write_slot(map, index, value).len() == TOTAL_KEYS,
{
}

/// Setting the keys of `names` to `value` gives exactly the slots those names
/// resolve to the value, and leaves every other slot as it was.
pub proof fn lemma_with_keys(acts: Seq<u8>, names: Seq<&str>, value: u8, slot: int)
    requires
        acts.len() == TOTAL_KEYS,
    ensures
        with_keys(acts, names, value).len() == TOTAL_KEYS,
        0 <= slot < TOTAL_KEYS ==> with_keys(acts, names, value)[slot] == if exists|k: int|
            0 <= k < names.len() && spec_index_of(#[trigger] names[k].spec_bytes()) == Some(
                slot as usize,
            ) {
            value
        } else {
            acts[slot]
        },
    decreases names.len(),
{
    if names.len() > 0 {
        let prefix = names.drop_last();
        lemma_with_keys(acts, prefix, value, slot);
        crate::protocol::layout::lemma_first_slot_from(names.last().spec_bytes(), 0);
        if 0 <= slot < TOTAL_KEYS {
            let last = names.last();
            if exists|k: int|
                0 <= k < prefix.len() && spec_index_of(#[trigger] prefix[k].spec_bytes()) == Some(
                    slot as usize,
                ) {
                let k = choose|k: int|
                    0 <= k < prefix.len() && spec_index_of(#[trigger] prefix[k].spec_bytes())
                        == Some(slot as usize);
                assert(names[k] == prefix[k]);
            }
            if exists|k: int|
                0 <= k < names.len() && spec_index_of(#[trigger] names[k].spec_bytes()) == Some(
                    slot as usize,
                ) {
                let k = choose|k: int|
                    0 <= k < names.len() && spec_index_of(#[trigger] names[k].spec_bytes()) == Some(
                        slot as usize,
                    );
                if k < prefix.len() {
                    assert(prefix[k] == names[k]);
                }
            }
            assert(names[names.len() - 1] == last);
        }
    }
}

/// With per-key overrides, each slot holds the value of the last name that
/// resolves to it, and a slot no name resolves to keeps its value.
pub proof fn lemma_with_overrides(acts: Seq<u8>, names: Seq<&str>, values: Seq<u8>, slot: int, k: int)
    requires
        acts.len() == TOTAL_KEYS,
        names.len() <= values.len(),
        0 <= slot < TOTAL_KEYS,
    ensures
        with_overrides(acts, names, values).len() == TOTAL_KEYS,
        (forall|j: int|
            0 <= j < names.len() ==> spec_index_of(#[trigger] names[j].spec_bytes()) != Some(
                slot as usize,
            )) ==> with_overrides(acts, names, values)[slot] == acts[slot],
        (0 <= k < names.len() && spec_index_of(names[k].spec_bytes()) == Some(slot as usize)
            && forall|j: int|
            k < j < names.len() ==> spec_index_of(#[trigger] names[j].spec_bytes()) != Some(
                slot as usize,
            )) ==> with_overrides(acts, names, values)[slot] == values[k],
    decreases names.len(),
{
    if names.len() > 0 {
        let prefix = names.drop_last();
        let n = names.len() - 1;
        lemma_with_overrides(acts, prefix, values, slot, k);
        crate::protocol::layout::lemma_first_slot_from(names.last().spec_bytes(), 0);
        assert(names[n] == names.last());
        assert forall|j: int| 0 <= j < prefix.len() implies #[trigger] prefix[j] == names[j] by {}
        if (forall|j: int|
            0 <= j < names.len() ==> spec_index_of(#[trigger] names[j].spec_bytes()) != Some(
                slot as usize,
            )) {
            assert(spec_index_of(names[n].spec_bytes()) != Some(slot as usize));
        }
        if 0 <= k < n && spec_index_of(names[k].spec_bytes()) == Some(slot as usize) && forall|
            j: int,
        |
            k < j < names.len() ==> spec_index_of(#[trigger] names[j].spec_bytes()) != Some(
                slot as usize,
            ) {
            assert(spec_index_of(names[n].spec_bytes()) != Some(slot as usize));
        }
    }
}

/// The slots carried by protocol row `row` of a full map: row 0 is slots
/// `0..59`, row 1 is `59..118`, row 2 is `118..126`.
pub open spec fn row_chunk(values: Seq<u8>, row: int) -> Seq<u8> {
    values.subrange(
        row * KEYS_PER_ROW,
        if row == 2 {
            TOTAL_KEYS as int
        } else {
            (row + 1) * KEYS_PER_ROW
        },
    )
}

/// The three modify-row packets that carry a full map of the given kind.
pub open spec fn spec_row_packets(values: Seq<u8>, kind: RowKind) -> Seq<Seq<u8>> {
    seq![
        spec_modify_row(0, row_chunk(values, 0), kind),
        spec_modify_row(1, row_chunk(values, 1), kind),
        spec_modify_row(2, row_chunk(values, 2), kind),
    ]
}

/// The payloads of `packets`, as byte sequences.
pub open spec fn payload_bytes(packets: Seq<Payload>) -> Seq<Seq<u8>> {
    packets.map_values(|p: Payload| p@)
}

/// The three row packets (rows 0, 1, 2, in that order) that carry a full
/// per-key map of the given kind to the device.
pub fn row_packets(values: &[u8; TOTAL_KEYS], kind: RowKind) -> (packets: Vec<Payload>)
    ensures
        payload_bytes(packets@) == spec_row_packets(values@, kind),
        packets@.len() == 3,
        forall|r: int|
            0 <= r < 3 ==> (#[trigger] packets@[r])@[0] == 0xB6u8 && packets@[r]@[1]
                == kind.spec_sub_command() && packets@[r]@[2] == 0x00u8 && packets@[r]@[3] == r as u8,
        forall|slot: int|
            0 <= slot < 126 ==> packets@[slot / 59]@[4 + slot % 59] == #[trigger] values@[slot],
{
    let s = values.as_slice();
    let mut packets: Vec<Payload> = Vec::new();
    packets.push(modify_row(0, &s[0..KEYS_PER_ROW], kind));
    packets.push(modify_row(1, &s[KEYS_PER_ROW..2 * KEYS_PER_ROW], kind));
    packets.push(modify_row(2, &s[2 * KEYS_PER_ROW..TOTAL_KEYS], kind));
    assert(payload_bytes(packets@) =~= spec_row_packets(values@, kind));
    proof {
        lemma_row_packets_header(values@, kind);
        assert forall|r: int| 0 <= r < 3 implies (#[trigger] packets@[r])@[0] == 0xB6u8
            && packets@[r]@[1] == kind.spec_sub_command() && packets@[r]@[2] == 0x00u8
            && packets@[r]@[3] == r as u8 by {
            assert(payload_bytes(packets@)[r] == packets@[r]@);
        }
        assert forall|slot: int| 0 <= slot < 126 implies packets@[slot / 59]@[4 + slot % 59]
            == #[trigger] values@[slot] by {
            lemma_row_packets_carry_map(values@, kind, slot);
            assert(payload_bytes(packets@)[slot / 59] == packets@[slot / 59]@);
        }
    }
    packets
}

/// Each of the three row packets of a map opens with the header
/// `[B6 sub 00 row]`: the modify command, the kind's sub-command, a zero byte
/// and the row number, for rows 0, 1 and 2 alike.
pub proof fn lemma_row_packets_header(values: Seq<u8>, kind: RowKind)
    ensures
        spec_row_packets(values, kind).len() == 3,
        forall|r: int|
            0 <= r < 3 ==> {
                let p = #[trigger] spec_row_packets(values, kind)[r];
                &&& p.len() == 63
                &&& p[0] == 0xB6u8
                &&& p[1] == kind.spec_sub_command()
                &&& p[2] == 0x00u8
                &&& p[3] == r as u8
            },
{
    lemma_modify_row_bytes(0, row_chunk(values, 0), kind);
    lemma_modify_row_bytes(1, row_chunk(values, 1), kind);
    lemma_modify_row_bytes(2, row_chunk(values, 2), kind);
}

/// Every slot of a map travels in the row packet of its protocol row
/// (`row_of`), at payload byte `4 + slot - 59 * row`; each packet's header names
/// its row and kind.
pub proof fn lemma_row_packets_carry_map(values: Seq<u8>, kind: RowKind, slot: int)
    requires
        values.len() == TOTAL_KEYS,
        0 <= slot < TOTAL_KEYS,
    ensures
        ({
            let row = slot / KEYS_PER_ROW as int;
            let packets = spec_row_packets(values, kind);
            &&& 0 <= row < 3
            &&& packets[row][3] == row as u8
            &&& packets[row][1] == kind.spec_sub_command()
            &&& packets[row][4 + slot - row * KEYS_PER_ROW] == values[slot]
        }),
{
    let row = slot / KEYS_PER_ROW as int;
    assert(0 <= row < 3);
    assert(row * KEYS_PER_ROW <= slot < row * KEYS_PER_ROW + KEYS_PER_ROW);
}

/// The actuation row packets of an in-range map carry only in-range bytes in
/// every key slot of every row.
pub proof fn lemma_row_packets_in_range(values: Seq<u8>)
    requires
        values.len() == TOTAL_KEYS,
        actuation_in_range(values),
    ensures
        forall|r: int, i: int|
            0 <= r < 3 && 0 <= i < row_capacity(r as u8) ==> ACTUATION_MIN
                <= #[trigger] spec_row_packets(values, RowKind::Actuation)[r][4 + i] <= ACTUATION_MAX,
{
    assert forall|r: int, i: int| 0 <= r < 3 && 0 <= i < row_capacity(r as u8) implies ACTUATION_MIN
        <= #[trigger] spec_row_packets(values, RowKind::Actuation)[r][4 + i] <= ACTUATION_MAX by {
        let chunk = row_chunk(values, r);
        if i < chunk.len() {
            assert(chunk[i] == values[r * KEYS_PER_ROW + i]);
        }
    }
}

impl Controller {
    /// The actuation map only ever holds bytes of the supported range.
    #[verifier::type_invariant]
    spec fn actuation_valid(self) -> bool {
        actuation_in_range(self.actuation@)
    }

    /// Each per-key map holds exactly one byte per key slot.
    pub proof fn lemma_maps_len(&self)
        ensures
            self@.actuation.len() == TOTAL_KEYS,
            self@.downstroke.len() == TOTAL_KEYS,
            self@.upstroke.len() == TOTAL_KEYS,
    {
    }

    /// A mirror seeded with the device defaults: 2.0 mm actuation everywhere and
    /// no rapid-trigger sensitivity.
    pub fn new() -> (c: Controller)
        ensures
            actuation_in_range(c@.actuation),
            c@.actuation == uniform(DEFAULT_ACTUATION),
            c@.downstroke == uniform(0),
            c@.upstroke == uniform(0),
    {
        let c = Controller {
            actuation: [DEFAULT_ACTUATION; TOTAL_KEYS],
            downstroke: [0u8; TOTAL_KEYS],
            upstroke: [0u8; TOTAL_KEYS],
        };
        assert(c@.actuation =~= uniform(DEFAULT_ACTUATION));
        assert(c@.downstroke =~= uniform(0));
        assert(c@.upstroke =~= uniform(0));
        c
    }

    /// Set the actuation of the keys named in `names`, in order, to the raw
    /// `mm * 10` reading `raw` clamped into the supported range. Stops at the
    /// first name that is no key, with [`Error::UnknownKey`]; the keys named
    /// before it keep their new value.
    pub fn set_actuation(&mut self, names: &[&str], raw: i32) -> (r: Result<(), Error>)
        ensures
            actuation_in_range(final(self)@.actuation),
            final(self)@.downstroke == old(self)@.downstroke,
            final(self)@.upstroke == old(self)@.upstroke,
            match first_unknown(names@) {
                None => r is Ok && final(self)@.actuation == with_keys(
                    old(self)@.actuation,
                    names@,
                    spec_actuation_from_raw(raw as int),
                ),
                Some(k) => {
                    &&& r matches Err(Error::UnknownKey(s)) && s@ == names@[k]@
                    &&& final(self)@.actuation == with_keys(old(self)@.actuation, names@.take(k), spec_actuation_from_raw(raw as int))
                },
            },
    {
        let value = actuation_from_raw(raw);
        let mut i: usize = 0;
        assert(names@.take(0) =~= Seq::<&str>::empty());
        while i < names.len()
            invariant
                value == spec_actuation_from_raw(raw as int),
                i <= names@.len(),
                self@.downstroke == old(self)@.downstroke,
                self@.upstroke == old(self)@.upstroke,
                self@.actuation == with_keys(old(self)@.actuation, names@.take(i as int), value),
                first_unknown_from(names@, i as int) == first_unknown(names@),
                forall|j: int| 0 <= j < i ==> spec_index_of(#[trigger] names@[j].spec_bytes()) is Some,
            decreases names@.len() - i,
        {
            proof {
                use_type_invariant(&*self);
            }
            let name = names[i];
            assert(names@.take(i + 1).drop_last() =~= names@.take(i as int));
            assert(names@.take(i + 1).last() == names@[i as int]);
            match index_of(name) {
                Some(idx) => {
                    self.actuation[idx] = value;
                },
                None => {
                    proof {
                        use_type_invariant(&*self);
                    }
                    return Err(Error::UnknownKey(String::from_str(name)));
                },
            }
            i = i + 1;
        }
        assert(names@.take(names@.len() as int) =~= names@);
        proof {
            use_type_invariant(&*self);
        }
        Ok(())
    }

    /// Set every key to the raw `mm * 10` reading `raw`, clamped into the
    /// supported range.
    pub fn set_actuation_all(&mut self, raw: i32)
        ensures
            final(self)@.actuation == uniform(spec_actuation_from_raw(raw as int)),
            actuation_in_range(final(self)@.actuation),
            final(self)@.downstroke == old(self)@.downstroke,
            final(self)@.upstroke == old(self)@.upstroke,
    {
        let value = actuation_from_raw(raw);
        self.actuation = [value; TOTAL_KEYS];
        assert(self@.actuation =~= uniform(value));
    }

    /// Replace the whole actuation map from raw `mm * 10` readings: slot `i`
    /// takes `raws[i]` clamped into the supported range; slots past the end of
    /// `raws` take the default actuation, and readings past the last slot are
    /// dropped.
    pub fn set_actuation_map(&mut self, raws: &[i32])
        ensures
            final(self)@.actuation == Seq::new(
                TOTAL_KEYS as nat,
                |i: int|
                    if i < raws@.len() {
                        spec_actuation_from_raw(raws@[i] as int)
                    } else {
                        DEFAULT_ACTUATION
                    },
            ),
            actuation_in_range(final(self)@.actuation),
            final(self)@.downstroke == old(self)@.downstroke,
            final(self)@.upstroke == old(self)@.upstroke,
    {
        let mut map = [DEFAULT_ACTUATION; TOTAL_KEYS];
        let mut i: usize = 0;
        while i < TOTAL_KEYS && i < raws.len()
            invariant
                i <= TOTAL_KEYS,
                i <= raws@.len(),
                forall|j: int|
                    0 <= j < TOTAL_KEYS ==> #[trigger] map@[j] == if j < i {
                        spec_actuation_from_raw(raws@[j] as int)
                    } else {
                        DEFAULT_ACTUATION
                    },
            decreases TOTAL_KEYS - i,
        {
            map[i] = actuation_from_raw(raws[i]);
            i = i + 1;
        }
        self.actuation = map;
        assert(self@.actuation =~= Seq::new(
            TOTAL_KEYS as nat,
            |i: int|
                if i < raws@.len() {
                    spec_actuation_from_raw(raws@[i] as int)
                } else {
                    DEFAULT_ACTUATION
                },
        ));
    }

    /// Set one key slot to the raw `mm * 10` reading `raw`, clamped into the
    /// supported range; an index past the last slot is ignored.
    pub fn set_actuation_index(&mut self, index: usize, raw: i32)
        ensures
            final(self)@.actuation == spec_write_slot(
                old(self)@.actuation,
                index as int,
                spec_actuation_from_raw(raw as int),
            ),
            actuation_in_range(final(self)@.actuation),
            final(self)@.downstroke == old(self)@.downstroke,
            final(self)@.upstroke == old(self)@.upstroke,
    {
        proof {
            use_type_invariant(&*self);
        }
        if index < TOTAL_KEYS {
            self.actuation[index] = actuation_from_raw(raw);
        }
        proof {
            use_type_invariant(&*self);
        }
    }

    /// The in-memory actuation byte of a key slot (0 past the last slot).
    pub fn actuation(&self, index: usize) -> (b: u8)
        ensures
            b == spec_read_slot(self@.actuation, index as int),
    {
        if index < TOTAL_KEYS {
            self.actuation[index]
        } else {
            0
        }
    }

    /// The packets that push the in-memory actuation map to the device.
    pub fn flush_actuation(&self) -> (packets: Vec<Payload>)
        ensures
            payload_bytes(packets@) == spec_row_packets(self@.actuation, RowKind::Actuation),
            actuation_in_range(self@.actuation),
            forall|r: int, i: int|
                0 <= r < 3 && 0 <= i < row_capacity(r as u8) ==> ACTUATION_MIN <= #[trigger] packets@[r]@[4
                    + i] <= ACTUATION_MAX,
        packets@.len() == 3,
        forall|r: int|
            0 <= r < 3 ==> (#[trigger] packets@[r])@[0] == 0xB6u8 && packets@[r]@[1] == 0x01u8
                && packets@[r]@[2] == 0x00u8 && packets@[r]@[3] == r as u8,
    {
        proof {
            use_type_invariant(self);
            lemma_row_packets_in_range(self@.actuation);
        }
        let packets = row_packets(&self.actuation, RowKind::Actuation);
        proof {
            assert(payload_bytes(packets@).len() == 3);
            assert(packets@.len() == 3);
            assert forall|r: int, i: int|
                0 <= r < 3 && 0 <= i < row_capacity(r as u8) implies ACTUATION_MIN
                    <= #[trigger] packets@[r]@[4 + i] <= ACTUATION_MAX by {
                assert(payload_bytes(packets@)[r] == packets@[r]@);
                assert(spec_row_packets(self@.actuation, RowKind::Actuation)[r][4 + i]
                    == packets@[r]@[4 + i]);
            }
        }
        packets
    }

    /// The packets that push the rapid-trigger downstroke map, then the upstroke
    /// map, to the device.
    pub fn flush_rapid_trigger_curve(&self) -> (packets: Vec<Payload>)
        ensures
            payload_bytes(packets@) == spec_row_packets(self@.downstroke, RowKind::Downstroke)
                + spec_row_packets(self@.upstroke, RowKind::Upstroke),
    {
        let mut packets = row_packets(&self.downstroke, RowKind::Downstroke);
        let mut up = row_packets(&self.upstroke, RowKind::Upstroke);
        let ghost a = packets@;
        let ghost b = up@;
        packets.append(&mut up);
        assert(payload_bytes(packets@) =~= payload_bytes(a) + payload_bytes(b));
        packets
    }

    /// Apply a profile given as raw `mm * 10` readings, each clamped into the
    /// supported range: every key to `actuation`, then each key of `names` to
    /// the reading at the same position of `values`. On
    /// success, returns the packets that push it: the actuation rows, then the
    /// rapid-trigger / turbo toggle. Stops at the first name that is no key, with
    /// [`Error::UnknownKey`]; the mirror then holds the global value with the
    /// overrides before that name.
    pub fn apply_profile(
        &mut self,
        actuation: i32,
        names: &[&str],
        values: &[i32],
        rapid_trigger: bool,
        turbo: bool,
    ) -> (r: Result<Vec<Payload>, Error>)
        requires
            names@.len() == values@.len(),
        ensures
            actuation_in_range(final(self)@.actuation),
            final(self)@.downstroke == old(self)@.downstroke,
            final(self)@.upstroke == old(self)@.upstroke,
            match first_unknown(names@) {
                None => {
                    &&& final(self)@.actuation == with_overrides(uniform(spec_actuation_from_raw(actuation as int)), names@, clamp_all(values@))
                    &&& r matches Ok(packets) && payload_bytes(packets@) == spec_row_packets(
                        final(self)@.actuation,
                        RowKind::Actuation,
                    ).push(spec_rapid_trigger_turbo(rapid_trigger, turbo))
                },
                Some(k) => {
                    &&& r matches Err(Error::UnknownKey(s)) && s@ == names@[k]@
                    &&& final(self)@.actuation == with_overrides(
                        uniform(spec_actuation_from_raw(actuation as int)),
                        names@.take(k),
                        clamp_all(values@),
                    )
                },
            },
    {
        self.set_actuation_all(actuation);
        let mut i: usize = 0;
        assert(names@.take(0) =~= Seq::<&str>::empty());
        while i < names.len()
            invariant
                names@.len() == values@.len(),
                i <= names@.len(),
                self@.downstroke == old(self)@.downstroke,
                self@.upstroke == old(self)@.upstroke,
                self@.actuation == with_overrides(
                    uniform(spec_actuation_from_raw(actuation as int)),
                    names@.take(i as int),
                    clamp_all(values@),
                ),
                first_unknown_from(names@, i as int) == first_unknown(names@),
            decreases names@.len() - i,
        {
            proof {
                use_type_invariant(&*self);
            }
            let name = names[i];
            assert(names@.take(i + 1).drop_last() =~= names@.take(i as int));
            assert(names@.take(i + 1).last() == names@[i as int]);
            match index_of(name) {
                Some(idx) => {
                    self.actuation[idx] = actuation_from_raw(values[i]);
                },
                None => {
                    proof {
                        use_type_invariant(&*self);
                    }
                    return Err(Error::UnknownKey(String::from_str(name)));
                },
            }
            i = i + 1;
        }
        assert(names@.take(names@.len() as int) =~= names@);
        let mut packets = self.flush_actuation();
        let ghost rows = packets@;
        packets.push(rapid_trigger_turbo(rapid_trigger, turbo));
        assert(payload_bytes(packets@) =~= payload_bytes(rows).push(
            spec_rapid_trigger_turbo(rapid_trigger, turbo),
        ));
        Ok(packets)
    }

    /// Restore factory-ish defaults in memory (2.0 mm actuation, no rapid-trigger
    /// sensitivity) and return the packets that restore them on the device, in
    /// order: lights off, rapid trigger and turbo off, the actuation rows, then
    /// the downstroke and upstroke rows.
    pub fn write_defaults(&mut self) -> (packets: Vec<Payload>)
        ensures
            actuation_in_range(final(self)@.actuation),
            final(self)@.actuation == uniform(DEFAULT_ACTUATION),
            final(self)@.downstroke == uniform(0),
            final(self)@.upstroke == uniform(0),
            payload_bytes(packets@) == seq![
                spec_led_mode(0, LedSequence::Off, 5, 9, 0xff, false),
                spec_rapid_trigger_turbo(false, false),
            ] + spec_row_packets(uniform(DEFAULT_ACTUATION), RowKind::Actuation)
                + spec_row_packets(uniform(0), RowKind::Downstroke) + spec_row_packets(
                uniform(0),
                RowKind::Upstroke,
            ),
    {
        self.actuation = [DEFAULT_ACTUATION; TOTAL_KEYS];
        self.downstroke = [0u8; TOTAL_KEYS];
        self.upstroke = [0u8; TOTAL_KEYS];
        assert(self@.actuation =~= uniform(DEFAULT_ACTUATION));
        assert(self@.downstroke =~= uniform(0));
        assert(self@.upstroke =~= uniform(0));
        let mut packets: Vec<Payload> = Vec::new();
        packets.push(led_mode(0, LedSequence::Off, 5, 9, 0xff, false));
        packets.push(rapid_trigger_turbo(false, false));
        let ghost head = packets@;
        let mut act = self.flush_actuation();
        let ghost act_v = act@;
        packets.append(&mut act);
        let mut curve = self.flush_rapid_trigger_curve();
        let ghost curve_v = curve@;
        packets.append(&mut curve);
        assert(payload_bytes(head) =~= seq![
            spec_led_mode(0, LedSequence::Off, 5, 9, 0xff, false),
            spec_rapid_trigger_turbo(false, false),
        ]);
        assert(payload_bytes(packets@) =~= payload_bytes(head) + payload_bytes(act_v)
            + payload_bytes(curve_v));
        packets
    }
}

/// The state of a key-depth frame being assembled: the per-slot travel read so
/// far, and which of the three protocol rows have arrived.
pub struct DepthView {
    pub frame: Seq<u8>,
    pub seen: Seq<bool>,
}

/// A key-depth frame being assembled from the three `0xB7` row reports that
/// answer one key-tracking request.
pub struct DepthFrame {
    frame: [u8; TOTAL_KEYS],
    seen: [bool; 3],
}

impl View for DepthFrame {
    type V = DepthView;

    closed spec fn view(&self) -> DepthView {
        DepthView { frame: self.frame@, seen: self.seen@ }
    }
}

/// The protocol row carried by an inbound report, when it is a key-depth report
/// for one of the three rows.
pub open spec fn depth_row(data: Seq<u8>) -> Option<int> {
    if data.len() < 5 || data[0] != cmd::KEY_TRACKING || data[3] >= 3 {
        None
    } else {
        Some(data[3] as int)
    }
}

/// Number of key slots a depth report for `row` carries.
pub open spec fn depth_row_len(row: int) -> int {
    if row == 2 {
        LAST_ROW_KEYS as int
    } else {
        KEYS_PER_ROW as int
    }
}

/// The assembly state after one inbound report: a depth report for row `r`
/// writes its values (from payload byte 4 on, at most the row's slot count) into
/// the slots from `r * 59` and marks the row as seen; any other report changes
/// nothing.
pub open spec fn spec_absorb(state: DepthView, data: Seq<u8>) -> DepthView {
    match depth_row(data) {
        None => state,
        Some(row) => {
            let base = row * KEYS_PER_ROW;
            DepthView {
                frame: Seq::new(
                    TOTAL_KEYS as nat,
                    |s: int|
                        if base <= s < base + depth_row_len(row) && 4 + (s - base) < data.len() {
                            data[4 + (s - base)]
                        } else {
                            state.frame[s]
                        },
                ),
                seen: state.seen.update(row, true),
            }
        },
    }
}

/// A key-depth report (`0xB7`, row `r < 3` in byte 3, at least five bytes)
/// writes its values from payload byte 4 on: the `i`-th of the row's 59 (8 for
/// row 2) slots, at frame slot `r * 59 + i`, takes byte `4 + i` whenever the
/// report is long enough to hold it, whatever its length; every other slot
/// keeps its value and row `r` is marked seen. Any other report changes
/// nothing.
pub proof fn lemma_absorb_reads_payload(state: DepthView, data: Seq<u8>)
    requires
        state.frame.len() == 126,
    ensures
        spec_absorb(state, data).frame.len() == 126,
        data.len() >= 5 && data[0] == 0xB7u8 && data[3] < 3 ==> {
            let next = spec_absorb(state, data);
            let base = data[3] * 59;
            let n = if data[3] == 2 { 8int } else { 59int };
            &&& forall|i: int|
                0 <= i < n && 4 + i < data.len() ==> #[trigger] next.frame[base + i] == data[4 + i]
            &&& forall|s: int|
                0 <= s < 126 && !(base <= s < base + n && s - base + 4 < data.len())
                    ==> #[trigger] next.frame[s] == state.frame[s]
            &&& next.seen == state.seen.update(data[3] as int, true)
        },
        !(data.len() >= 5 && data[0] == 0xB7u8 && data[3] < 3) ==> spec_absorb(state, data)
            == state,
{
}

impl DepthFrame {
    /// An empty frame: every slot at 0 and no row seen yet.
    pub fn new() -> (d: DepthFrame)
        ensures
            d@.frame == uniform(0),
            d@.seen == seq![false, false, false],
    {
        let d = DepthFrame { frame: [0u8; TOTAL_KEYS], seen: [false; 3] };
        assert(d@.frame =~= uniform(0));
        assert(d@.seen =~= seq![false, false, false]);
        d
    }

    /// Fold one inbound report into the frame.
    pub fn absorb(&mut self, data: &[u8])
        ensures
            final(self)@ == spec_absorb(old(self)@, data@),
            final(self)@.frame.len() == 126,
            data@.len() >= 5 && data@[0] == 0xB7u8 && data@[3] < 3 ==> {
                let base = data@[3] * 59;
                let n = if data@[3] == 2 { 8int } else { 59int };
                &&& forall|i: int|
                    0 <= i < n && 4 + i < data@.len() ==> #[trigger] final(self)@.frame[base + i]
                        == data@[4 + i]
                &&& forall|s: int|
                    0 <= s < 126 && !(base <= s < base + n && s - base + 4 < data@.len())
                        ==> #[trigger] final(self)@.frame[s] == old(self)@.frame[s]
                &&& final(self)@.seen == old(self)@.seen.update(data@[3] as int, true)
            },
            !(data@.len() >= 5 && data@[0] == 0xB7u8 && data@[3] < 3) ==> final(self)@ == old(
                self,
            )@,
    {
        proof {
            lemma_absorb_reads_payload(old(self)@, data@);
        }
        if data.len() < 5 || data[0] != cmd::KEY_TRACKING || data[3] >= 3 {
            return;
        }
        let row = data[3] as usize;
        let base = row * KEYS_PER_ROW;
        let count = if row == 2 { LAST_ROW_KEYS } else { KEYS_PER_ROW };
        let ghost old_frame = self.frame@;
        let mut i: usize = 0;
        while i < count && 4 + i < data.len()
            invariant
                row < 3,
                base == row * KEYS_PER_ROW,
                count == depth_row_len(row as int),
                base + count <= TOTAL_KEYS,
                i <= count,
                4 + i <= data@.len() || i == 0,
                self.frame@.len() == TOTAL_KEYS,
                old_frame.len() == TOTAL_KEYS,
                old_frame == old(self)@.frame,
                self.seen@ == old(self)@.seen,
                forall|s: int|
                    0 <= s < TOTAL_KEYS ==> #[trigger] self.frame@[s] == if base <= s < base + i {
                        data@[4 + (s - base)]
                    } else {
                        old_frame[s]
                    },
            decreases count - i,
        {
            self.frame[base + i] = data[4 + i];
            i = i + 1;
        }
        self.seen[row] = true;
        proof {
            let expect = spec_absorb(old(self)@, data@);
            assert(self@.frame =~= expect.frame);
            assert(self@.seen =~= expect.seen);
        }
    }

    /// All three rows have arrived.
    pub fn is_complete(&self) -> (r: bool)
        ensures
            r == (self@.seen[0] && self@.seen[1] && self@.seen[2]),
    {
        self.seen[0] && self.seen[1] && self.seen[2]
    }

    /// The assembled frame, when at least one row arrived.
    pub fn finish(&self) -> (r: Option<[u8; TOTAL_KEYS]>)
        ensures
            match r {
                Some(f) => (self@.seen[0] || self@.seen[1] || self@.seen[2]) && f@ == self@.frame,
                None => !(self@.seen[0] || self@.seen[1] || self@.seen[2]),
            },
    {
        if self.seen[0] || self.seen[1] || self.seen[2] {
            Some(self.frame)
        } else {
            None
        }
    }
}

/// The key-depth report a keyboard sends for protocol row `row` of frame `f`.
pub open spec fn depth_report(f: Seq<u8>, row: int) -> Seq<u8> {
    seq![cmd::KEY_TRACKING, 0u8, 0u8, row as u8] + row_chunk(f, row)
}

/// A frame's row report fills exactly the slots of its row with the frame's
/// values and marks the row as seen; every other slot and row is left as it is.
pub proof fn lemma_absorb_row(state: DepthView, f: Seq<u8>, row: int)
    requires
        f.len() == TOTAL_KEYS,
        state.frame.len() == TOTAL_KEYS,
        state.seen.len() == 3,
        0 <= row < 3,
    ensures
        ({
            let next = spec_absorb(state, depth_report(f, row));
            &&& next.seen == state.seen.update(row, true)
            &&& next.frame.len() == TOTAL_KEYS
            &&& forall|s: int|
                0 <= s < TOTAL_KEYS ==> #[trigger] next.frame[s] == if row * KEYS_PER_ROW <= s
                    < row * KEYS_PER_ROW + depth_row_len(row) {
                    f[s]
                } else {
                    state.frame[s]
                }
        }),
{
    let r = depth_report(f, row);
    assert(r[0] == cmd::KEY_TRACKING);
    assert(r[3] == row as u8);
    assert(depth_row(r) == Some(row));
    let next = spec_absorb(state, r);
    assert forall|s: int| 0 <= s < TOTAL_KEYS implies #[trigger] next.frame[s] == if row
        * KEYS_PER_ROW <= s < row * KEYS_PER_ROW + depth_row_len(row) {
        f[s]
    } else {
        state.frame[s]
    } by {
        if row * KEYS_PER_ROW <= s < row * KEYS_PER_ROW + depth_row_len(row) {
            assert(r[4 + (s - row * KEYS_PER_ROW)] == row_chunk(f, row)[s - row * KEYS_PER_ROW]);
        }
    }
}

/// Assembling the three row reports of a frame, in any order of arrival after
/// an empty start, reproduces that frame with every row seen.
pub proof fn lemma_depth_frame_round_trip(f: Seq<u8>, a: int, b: int, c: int)
    requires
        f.len() == TOTAL_KEYS,
        0 <= a < 3,
        0 <= b < 3,
        0 <= c < 3,
        a != b,
        b != c,
        a != c,
    ensures
        ({
            let start = DepthView { frame: uniform(0), seen: seq![false, false, false] };
            let done = spec_absorb(
                spec_absorb(spec_absorb(start, depth_report(f, a)), depth_report(f, b)),
                depth_report(f, c),
            );
            done.frame == f && done.seen == seq![true, true, true]
        }),
{
    let start = DepthView { frame: uniform(0), seen: seq![false, false, false] };
    lemma_absorb_row(start, f, a);
    let s1 = spec_absorb(start, depth_report(f, a));
    lemma_absorb_row(s1, f, b);
    let s2 = spec_absorb(s1, depth_report(f, b));
    lemma_absorb_row(s2, f, c);
    let s3 = spec_absorb(s2, depth_report(f, c));
    assert forall|s: int| 0 <= s < TOTAL_KEYS implies #[trigger] s3.frame[s] == f[s] by {
        let row = s / KEYS_PER_ROW as int;
        assert(row * KEYS_PER_ROW <= s < row * KEYS_PER_ROW + depth_row_len(row));
        assert(s1.frame[s] == if row == a { f[s] } else { uniform(0)[s] });
        assert(s2.frame[s] == if row == b { f[s] } else { s1.frame[s] });
    }
    assert(s3.frame =~= f);
    assert(s3.seen =~= seq![true, true, true]);
}

} // verus!
