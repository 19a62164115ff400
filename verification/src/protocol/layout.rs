//! Physical key layout and name <-> index mapping.
//!
//! The device addresses keys as a flat array of [`TOTAL_KEYS`] slots laid out in
//! visual reading order (6 matrix rows of 21 columns). Empty strings are matrix
//! gaps that have no physical key. The "row" of a modify-row packet is a protocol
//! slice of this flat array (row 0 = slots `0..59`, row 1 = `59..118`, row 2 =
//! `118..126`), not a visual row.
use vstd::prelude::*;
use vstd::string::StringSliceAdditionalSpecFns;

use super::consts::{KEYS_PER_ROW, TOTAL_KEYS};

verus! {

/// Flat key map, indexed by device key slot. Empty strings are matrix gaps.
pub const KEYBOARD_LAYOUT: [&'static str; TOTAL_KEYS] = [
    "ESC", "", "F1", "F2", "F3", "F4", "F5", "F6", "F7", "F8", "F9", "F10", "F11", "F12", "KP7", "KP8", "KP9", "", "", "", "",
    "TILDE", "1", "2", "3", "4", "5", "6", "7", "8", "9", "0", "MINUS", "PLUS", "BACK", "KP4", "KP5", "KP6", "", "", "", "",
    "TAB", "Q", "W", "E", "R", "T", "Y", "U", "I", "O", "P", "BRKTS_L", "BRKTS_R", "SLASH_K29", "KP1", "KP2", "KP3", "", "", "", "",
    "CAPS", "A", "S", "D", "F", "G", "H", "J", "K", "L", "COLON", "QOTATN", "", "RETURN", "", "KP0", "KP_DEL", "", "", "", "",
    "SHF_L", "EUR_K45", "Z", "X", "C", "V", "B", "N", "M", "COMMA", "PERIOD", "SLASH", "", "SHF_R", "ARR_UP", "", "NUMS", "", "", "", "",
    "CTRL_L", "WIN_L", "ALT_L", "", "", "", "SPACE", "", "", "", "ALT_R", "FN1", "APP", "ARR_L", "ARR_DW", "ARR_R", "CTRL_R", "", "", "", "",
];

/// W, A, S, D slot indices.
pub const WASD_KEYS: [usize; 4] = [44, 64, 65, 66];

/// ASCII lowercase of one byte; every other byte is left as it is.
pub open spec fn ascii_lower(b: u8) -> u8 {
    if 0x41 <= b <= 0x5A {
        (b + 0x20) as u8
    } else {
        b
    }
}

/// Two byte strings are equal once ASCII letters are folded to lowercase.
pub open spec fn eq_ignore_ascii_case(a: Seq<u8>, b: Seq<u8>) -> bool {
    &&& a.len() == b.len()
    &&& forall|i: int| 0 <= i < a.len() ==> ascii_lower(#[trigger] a[i]) == ascii_lower(b[i])
}

/// The name of slot `i` (empty for a matrix gap).
pub open spec fn slot_name(i: int) -> &'static str {
    KEYBOARD_LAYOUT@[i]
}

/// Slot `i` holds a physical key whose name equals `name` up to ASCII case.
pub open spec fn slot_matches(i: int, name: Seq<u8>) -> bool {
    &&& 0 <= i < TOTAL_KEYS
    &&& slot_name(i)@.len() > 0
    &&& eq_ignore_ascii_case(slot_name(i).spec_bytes(), name)
}

/// ASCII case-insensitive comparison of two strings, byte by byte.
pub fn str_eq_ignore_ascii_case(a: &str, b: &str) -> (r: bool)
    ensures
        r == eq_ignore_ascii_case(a.spec_bytes(), b.spec_bytes()),
{
    let x = a.as_bytes();
    let y = b.as_bytes();
    if x.len() != y.len() {
        return false;
    }
    let mut i: usize = 0;
    while i < x.len()
        invariant
            x@ == a.spec_bytes(),
            y@ == b.spec_bytes(),
            x@.len() == y@.len(),
            i <= x@.len(),
            forall|j: int| 0 <= j < i ==> ascii_lower(#[trigger] x@[j]) == ascii_lower(y@[j]),
        decreases x@.len() - i,
    {
        let cx = x[i];
        let cy = y[i];
        let lx = if 0x41 <= cx && cx <= 0x5A { cx + 0x20 } else { cx };
        let ly = if 0x41 <= cy && cy <= 0x5A { cy + 0x20 } else { cy };
        if lx != ly {
            assert(ascii_lower(x@[i as int]) != ascii_lower(y@[i as int]));
            return false;
        }
        i = i + 1;
    }
    true
}

/// The first slot at or after `from` whose key matches `name` up to ASCII case.
pub open spec fn first_slot_from(name: Seq<u8>, from: int) -> Option<usize>
    decreases TOTAL_KEYS - from,
{
    if from < 0 || from >= TOTAL_KEYS {
        None
    } else if slot_matches(from, name) {
        Some(from as usize)
    } else {
        first_slot_from(name, from + 1)
    }
}

/// The slot a key name resolves to: the first slot whose key name equals it up
/// to ASCII case.
pub open spec fn spec_index_of(name: Seq<u8>) -> Option<usize> {
    first_slot_from(name, 0)
}

/// `first_slot_from` finds the first matching slot of the range it searches.
pub proof fn lemma_first_slot_from(name: Seq<u8>, from: int)
    requires
        0 <= from <= TOTAL_KEYS,
    ensures
        match first_slot_from(name, from) {
            Some(k) => from <= k < TOTAL_KEYS && slot_matches(k as int, name) && forall|j: int|
                from <= j < k ==> !slot_matches(j, name),
            None => forall|j: int| from <= j < TOTAL_KEYS ==> !slot_matches(j, name),
        },
    decreases TOTAL_KEYS - from,
{
    if from < TOTAL_KEYS && !slot_matches(from, name) {
        lemma_first_slot_from(name, from + 1);
    }
}

/// Resolve a key name (case-insensitive) to its device slot index.
pub fn index_of(name: &str) -> (r: Option<usize>)
    ensures
        r == spec_index_of(name.spec_bytes()),
        match r {
            Some(i) => slot_matches(i as int, name.spec_bytes()) && forall|j: int|
                0 <= j < i ==> !slot_matches(j, name.spec_bytes()),
            None => forall|j: int| !slot_matches(j, name.spec_bytes()),
        },
{
    proof {
        lemma_first_slot_from(name.spec_bytes(), 0);
    }
    let mut i: usize = 0;
    while i < TOTAL_KEYS
        invariant
            i <= TOTAL_KEYS,
            forall|j: int| 0 <= j < i ==> !slot_matches(j, name.spec_bytes()),
            first_slot_from(name.spec_bytes(), i as int) == spec_index_of(name.spec_bytes()),
        decreases TOTAL_KEYS - i,
    {
        let k = KEYBOARD_LAYOUT[i];
        if !k.is_empty() && str_eq_ignore_ascii_case(k, name) {
            return Some(i);
        }
        i = i + 1;
    }
    None
}

/// The name of slot `index`, when it holds a physical key.
pub open spec fn spec_name_of(index: int) -> Option<&'static str> {
    if 0 <= index < TOTAL_KEYS && slot_name(index)@.len() > 0 {
        Some(slot_name(index))
    } else {
        None
    }
}

/// Resolve a device slot index back to its key name.
pub fn name_of(index: usize) -> (r: Option<&'static str>)
    ensures
        r == spec_name_of(index as int),
{
    if index < TOTAL_KEYS {
        let k = KEYBOARD_LAYOUT[index];
        if k.is_empty() {
            None
        } else {
            Some(k)
        }
    } else {
        None
    }
}

/// A name resolves to a slot whose key name equals it up to ASCII case, and
/// resolving that slot's name again gives the same slot.
pub proof fn lemma_index_then_name(name: Seq<u8>)
    ensures
        match spec_index_of(name) {
            Some(i) => spec_name_of(i as int) matches Some(n) && eq_ignore_ascii_case(
                n.spec_bytes(),
                name,
            ),
            None => forall|i: int| 0 <= i < TOTAL_KEYS ==> !slot_matches(i, name),
        },
{
    lemma_first_slot_from(name, 0);
}

/// Resolving the name of a physical key gives back its own slot.
pub proof fn lemma_name_then_index(index: int)
    ensures
        spec_name_of(index) matches Some(n) ==> spec_index_of(n.spec_bytes()) == Some(
            index as usize,
        ),
{
    if let Some(n) = spec_name_of(index) {
        let b = n.spec_bytes();
        assert(eq_ignore_ascii_case(b, b));
        assert(slot_matches(index, b));
        lemma_first_slot_from(b, 0);
        let j = spec_index_of(b).unwrap() as int;
        super::layout_names::lemma_names_distinct(j, index);
    }
}

/// The WASD slots hold the keys W, A, S and D.
pub proof fn lemma_wasd_names()
    ensures
        spec_name_of(WASD_KEYS@[0] as int) == Some("W"),
        spec_name_of(WASD_KEYS@[1] as int) == Some("A"),
        spec_name_of(WASD_KEYS@[2] as int) == Some("S"),
        spec_name_of(WASD_KEYS@[3] as int) == Some("D"),
{
    reveal_strlit("W");
    reveal_strlit("A");
    reveal_strlit("S");
    reveal_strlit("D");
}

/// Each protocol row covers its own run of slots: row 0 is `0..59`, row 1 is
/// `59..118` and row 2 is `118..126`.
pub proof fn lemma_row_of_bounds(index: int)
    requires
        0 <= index < TOTAL_KEYS,
    ensures
        0 <= index / KEYS_PER_ROW as int <= 2,
        index / KEYS_PER_ROW as int * KEYS_PER_ROW <= index,
        index < (index / KEYS_PER_ROW as int + 1) * KEYS_PER_ROW,
        index / KEYS_PER_ROW as int == 2 ==> index - 2 * KEYS_PER_ROW < 8,
{
}

/// Which row packet (0, 1, or 2) a given slot index belongs to.
pub fn row_of(index: usize) -> (row: usize)
    ensures
        row == index / KEYS_PER_ROW,
{
    index / KEYS_PER_ROW
}

} // verus!
