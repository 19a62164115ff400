//! On-cap labels and lighting names shown by the configuration UI.
use vstd::prelude::*;
use vstd::string::{StrSliceExecFns, StringSliceAdditionalSpecFns};

use crate::protocol::consts::{LedSequence, TOTAL_KEYS};
use crate::protocol::layout::{name_of, spec_name_of, WASD_KEYS};

verus! {

/// Exact equality of two strings, by their bytes.
pub fn str_eq(a: &str, b: &str) -> (r: bool)
    ensures
        r == (a@ == b@),
{
    let x = a.as_bytes();
    let y = b.as_bytes();
    proof {
        vstd::utf8::encode_utf8_decode_utf8(a@);
        vstd::utf8::encode_utf8_decode_utf8(b@);
    }
    if x.len() != y.len() {
        return false;
    }
    let mut i: usize = 0;
    while i < x.len()
        invariant
            x@ == a.spec_bytes(),
            y@ == b.spec_bytes(),
            x@.len() == y@.len(),
            i <= x@.len(),
            forall|j: int| 0 <= j < i ==> x@[j] == y@[j],
        decreases x@.len() - i,
    {
        if x[i] != y[i] {
            return false;
        }
        i = i + 1;
    }
    assert(x@ =~= y@);
    true
}

/// The on-cap label of a device key name.
pub open spec fn spec_short_label(name: Seq<char>) -> Seq<char> {
    if name == "TILDE"@ {
        "~"@
    } else if name == "MINUS"@ {
        "-"@
    } else if name == "PLUS"@ {
        "="@
    } else if name == "BACK"@ {
        "Bksp"@
    } else if name == "TAB"@ {
        "Tab"@
    } else if name == "BRKTS_L"@ {
        "["@
    } else if name == "BRKTS_R"@ {
        "]"@
    } else if name == "SLASH_K29"@ {
        "\\"@
    } else if name == "CAPS"@ {
        "Caps"@
    } else if name == "COLON"@ {
        ";"@
    } else if name == "QOTATN"@ {
        "'"@
    } else if name == "RETURN"@ {
        "Enter"@
    } else if name == "SHF_L"@ || name == "SHF_R"@ {
        "Shift"@
    } else if name == "EUR_K45"@ {
        "\\"@
    } else if name == "COMMA"@ {
        ","@
    } else if name == "PERIOD"@ {
        "."@
    } else if name == "SLASH"@ {
        "/"@
    } else if name == "CTRL_L"@ || name == "CTRL_R"@ {
        "Ctrl"@
    } else if name == "WIN_L"@ {
        "Win"@
    } else if name == "ALT_L"@ || name == "ALT_R"@ {
        "Alt"@
    } else if name == "SPACE"@ {
        "Space"@
    } else if name == "APP"@ {
        "Menu"@
    } else if name == "ARR_UP"@ {
        "Up"@
    } else if name == "ARR_DW"@ {
        "Dn"@
    } else if name == "ARR_L"@ {
        "Lt"@
    } else if name == "ARR_R"@ {
        "Rt"@
    } else if name == "NUMS"@ {
        "Num"@
    } else if name == "KP_DEL"@ {
        "Del"@
    } else if name.len() >= 2 && name[0] == 'K' && name[1] == 'P' {
        name.subrange(2, name.len() as int)
    } else {
        name
    }
}

/// Friendlier on-cap labels for the device's terse key names; keypad keys drop
/// their `KP` prefix, and any other name is its own label.
pub fn short_label(name: &str) -> (r: &str)
    ensures
        r@ == spec_short_label(name@),
{
    if str_eq(name, "TILDE") {
        "~"
    } else if str_eq(name, "MINUS") {
        "-"
    } else if str_eq(name, "PLUS") {
        "="
    } else if str_eq(name, "BACK") {
        "Bksp"
    } else if str_eq(name, "TAB") {
        "Tab"
    } else if str_eq(name, "BRKTS_L") {
        "["
    } else if str_eq(name, "BRKTS_R") {
        "]"
    } else if str_eq(name, "SLASH_K29") {
        "\\"
    } else if str_eq(name, "CAPS") {
        "Caps"
    } else if str_eq(name, "COLON") {
        ";"
    } else if str_eq(name, "QOTATN") {
        "'"
    } else if str_eq(name, "RETURN") {
        "Enter"
    } else if str_eq(name, "SHF_L") || str_eq(name, "SHF_R") {
        "Shift"
    } else if str_eq(name, "EUR_K45") {
        "\\"
    } else if str_eq(name, "COMMA") {
        ","
    } else if str_eq(name, "PERIOD") {
        "."
    } else if str_eq(name, "SLASH") {
        "/"
    } else if str_eq(name, "CTRL_L") || str_eq(name, "CTRL_R") {
        "Ctrl"
    } else if str_eq(name, "WIN_L") {
        "Win"
    } else if str_eq(name, "ALT_L") || str_eq(name, "ALT_R") {
        "Alt"
    } else if str_eq(name, "SPACE") {
        "Space"
    } else if str_eq(name, "APP") {
        "Menu"
    } else if str_eq(name, "ARR_UP") {
        "Up"
    } else if str_eq(name, "ARR_DW") {
        "Dn"
    } else if str_eq(name, "ARR_L") {
        "Lt"
    } else if str_eq(name, "ARR_R") {
        "Rt"
    } else if str_eq(name, "NUMS") {
        "Num"
    } else if str_eq(name, "KP_DEL") {
        "Del"
    } else {
        let len = name.unicode_len();
        if len >= 2 && name.get_char(0) == 'K' && name.get_char(1) == 'P' {
            name.substring_char(2, len)
        } else {
            name
        }
    }
}

/// Lighting sequences offered in the UI, with their display names.
pub const SEQUENCES: [(LedSequence, &'static str); 10] = [
    (LedSequence::Off, "Off"),
    (LedSequence::Always, "Always on"),
    (LedSequence::Spectrum, "Spectrum"),
    (LedSequence::Breath, "Breath"),
    (LedSequence::Press, "Press"),
    (LedSequence::Stars, "Stars"),
    (LedSequence::Wave, "Wave"),
    (LedSequence::Surf, "Surf"),
    (LedSequence::Ripple, "Ripple"),
    (LedSequence::Snake, "Snake"),
];

/// The display name of a lighting sequence: its entry in [`SEQUENCES`], or
/// `"Custom"` for a sequence the UI does not offer.
pub open spec fn spec_sequence_name(seq: LedSequence) -> Seq<char> {
    match seq {
        LedSequence::Off => "Off"@,
        LedSequence::Always => "Always on"@,
        LedSequence::Spectrum => "Spectrum"@,
        LedSequence::Breath => "Breath"@,
        LedSequence::Press => "Press"@,
        LedSequence::Stars => "Stars"@,
        LedSequence::Wave => "Wave"@,
        LedSequence::Surf => "Surf"@,
        LedSequence::Ripple => "Ripple"@,
        LedSequence::Snake => "Snake"@,
        _ => "Custom"@,
    }
}

/// The display name of a lighting sequence.
pub fn sequence_name(seq: LedSequence) -> (s: &'static str)
    ensures
        s@ == spec_sequence_name(seq),
{
    let mut k: usize = 0;
    while k < SEQUENCES.len()
        invariant
            k <= SEQUENCES@.len(),
            forall|j: int| 0 <= j < k ==> (#[trigger] SEQUENCES@[j]).0 != seq,
        decreases SEQUENCES@.len() - k,
    {
        let (s, name) = SEQUENCES[k];
        if s == seq {
            return name;
        }
        k = k + 1;
    }
    "Custom"
}

/// The key selection that picks every slot holding a physical key.
pub fn selection_all() -> (sel: Vec<bool>)
    ensures
        sel@.len() == TOTAL_KEYS,
        forall|i: int| 0 <= i < TOTAL_KEYS ==> sel@[i] == (#[trigger] spec_name_of(i)).is_some(),
{
    let mut sel: Vec<bool> = Vec::new();
    let mut i: usize = 0;
    while i < TOTAL_KEYS
        invariant
            i <= TOTAL_KEYS,
            sel@.len() == i,
            forall|j: int| 0 <= j < i ==> sel@[j] == (#[trigger] spec_name_of(j)).is_some(),
        decreases TOTAL_KEYS - i,
    {
        sel.push(name_of(i).is_some());
        i = i + 1;
    }
    sel
}

/// The key selection that picks exactly the WASD slots.
pub fn selection_wasd() -> (sel: Vec<bool>)
    ensures
        sel@.len() == TOTAL_KEYS,
        forall|i: int|
            0 <= i < TOTAL_KEYS ==> (sel@[i] <==> exists|k: int|
                0 <= k < 4 && #[trigger] WASD_KEYS@[k] == i),
{
    let mut sel: Vec<bool> = Vec::new();
    let mut i: usize = 0;
    while i < TOTAL_KEYS
        invariant
            i <= TOTAL_KEYS,
            sel@.len() == i,
            forall|j: int|
                0 <= j < i ==> (sel@[j] <==> exists|k: int|
                    0 <= k < 4 && #[trigger] WASD_KEYS@[k] == j),
        decreases TOTAL_KEYS - i,
    {
        let mut hit = false;
        let mut k: usize = 0;
        while k < 4
            invariant
                k <= 4,
                hit <==> exists|m: int| 0 <= m < k && #[trigger] WASD_KEYS@[m] == i,
            decreases 4 - k,
        {
            if WASD_KEYS[k] == i {
                hit = true;
            }
            k = k + 1;
        }
        sel.push(hit);
        i = i + 1;
    }
    sel
}

/// The slots picked by a selection, in increasing order.
pub fn selected_indices(sel: &[bool]) -> (r: Vec<usize>)
    ensures
        forall|a: int, b: int| 0 <= a < b < r@.len() ==> r@[a] < r@[b],
        forall|a: int| 0 <= a < r@.len() ==> (#[trigger] r@[a]) < sel@.len() && sel@[r@[a] as int],
        forall|i: int| 0 <= i < sel@.len() && #[trigger] sel@[i] ==> r@.contains(i as usize),
{
    let mut r: Vec<usize> = Vec::new();
    let mut i: usize = 0;
    while i < sel.len()
        invariant
            i <= sel@.len(),
            forall|a: int, b: int| 0 <= a < b < r@.len() ==> r@[a] < r@[b],
            forall|a: int| 0 <= a < r@.len() ==> (#[trigger] r@[a]) < i && sel@[r@[a] as int],
            forall|j: int| 0 <= j < i && #[trigger] sel@[j] ==> r@.contains(j as usize),
        decreases sel@.len() - i,
    {
        if sel[i] {
            let ghost old_r = r@;
            r.push(i);
            proof {
                assert(r@[old_r.len() as int] == i);
                assert forall|j: int| 0 <= j <= i && #[trigger] sel@[j] implies r@.contains(j as usize) by {
                    if j < i {
                        let w = choose|w: int| 0 <= w < old_r.len() && old_r[w] == j as usize;
                        assert(r@[w] == j as usize);
                    } else {
                        assert(r@[old_r.len() as int] == j as usize);
                    }
                }
            }
        }
        i = i + 1;
    }
    r
}

} // verus!
