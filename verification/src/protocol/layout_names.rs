//! Proof that the key names of the layout are distinct up to ASCII case.
//!
//! Every key name is given a number, its case-folded code, which equal names
//! (up to ASCII case) share; the table below maps each slot's code back to the
//! slot, so two slots with names equal up to case are one slot.
use vstd::prelude::*;
use vstd::string::StringSliceAdditionalSpecFns;

use super::consts::TOTAL_KEYS;
use super::layout::{ascii_lower, eq_ignore_ascii_case, slot_name};

verus! {

/// The case-folded code of a byte string: its ASCII-lowercased bytes, each plus
/// one, read as the digits of a base-257 number.
pub open spec fn name_code(s: Seq<u8>) -> int
    decreases s.len(),
{
    if s.len() == 0 {
        0
    } else {
        name_code(s.drop_last()) * 257 + ascii_lower(s.last()) + 1
    }
}

/// Byte strings equal up to ASCII case have the same case-folded code.
pub proof fn lemma_name_code_ignores_case(a: Seq<u8>, b: Seq<u8>)
    requires
        eq_ignore_ascii_case(a, b),
    ensures
        name_code(a) == name_code(b),
    decreases a.len(),
{
    if a.len() > 0 {
        assert(eq_ignore_ascii_case(a.drop_last(), b.drop_last()));
        assert(ascii_lower(a[a.len() - 1]) == ascii_lower(b[a.len() - 1]));
        lemma_name_code_ignores_case(a.drop_last(), b.drop_last());
    }
}

/// The slot whose key name has case-folded code `c` (-1 when none has).
pub open spec fn slot_of_code(c: int) -> int {
    if c == 6766910 {
        0
    } else if c == 26521 {
        2
    } else if c == 26522 {
        3
    } else if c == 26523 {
        4
    } else if c == 26524 {
        5
    } else if c == 26525 {
        6
    } else if c == 26526 {
        7
    } else if c == 26527 {
        8
    } else if c == 26528 {
        9
    } else if c == 26529 {
        10
    } else if c == 6815946 {
        11
    } else if c == 6815947 {
        12
    } else if c == 6815948 {
        13
    } else if c == 7162389 {
        14
    } else if c == 7162390 {
        15
    } else if c == 7162391 {
        16
    } else if c == 512215569175 {
        21
    } else if c == 50 {
        22
    } else if c == 51 {
        23
    } else if c == 52 {
        24
    } else if c == 53 {
        25
    } else if c == 54 {
        26
    } else if c == 55 {
        27
    } else if c == 56 {
        28
    } else if c == 57 {
        29
    } else if c == 58 {
        30
    } else if c == 49 {
        31
    } else if c == 481678412849 {
        32
    } else if c == 1925358792 {
        33
    } else if c == 1686983317 {
        34
    } else if c == 7162386 {
        35
    } else if c == 7162387 {
        36
    } else if c == 7162388 {
        37
    } else if c == 7753018 {
        42
    } else if c == 114 {
        43
    } else if c == 120 {
        44
    } else if c == 102 {
        45
    } else if c == 115 {
        46
    } else if c == 117 {
        47
    } else if c == 122 {
        48
    } else if c == 118 {
        49
    } else if c == 106 {
        50
    } else if c == 112 {
        51
    } else if c == 113 {
        52
    } else if c == 28654949897267960 {
        53
    } else if c == 28654949897267966 {
        54
    } else if c == 2215713112263463796057 {
        55
    } else if c == 7162383 {
        56
    } else if c == 7162384 {
        57
    } else if c == 7162385 {
        58
    } else if c == 1703961259 {
        63
    } else if c == 98 {
        64
    } else if c == 116 {
        65
    } else if c == 101 {
        66
    } else if c == 103 {
        67
    } else if c == 104 {
        68
    } else if c == 105 {
        69
    } else if c == 107 {
        70
    } else if c == 108 {
        71
    } else if c == 109 {
        72
    } else if c == 438155422752 {
        73
    } else if c == 128302247023773 {
        74
    } else if c == 129379778533286 {
        76
    } else if c == 7162382 {
        78
    } else if c == 121579323863669 {
        79
    } else if c == 507835726609 {
        84
    } else if c == 29522753964780934 {
        85
    } else if c == 123 {
        86
    } else if c == 121 {
        87
    } else if c == 100 {
        88
    } else if c == 119 {
        89
    } else if c == 99 {
        90
    } else if c == 111 {
        91
    } else if c == 110 {
        92
    } else if c == 438155488274 {
        93
    } else if c == 127137434004617 {
        94
    } else if c == 507903299872 {
        95
    } else if c == 507835726615 {
        97
    } else if c == 110376822065039 {
        98
    } else if c == 1892001991 {
        100
    } else if c == 112627857644934 {
        105
    } else if c == 525303111198 {
        106
    } else if c == 429380082449 {
        107
    } else if c == 507971194129 {
        111
    } else if c == 429380082455 {
        115
    } else if c == 6831624 {
        116
    } else if c == 6501956 {
        117
    } else if c == 429481797909 {
        118
    } else if c == 110376822060677 {
        119
    } else if c == 429481797915 {
        120
    } else if c == 112627857644940 {
        121
    } else {
        -1
    }
}

/// The case-folded code of each key name of slots 0..21 leads back to its slot.
proof fn lemma_slot_codes_0(i: int)
    requires
        0 <= i < 21,
        slot_name(i)@.len() > 0,
    ensures
        slot_of_code(name_code(slot_name(i).spec_bytes())) == i,
{
    broadcast use vstd::string::is_ascii_spec_bytes;

    reveal_with_fuel(name_code, 10);
    if i == 0 {
        reveal_strlit("ESC");
        assert(slot_name(i) == "ESC");
        assert(vstd::string::is_ascii(slot_name(i)));
        assert(slot_name(i).spec_bytes() =~= seq![0x45u8, 0x53u8, 0x43u8]);
        assert(name_code(slot_name(i).spec_bytes()) == 6766910);
    } else if i == 1 {
        reveal_strlit("");
        assert(slot_name(i) == "");
    } else if i == 2 {
        reveal_strlit("F1");
        assert(slot_name(i) == "F1");
        assert(vstd::string::is_ascii(slot_name(i)));
        assert(slot_name(i).spec_bytes() =~= seq![0x46u8, 0x31u8]);
        assert(name_code(slot_name(i).spec_bytes()) == 26521);
    } else if i == 3 {
        reveal_strlit("F2");
        assert(slot_name(i) == "F2");
        assert(vstd::string::is_ascii(slot_name(i)));
        assert(slot_name(i).spec_bytes() =~= seq![0x46u8, 0x32u8]);
        assert(name_code(slot_name(i).spec_bytes()) == 26522);
    } else if i == 4 {
        reveal_strlit("F3");
        assert(slot_name(i) == "F3");
        assert(vstd::string::is_ascii(slot_name(i)));
        assert(slot_name(i).spec_bytes() =~= seq![0x46u8, 0x33u8]);
        assert(name_code(slot_name(i).spec_bytes()) == 26523);
    } else if i == 5 {
        reveal_strlit("F4");
        assert(slot_name(i) == "F4");
        assert(vstd::string::is_ascii(slot_name(i)));
        assert(slot_name(i).spec_bytes() =~= seq![0x46u8, 0x34u8]);
        assert(name_code(slot_name(i).spec_bytes()) == 26524);
    } else if i == 6 {
        reveal_strlit("F5");
        assert(slot_name(i) == "F5");
        assert(vstd::string::is_ascii(slot_name(i)));
        assert(slot_name(i).spec_bytes() =~= seq![0x46u8, 0x35u8]);
        assert(name_code(slot_name(i).spec_bytes()) == 26525);
    } else if i == 7 {
        reveal_strlit("F6");
        assert(slot_name(i) == "F6");
        assert(vstd::string::is_ascii(slot_name(i)));
        assert(slot_name(i).spec_bytes() =~= seq![0x46u8, 0x36u8]);
        assert(name_code(slot_name(i).spec_bytes()) == 26526);
    } else if i == 8 {
        reveal_strlit("F7");
        assert(slot_name(i) == "F7");
        assert(vstd::string::is_ascii(slot_name(i)));
        assert(slot_name(i).spec_bytes() =~= seq![0x46u8, 0x37u8]);
        assert(name_code(slot_name(i).spec_bytes()) == 26527);
    } else if i == 9 {
        reveal_strlit("F8");
        assert(slot_name(i) == "F8");
        assert(vstd::string::is_ascii(slot_name(i)));
        assert(slot_name(i).spec_bytes() =~= seq![0x46u8, 0x38u8]);
        assert(name_code(slot_name(i).spec_bytes()) == 26528);
    } else if i == 10 {
        reveal_strlit("F9");
        assert(slot_name(i) == "F9");
        assert(vstd::string::is_ascii(slot_name(i)));
        assert(slot_name(i).spec_bytes() =~= seq![0x46u8, 0x39u8]);
        assert(name_code(slot_name(i).spec_bytes()) == 26529);
    } else if i == 11 {
        reveal_strlit("F10");
        assert(slot_name(i) == "F10");
        assert(vstd::string::is_ascii(slot_name(i)));
        assert(slot_name(i).spec_bytes() =~= seq![0x46u8, 0x31u8, 0x30u8]);
        assert(name_code(slot_name(i).spec_bytes()) == 6815946);
    } else if i == 12 {
        reveal_strlit("F11");
        assert(slot_name(i) == "F11");
        assert(vstd::string::is_ascii(slot_name(i)));
        assert(slot_name(i).spec_bytes() =~= seq![0x46u8, 0x31u8, 0x31u8]);
        assert(name_code(slot_name(i).spec_bytes()) == 6815947);
    } else if i == 13 {
        reveal_strlit("F12");
        assert(slot_name(i) == "F12");
        assert(vstd::string::is_ascii(slot_name(i)));
        assert(slot_name(i).spec_bytes() =~= seq![0x46u8, 0x31u8, 0x32u8]);
        assert(name_code(slot_name(i).spec_bytes()) == 6815948);
    } else if i == 14 {
        reveal_strlit("KP7");
        assert(slot_name(i) == "KP7");
        assert(vstd::string::is_ascii(slot_name(i)));
        assert(slot_name(i).spec_bytes() =~= seq![0x4Bu8, 0x50u8, 0x37u8]);
        assert(name_code(slot_name(i).spec_bytes()) == 7162389);
    } else if i == 15 {
        reveal_strlit("KP8");
        assert(slot_name(i) == "KP8");
        assert(vstd::string::is_ascii(slot_name(i)));
        assert(slot_name(i).spec_bytes() =~= seq![0x4Bu8, 0x50u8, 0x38u8]);
        assert(name_code(slot_name(i).spec_bytes()) == 7162390);
    } else if i == 16 {
        reveal_strlit("KP9");
        assert(slot_name(i) == "KP9");
        assert(vstd::string::is_ascii(slot_name(i)));
        assert(slot_name(i).spec_bytes() =~= seq![0x4Bu8, 0x50u8, 0x39u8]);
        assert(name_code(slot_name(i).spec_bytes()) == 7162391);
    } else if i == 17 {
        reveal_strlit("");
        assert(slot_name(i) == "");
    } else if i == 18 {
        reveal_strlit("");
        assert(slot_name(i) == "");
    } else if i == 19 {
        reveal_strlit("");
        assert(slot_name(i) == "");
    } else if i == 20 {
        reveal_strlit("");
        assert(slot_name(i) == "");
    }
}

/// The case-folded code of each key name of slots 21..42 leads back to its slot.
proof fn lemma_slot_codes_1(i: int)
    requires
        21 <= i < 42,
        slot_name(i)@.len() > 0,
    ensures
        slot_of_code(name_code(slot_name(i).spec_bytes())) == i,
{
    broadcast use vstd::string::is_ascii_spec_bytes;

    reveal_with_fuel(name_code, 10);
    if i == 21 {
        reveal_strlit("TILDE");
        assert(slot_name(i) == "TILDE");
        assert(vstd::string::is_ascii(slot_name(i)));
        assert(slot_name(i).spec_bytes() =~= seq![0x54u8, 0x49u8, 0x4Cu8, 0x44u8, 0x45u8]);
        assert(name_code(slot_name(i).spec_bytes()) == 512215569175);
    } else if i == 22 {
        reveal_strlit("1");
        assert(slot_name(i) == "1");
        assert(vstd::string::is_ascii(slot_name(i)));
        assert(slot_name(i).spec_bytes() =~= seq![0x31u8]);
        assert(name_code(slot_name(i).spec_bytes()) == 50);
    } else if i == 23 {
        reveal_strlit("2");
        assert(slot_name(i) == "2");
        assert(vstd::string::is_ascii(slot_name(i)));
        assert(slot_name(i).spec_bytes() =~= seq![0x32u8]);
        assert(name_code(slot_name(i).spec_bytes()) == 51);
    } else if i == 24 {
        reveal_strlit("3");
        assert(slot_name(i) == "3");
        assert(vstd::string::is_ascii(slot_name(i)));
        assert(slot_name(i).spec_bytes() =~= seq![0x33u8]);
        assert(name_code(slot_name(i).spec_bytes()) == 52);
    } else if i == 25 {
        reveal_strlit("4");
        assert(slot_name(i) == "4");
        assert(vstd::string::is_ascii(slot_name(i)));
        assert(slot_name(i).spec_bytes() =~= seq![0x34u8]);
        assert(name_code(slot_name(i).spec_bytes()) == 53);
    } else if i == 26 {
        reveal_strlit("5");
        assert(slot_name(i) == "5");
        assert(vstd::string::is_ascii(slot_name(i)));
        assert(slot_name(i).spec_bytes() =~= seq![0x35u8]);
        assert(name_code(slot_name(i).spec_bytes()) == 54);
    } else if i == 27 {
        reveal_strlit("6");
        assert(slot_name(i) == "6");
        assert(vstd::string::is_ascii(slot_name(i)));
        assert(slot_name(i).spec_bytes() =~= seq![0x36u8]);
        assert(name_code(slot_name(i).spec_bytes()) == 55);
    } else if i == 28 {
        reveal_strlit("7");
        assert(slot_name(i) == "7");
        assert(vstd::string::is_ascii(slot_name(i)));
        assert(slot_name(i).spec_bytes() =~= seq![0x37u8]);
        assert(name_code(slot_name(i).spec_bytes()) == 56);
    } else if i == 29 {
        reveal_strlit("8");
        assert(slot_name(i) == "8");
        assert(vstd::string::is_ascii(slot_name(i)));
        assert(slot_name(i).spec_bytes() =~= seq![0x38u8]);
        assert(name_code(slot_name(i).spec_bytes()) == 57);
    } else if i == 30 {
        reveal_strlit("9");
        assert(slot_name(i) == "9");
        assert(vstd::string::is_ascii(slot_name(i)));
        assert(slot_name(i).spec_bytes() =~= seq![0x39u8]);
        assert(name_code(slot_name(i).spec_bytes()) == 58);
    } else if i == 31 {
        reveal_strlit("0");
        assert(slot_name(i) == "0");
        assert(vstd::string::is_ascii(slot_name(i)));
        assert(slot_name(i).spec_bytes() =~= seq![0x30u8]);
        assert(name_code(slot_name(i).spec_bytes()) == 49);
    } else if i == 32 {
        reveal_strlit("MINUS");
        assert(slot_name(i) == "MINUS");
        assert(vstd::string::is_ascii(slot_name(i)));
        assert(slot_name(i).spec_bytes() =~= seq![0x4Du8, 0x49u8, 0x4Eu8, 0x55u8, 0x53u8]);
        assert(name_code(slot_name(i).spec_bytes()) == 481678412849);
    } else if i == 33 {
        reveal_strlit("PLUS");
        assert(slot_name(i) == "PLUS");
        assert(vstd::string::is_ascii(slot_name(i)));
        assert(slot_name(i).spec_bytes() =~= seq![0x50u8, 0x4Cu8, 0x55u8, 0x53u8]);
        assert(name_code(slot_name(i).spec_bytes()) == 1925358792);
    } else if i == 34 {
        reveal_strlit("BACK");
        assert(slot_name(i) == "BACK");
        assert(vstd::string::is_ascii(slot_name(i)));
        assert(slot_name(i).spec_bytes() =~= seq![0x42u8, 0x41u8, 0x43u8, 0x4Bu8]);
        assert(name_code(slot_name(i).spec_bytes()) == 1686983317);
    } else if i == 35 {
        reveal_strlit("KP4");
        assert(slot_name(i) == "KP4");
        assert(vstd::string::is_ascii(slot_name(i)));
        assert(slot_name(i).spec_bytes() =~= seq![0x4Bu8, 0x50u8, 0x34u8]);
        assert(name_code(slot_name(i).spec_bytes()) == 7162386);
    } else if i == 36 {
        reveal_strlit("KP5");
        assert(slot_name(i) == "KP5");
        assert(vstd::string::is_ascii(slot_name(i)));
        assert(slot_name(i).spec_bytes() =~= seq![0x4Bu8, 0x50u8, 0x35u8]);
        assert(name_code(slot_name(i).spec_bytes()) == 7162387);
    } else if i == 37 {
        reveal_strlit("KP6");
        assert(slot_name(i) == "KP6");
        assert(vstd::string::is_ascii(slot_name(i)));
        assert(slot_name(i).spec_bytes() =~= seq![0x4Bu8, 0x50u8, 0x36u8]);
        assert(name_code(slot_name(i).spec_bytes()) == 7162388);
    } else if i == 38 {
        reveal_strlit("");
        assert(slot_name(i) == "");
    } else if i == 39 {
        reveal_strlit("");
        assert(slot_name(i) == "");
    } else if i == 40 {
        reveal_strlit("");
        assert(slot_name(i) == "");
    } else if i == 41 {
        reveal_strlit("");
        assert(slot_name(i) == "");
    }
}

/// The case-folded code of each key name of slots 42..63 leads back to its slot.
proof fn lemma_slot_codes_2(i: int)
    requires
        42 <= i < 63,
        slot_name(i)@.len() > 0,
    ensures
        slot_of_code(name_code(slot_name(i).spec_bytes())) == i,
{
    broadcast use vstd::string::is_ascii_spec_bytes;

    reveal_with_fuel(name_code, 10);
    if i == 42 {
        reveal_strlit("TAB");
        assert(slot_name(i) == "TAB");
        assert(vstd::string::is_ascii(slot_name(i)));
        assert(slot_name(i).spec_bytes() =~= seq![0x54u8, 0x41u8, 0x42u8]);
        assert(name_code(slot_name(i).spec_bytes()) == 7753018);
    } else if i == 43 {
        reveal_strlit("Q");
        assert(slot_name(i) == "Q");
        assert(vstd::string::is_ascii(slot_name(i)));
        assert(slot_name(i).spec_bytes() =~= seq![0x51u8]);
        assert(name_code(slot_name(i).spec_bytes()) == 114);
    } else if i == 44 {
        reveal_strlit("W");
        assert(slot_name(i) == "W");
        assert(vstd::string::is_ascii(slot_name(i)));
        assert(slot_name(i).spec_bytes() =~= seq![0x57u8]);
        assert(name_code(slot_name(i).spec_bytes()) == 120);
    } else if i == 45 {
        reveal_strlit("E");
        assert(slot_name(i) == "E");
        assert(vstd::string::is_ascii(slot_name(i)));
        assert(slot_name(i).spec_bytes() =~= seq![0x45u8]);
        assert(name_code(slot_name(i).spec_bytes()) == 102);
    } else if i == 46 {
        reveal_strlit("R");
        assert(slot_name(i) == "R");
        assert(vstd::string::is_ascii(slot_name(i)));
        assert(slot_name(i).spec_bytes() =~= seq![0x52u8]);
        assert(name_code(slot_name(i).spec_bytes()) == 115);
    } else if i == 47 {
        reveal_strlit("T");
        assert(slot_name(i) == "T");
        assert(vstd::string::is_ascii(slot_name(i)));
        assert(slot_name(i).spec_bytes() =~= seq![0x54u8]);
        assert(name_code(slot_name(i).spec_bytes()) == 117);
    } else if i == 48 {
        reveal_strlit("Y");
        assert(slot_name(i) == "Y");
        assert(vstd::string::is_ascii(slot_name(i)));
        assert(slot_name(i).spec_bytes() =~= seq![0x59u8]);
        assert(name_code(slot_name(i).spec_bytes()) == 122);
    } else if i == 49 {
        reveal_strlit("U");
        assert(slot_name(i) == "U");
        assert(vstd::string::is_ascii(slot_name(i)));
        assert(slot_name(i).spec_bytes() =~= seq![0x55u8]);
        assert(name_code(slot_name(i).spec_bytes()) == 118);
    } else if i == 50 {
        reveal_strlit("I");
        assert(slot_name(i) == "I");
        assert(vstd::string::is_ascii(slot_name(i)));
        assert(slot_name(i).spec_bytes() =~= seq![0x49u8]);
        assert(name_code(slot_name(i).spec_bytes()) == 106);
    } else if i == 51 {
        reveal_strlit("O");
        assert(slot_name(i) == "O");
        assert(vstd::string::is_ascii(slot_name(i)));
        assert(slot_name(i).spec_bytes() =~= seq![0x4Fu8]);
        assert(name_code(slot_name(i).spec_bytes()) == 112);
    } else if i == 52 {
        reveal_strlit("P");
        assert(slot_name(i) == "P");
        assert(vstd::string::is_ascii(slot_name(i)));
        assert(slot_name(i).spec_bytes() =~= seq![0x50u8]);
        assert(name_code(slot_name(i).spec_bytes()) == 113);
    } else if i == 53 {
        reveal_strlit("BRKTS_L");
        assert(slot_name(i) == "BRKTS_L");
        assert(vstd::string::is_ascii(slot_name(i)));
        assert(slot_name(i).spec_bytes() =~= seq![0x42u8, 0x52u8, 0x4Bu8, 0x54u8, 0x53u8, 0x5Fu8, 0x4Cu8]);
        assert(name_code(slot_name(i).spec_bytes()) == 28654949897267960);
    } else if i == 54 {
        reveal_strlit("BRKTS_R");
        assert(slot_name(i) == "BRKTS_R");
        assert(vstd::string::is_ascii(slot_name(i)));
        assert(slot_name(i).spec_bytes() =~= seq![0x42u8, 0x52u8, 0x4Bu8, 0x54u8, 0x53u8, 0x5Fu8, 0x52u8]);
        assert(name_code(slot_name(i).spec_bytes()) == 28654949897267966);
    } else if i == 55 {
        reveal_strlit("SLASH_K29");
        assert(slot_name(i) == "SLASH_K29");
        assert(vstd::string::is_ascii(slot_name(i)));
        assert(slot_name(i).spec_bytes() =~= seq![0x53u8, 0x4Cu8, 0x41u8, 0x53u8, 0x48u8, 0x5Fu8, 0x4Bu8, 0x32u8, 0x39u8]);
        assert(name_code(slot_name(i).spec_bytes()) == 2215713112263463796057);
    } else if i == 56 {
        reveal_strlit("KP1");
        assert(slot_name(i) == "KP1");
        assert(vstd::string::is_ascii(slot_name(i)));
        assert(slot_name(i).spec_bytes() =~= seq![0x4Bu8, 0x50u8, 0x31u8]);
        assert(name_code(slot_name(i).spec_bytes()) == 7162383);
    } else if i == 57 {
        reveal_strlit("KP2");
        assert(slot_name(i) == "KP2");
        assert(vstd::string::is_ascii(slot_name(i)));
        assert(slot_name(i).spec_bytes() =~= seq![0x4Bu8, 0x50u8, 0x32u8]);
        assert(name_code(slot_name(i).spec_bytes()) == 7162384);
    } else if i == 58 {
        reveal_strlit("KP3");
        assert(slot_name(i) == "KP3");
        assert(vstd::string::is_ascii(slot_name(i)));
        assert(slot_name(i).spec_bytes() =~= seq![0x4Bu8, 0x50u8, 0x33u8]);
        assert(name_code(slot_name(i).spec_bytes()) == 7162385);
    } else if i == 59 {
        reveal_strlit("");
        assert(slot_name(i) == "");
    } else if i == 60 {
        reveal_strlit("");
        assert(slot_name(i) == "");
    } else if i == 61 {
        reveal_strlit("");
        assert(slot_name(i) == "");
    } else if i == 62 {
        reveal_strlit("");
        assert(slot_name(i) == "");
    }
}

/// The case-folded code of each key name of slots 63..84 leads back to its slot.
proof fn lemma_slot_codes_3(i: int)
    requires
        63 <= i < 84,
        slot_name(i)@.len() > 0,
    ensures
        slot_of_code(name_code(slot_name(i).spec_bytes())) == i,
{
    broadcast use vstd::string::is_ascii_spec_bytes;

    reveal_with_fuel(name_code, 10);
    if i == 63 {
        reveal_strlit("CAPS");
        assert(slot_name(i) == "CAPS");
        assert(vstd::string::is_ascii(slot_name(i)));
        assert(slot_name(i).spec_bytes() =~= seq![0x43u8, 0x41u8, 0x50u8, 0x53u8]);
        assert(name_code(slot_name(i).spec_bytes()) == 1703961259);
    } else if i == 64 {
        reveal_strlit("A");
        assert(slot_name(i) == "A");
        assert(vstd::string::is_ascii(slot_name(i)));
        assert(slot_name(i).spec_bytes() =~= seq![0x41u8]);
        assert(name_code(slot_name(i).spec_bytes()) == 98);
    } else if i == 65 {
        reveal_strlit("S");
        assert(slot_name(i) == "S");
        assert(vstd::string::is_ascii(slot_name(i)));
        assert(slot_name(i).spec_bytes() =~= seq![0x53u8]);
        assert(name_code(slot_name(i).spec_bytes()) == 116);
    } else if i == 66 {
        reveal_strlit("D");
        assert(slot_name(i) == "D");
        assert(vstd::string::is_ascii(slot_name(i)));
        assert(slot_name(i).spec_bytes() =~= seq![0x44u8]);
        assert(name_code(slot_name(i).spec_bytes()) == 101);
    } else if i == 67 {
        reveal_strlit("F");
        assert(slot_name(i) == "F");
        assert(vstd::string::is_ascii(slot_name(i)));
        assert(slot_name(i).spec_bytes() =~= seq![0x46u8]);
        assert(name_code(slot_name(i).spec_bytes()) == 103);
    } else if i == 68 {
        reveal_strlit("G");
        assert(slot_name(i) == "G");
        assert(vstd::string::is_ascii(slot_name(i)));
        assert(slot_name(i).spec_bytes() =~= seq![0x47u8]);
        assert(name_code(slot_name(i).spec_bytes()) == 104);
    } else if i == 69 {
        reveal_strlit("H");
        assert(slot_name(i) == "H");
        assert(vstd::string::is_ascii(slot_name(i)));
        assert(slot_name(i).spec_bytes() =~= seq![0x48u8]);
        assert(name_code(slot_name(i).spec_bytes()) == 105);
    } else if i == 70 {
        reveal_strlit("J");
        assert(slot_name(i) == "J");
        assert(vstd::string::is_ascii(slot_name(i)));
        assert(slot_name(i).spec_bytes() =~= seq![0x4Au8]);
        assert(name_code(slot_name(i).spec_bytes()) == 107);
    } else if i == 71 {
        reveal_strlit("K");
        assert(slot_name(i) == "K");
        assert(vstd::string::is_ascii(slot_name(i)));
        assert(slot_name(i).spec_bytes() =~= seq![0x4Bu8]);
        assert(name_code(slot_name(i).spec_bytes()) == 108);
    } else if i == 72 {
        reveal_strlit("L");
        assert(slot_name(i) == "L");
        assert(vstd::string::is_ascii(slot_name(i)));
        assert(slot_name(i).spec_bytes() =~= seq![0x4Cu8]);
        assert(name_code(slot_name(i).spec_bytes()) == 109);
    } else if i == 73 {
        reveal_strlit("COLON");
        assert(slot_name(i) == "COLON");
        assert(vstd::string::is_ascii(slot_name(i)));
        assert(slot_name(i).spec_bytes() =~= seq![0x43u8, 0x4Fu8, 0x4Cu8, 0x4Fu8, 0x4Eu8]);
        assert(name_code(slot_name(i).spec_bytes()) == 438155422752);
    } else if i == 74 {
        reveal_strlit("QOTATN");
        assert(slot_name(i) == "QOTATN");
        assert(vstd::string::is_ascii(slot_name(i)));
        assert(slot_name(i).spec_bytes() =~= seq![0x51u8, 0x4Fu8, 0x54u8, 0x41u8, 0x54u8, 0x4Eu8]);
        assert(name_code(slot_name(i).spec_bytes()) == 128302247023773);
    } else if i == 75 {
        reveal_strlit("");
        assert(slot_name(i) == "");
    } else if i == 76 {
        reveal_strlit("RETURN");
        assert(slot_name(i) == "RETURN");
        assert(vstd::string::is_ascii(slot_name(i)));
        assert(slot_name(i).spec_bytes() =~= seq![0x52u8, 0x45u8, 0x54u8, 0x55u8, 0x52u8, 0x4Eu8]);
        assert(name_code(slot_name(i).spec_bytes()) == 129379778533286);
    } else if i == 77 {
        reveal_strlit("");
        assert(slot_name(i) == "");
    } else if i == 78 {
        reveal_strlit("KP0");
        assert(slot_name(i) == "KP0");
        assert(vstd::string::is_ascii(slot_name(i)));
        assert(slot_name(i).spec_bytes() =~= seq![0x4Bu8, 0x50u8, 0x30u8]);
        assert(name_code(slot_name(i).spec_bytes()) == 7162382);
    } else if i == 79 {
        reveal_strlit("KP_DEL");
        assert(slot_name(i) == "KP_DEL");
        assert(vstd::string::is_ascii(slot_name(i)));
        assert(slot_name(i).spec_bytes() =~= seq![0x4Bu8, 0x50u8, 0x5Fu8, 0x44u8, 0x45u8, 0x4Cu8]);
        assert(name_code(slot_name(i).spec_bytes()) == 121579323863669);
    } else if i == 80 {
        reveal_strlit("");
        assert(slot_name(i) == "");
    } else if i == 81 {
        reveal_strlit("");
        assert(slot_name(i) == "");
    } else if i == 82 {
        reveal_strlit("");
        assert(slot_name(i) == "");
    } else if i == 83 {
        reveal_strlit("");
        assert(slot_name(i) == "");
    }
}

/// The case-folded code of each key name of slots 84..105 leads back to its slot.
proof fn lemma_slot_codes_4(i: int)
    requires
        84 <= i < 105,
        slot_name(i)@.len() > 0,
    ensures
        slot_of_code(name_code(slot_name(i).spec_bytes())) == i,
{
    broadcast use vstd::string::is_ascii_spec_bytes;

    reveal_with_fuel(name_code, 10);
    if i == 84 {
        reveal_strlit("SHF_L");
        assert(slot_name(i) == "SHF_L");
        assert(vstd::string::is_ascii(slot_name(i)));
        assert(slot_name(i).spec_bytes() =~= seq![0x53u8, 0x48u8, 0x46u8, 0x5Fu8, 0x4Cu8]);
        assert(name_code(slot_name(i).spec_bytes()) == 507835726609);
    } else if i == 85 {
        reveal_strlit("EUR_K45");
        assert(slot_name(i) == "EUR_K45");
        assert(vstd::string::is_ascii(slot_name(i)));
        assert(slot_name(i).spec_bytes() =~= seq![0x45u8, 0x55u8, 0x52u8, 0x5Fu8, 0x4Bu8, 0x34u8, 0x35u8]);
        assert(name_code(slot_name(i).spec_bytes()) == 29522753964780934);
    } else if i == 86 {
        reveal_strlit("Z");
        assert(slot_name(i) == "Z");
        assert(vstd::string::is_ascii(slot_name(i)));
        assert(slot_name(i).spec_bytes() =~= seq![0x5Au8]);
        assert(name_code(slot_name(i).spec_bytes()) == 123);
    } else if i == 87 {
        reveal_strlit("X");
        assert(slot_name(i) == "X");
        assert(vstd::string::is_ascii(slot_name(i)));
        assert(slot_name(i).spec_bytes() =~= seq![0x58u8]);
        assert(name_code(slot_name(i).spec_bytes()) == 121);
    } else if i == 88 {
        reveal_strlit("C");
        assert(slot_name(i) == "C");
        assert(vstd::string::is_ascii(slot_name(i)));
        assert(slot_name(i).spec_bytes() =~= seq![0x43u8]);
        assert(name_code(slot_name(i).spec_bytes()) == 100);
    } else if i == 89 {
        reveal_strlit("V");
        assert(slot_name(i) == "V");
        assert(vstd::string::is_ascii(slot_name(i)));
        assert(slot_name(i).spec_bytes() =~= seq![0x56u8]);
        assert(name_code(slot_name(i).spec_bytes()) == 119);
    } else if i == 90 {
        reveal_strlit("B");
        assert(slot_name(i) == "B");
        assert(vstd::string::is_ascii(slot_name(i)));
        assert(slot_name(i).spec_bytes() =~= seq![0x42u8]);
        assert(name_code(slot_name(i).spec_bytes()) == 99);
    } else if i == 91 {
        reveal_strlit("N");
        assert(slot_name(i) == "N");
        assert(vstd::string::is_ascii(slot_name(i)));
        assert(slot_name(i).spec_bytes() =~= seq![0x4Eu8]);
        assert(name_code(slot_name(i).spec_bytes()) == 111);
    } else if i == 92 {
        reveal_strlit("M");
        assert(slot_name(i) == "M");
        assert(vstd::string::is_ascii(slot_name(i)));
        assert(slot_name(i).spec_bytes() =~= seq![0x4Du8]);
        assert(name_code(slot_name(i).spec_bytes()) == 110);
    } else if i == 93 {
        reveal_strlit("COMMA");
        assert(slot_name(i) == "COMMA");
        assert(vstd::string::is_ascii(slot_name(i)));
        assert(slot_name(i).spec_bytes() =~= seq![0x43u8, 0x4Fu8, 0x4Du8, 0x4Du8, 0x41u8]);
        assert(name_code(slot_name(i).spec_bytes()) == 438155488274);
    } else if i == 94 {
        reveal_strlit("PERIOD");
        assert(slot_name(i) == "PERIOD");
        assert(vstd::string::is_ascii(slot_name(i)));
        assert(slot_name(i).spec_bytes() =~= seq![0x50u8, 0x45u8, 0x52u8, 0x49u8, 0x4Fu8, 0x44u8]);
        assert(name_code(slot_name(i).spec_bytes()) == 127137434004617);
    } else if i == 95 {
        reveal_strlit("SLASH");
        assert(slot_name(i) == "SLASH");
        assert(vstd::string::is_ascii(slot_name(i)));
        assert(slot_name(i).spec_bytes() =~= seq![0x53u8, 0x4Cu8, 0x41u8, 0x53u8, 0x48u8]);
        assert(name_code(slot_name(i).spec_bytes()) == 507903299872);
    } else if i == 96 {
        reveal_strlit("");
        assert(slot_name(i) == "");
    } else if i == 97 {
        reveal_strlit("SHF_R");
        assert(slot_name(i) == "SHF_R");
        assert(vstd::string::is_ascii(slot_name(i)));
        assert(slot_name(i).spec_bytes() =~= seq![0x53u8, 0x48u8, 0x46u8, 0x5Fu8, 0x52u8]);
        assert(name_code(slot_name(i).spec_bytes()) == 507835726615);
    } else if i == 98 {
        reveal_strlit("ARR_UP");
        assert(slot_name(i) == "ARR_UP");
        assert(vstd::string::is_ascii(slot_name(i)));
        assert(slot_name(i).spec_bytes() =~= seq![0x41u8, 0x52u8, 0x52u8, 0x5Fu8, 0x55u8, 0x50u8]);
        assert(name_code(slot_name(i).spec_bytes()) == 110376822065039);
    } else if i == 99 {
        reveal_strlit("");
        assert(slot_name(i) == "");
    } else if i == 100 {
        reveal_strlit("NUMS");
        assert(slot_name(i) == "NUMS");
        assert(vstd::string::is_ascii(slot_name(i)));
        assert(slot_name(i).spec_bytes() =~= seq![0x4Eu8, 0x55u8, 0x4Du8, 0x53u8]);
        assert(name_code(slot_name(i).spec_bytes()) == 1892001991);
    } else if i == 101 {
        reveal_strlit("");
        assert(slot_name(i) == "");
    } else if i == 102 {
        reveal_strlit("");
        assert(slot_name(i) == "");
    } else if i == 103 {
        reveal_strlit("");
        assert(slot_name(i) == "");
    } else if i == 104 {
        reveal_strlit("");
        assert(slot_name(i) == "");
    }
}

/// The case-folded code of each key name of slots 105..126 leads back to its slot.
proof fn lemma_slot_codes_5(i: int)
    requires
        105 <= i < 126,
        slot_name(i)@.len() > 0,
    ensures
        slot_of_code(name_code(slot_name(i).spec_bytes())) == i,
{
    broadcast use vstd::string::is_ascii_spec_bytes;

    reveal_with_fuel(name_code, 10);
    if i == 105 {
        reveal_strlit("CTRL_L");
        assert(slot_name(i) == "CTRL_L");
        assert(vstd::string::is_ascii(slot_name(i)));
        assert(slot_name(i).spec_bytes() =~= seq![0x43u8, 0x54u8, 0x52u8, 0x4Cu8, 0x5Fu8, 0x4Cu8]);
        assert(name_code(slot_name(i).spec_bytes()) == 112627857644934);
    } else if i == 106 {
        reveal_strlit("WIN_L");
        assert(slot_name(i) == "WIN_L");
        assert(vstd::string::is_ascii(slot_name(i)));
        assert(slot_name(i).spec_bytes() =~= seq![0x57u8, 0x49u8, 0x4Eu8, 0x5Fu8, 0x4Cu8]);
        assert(name_code(slot_name(i).spec_bytes()) == 525303111198);
    } else if i == 107 {
        reveal_strlit("ALT_L");
        assert(slot_name(i) == "ALT_L");
        assert(vstd::string::is_ascii(slot_name(i)));
        assert(slot_name(i).spec_bytes() =~= seq![0x41u8, 0x4Cu8, 0x54u8, 0x5Fu8, 0x4Cu8]);
        assert(name_code(slot_name(i).spec_bytes()) == 429380082449);
    } else if i == 108 {
        reveal_strlit("");
        assert(slot_name(i) == "");
    } else if i == 109 {
        reveal_strlit("");
        assert(slot_name(i) == "");
    } else if i == 110 {
        reveal_strlit("");
        assert(slot_name(i) == "");
    } else if i == 111 {
        reveal_strlit("SPACE");
        assert(slot_name(i) == "SPACE");
        assert(vstd::string::is_ascii(slot_name(i)));
        assert(slot_name(i).spec_bytes() =~= seq![0x53u8, 0x50u8, 0x41u8, 0x43u8, 0x45u8]);
        assert(name_code(slot_name(i).spec_bytes()) == 507971194129);
    } else if i == 112 {
        reveal_strlit("");
        assert(slot_name(i) == "");
    } else if i == 113 {
        reveal_strlit("");
        assert(slot_name(i) == "");
    } else if i == 114 {
        reveal_strlit("");
        assert(slot_name(i) == "");
    } else if i == 115 {
        reveal_strlit("ALT_R");
        assert(slot_name(i) == "ALT_R");
        assert(vstd::string::is_ascii(slot_name(i)));
        assert(slot_name(i).spec_bytes() =~= seq![0x41u8, 0x4Cu8, 0x54u8, 0x5Fu8, 0x52u8]);
        assert(name_code(slot_name(i).spec_bytes()) == 429380082455);
    } else if i == 116 {
        reveal_strlit("FN1");
        assert(slot_name(i) == "FN1");
        assert(vstd::string::is_ascii(slot_name(i)));
        assert(slot_name(i).spec_bytes() =~= seq![0x46u8, 0x4Eu8, 0x31u8]);
        assert(name_code(slot_name(i).spec_bytes()) == 6831624);
    } else if i == 117 {
        reveal_strlit("APP");
        assert(slot_name(i) == "APP");
        assert(vstd::string::is_ascii(slot_name(i)));
        assert(slot_name(i).spec_bytes() =~= seq![0x41u8, 0x50u8, 0x50u8]);
        assert(name_code(slot_name(i).spec_bytes()) == 6501956);
    } else if i == 118 {
        reveal_strlit("ARR_L");
        assert(slot_name(i) == "ARR_L");
        assert(vstd::string::is_ascii(slot_name(i)));
        assert(slot_name(i).spec_bytes() =~= seq![0x41u8, 0x52u8, 0x52u8, 0x5Fu8, 0x4Cu8]);
        assert(name_code(slot_name(i).spec_bytes()) == 429481797909);
    } else if i == 119 {
        reveal_strlit("ARR_DW");
        assert(slot_name(i) == "ARR_DW");
        assert(vstd::string::is_ascii(slot_name(i)));
        assert(slot_name(i).spec_bytes() =~= seq![0x41u8, 0x52u8, 0x52u8, 0x5Fu8, 0x44u8, 0x57u8]);
        assert(name_code(slot_name(i).spec_bytes()) == 110376822060677);
    } else if i == 120 {
        reveal_strlit("ARR_R");
        assert(slot_name(i) == "ARR_R");
        assert(vstd::string::is_ascii(slot_name(i)));
        assert(slot_name(i).spec_bytes() =~= seq![0x41u8, 0x52u8, 0x52u8, 0x5Fu8, 0x52u8]);
        assert(name_code(slot_name(i).spec_bytes()) == 429481797915);
    } else if i == 121 {
        reveal_strlit("CTRL_R");
        assert(slot_name(i) == "CTRL_R");
        assert(vstd::string::is_ascii(slot_name(i)));
        assert(slot_name(i).spec_bytes() =~= seq![0x43u8, 0x54u8, 0x52u8, 0x4Cu8, 0x5Fu8, 0x52u8]);
        assert(name_code(slot_name(i).spec_bytes()) == 112627857644940);
    } else if i == 122 {
        reveal_strlit("");
        assert(slot_name(i) == "");
    } else if i == 123 {
        reveal_strlit("");
        assert(slot_name(i) == "");
    } else if i == 124 {
        reveal_strlit("");
        assert(slot_name(i) == "");
    } else if i == 125 {
        reveal_strlit("");
        assert(slot_name(i) == "");
    }
}

/// The case-folded code of each key name leads back to its slot.
pub proof fn lemma_slot_code(i: int)
    requires
        0 <= i < TOTAL_KEYS,
        slot_name(i)@.len() > 0,
    ensures
        slot_of_code(name_code(slot_name(i).spec_bytes())) == i,
{
    if i < 21 {
        lemma_slot_codes_0(i);
    } else if i < 42 {
        lemma_slot_codes_1(i);
    } else if i < 63 {
        lemma_slot_codes_2(i);
    } else if i < 84 {
        lemma_slot_codes_3(i);
    } else if i < 105 {
        lemma_slot_codes_4(i);
    } else {
        lemma_slot_codes_5(i);
    }
}

/// No two slots hold key names that are equal up to ASCII case.
pub proof fn lemma_names_distinct(i: int, j: int)
    requires
        0 <= i < TOTAL_KEYS,
        0 <= j < TOTAL_KEYS,
        slot_name(i)@.len() > 0,
        slot_name(j)@.len() > 0,
        eq_ignore_ascii_case(slot_name(i).spec_bytes(), slot_name(j).spec_bytes()),
    ensures
        i == j,
{
    lemma_name_code_ignores_case(slot_name(i).spec_bytes(), slot_name(j).spec_bytes());
    lemma_slot_code(i);
    lemma_slot_code(j);
}

} // verus!
