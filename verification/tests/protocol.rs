use fawnd::protocol::consts::{
    cmd, LedSequence, ACTUATION_MAX, ACTUATION_MIN, DEFAULT_ACTUATION, PAYLOAD_LEN, TOTAL_KEYS,
};
use fawnd::protocol::layout::{
    index_of, name_of, row_of, str_eq_ignore_ascii_case, KEYBOARD_LAYOUT, WASD_KEYS,
};
use fawnd::protocol::packet::{
    actuation_from_raw, identity, key_tracking, led_mode, modify_row, payload,
    rapid_trigger_turbo, RowKind,
};
use fawnd::protocol::{Identity, Model};

#[test]
fn identity_packet_bytes() {
    let p = identity();
    assert_eq!(p.len(), PAYLOAD_LEN);
    assert_eq!(&p[..2], &[0xA0, 0x02]);
    assert!(p[2..].iter().all(|&b| b == 0));
}

#[test]
fn payload_pads_with_zeros() {
    let p = payload(&[1, 2, 3]);
    assert_eq!(&p[..3], &[1, 2, 3]);
    assert!(p[3..].iter().all(|&b| b == 0));
}

#[test]
fn led_mode_bytes() {
    let p = led_mode(1, LedSequence::Wave, 5, 9, 0xff, true);
    assert_eq!(&p[..8], &[0xAE, 0x01, 0x01, 0x01, 0x07, 5, 9, 0xff]);
    assert!(p[8..].iter().all(|&b| b == 0));
    let q = led_mode(0, LedSequence::Custom, 0, 0, 0, false);
    assert_eq!(&q[..5], &[0xAE, 0x01, 0x00, 0x00, 0x13]);
}

#[test]
fn led_sequence_bytes() {
    assert_eq!(LedSequence::Off.byte(), 0x00);
    assert_eq!(LedSequence::Always.byte(), 0x02);
    assert_eq!(LedSequence::Ripple.byte(), 0x0A);
    assert_eq!(LedSequence::FountainRandom.byte(), 0x12);
}

#[test]
fn rapid_trigger_bytes() {
    let p = rapid_trigger_turbo(true, false);
    assert_eq!(&p[..9], &[0xB5, 0x00, 0x1E, 0x01, 0x00, 0x00, 0x01, 0x00, 0x01]);
    let q = rapid_trigger_turbo(false, true);
    assert_eq!(&q[7..9], &[0x01, 0x00]);
    assert!(q[9..].iter().all(|&b| b == 0));
}

#[test]
fn key_tracking_bytes() {
    assert_eq!(&key_tracking(true)[..4], &[0xB6, 0x03, 0x01, 0x00]);
    assert_eq!(&key_tracking(false)[..3], &[0xB6, 0x03, 0x00]);
}

#[test]
fn modify_row_pads_with_kind_default() {
    let p = modify_row(0, &[7, 8], RowKind::Actuation);
    assert_eq!(&p[..6], &[cmd::MODIFY_KEY, 0x01, 0x00, 0x00, 7, 8]);
    assert!(p[6..].iter().all(|&b| b == DEFAULT_ACTUATION));
    let q = modify_row(1, &[3], RowKind::Upstroke);
    assert_eq!(&q[..5], &[0xB6, 0x05, 0x00, 0x01, 3]);
    assert!(q[5..].iter().all(|&b| b == 0));
    let d = modify_row(1, &[], RowKind::Downstroke);
    assert_eq!(d[1], 0x04);
}

#[test]
fn modify_row_last_row_carries_eight_keys() {
    let keys = [9u8; 20];
    let p = modify_row(2, &keys, RowKind::Actuation);
    assert_eq!(p[3], 2);
    assert!(p[4..12].iter().all(|&b| b == 9));
    assert!(p[12..].iter().all(|&b| b == 0));
}

#[test]
fn modify_row_truncates_to_capacity() {
    let keys = [5u8; 70];
    let p = modify_row(0, &keys, RowKind::Downstroke);
    assert!(p[4..].iter().all(|&b| b == 5));
}

#[test]
fn actuation_clamping() {
    assert_eq!(actuation_from_raw(15), 15);
    assert_eq!(actuation_from_raw(0), ACTUATION_MIN);
    assert_eq!(actuation_from_raw(-5), ACTUATION_MIN);
    assert_eq!(actuation_from_raw(100), ACTUATION_MAX);
    assert_eq!(actuation_from_raw(38), 38);
    assert_eq!(actuation_from_raw(2), 2);
}

#[test]
fn layout_names_and_indices() {
    assert_eq!(KEYBOARD_LAYOUT.len(), TOTAL_KEYS);
    assert_eq!(index_of("ESC"), Some(0));
    assert_eq!(index_of("w"), Some(44));
    assert_eq!(index_of("W"), Some(44));
    assert_eq!(index_of("space"), Some(111));
    assert_eq!(index_of("nope"), None);
    assert_eq!(index_of(""), None);
    assert_eq!(name_of(44), Some("W"));
    assert_eq!(name_of(1), None);
    assert_eq!(name_of(126), None);
    for &i in WASD_KEYS.iter() {
        assert!(name_of(i).is_some());
    }
    assert_eq!(
        WASD_KEYS.map(|i| name_of(i).unwrap()),
        ["W", "A", "S", "D"]
    );
}

#[test]
fn every_key_name_resolves_to_its_slot() {
    for i in 0..TOTAL_KEYS {
        if let Some(name) = name_of(i) {
            assert_eq!(index_of(name), Some(i));
            assert_eq!(index_of(&name.to_lowercase()), Some(i));
        }
    }
}

#[test]
fn rows_of_slots() {
    assert_eq!(row_of(0), 0);
    assert_eq!(row_of(58), 0);
    assert_eq!(row_of(59), 1);
    assert_eq!(row_of(117), 1);
    assert_eq!(row_of(118), 2);
    assert_eq!(row_of(125), 2);
}

#[test]
fn ascii_case_folding() {
    assert!(str_eq_ignore_ascii_case("Ctrl_L", "CTRL_l"));
    assert!(!str_eq_ignore_ascii_case("CTRL", "CTRL_L"));
    assert!(!str_eq_ignore_ascii_case("é", "É"));
}

#[test]
fn model_signatures() {
    assert_eq!(Model::from_signature([0x0b, 0x01, 0x01]), Model::A75);
    assert_eq!(Model::from_signature([0x0b, 0x04, 0x01]), Model::A75);
    assert_eq!(Model::from_signature([0x0b, 0x04, 0x03]), Model::A75Pro);
    assert_eq!(Model::from_signature([0x0b, 0x03, 0x01]), Model::G60);
    assert_eq!(Model::from_signature([0x0f, 0x01, 0x01]), Model::G65);
    assert_eq!(Model::from_signature([0x0b, 0x02, 0x01]), Model::G65);
    assert_eq!(Model::from_signature([0x0b, 0x04, 0x05]), Model::G75);
    assert_eq!(Model::from_signature([0x01, 0x02, 0x03]), Model::Unknown);
    assert_eq!(Model::G75.name(), "G75");
    assert_eq!(Model::A75Pro.name(), "A75Pro");
}

fn identity_reply(sig: [u8; 3], fw: u16, turbo: u8, rt: u8) -> Vec<u8> {
    let mut data = vec![0u8; 63];
    data[0] = 0xA0;
    data[1] = 0x02;
    data[3] = 0x01;
    data[4..7].copy_from_slice(&sig);
    data[7..9].copy_from_slice(&fw.to_le_bytes());
    data[15] = turbo;
    data[16] = rt;
    data
}

#[test]
fn identity_parse_fields() {
    let id = Identity::parse(&identity_reply([0x0b, 0x01, 0x01], 114, 1, 0)).unwrap();
    assert_eq!(id.model, Model::A75);
    assert_eq!(id.firmware_version, "0.0114");
    assert!(id.turbo);
    assert!(!id.rapid_trigger);
    let id = Identity::parse(&identity_reply([0x0b, 0x04, 0x05], 0, 0, 7)).unwrap();
    assert_eq!(id.model, Model::G75);
    assert_eq!(id.firmware_version, "0.00");
    assert!(id.rapid_trigger);
    let id = Identity::parse(&identity_reply([0x01, 0x01, 0x01], 65535, 0, 0)).unwrap();
    assert_eq!(id.model, Model::Unknown);
    assert_eq!(id.firmware_version, "0.065535");
}

#[test]
fn identity_parse_rejects() {
    assert!(Identity::parse(&identity_reply([0, 0, 0], 114, 1, 1)).is_none());
    let mut wrong_cmd = identity_reply([0x0b, 0x01, 0x01], 1, 0, 0);
    wrong_cmd[0] = 0xB7;
    assert!(Identity::parse(&wrong_cmd).is_none());
    let short = &identity_reply([0x0b, 0x01, 0x01], 1, 0, 0)[..16];
    assert!(Identity::parse(short).is_none());
    assert!(Identity::parse(&[]).is_none());
    assert!(Identity::parse(&identity_reply([0x0b, 0x01, 0x01], 1, 0, 0)[..17]).is_some());
}

#[test]
fn resolved_name_reads_back_up_to_case() {
    let i = index_of("ctrl_r").unwrap();
    assert_eq!(name_of(i), Some("CTRL_R"));
    let i = index_of("Kp_Del").unwrap();
    assert_eq!(name_of(i), Some("KP_DEL"));
}
