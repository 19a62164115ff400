use fawnd::controller::{row_packets, Controller, DepthFrame, DEPTH_MAX_RAW};
use fawnd::protocol::consts::{DEFAULT_ACTUATION, TOTAL_KEYS};
use fawnd::protocol::packet::{led_mode, modify_row, rapid_trigger_turbo, RowKind};
use fawnd::protocol::LedSequence;
use fawnd::Error;

#[test]
fn new_controller_holds_defaults() {
    let c = Controller::new();
    for i in 0..TOTAL_KEYS {
        assert_eq!(c.actuation(i), DEFAULT_ACTUATION);
    }
    assert_eq!(c.actuation(TOTAL_KEYS), 0);
    assert_eq!(DEPTH_MAX_RAW, 40);
}

#[test]
fn set_actuation_by_name() {
    let mut c = Controller::new();
    assert_eq!(c.set_actuation(&["w", "A", "s", "D"], 12), Ok(()));
    for i in [44, 64, 65, 66] {
        assert_eq!(c.actuation(i), 12);
    }
    assert_eq!(c.actuation(0), DEFAULT_ACTUATION);
}

#[test]
fn set_actuation_stops_at_unknown_key() {
    let mut c = Controller::new();
    let r = c.set_actuation(&["W", "BOGUS", "A"], 30);
    assert_eq!(r, Err(Error::UnknownKey("BOGUS".to_string())));
    assert_eq!(c.actuation(44), 30);
    assert_eq!(c.actuation(64), DEFAULT_ACTUATION);
}

#[test]
fn set_actuation_all_and_index() {
    let mut c = Controller::new();
    c.set_actuation_all(7);
    assert!((0..TOTAL_KEYS).all(|i| c.actuation(i) == 7));
    c.set_actuation_index(3, 9);
    assert_eq!(c.actuation(3), 9);
    assert_eq!(c.actuation(4), 7);
    c.set_actuation_index(500, 1);
    assert!((0..TOTAL_KEYS).all(|i| c.actuation(i) == 7 || i == 3));
}

#[test]
fn row_packets_split_the_map() {
    let mut values = [0u8; TOTAL_KEYS];
    for (i, v) in values.iter_mut().enumerate() {
        *v = i as u8;
    }
    let packets = row_packets(&values, RowKind::Actuation);
    assert_eq!(packets.len(), 3);
    assert_eq!(packets[0], modify_row(0, &values[0..59], RowKind::Actuation));
    assert_eq!(packets[1], modify_row(1, &values[59..118], RowKind::Actuation));
    assert_eq!(packets[2], modify_row(2, &values[118..126], RowKind::Actuation));
    assert_eq!(packets[1][3], 1);
    assert_eq!(packets[1][4], 59);
    assert_eq!(packets[2][4 + 7], 125);
    assert_eq!(packets[2][12], 0);
}

#[test]
fn flush_actuation_carries_the_mirror() {
    let mut c = Controller::new();
    c.set_actuation(&["ESC"], 25).unwrap();
    let packets = c.flush_actuation();
    assert_eq!(packets.len(), 3);
    assert_eq!(packets[0][1], 0x01);
    assert_eq!(packets[0][4], 25);
    assert_eq!(packets[0][5], DEFAULT_ACTUATION);
    let curve = c.flush_rapid_trigger_curve();
    assert_eq!(curve.len(), 6);
    assert_eq!(curve[0][1], 0x04);
    assert_eq!(curve[3][1], 0x05);
    assert!(curve.iter().all(|p| p[4..].iter().all(|&b| b == 0)));
}

#[test]
fn write_defaults_resets_and_orders_packets() {
    let mut c = Controller::new();
    c.set_actuation_all(3);
    let packets = c.write_defaults();
    assert!((0..TOTAL_KEYS).all(|i| c.actuation(i) == DEFAULT_ACTUATION));
    assert_eq!(packets.len(), 11);
    assert_eq!(packets[0], led_mode(0, LedSequence::Off, 5, 9, 0xff, false));
    assert_eq!(packets[1], rapid_trigger_turbo(false, false));
    assert_eq!(packets[2], modify_row(0, &[DEFAULT_ACTUATION; 59], RowKind::Actuation));
    assert_eq!(packets[5], modify_row(0, &[0; 59], RowKind::Downstroke));
    assert_eq!(packets[10], modify_row(2, &[0; 8], RowKind::Upstroke));
}

fn depth_report(row: u8, values: &[u8]) -> Vec<u8> {
    let mut r = vec![0xB7, 0x00, 0x00, row];
    r.extend_from_slice(values);
    r
}

#[test]
fn depth_frame_assembles_three_rows() {
    let mut d = DepthFrame::new();
    assert!(!d.is_complete());
    assert_eq!(d.finish(), None);
    d.absorb(&depth_report(1, &[5; 59]));
    assert!(!d.is_complete());
    let partial = d.finish().unwrap();
    assert_eq!(partial[58], 0);
    assert_eq!(partial[59], 5);
    d.absorb(&depth_report(0, &[1; 59]));
    d.absorb(&depth_report(2, &[9; 20]));
    assert!(d.is_complete());
    let f = d.finish().unwrap();
    assert!(f[..59].iter().all(|&b| b == 1));
    assert!(f[59..118].iter().all(|&b| b == 5));
    assert!(f[118..].iter().all(|&b| b == 9));
}

#[test]
fn depth_frame_ignores_other_reports() {
    let mut d = DepthFrame::new();
    d.absorb(&[0xA0, 0, 0, 0, 1, 2]);
    d.absorb(&depth_report(3, &[7; 10]));
    d.absorb(&[0xB7, 0, 0, 0]);
    assert_eq!(d.finish(), None);
    d.absorb(&depth_report(0, &[4, 4]));
    let f = d.finish().unwrap();
    assert_eq!(&f[..3], &[4, 4, 0]);
}

#[test]
fn apply_profile_sets_global_then_overrides() {
    let mut c = Controller::new();
    let packets = c
        .apply_profile(15, &["W", "A", "w"], &[12, 13, 11], true, false)
        .unwrap();
    assert_eq!(c.actuation(44), 11);
    assert_eq!(c.actuation(64), 13);
    assert_eq!(c.actuation(0), 15);
    assert_eq!(packets.len(), 4);
    assert_eq!(packets[0][4], 15);
    assert_eq!(packets[3], rapid_trigger_turbo(true, false));
}

#[test]
fn apply_profile_stops_at_unknown_key() {
    let mut c = Controller::new();
    let r = c.apply_profile(15, &["W", "NOPE", "A"], &[12, 13, 14], false, false);
    assert_eq!(r, Err(Error::UnknownKey("NOPE".to_string())));
    assert_eq!(c.actuation(44), 12);
    assert_eq!(c.actuation(64), 15);
}

#[test]
fn actuation_map_pads_with_default() {
    let mut c = Controller::new();
    c.set_actuation_all(3);
    c.set_actuation_map(&[10, 11]);
    assert_eq!(c.actuation(0), 10);
    assert_eq!(c.actuation(1), 11);
    assert_eq!(c.actuation(2), DEFAULT_ACTUATION);
    c.set_actuation_map(&[9i32; 200]);
    assert!((0..TOTAL_KEYS).all(|i| c.actuation(i) == 9));
}

#[test]
fn setters_clamp_into_supported_range() {
    let mut c = Controller::new();
    c.set_actuation_all(100);
    assert!((0..TOTAL_KEYS).all(|i| c.actuation(i) == 0x26));
    c.set_actuation_index(0, -3);
    assert_eq!(c.actuation(0), 0x02);
    c.set_actuation(&["W"], 1).unwrap();
    assert_eq!(c.actuation(44), 0x02);
    c.set_actuation_map(&[500, 7]);
    assert_eq!(c.actuation(0), 0x26);
    assert_eq!(c.actuation(1), 7);
    let packets = c.apply_profile(0, &["A"], &[99], false, false).unwrap();
    assert_eq!(c.actuation(64), 0x26);
    assert_eq!(c.actuation(0), 0x02);
    for (r, p) in packets[..3].iter().enumerate() {
        let cap = if r == 2 { 8 } else { 59 };
        assert!(p[4..4 + cap].iter().all(|&b| (0x02..=0x26).contains(&b)));
    }
}
