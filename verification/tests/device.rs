use fawnd::device::{
    frame_report, identity_reply, input_report_payload, is_config_interface,
    is_supported_product, report_payload,
};
use fawnd::protocol::consts::{REPORT_ID, REPORT_LEN};
use fawnd::protocol::packet::{identity, key_tracking};
use fawnd::protocol::Model;
use fawnd::Error;

#[test]
fn config_interface_selection() {
    assert!(is_config_interface(0x352D, 0x2383, 0xFF00, 0x00));
    assert!(is_config_interface(0x352D, 0x2386, 0xFF00, 0x00));
    assert!(!is_config_interface(0x352D, 0x2385, 0xFF00, 0x00));
    assert!(!is_config_interface(0x1234, 0x2383, 0xFF00, 0x00));
    assert!(!is_config_interface(0x352D, 0x2383, 0x0001, 0x06));
    assert!(is_supported_product(0x2382));
    assert!(!is_supported_product(0));
}

#[test]
fn framing_prepends_report_id() {
    let p = key_tracking(true);
    let r = frame_report(&p);
    assert_eq!(r.len(), REPORT_LEN);
    assert_eq!(r[0], REPORT_ID);
    assert_eq!(&r[1..], &p[..]);
}

#[test]
fn read_back_of_a_framed_report() {
    let p = identity();
    let r = frame_report(&p);
    assert_eq!(report_payload(&r, REPORT_LEN), Some(p.to_vec()));
}

#[test]
fn report_payload_normalisation() {
    let mut buf = [0u8; REPORT_LEN];
    assert_eq!(report_payload(&buf, 0), None);
    buf[0] = 0xB7;
    buf[1] = 9;
    assert_eq!(report_payload(&buf, 2), Some(vec![0xB7, 9]));
    buf[0] = REPORT_ID;
    assert_eq!(report_payload(&buf, 2), Some(vec![9]));
    assert_eq!(report_payload(&buf, 1), Some(vec![]));
}

#[test]
fn input_report_normalisation() {
    assert_eq!(input_report_payload(4, vec![4, 1, 2]), vec![4, 1, 2]);
    assert_eq!(input_report_payload(0, vec![4, 1, 2]), vec![1, 2]);
    assert_eq!(input_report_payload(0, vec![0xB7, 1]), vec![0xB7, 1]);
    assert_eq!(input_report_payload(0, vec![]), Vec::<u8>::new());
}

#[test]
fn identity_reply_decisions() {
    assert!(identity_reply(&[]).is_none());
    assert!(identity_reply(&[0xB7, 0, 0, 0, 1]).is_none());
    assert_eq!(identity_reply(&[0xA0, 2]).map(|r| r.map(|_| ())), Some(Err(Error::NoResponse)));
    let mut data = vec![0u8; 20];
    data[0] = 0xA0;
    data[4..7].copy_from_slice(&[0x0b, 0x04, 0x03]);
    data[7] = 0x72;
    let id = identity_reply(&data).unwrap().unwrap();
    assert_eq!(id.model, Model::A75Pro);
    assert_eq!(id.firmware_version, "0.0114");
}
