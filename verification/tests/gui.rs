use fawnd::error::Error;
use fawnd::gui::api::Event;
use fawnd::gui::app::{
    selected_indices, selection_all, selection_wasd, sequence_name, short_label, str_eq,
};
use fawnd::protocol::layout::{name_of, WASD_KEYS};
use fawnd::protocol::TOTAL_KEYS;
use fawnd::gui::worker::{
    connect_outcome, depth_frame_from, on_off, rapid_trigger_status, reply_outcome,
};
use fawnd::ipc::{Response, Status};
use fawnd::protocol::LedSequence;

#[test]
fn cap_labels() {
    assert_eq!(short_label("TILDE"), "~");
    assert_eq!(short_label("SHF_R"), "Shift");
    assert_eq!(short_label("SLASH_K29"), "\\");
    assert_eq!(short_label("KP_DEL"), "Del");
    assert_eq!(short_label("KP7"), "7");
    assert_eq!(short_label("KP0"), "0");
    assert_eq!(short_label("W"), "W");
    assert_eq!(short_label("F12"), "F12");
    assert_eq!(short_label("K"), "K");
    assert_eq!(short_label("KP"), "");
}

#[test]
fn sequence_names() {
    assert_eq!(sequence_name(LedSequence::Off), "Off");
    assert_eq!(sequence_name(LedSequence::Always), "Always on");
    assert_eq!(sequence_name(LedSequence::Snake), "Snake");
    assert_eq!(sequence_name(LedSequence::Fish), "Custom");
    assert_eq!(sequence_name(LedSequence::Custom), "Custom");
}

#[test]
fn string_equality() {
    assert!(str_eq("abc", "abc"));
    assert!(!str_eq("abc", "abd"));
    assert!(!str_eq("abc", "ab"));
}

#[test]
fn on_off_text() {
    assert_eq!(on_off(true), "on");
    assert_eq!(on_off(false), "off");
    assert_eq!(rapid_trigger_status(true, false), "rapid trigger on, turbo off");
}

fn status() -> Status {
    Status {
        model: "A75".into(),
        firmware: "0.0114".into(),
        rapid_trigger: false,
        turbo: true,
        active_profile: None,
    }
}

#[test]
fn connect_outcomes() {
    let (keep, evt) = connect_outcome(Ok(Response::Status(status())));
    assert!(keep);
    assert!(matches!(evt, Event::Connected(s) if s.model == "A75"));
    let (keep, evt) = connect_outcome(Ok(Response::Error("no device".into())));
    assert!(!keep);
    assert!(matches!(evt, Event::Disconnected(m) if m == "no device"));
    let (keep, evt) = connect_outcome(Ok(Response::Success));
    assert!(!keep);
    assert!(matches!(evt, Event::Disconnected(m) if m == "unexpected daemon reply"));
    let (keep, evt) = connect_outcome(Err(Error::Daemon("not running".into())));
    assert!(!keep);
    assert!(matches!(evt, Event::Disconnected(m) if m == "daemon: not running"));
}

#[test]
fn reply_outcomes() {
    let (keep, evt) = reply_outcome(Ok(Response::Success), "lighting updated".into());
    assert!(keep);
    assert!(matches!(evt, Event::Status(m) if m == "lighting updated"));
    let (keep, evt) = reply_outcome(Ok(Response::Error("busy".into())), "x".into());
    assert!(keep);
    assert!(matches!(evt, Event::Error(m) if m == "busy"));
    let (keep, evt) = reply_outcome(Ok(Response::Profiles(vec![])), "done".into());
    assert!(keep);
    assert!(matches!(evt, Event::Status(m) if m == "done"));
    let (keep, evt) = reply_outcome(Err(Error::Io("broken pipe".into())), "x".into());
    assert!(!keep);
    assert!(matches!(evt, Event::Disconnected(m) if m == "I/O error: broken pipe"));
}

#[test]
fn depth_frames_from_replies() {
    let f = depth_frame_from(&[1, 2, 3]);
    assert_eq!(&f[..4], &[1, 2, 3, 0]);
    let long = vec![7u8; 200];
    let f = depth_frame_from(&long);
    assert!(f.iter().all(|&b| b == 7));
}

#[test]
fn select_all_picks_physical_keys() {
    let sel = selection_all();
    assert_eq!(sel.len(), TOTAL_KEYS);
    for i in 0..TOTAL_KEYS {
        assert_eq!(sel[i], name_of(i).is_some());
    }
    assert!(sel[0]);
    assert!(sel.iter().any(|b| !*b));
}

#[test]
fn select_wasd_picks_four_keys() {
    let sel = selection_wasd();
    assert_eq!(sel.len(), TOTAL_KEYS);
    let picked = selected_indices(&sel);
    let mut want = WASD_KEYS.to_vec();
    want.sort();
    assert_eq!(picked, want);
    let names: Vec<&str> = picked.iter().map(|&i| name_of(i).unwrap()).collect();
    assert_eq!(names, vec!["W", "A", "S", "D"]);
}

#[test]
fn selected_indices_in_order() {
    assert_eq!(selected_indices(&[false, true, false, true, true]), vec![1, 3, 4]);
    assert_eq!(selected_indices(&[false, false]), Vec::<usize>::new());
    assert_eq!(selected_indices(&[]), Vec::<usize>::new());
}
