use fawnd::daemon::{
    apply_profile_response, depths_response, into_response, next_profile, status_response,
    newly_pressed, profile_names, str_le, toml_stem,
};
use fawnd::ipc::Response;
use fawnd::protocol::{Identity, Model};
use fawnd::watch::FocusService;
use fawnd::rules::{Rule, Rules};
use fawnd::Error;

#[test]
fn manual_change_clears_active_profile() {
    let mut active = Some("gaming".to_string());
    assert!(matches!(into_response(Ok(()), &mut active), Response::Success));
    assert_eq!(active, None);
}

#[test]
fn failure_keeps_active_profile() {
    let mut active = Some("gaming".to_string());
    let r = into_response(Err(Error::NoResponse), &mut active);
    match r {
        Response::Error(m) => assert_eq!(m, "device did not respond to identity handshake"),
        other => panic!("unexpected {other:?}"),
    }
    assert_eq!(active.as_deref(), Some("gaming"));
}

#[test]
fn applied_profile_becomes_active() {
    let mut active = None;
    let r = apply_profile_response("gaming".into(), Ok(()), &mut active);
    assert!(matches!(r, Response::Success));
    assert_eq!(active.as_deref(), Some("gaming"));
    let r = apply_profile_response(
        "typing".into(),
        Err(Error::Config("no profile named 'typing'".into())),
        &mut active,
    );
    match r {
        Response::Error(m) => assert_eq!(m, "config error: no profile named 'typing'"),
        other => panic!("unexpected {other:?}"),
    }
    assert_eq!(active.as_deref(), Some("gaming"));
}

#[test]
fn status_reply() {
    let id = Identity {
        model: Model::G65,
        firmware_version: "0.0114".into(),
        rapid_trigger: true,
        turbo: false,
    };
    match status_response(Ok(id), &Some("gaming".into())) {
        Response::Status(s) => {
            assert_eq!(s.model, "G65");
            assert_eq!(s.firmware, "0.0114");
            assert!(s.rapid_trigger);
            assert!(!s.turbo);
            assert_eq!(s.active_profile.as_deref(), Some("gaming"));
        }
        other => panic!("unexpected {other:?}"),
    }
    match status_response(Err(Error::DeviceNotFound), &None) {
        Response::Error(m) => {
            assert_eq!(m, "no DrunkDeer keyboard found (looked for vendor 0x352d)")
        }
        other => panic!("unexpected {other:?}"),
    }
}

#[test]
fn depths_reply() {
    let frame = [3u8; 126];
    match depths_response(Ok(Some(frame))) {
        Response::Depths(v) => assert_eq!(v, frame.to_vec()),
        other => panic!("unexpected {other:?}"),
    }
    match depths_response(Ok(None)) {
        Response::Error(m) => assert_eq!(m, "no depth data"),
        other => panic!("unexpected {other:?}"),
    }
    match depths_response(Err(Error::Hid("gone".into()))) {
        Response::Error(m) => assert_eq!(m, "HID error: gone"),
        other => panic!("unexpected {other:?}"),
    }
}

#[test]
fn error_messages() {
    assert_eq!(Error::UnknownKey("X".into()).message(), "unknown key name: X");
    assert_eq!(Error::Io("denied".into()).message(), "I/O error: denied");
    assert_eq!(Error::TomlDe("bad".into()).message(), "TOML parse error: bad");
    assert_eq!(Error::TomlSer("bad".into()).message(), "TOML write error: bad");
    assert_eq!(Error::Json("bad".into()).message(), "JSON error: bad");
    assert_eq!(Error::Dbus("bad".into()).message(), "D-Bus error: bad");
    assert_eq!(Error::Daemon("down".into()).message(), "daemon: down");
}

fn gaming_rules() -> Rules {
    Rules {
        default: Some("typing".into()),
        rules: vec![Rule {
            pattern: "steam_app_*".into(),
            profile: "gaming".into(),
        }],
    }
}

#[test]
fn focus_switches_once_per_profile() {
    let mut svc = FocusService::new(Some(gaming_rules()));
    let p = svc.activated("steam_app_730");
    assert_eq!(p.as_deref(), Some("gaming"));
    svc.record_apply(p.unwrap(), &Response::Success);
    assert_eq!(svc.current.as_deref(), Some("gaming"));
    assert_eq!(svc.activated("steam_app_42"), None);
    assert_eq!(svc.activated("kitty").as_deref(), Some("typing"));
}

#[test]
fn failed_switch_is_not_recorded() {
    let mut svc = FocusService::new(Some(gaming_rules()));
    svc.record_apply("gaming".into(), &Response::Error("busy".into()));
    assert_eq!(svc.current, None);
}

#[test]
fn no_rules_no_switching() {
    let svc = FocusService::new(None);
    assert_eq!(svc.activated("steam_app_730"), None);
    let svc = FocusService::new(Some(Rules::default()));
    assert_eq!(svc.activated("steam_app_730"), None);
}

#[test]
fn cycle_reply_sets_current() {
    let mut svc = FocusService::new(None);
    let status = fawnd::ipc::Status {
        model: "A75".into(),
        firmware: "0.0114".into(),
        rapid_trigger: false,
        turbo: false,
        active_profile: Some("typing".into()),
    };
    svc.cycle_profile(Response::Status(status));
    assert_eq!(svc.current.as_deref(), Some("typing"));
    svc.cycle_profile(Response::Error("x".into()));
    assert_eq!(svc.current.as_deref(), Some("typing"));
}

#[test]
fn cycling_profiles_wraps_around() {
    let names: Vec<String> = vec!["gaming".into(), "typing".into(), "work".into()];
    assert_eq!(next_profile(&names, &None).as_deref(), Some("gaming"));
    assert_eq!(next_profile(&names, &Some("gaming".into())).as_deref(), Some("typing"));
    assert_eq!(next_profile(&names, &Some("work".into())).as_deref(), Some("gaming"));
    assert_eq!(next_profile(&names, &Some("gone".into())).as_deref(), Some("gaming"));
    assert_eq!(next_profile(&Vec::new(), &Some("gaming".into())), None);
}

#[test]
fn profile_file_names() {
    assert_eq!(toml_stem("gaming.toml"), Some("gaming".to_string()));
    assert_eq!(toml_stem("a.b.toml"), Some("a.b".to_string()));
    assert_eq!(toml_stem("..toml"), Some(".".to_string()));
    assert_eq!(toml_stem("ünï.toml"), Some("ünï".to_string()));
    assert_eq!(toml_stem(".toml"), None);
    assert_eq!(toml_stem("gaming.TOML"), None);
    assert_eq!(toml_stem("gaming.toml~"), None);
    assert_eq!(toml_stem("rules.json"), None);
    assert_eq!(toml_stem(""), None);
}

#[test]
fn keys_going_down_are_named_once() {
    let idle = vec![0u8; 126];
    let mut w_down = idle.clone();
    w_down[44] = 12;
    assert_eq!(newly_pressed(&idle, &w_down), vec![44]);
    // Still held: nothing new.
    let mut w_deeper = w_down.clone();
    w_deeper[44] = 30;
    assert_eq!(newly_pressed(&w_down, &w_deeper), Vec::<usize>::new());
    // A and D join while W is held.
    let mut more = w_deeper.clone();
    more[66] = 1;
    more[64] = 5;
    assert_eq!(newly_pressed(&w_deeper, &more), vec![64, 66]);
    // Against no earlier frame every travelling slot counts.
    assert_eq!(newly_pressed(&[], &more), vec![44, 64, 66]);
    // Released keys are not reported.
    assert_eq!(newly_pressed(&more, &idle), Vec::<usize>::new());
}

#[test]
fn profile_names_are_sorted_stems() {
    let files: Vec<String> = ["work.toml", "rules.json", "Gaming.toml", "alpha.toml", ".toml", "alpha.toml.bak", "beta.toml", "alpha.toml"]
        .iter()
        .map(|s| s.to_string())
        .collect();
    assert_eq!(
        profile_names(&files),
        vec!["Gaming", "alpha", "alpha", "beta", "work"]
    );
    assert_eq!(profile_names(&Vec::new()), Vec::<String>::new());
}

#[test]
fn byte_order_of_names() {
    assert!(str_le("alpha", "beta"));
    assert!(str_le("alpha", "alpha"));
    assert!(str_le("alp", "alpha"));
    assert!(!str_le("alpha", "alp"));
    assert!(str_le("Zed", "apple"));
    assert!(str_le("", ""));
    assert!(!str_le("b", "a"));
}
