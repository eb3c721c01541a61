use linkswitch::net::wifi::{
    ensure_connected, first_interface, profiles, radio_state, status, utf16_to_string, ConnectAction,
    ConnectEvent, Connection, PhyRadio, WifiError,
};

#[test]
fn utf16_stops_at_the_nul() {
    let mut buf = [0u16; 8];
    for (i, c) in "Wi-Fi".encode_utf16().enumerate() {
        buf[i] = c;
    }
    assert_eq!(utf16_to_string(&buf), "Wi-Fi");
    // No NUL at all: use the whole buffer rather than reading past it.
    let full: Vec<u16> = "abcd".encode_utf16().collect();
    assert_eq!(utf16_to_string(&full), "abcd");
    assert_eq!(utf16_to_string(&[]), "");
}

#[test]
fn every_error_has_a_distinct_actionable_message() {
    let errs = [
        WifiError::ServiceUnavailable(5),
        WifiError::NoAdapter,
        WifiError::NotReady,
        WifiError::RadioOff { hardware: true },
        WifiError::RadioOff { hardware: false },
        WifiError::NoProfile,
        WifiError::ConnectFailed {
            code: 1168,
            profile: "HomeNet".into(),
        },
        WifiError::Timeout {
            profile: "HomeNet".into(),
            waited: 12,
        },
    ];
    let msgs: Vec<String> = errs.iter().map(|e| e.user_message()).collect();
    for m in &msgs {
        assert!(!m.is_empty(), "every error needs a message");
    }
    let mut uniq = msgs.clone();
    uniq.sort();
    uniq.dedup();
    assert_eq!(uniq.len(), msgs.len(), "messages must not collapse together");
}

#[test]
fn hardware_radio_off_is_reported_differently_from_airplane_mode() {
    // The user can fix one of these from the Windows UI and not the other.
    assert_ne!(
        WifiError::RadioOff { hardware: true }.user_message(),
        WifiError::RadioOff { hardware: false }.user_message()
    );
}

fn units(s: &str) -> Vec<u16> {
    s.encode_utf16().collect()
}

#[test]
fn a_network_name_that_is_not_utf8_is_still_shown() {
    let c = Connection { ssid: vec![b'H', 0xff, b'i'], signal_quality: 61, profile: units("Home") };
    let s = status(1, Some((true, true)), Some(c));
    assert_eq!(s.ssid.as_deref(), Some("H\u{fffd}i"));
    assert_eq!(s.profile.as_deref(), Some("Home"));
    assert_eq!(s.signal_quality, Some(61));
    assert!(s.connected && s.radio_on);
}

#[test]
fn surrogates_are_joined_and_lone_ones_replaced() {
    assert_eq!(utf16_to_string(&units("\u{1f4f6} ok")), "\u{1f4f6} ok");
    assert_eq!(utf16_to_string(&[0xd83d, 0x41]), "\u{fffd}A");
}

#[test]
fn interfaces_are_told_apart_from_errors() {
    assert_eq!(first_interface(5, None), Err(WifiError::ServiceUnavailable(5)));
    assert_eq!(first_interface(0, Some((0, 0))), Err(WifiError::NoAdapter));
    assert_eq!(first_interface(0, Some((2, 4))), Ok(4));
}

#[test]
fn saved_profiles_are_read_in_order() {
    assert_eq!(profiles(&[units("A"), units("B")]), vec!["A".to_string(), "B".to_string()]);
}

#[test]
fn one_radio_that_is_on_is_enough() {
    let on = PhyRadio { software: 1, hardware: 1 };
    let off = PhyRadio { software: 2, hardware: 1 };
    assert_eq!(radio_state(&[off, on]), (true, true));
    assert_eq!(radio_state(&[off]), (false, true));
}

#[test]
fn connecting_takes_the_preferred_profile_and_waits_for_it() {
    let mut run = ensure_connected(Some("Office".to_string()), 15_000);
    assert_eq!(run.action(), ConnectAction::Open);
    assert!(run.step(ConnectEvent::Opened(0)).is_none());
    assert!(run.step(ConnectEvent::Interfaces { rc: 0, list: Some((1, 4)) }).is_none());
    assert_eq!(run.action(), ConnectAction::ReadRadio);
    assert!(run.step(ConnectEvent::Radio(Some((true, true)))).is_none());
    let saved = vec!["Home".to_string(), "Office".to_string()];
    assert!(run.step(ConnectEvent::Profiles(saved)).is_none());
    assert_eq!(run.profile, "Office");
    assert_eq!(run.action(), ConnectAction::Connect);
    assert!(run.step(ConnectEvent::Connected(0)).is_none());
    assert!(run.step(ConnectEvent::Clock(1)).is_none());
    assert!(run.step(ConnectEvent::Paused).is_none());
    let end = run.step(ConnectEvent::Interfaces { rc: 0, list: Some((1, 1)) });
    assert_eq!(end, Some(Ok("Office".to_string())));
    assert_eq!(run.action(), ConnectAction::Nothing);
}

#[test]
fn connecting_gives_up_for_every_reason() {
    let looking = |state: i32| {
        let mut run = ensure_connected(None, 15_000);
        run.step(ConnectEvent::Opened(0));
        let end = run.step(ConnectEvent::Interfaces { rc: 0, list: Some((1, state)) });
        (run, end)
    };
    let mut run = ensure_connected(None, 15_000);
    assert_eq!(run.step(ConnectEvent::Opened(1062)), Some(Err(WifiError::ServiceUnavailable(1062))));
    assert_eq!(looking(0).1, Some(Err(WifiError::NotReady)));
    let (mut run, _) = looking(4);
    assert_eq!(
        run.step(ConnectEvent::Radio(Some((true, false)))),
        Some(Err(WifiError::RadioOff { hardware: true }))
    );
    let (mut run, _) = looking(4);
    run.step(ConnectEvent::Radio(None));
    assert_eq!(run.step(ConnectEvent::Profiles(vec![])), Some(Err(WifiError::NoProfile)));
    let (mut run, _) = looking(4);
    run.step(ConnectEvent::Radio(None));
    run.step(ConnectEvent::Profiles(vec!["Home".to_string()]));
    assert_eq!(
        run.step(ConnectEvent::Connected(1168)),
        Some(Err(WifiError::ConnectFailed { code: 1168, profile: "Home".to_string() }))
    );
    let (mut run, _) = looking(4);
    run.step(ConnectEvent::Radio(None));
    run.step(ConnectEvent::Profiles(vec!["Home".to_string()]));
    run.step(ConnectEvent::Connected(0));
    assert!(matches!(
        run.step(ConnectEvent::Clock(15_000)),
        Some(Err(WifiError::Timeout { waited: 15, .. }))
    ));
}
