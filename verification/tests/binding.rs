use linkswitch::net::binding::{
    answer, bridge_component, bridge_warning, join_list, map_err, parse_guid, read, BindAction,
    BindError, BindEvent, BindOutcome, BindRun, BindingState, Protocol, E_ACCESSDENIED,
    NETCFG_E_ADAPTER_NOT_FOUND, NETCFG_E_NO_WRITE_LOCK, NETCFG_E_VMSWITCH_ACTIVE_OVER_ADAPTER,
    NETCFG_S_REBOOT, S_FALSE, S_OK,
};
use linkswitch::net::guid::Guid;

#[test]
fn guid_parses_with_and_without_braces() {
    let a = parse_guid("{66666666-7777-8888-9999-AAAAAAAAAAAA}").unwrap();
    let b = parse_guid("66666666-7777-8888-9999-aaaaaaaaaaaa").unwrap();
    assert_eq!(a, b);
    assert_eq!(a, Guid::from_u128(0x66666666_7777_8888_9999_aaaaaaaaaaaa));
}

#[test]
fn malformed_guids_are_rejected_rather_than_silently_wrong() {
    // A bad GUID must not resolve to some other adapter.
    for bad in [
        "",
        "{}",
        "not-a-guid",
        "{66666666-7777-8888-9999}",
        "{66666666-7777-8888-9999-AAAAAAAAAAAA-extra}",
        "{ZZZZDBD0-7777-8888-9999-AAAAAAAAAAAA}",
        "{66666666-7777-8888-9999-AAAAAAAAAAA}",
    ] {
        assert!(parse_guid(bad).is_none(), "{bad} should not parse");
    }
}

#[test]
fn binding_state_helpers() {
    assert!(!BindingState { v4: false, v6: false }.any());
    assert!(BindingState { v4: true, v6: false }.any());
    assert_eq!(BindingState { v4: true, v6: false }.as_tuple(), (true, false));
}

#[test]
fn bridge_warning_agrees_in_number() {
    // Both branches are reachable on ordinary machines, so both need to read correctly.
    assert_eq!(
        format!("{} still {} x.", join_list(&["A"]), "uses"),
        "A still uses x."
    );
    assert_eq!(
        format!("{} still {} x.", join_list(&["A", "B"]), "use"),
        "A and B still use x."
    );
}

#[test]
fn list_joining_reads_naturally() {
    assert_eq!(join_list(&[]), "");
    assert_eq!(join_list(&["A"]), "A");
    assert_eq!(join_list(&["A", "B"]), "A and B");
    assert_eq!(join_list(&["A", "B", "C"]), "A, B, and C");
}

#[test]
fn every_bind_error_has_an_actionable_message() {
    let errs = [
        BindError::Locked {
            holder: Some("Network Connections".into()),
        },
        BindError::Locked { holder: None },
        BindError::AdapterNotFound,
        BindError::VSwitchActive,
        BindError::NotElevated,
        BindError::Com("0x80004005".into()),
    ];
    for e in &errs {
        let m = e.user_message();
        assert!(!m.is_empty());
        assert!(m.ends_with('.'), "message should be a sentence: {m}");
    }
    // The holder's name is surfaced so the user knows what to close.
    assert!(errs[0].user_message().contains("Network Connections"));
    assert!(errs[1].user_message().contains("another program"));

    // Windows error text arrives with and without a trailing period; neither should
    // produce a double period or a bare fragment.
    assert!(BindError::Com("it broke".into())
        .user_message()
        .ends_with("it broke."));
    assert!(BindError::Com("it broke.".into())
        .user_message()
        .ends_with("it broke."));
}

const ADAPTER: &str = "{66666666-7777-8888-9999-AAAAAAAAAAAA}";

fn start(v4: bool, v6: bool) -> BindRun {
    linkswitch::net::binding::set(ADAPTER, BindingState { v4, v6 }).unwrap().0
}

fn locked(code: u32) -> BindEvent {
    BindEvent::Lock { code, holder: Some("Settings".to_string()), text: String::new() }
}

#[test]
fn codes_become_errors_of_their_own() {
    let text = || "text".to_string();
    assert!(matches!(map_err(NETCFG_E_ADAPTER_NOT_FOUND, text()), BindError::AdapterNotFound));
    assert!(matches!(map_err(NETCFG_E_NO_WRITE_LOCK, text()), BindError::Locked { holder: None }));
    assert!(matches!(
        map_err(NETCFG_E_VMSWITCH_ACTIVE_OVER_ADAPTER, text()),
        BindError::VSwitchActive
    ));
    assert!(matches!(map_err(E_ACCESSDENIED, text()), BindError::NotElevated));
    assert!(matches!(map_err(0x8000_4005, text()), BindError::Com(t) if t == "text"));
    assert_eq!(answer(S_OK), Ok(true));
    assert_eq!(answer(S_FALSE), Ok(false));
    assert_eq!(answer(0x8000_4005), Err(0x8000_4005));
}

#[test]
fn a_protocol_that_is_missing_is_not_bound() {
    assert_eq!(read(Some(true), None), BindingState { v4: true, v6: false });
    assert_eq!(read(None, Some(true)), BindingState { v4: false, v6: true });
}

#[test]
fn bridges_are_warned_about() {
    assert_eq!(bridge_warning(&[]), None);
    let one = bridge_warning(&[bridge_component(0).1]).unwrap();
    assert!(one.starts_with("VMware bridged networking still uses"), "got {one}");
    let two = bridge_warning(&["A", "B"]).unwrap();
    assert!(two.starts_with("A and B still use "), "got {two}");
}

#[test]
fn a_detachment_changes_only_what_is_bound() {
    let mut run = start(false, false);
    assert_eq!(run.action(), BindAction::Open);
    assert!(run.step(BindEvent::Done).is_none());
    assert_eq!(run.action(), BindAction::Lock);
    assert!(run.step(locked(S_OK)).is_none());
    assert_eq!(run.action(), BindAction::Initialize);
    assert!(run.step(BindEvent::Done).is_none());
    assert!(run.step(BindEvent::Present(true)).is_none());
    assert!(run.step(BindEvent::Present(true)).is_none());
    assert_eq!(run.action(), BindAction::FindAdapter);
    assert!(run.step(BindEvent::Done).is_none());
    assert_eq!(run.action(), BindAction::IsBound(Protocol::V4));
    assert!(run.step(BindEvent::Bound(true)).is_none());
    assert_eq!(run.action(), BindAction::Change(Protocol::V4, false));
    assert!(run.step(BindEvent::Done).is_none());
    assert_eq!(run.action(), BindAction::IsBound(Protocol::V6));
    assert!(run.step(BindEvent::Bound(false)).is_none());
    assert_eq!(run.action(), BindAction::Apply);
    let end = run.step(BindEvent::Applied { code: NETCFG_S_REBOOT, text: String::new() });
    assert!(matches!(end, Some(Ok(BindOutcome { changed: true, needs_reboot: true }))));
}

#[test]
fn a_lock_that_stays_busy_names_its_holder() {
    let mut run = start(true, true);
    run.step(BindEvent::Done);
    assert!(run.step(locked(S_FALSE)).is_none());
    assert_eq!(run.action(), BindAction::Pause);
    assert!(run.step(BindEvent::Done).is_none());
    let end = run.step(locked(S_FALSE));
    assert!(
        matches!(end, Some(Err(BindError::Locked { holder: Some(h) })) if h == "Settings")
    );
}

#[test]
fn binding_a_protocol_that_is_not_installed_is_refused() {
    let mut run = start(true, false);
    run.step(BindEvent::Done);
    run.step(locked(S_OK));
    run.step(BindEvent::Done);
    run.step(BindEvent::Present(false));
    let end = run.step(BindEvent::Present(true));
    assert!(matches!(end, Some(Err(BindError::Com(_)))), "got {end:?}");
}

#[test]
fn an_adapter_without_a_guid_is_not_touched() {
    assert!(matches!(
        linkswitch::net::binding::set("Ethernet", BindingState { v4: true, v6: true }),
        Err(BindError::AdapterNotFound)
    ));
}
