use linkswitch::apply::run::{Action, ApplyRun, Event, RecoverStage, Stage, SETTLE_MS};
use linkswitch::apply::{apply, capture, exit, recover_if_torn};
use linkswitch::config::{BindingBackup, Journal, MachineConfig, MetricBackup, Mode};
use linkswitch::net::adapters::{Ipv4Addr, Nic, NicKind, Tier};
use linkswitch::net::binding::{BindError, BindOutcome, BindingState};
use linkswitch::net::metric::{FamilyOutcome, MetricState, MetricWrite, AF_INET, AF_INET6};
use linkswitch::net::routes::DefaultRoute;
use linkswitch::net::wcm::effective;
use linkswitch::net::wifi::WifiError;
use linkswitch::net::{LuidKey, Snapshot};

const ETH: LuidKey = LuidKey(0x11);
const WIFI: LuidKey = LuidKey(0x22);
const GUID: &str = "{66666666-7777-8888-9999-AAAAAAAAAAAA}";
const AUTO: MetricState = MetricState {
    metric: 5,
    automatic: true,
    default_routes_disabled: false,
};
const PINNED: MetricState = MetricState {
    metric: 9000,
    automatic: false,
    default_routes_disabled: false,
};
const DONE: FamilyOutcome = FamilyOutcome::Applied {
    before: 5,
    before_auto: true,
    after: 9000,
    after_auto: false,
};

fn nic(luid: LuidKey, kind: NicKind, plugged: bool) -> Nic {
    Nic {
        luid,
        if_index: 3,
        friendly_name: "Link".to_string(),
        description: "Adapter".to_string(),
        adapter_name: GUID.to_string(),
        if_type: 6,
        kind,
        tier: Tier::Hardware,
        oper_up: plugged,
        media_connected: plugged,
        tx_speed_bps: Some(1_000_000_000),
        mac: None,
        permanent_mac: None,
        ipv4: vec![Ipv4Addr::new(192, 168, 1, 2)],
        ipv6: vec![],
        gateways: vec![],
    }
}

fn route(luid: LuidKey, total: u32) -> DefaultRoute {
    DefaultRoute {
        luid,
        if_index: 9,
        route_metric: 0,
        iface_metric: total,
        total,
        family_is_v6: false,
    }
}

fn snapshot(routes: Vec<DefaultRoute>) -> Event {
    Event::Snapshot(Snapshot {
        nics: vec![nic(ETH, NicKind::Ethernet, true), nic(WIFI, NicKind::Wifi, true)],
        metrics: vec![],
        routes,
    })
}

fn write(luid: LuidKey, family: u16, target: Option<u32>) -> MetricWrite {
    MetricWrite { luid, family, target }
}

/// A run up to where the mode itself begins.
fn begun(mode: Mode) -> ApplyRun {
    let mut run = apply(mode, true);
    assert!(matches!(run.action(), Action::Recover));
    run.step(Event::Done, 1);
    assert!(matches!(run.action(), Action::LoadMachine));
    run.step(Event::Machine(MachineConfig::default()), 1);
    run.step(snapshot(vec![route(ETH, 5), route(WIFI, 30)]), 1);
    assert!(matches!(run.action(), Action::LoadJournal));
    run.step(Event::Journal(Journal::default()), 1);
    run
}

/// A Wi-Fi run up to where the metrics are read.
fn associated(mode: Mode) -> ApplyRun {
    let mut run = begun(mode);
    assert!(matches!(run.action(), Action::ReadPolicy));
    run.step(Event::Policy(effective(None, None)), 2);
    assert!(matches!(run.action(), Action::ConnectWifi(None)));
    run.step(Event::Wifi(Ok("HomeNet".to_string())), 3);
    run.step(snapshot(vec![route(ETH, 5), route(WIFI, 30)]), 4);
    run
}

#[test]
fn without_rights_nothing_is_asked_for() {
    let run = apply(Mode::Wifi, false);
    assert!(matches!(run.action(), Action::Nothing));
    assert_eq!(run.report.exit_code, exit::NOT_ELEVATED);
    assert_eq!(
        run.report.message,
        "LinkSwitch needs administrator rights to change a network metric."
    );
}

#[test]
fn a_missing_adapter_ends_the_run() {
    let mut run = apply(Mode::Auto, true);
    run.step(Event::Done, 1);
    run.step(Event::Machine(MachineConfig::default()), 1);
    let only_wifi = Snapshot {
        nics: vec![nic(WIFI, NicKind::Wifi, true)],
        metrics: vec![],
        routes: vec![],
    };
    run.step(Event::Snapshot(only_wifi), 1);
    assert_eq!(run.report.exit_code, exit::NOT_CONFIGURED);
    assert_eq!(run.report.message, "No Ethernet adapter is available on this machine.");
}

#[test]
fn switching_to_wifi_parks_ethernet_after_the_journal() {
    let mut run = associated(Mode::Wifi);
    assert_eq!(run.park, 9000);
    match run.action() {
        Action::ReadMetrics(keys) => assert_eq!(keys.len(), 4),
        other => panic!("{other:?}"),
    }
    let wifi_pinned = MetricState { metric: 15, ..PINNED };
    let mut prior = capture(ETH, Some(AUTO), None);
    prior.append(&mut capture(WIFI, Some(wifi_pinned), None));
    run.step(Event::MetricsRead(vec![Some(AUTO), None, Some(wifi_pinned), None]), 100);
    match run.action() {
        Action::SaveJournal(j) => {
            assert!(j.in_flight && j.is_torn());
            assert_eq!(j.started_unix, 100);
            assert_eq!(j.restore, prior);
            assert_eq!(j.restore[1].metric, 15);
            assert!(!j.restore[1].automatic);
            assert_eq!(j.touched, prior);
        }
        other => panic!("{other:?}"),
    }
    run.step(Event::Done, 101);
    match run.action() {
        Action::WriteMetrics(w) => assert_eq!(
            w,
            vec![
                write(WIFI, AF_INET, None),
                write(WIFI, AF_INET6, None),
                write(ETH, AF_INET, Some(9000)),
                write(ETH, AF_INET6, Some(9000)),
            ]
        ),
        other => panic!("{other:?}"),
    }
    run.step(Event::MetricsWritten(vec![DONE, DONE, DONE, FamilyOutcome::FamilyAbsent]), 102);
    assert!(matches!(run.action(), Action::Pause(SETTLE_MS)));
    run.step(Event::Done, 103);
    run.step(snapshot(vec![route(WIFI, 30), route(ETH, 9000)]), 104);
    match run.action() {
        Action::SaveJournal(j) => {
            assert!(!j.in_flight);
            assert_eq!(j.finished_unix, Some(104));
            assert_eq!(j.restore, prior);
        }
        other => panic!("{other:?}"),
    }
    run.step(Event::Done, 105);
    run.step(Event::Machine(MachineConfig::default()), 105);
    match run.action() {
        Action::SaveMachine(c) => assert_eq!(c.wifi_profile_hint.as_deref(), Some("HomeNet")),
        other => panic!("{other:?}"),
    }
    run.step(Event::Done, 106);
    assert!(matches!(run.action(), Action::Nothing));
    assert!(run.report.ok && run.report.exit_code == exit::OK);
    assert_eq!(run.report.message, "Traffic now goes over Wi-Fi. Ethernet stays connected.");
    assert_eq!(run.report.details, vec!["Ethernet parked at metric 9000".to_string()]);
}

#[test]
fn a_vpn_does_not_count_as_a_failure() {
    let mut run = associated(Mode::Wifi);
    run.step(Event::MetricsRead(vec![Some(AUTO); 4]), 1);
    run.step(Event::Done, 1);
    run.step(Event::MetricsWritten(vec![DONE; 4]), 1);
    run.step(Event::Done, 1);
    run.step(snapshot(vec![route(LuidKey(0x99), 0)]), 1);
    run.step(Event::Done, 1);
    assert!(run.report.ok);
    assert_eq!(
        run.report.message,
        "Ethernet is parked; your VPN tunnel now runs over Wi-Fi for new connections."
    );
    assert_eq!(
        run.report.details[1],
        "A VPN or tunnel on interface 9 is carrying all traffic."
    );
}

#[test]
fn losing_every_route_puts_the_metrics_back() {
    let pinned = MetricState { metric: 10, ..PINNED };
    let wifi_pinned = MetricState { metric: 15, ..PINNED };
    let mut run = associated(Mode::Wifi);
    run.step(
        Event::MetricsRead(vec![Some(pinned), Some(AUTO), Some(wifi_pinned), Some(AUTO)]),
        1,
    );
    run.step(Event::Done, 1);
    run.step(Event::MetricsWritten(vec![DONE; 4]), 1);
    run.step(Event::Done, 1);
    run.step(snapshot(vec![]), 1);
    match run.action() {
        Action::WriteMetrics(w) => assert_eq!(
            w,
            vec![
                write(ETH, AF_INET, Some(10)),
                write(ETH, AF_INET6, None),
                write(WIFI, AF_INET, Some(15)),
                write(WIFI, AF_INET6, None),
            ]
        ),
        other => panic!("{other:?}"),
    }
    run.step(Event::MetricsWritten(vec![DONE; 4]), 7);
    match run.action() {
        Action::SaveJournal(j) => {
            assert!(!j.in_flight && j.restore.is_empty());
            assert_eq!(j.finished_unix, Some(7));
            assert_eq!(
                j.last_error.as_deref(),
                Some("no default route after the change; reverted")
            );
        }
        other => panic!("{other:?}"),
    }
    run.step(Event::Done, 8);
    assert_eq!(run.stage, Stage::Finished);
    assert_eq!(run.report.exit_code, exit::VERIFY_FAILED);
}

#[test]
fn a_metric_that_cannot_be_written_is_put_back() {
    let mut run = associated(Mode::Wifi);
    run.step(Event::MetricsRead(vec![Some(AUTO); 4]), 1);
    run.step(Event::Done, 1);
    run.step(Event::MetricsWritten(vec![DONE, DONE, FamilyOutcome::Failed(5), DONE]), 1);
    assert!(matches!(run.action(), Action::WriteMetrics(w) if w.len() == 4));
    assert_eq!(run.report.exit_code, exit::WRITE_FAILED);
    assert!(run.report.message.starts_with("Could not change the Ethernet metric: IPv4: "));
}

#[test]
fn wifi_that_cannot_come_up_changes_nothing() {
    let mut run = begun(Mode::Wifi);
    run.step(Event::Policy(effective(Some(3), None)), 1);
    assert_eq!(run.report.exit_code, exit::BLOCKED_BY_POLICY);
    assert!(matches!(run.action(), Action::Nothing));

    let mut run = begun(Mode::Wifi);
    run.step(Event::Policy(effective(None, None)), 1);
    run.step(Event::Wifi(Err(WifiError::NoProfile)), 1);
    assert_eq!(run.report.exit_code, exit::WIFI_UNAVAILABLE);
    assert!(matches!(run.action(), Action::Nothing));

    let mut run = begun(Mode::WifiOnly);
    run.step(Event::Policy(effective(None, None)), 1);
    run.step(Event::Wifi(Ok("HomeNet".to_string())), 1);
    run.step(snapshot(vec![route(ETH, 5)]), 1);
    assert_eq!(
        run.report.message,
        "Wi-Fi is connected but has no default route yet. Try again in a moment."
    );
}

#[test]
fn ethernet_needs_a_cable() {
    let mut run = apply(Mode::Ethernet, true);
    run.step(Event::Done, 1);
    run.step(Event::Machine(MachineConfig::default()), 1);
    let unplugged = Snapshot {
        nics: vec![nic(ETH, NicKind::Ethernet, false), nic(WIFI, NicKind::Wifi, true)],
        metrics: vec![],
        routes: vec![],
    };
    run.step(Event::Snapshot(unplugged), 1);
    run.step(Event::Journal(Journal::default()), 1);
    assert_eq!(
        run.report.message,
        "The Ethernet cable is not connected, so there is nothing to switch to."
    );
}

#[test]
fn ethernet_that_does_not_win_parks_wifi_instead() {
    let mut run = begun(Mode::Ethernet);
    run.step(Event::MetricsRead(vec![Some(AUTO); 4]), 1);
    run.step(Event::Done, 1);
    run.step(Event::MetricsWritten(vec![DONE; 4]), 1);
    run.step(snapshot(vec![route(ETH, 40), route(WIFI, 30)]), 1);
    match run.action() {
        Action::WriteMetrics(w) => assert_eq!(
            w,
            vec![write(WIFI, AF_INET, Some(9000)), write(WIFI, AF_INET6, Some(9000))]
        ),
        other => panic!("{other:?}"),
    }
    run.step(Event::MetricsWritten(vec![DONE, DONE]), 1);
    run.step(Event::Done, 1);
    run.step(snapshot(vec![route(ETH, 40), route(WIFI, 9000)]), 1);
    run.step(Event::Done, 1);
    assert_eq!(run.report.message, "Traffic now goes over Ethernet.");
    assert!(run.report.details.is_empty());
    assert!(matches!(run.action(), Action::Nothing));
}

#[test]
fn auto_hands_both_back_and_keeps_nothing() {
    let mut run = begun(Mode::Auto);
    run.step(Event::MetricsRead(vec![Some(AUTO); 4]), 1);
    run.step(Event::Done, 1);
    run.step(Event::MetricsWritten(vec![DONE, DONE, DONE, FamilyOutcome::AdapterGone]), 9);
    match run.action() {
        Action::SaveJournal(j) => assert!(!j.in_flight && j.restore.is_empty()),
        other => panic!("{other:?}"),
    }
    run.step(Event::Done, 9);
    assert_eq!(run.report.exit_code, exit::WRITE_FAILED);
    assert_eq!(run.report.message, "Could not fully restore automatic metrics.");
    assert_eq!(run.report.details.len(), 2);
}

#[test]
fn wifi_only_detaches_and_leaving_it_rebinds_the_same() {
    let mut run = associated(Mode::WifiOnly);
    assert!(matches!(run.action(), Action::ReadBinding(g) if g == GUID));
    run.step(Event::Binding(Ok(BindingState { v4: true, v6: false })), 1);
    run.step(Event::MetricsRead(vec![Some(AUTO), None, Some(AUTO), None]), 1);
    run.step(Event::Done, 1);
    run.step(Event::MetricsWritten(vec![DONE, DONE]), 1);
    assert!(matches!(
        run.action(),
        Action::SetBinding(_, BindingState { v4: false, v6: false })
    ));
    let outcome = BindOutcome { changed: true, needs_reboot: true };
    run.step(Event::BindingSet(Ok(outcome)), 2);
    let journal = match run.action() {
        Action::SaveJournal(j) => j.clone(),
        other => panic!("{other:?}"),
    };
    assert!(!journal.is_torn());
    run.step(Event::Done, 3);
    let mut known = MachineConfig::default();
    known.wifi_profile_hint = Some("HomeNet".to_string());
    run.step(Event::Machine(known), 3);
    assert!(matches!(run.action(), Action::FindBridges(_)));
    run.step(Event::Bridges(Some("A still uses the wire.".to_string())), 3);
    assert_eq!(
        run.report.details,
        vec![
            "Ethernet has no IP address, routes or DNS servers.".to_string(),
            "A still uses the wire.".to_string(),
            "Windows asked for a reboot to finish applying this.".to_string(),
        ]
    );

    let mut later = apply(Mode::Wifi, true);
    later.step(Event::Done, 4);
    later.step(Event::Machine(MachineConfig::default()), 4);
    later.step(snapshot(vec![route(WIFI, 30)]), 4);
    later.step(Event::Journal(journal), 4);
    match later.action() {
        Action::WriteBindings(b) => {
            assert_eq!(b.len(), 1);
            assert_eq!((b[0].guid.as_str(), b[0].v4, b[0].v6), (GUID, true, false));
        }
        other => panic!("{other:?}"),
    }
    later.step(Event::Bindings(vec![false]), 4);
    assert_eq!(later.report.exit_code, exit::BINDING_FAILED);
}

#[test]
fn a_refused_run_only_rebinds_what_an_earlier_one_left() {
    let mut earlier = Journal::default();
    earlier.bindings.push(BindingBackup { guid: GUID.to_string(), v4: false, v6: true });
    let mut run = apply(Mode::Wifi, true);
    run.step(Event::Done, 1);
    run.step(Event::Machine(MachineConfig::default()), 1);
    run.step(snapshot(vec![route(WIFI, 30)]), 1);
    run.step(Event::Journal(earlier), 1);
    match run.action() {
        Action::WriteBindings(b) => {
            assert_eq!(b.len(), 1);
            assert_eq!((b[0].guid.as_str(), b[0].v4, b[0].v6), (GUID, false, true));
        }
        other => panic!("{other:?}"),
    }
    run.step(Event::Bindings(vec![true]), 2);
    assert!(matches!(run.action(), Action::SaveJournal(j) if j.bindings.is_empty()));
    run.step(Event::Done, 2);
    run.step(Event::Policy(effective(Some(3), None)), 3);
    assert!(matches!(run.action(), Action::Nothing));
    assert_eq!(run.report.exit_code, exit::BLOCKED_BY_POLICY);
}

#[test]
fn a_failed_detachment_binds_again() {
    let wifi_pinned = MetricState { metric: 15, ..PINNED };
    let mut run = associated(Mode::WifiOnly);
    run.step(Event::Binding(Ok(BindingState { v4: true, v6: true })), 1);
    run.step(Event::MetricsRead(vec![None, None, Some(wifi_pinned), None]), 1);
    run.step(Event::Done, 1);
    run.step(Event::MetricsWritten(vec![DONE, DONE]), 1);
    run.step(Event::BindingSet(Err(BindError::VSwitchActive)), 2);
    assert!(matches!(run.action(), Action::WriteBindings(b) if b[0].v4 && b[0].v6));
    run.step(Event::Bindings(vec![true]), 3);
    match run.action() {
        Action::WriteMetrics(w) => assert_eq!(w, vec![write(WIFI, AF_INET, Some(15))]),
        other => panic!("{other:?}"),
    }
    run.step(Event::MetricsWritten(vec![DONE]), 4);
    match run.action() {
        Action::SaveJournal(j) => {
            assert!(!j.is_torn() && j.bindings.is_empty() && j.restore.is_empty());
            assert_eq!(j.finished_unix, Some(4));
            assert_eq!(j.touched.len(), 1);
        }
        other => panic!("{other:?}"),
    }
    run.step(Event::Done, 4);
    assert_eq!(run.report.exit_code, exit::BINDING_FAILED);
    assert_eq!(run.report.message, BindError::VSwitchActive.user_message());
}

#[test]
fn the_value_before_the_first_change_survives_later_changes() {
    let pinned = MetricState { metric: 10, ..PINNED };
    let mut run = associated(Mode::Wifi);
    run.step(Event::MetricsRead(vec![Some(pinned), None, Some(AUTO), None]), 1);
    run.step(Event::Done, 1);
    run.step(Event::MetricsWritten(vec![DONE; 4]), 1);
    run.step(Event::Done, 1);
    run.step(snapshot(vec![route(WIFI, 30)]), 1);
    let first = match run.action() {
        Action::SaveJournal(j) => j.clone(),
        other => panic!("{other:?}"),
    };

    let mut again = apply(Mode::Ethernet, true);
    again.step(Event::Done, 2);
    again.step(Event::Machine(MachineConfig::default()), 2);
    again.step(snapshot(vec![route(WIFI, 30)]), 2);
    again.step(Event::Journal(first.clone()), 2);
    again.step(Event::MetricsRead(vec![Some(PINNED), Some(PINNED), Some(AUTO), None]), 2);
    match again.action() {
        Action::SaveJournal(j) => {
            assert_eq!((j.restore[0].metric, j.restore[0].automatic), (9000, false));
            assert_eq!(j.touched[..2], first.touched[..]);
            assert_eq!((j.touched[0].metric, j.touched[0].automatic), (10, false));
            assert_eq!(j.touched.len(), 3);
            assert!(j.touched[2].family_v6 && j.touched[2].luid == ETH.0);
        }
        other => panic!("{other:?}"),
    }
}

#[test]
fn an_older_journal_counts_as_what_was_there_first() {
    let mut old = Journal::default();
    old.restore.push(MetricBackup { luid: ETH.0, family_v6: false, metric: 10, automatic: false });
    let mut run = apply(Mode::Auto, true);
    run.step(Event::Done, 1);
    run.step(Event::Machine(MachineConfig::default()), 1);
    run.step(snapshot(vec![route(WIFI, 30)]), 1);
    run.step(Event::Journal(old), 1);
    run.step(Event::MetricsRead(vec![Some(PINNED), None, None, None]), 1);
    match run.action() {
        Action::SaveJournal(j) => assert_eq!(j.touched[0].metric, 10),
        other => panic!("{other:?}"),
    }
}

#[test]
fn every_report_has_a_code_with_a_meaning() {
    let known = [0, 2, 3, 4, 5, 6, 7, 8];
    let mut runs = vec![apply(Mode::Auto, false), begun(Mode::Wifi), begun(Mode::Ethernet)];
    runs[1].step(Event::Policy(effective(Some(3), None)), 1);
    runs[2].step(Event::MetricsRead(vec![Some(AUTO); 4]), 1);
    for run in &runs {
        assert!(known.contains(&run.report.exit_code));
        assert_eq!(run.report.ok, run.report.exit_code == exit::OK);
        assert_eq!(run.report.mode, run.mode);
    }
}

#[test]
fn nothing_attached_is_nothing_to_detach() {
    let mut run = associated(Mode::WifiOnly);
    run.step(Event::Binding(Ok(BindingState { v4: false, v6: false })), 1);
    assert_eq!(run.report.message, "Ethernet already has no IP stack attached.");
}

#[test]
fn an_answer_that_was_not_asked_for_changes_nothing() {
    let mut run = begun(Mode::Auto);
    run.step(Event::MetricsRead(vec![Some(AUTO)]), 1);
    run.step(Event::Done, 1);
    assert_eq!(run.stage, Stage::ReadingMetrics);
}

#[test]
fn recovery_puts_back_bindings_and_then_metrics() {
    let mut j = Journal::default();
    j.in_flight = true;
    j.bindings.push(BindingBackup { guid: GUID.to_string(), v4: true, v6: false });
    j.restore.push(MetricBackup { luid: 0x11, family_v6: true, metric: 25, automatic: false });
    let mut run = recover_if_torn();
    assert!(matches!(run.action(), Action::LoadJournal));
    run.step(Event::Journal(j), 1);
    assert!(matches!(run.action(), Action::WriteBindings(b) if b.len() == 1));
    run.step(Event::Bindings(vec![true]), 2);
    match run.action() {
        Action::WriteMetrics(w) => assert_eq!(w, vec![write(ETH, AF_INET6, Some(25))]),
        other => panic!("{other:?}"),
    }
    run.step(Event::MetricsWritten(vec![DONE]), 3);
    match run.action() {
        Action::SaveJournal(j) => {
            assert!(!j.is_torn() && !j.in_flight);
            assert_eq!(j.last_error.as_deref(), Some("recovered from an interrupted apply"));
        }
        other => panic!("{other:?}"),
    }
    run.step(Event::Done, 4);
    assert_eq!(run.stage, RecoverStage::Finished);

    let mut calm = recover_if_torn();
    calm.step(Event::Journal(Journal::default()), 1);
    assert!(matches!(calm.action(), Action::Nothing));
}
