use linkswitch::apply::recover_if_torn;
use linkswitch::apply::run::{Action, Event};
use linkswitch::config::{
    machine_dir, user_dir, AdapterRef, BindingBackup, Journal, MachineConfig, MetricBackup, Mode,
    WcmBackup,
};
use linkswitch::elevate::ElevateError;
use linkswitch::install::{
    autostart_changed, elevated_apply, harden_dacl, hardened, install, installed_exe, is_installed,
    request_apply, self_elevate, set_autostart, uninstall, AutostartChange, InstallAction,
    InstallEvent, Places, Request, UninstallRun, RUN_KEY, RUN_VALUE,
};
use linkswitch::net::adapters::{Nic, NicKind, Tier};
use linkswitch::net::metric::{FamilyOutcome, MetricWrite, AF_INET, AF_INET6};
use linkswitch::net::wcm::{effective, RegistryChange};
use linkswitch::net::{LuidKey, Snapshot};
use linkswitch::tasks::{health, TaskProbe};

const PUT_BACK: FamilyOutcome = FamilyOutcome::Applied {
    before: 9000,
    before_auto: false,
    after: 10,
    after_auto: false,
};

#[test]
fn install_paths_sit_under_program_files_and_programdata() {
    // The worker's binary and configuration must be somewhere a standard user cannot
    // rewrite, or the elevated task becomes a way to run arbitrary code as administrator.
    let exe = installed_exe(None).to_lowercase();
    assert!(exe.contains("linkswitch.exe"));
    assert!(exe.contains("program files"), "got {exe}");

    let data = machine_dir(None).to_lowercase();
    assert!(data.contains("programdata"), "got {data}");
}

#[test]
fn user_data_is_separate_from_machine_data() {
    assert_ne!(user_dir(None, None), machine_dir(None));
    assert_ne!(user_dir(Some(r"C:\Users\me\AppData\Local"), None), machine_dir(Some(r"C:\ProgramData")));
}

#[test]
fn the_autostart_value_name_is_stable() {
    // Changing this would orphan the old Run entry and start LinkSwitch twice.
    assert_eq!(RUN_VALUE, "LinkSwitch");
    assert!(RUN_KEY.ends_with(r"CurrentVersion\Run"));
}

fn places() -> Places {
    Places {
        dir: r"C:\Program Files\LinkSwitch".to_string(),
        exe: r"C:\Program Files\LinkSwitch\linkswitch.exe".to_string(),
        data_dir: r"C:\ProgramData\LinkSwitch".to_string(),
        user: r"PC\me".to_string(),
    }
}

fn empty() -> Snapshot {
    Snapshot { nics: vec![], metrics: vec![], routes: vec![] }
}

#[test]
fn an_installation_goes_through_every_step() {
    let mut run = install(true, true, true, places());
    assert!(matches!(run.action(), InstallAction::FindProgram));
    run.step(InstallEvent::Program(Ok((r"D:\x.exe".to_string(), false))));
    assert!(matches!(run.action(), InstallAction::MakeDir(d) if d.ends_with("LinkSwitch")));
    run.step(InstallEvent::Tried(Ok(())));
    assert!(matches!(run.action(), InstallAction::Copy { from, .. } if from == r"D:\x.exe"));
    run.step(InstallEvent::Tried(Ok(())));
    run.step(InstallEvent::Tried(Ok(())));
    assert!(matches!(run.action(), InstallAction::Harden(d) if d.starts_with(r"C:\ProgramData")));
    run.step(InstallEvent::Tried(Ok(())));
    run.step(InstallEvent::Machine(MachineConfig::default()));
    run.step(InstallEvent::Snapshot(empty()));
    run.step(InstallEvent::Policy(effective(Some(2), None)));
    run.step(InstallEvent::Registry(Some(2)));
    assert!(matches!(run.action(), InstallAction::ChangePolicy(RegistryChange::Write(0))));
    run.step(InstallEvent::PolicyChanged(Ok(())));
    match run.action() {
        InstallAction::SaveMachine(c) => {
            assert_eq!(c.wcm_backup, Some(WcmBackup { present: true, value: 2 }))
        }
        other => panic!("{other:?}"),
    }
    run.step(InstallEvent::Tried(Ok(())));
    run.step(InstallEvent::Tried(Ok(())));
    run.step(InstallEvent::Tried(Err("denied".to_string())));
    assert!(matches!(run.action(), InstallAction::Nothing));
    assert!(run.outcome.ok);
    assert_eq!(
        run.outcome.messages,
        vec![
            r"Installed to C:\Program Files\LinkSwitch\linkswitch.exe".to_string(),
            "Warning: no Ethernet adapter was found.".to_string(),
            "Windows will now keep Wi-Fi connected alongside Ethernet. This is a machine-wide \
             policy; --uninstall puts it back exactly as it was."
                .to_string(),
            r"Registered 5 scheduled tasks for PC\me.".to_string(),
            "Warning: could not set autostart: denied".to_string(),
        ]
    );
}

#[test]
fn an_installation_says_what_stopped_it() {
    let denied = || InstallEvent::Tried(Err("denied".to_string()));
    let run = install(false, false, false, places());
    assert_eq!(run.outcome.messages, vec!["Install needs administrator rights.".to_string()]);

    let mut run = install(false, false, true, places());
    run.step(InstallEvent::Program(Err("gone".to_string())));
    assert_eq!(run.outcome.messages[0], "Cannot locate the running executable: gone");

    let mut run = install(false, false, true, places());
    run.step(InstallEvent::Program(Ok(("x".to_string(), false))));
    run.step(denied());
    assert_eq!(run.outcome.messages[0], r"Cannot create C:\Program Files\LinkSwitch: denied");

    let mut run = install(false, false, true, places());
    run.step(InstallEvent::Program(Ok(("x".to_string(), false))));
    run.step(InstallEvent::Tried(Ok(())));
    run.step(denied());
    assert_eq!(
        run.outcome.messages[0],
        r"Cannot copy to C:\Program Files\LinkSwitch\linkswitch.exe: denied. Close LinkSwitch if it is running, then try again."
    );

    let mut run = install(false, false, true, places());
    run.step(InstallEvent::Program(Ok(("x".to_string(), true))));
    run.step(InstallEvent::Tried(Ok(())));
    run.step(denied());
    run.step(InstallEvent::Machine(MachineConfig::default()));
    run.step(InstallEvent::Snapshot(empty()));
    run.step(denied());
    run.step(denied());
    assert!(!run.outcome.ok);
    assert!(matches!(run.action(), InstallAction::Nothing));
    assert_eq!(
        run.outcome.messages,
        vec![
            r"Warning: could not lock down C:\ProgramData\LinkSwitch: denied".to_string(),
            "Warning: no Ethernet adapter was found.".to_string(),
            "Could not write the configuration: denied".to_string(),
            "Could not register the scheduled tasks: denied".to_string(),
        ]
    );
}

#[test]
fn group_policy_is_left_alone_and_a_backup_is_kept() {
    let upto_policy = |backup| {
        let mut run = install(true, false, true, places());
        run.step(InstallEvent::Program(Ok(("x".to_string(), true))));
        run.step(InstallEvent::Tried(Ok(())));
        run.step(InstallEvent::Tried(Ok(())));
        let mut cfg = MachineConfig::default();
        cfg.wcm_backup = backup;
        run.step(InstallEvent::Machine(cfg));
        run.step(InstallEvent::Snapshot(empty()));
        run
    };
    let mut run = upto_policy(None);
    run.step(InstallEvent::Policy(effective(Some(1), Some((true, true)))));
    assert!(matches!(run.action(), InstallAction::SaveMachine(_)));
    assert!(run.outcome.messages[1].starts_with("Skipped --keep-wifi-connected"));

    let mut run = upto_policy(Some(WcmBackup { present: false, value: 0 }));
    run.step(InstallEvent::Policy(effective(Some(0), None)));
    assert!(matches!(run.action(), InstallAction::ChangePolicy(_)));
    run.step(InstallEvent::PolicyChanged(Err(5)));
    assert_eq!(run.outcome.messages[1], "Could not change the Wi-Fi policy: 5");
    assert_eq!(run.cfg.wcm_backup, Some(WcmBackup { present: false, value: 0 }));
}

fn nic(luid: u64, kind: NicKind, mac: [u8; 6]) -> Nic {
    Nic {
        luid: LuidKey(luid),
        if_index: 1,
        friendly_name: "Link".to_string(),
        description: "Adapter".to_string(),
        adapter_name: "{G}".to_string(),
        if_type: 6,
        kind,
        tier: Tier::Hardware,
        oper_up: true,
        media_connected: true,
        tx_speed_bps: None,
        mac: Some(mac),
        permanent_mac: None,
        ipv4: vec![],
        ipv6: vec![],
        gateways: vec![],
    }
}

fn with(nics: Vec<Nic>) -> InstallEvent {
    InstallEvent::Snapshot(Snapshot { nics, metrics: vec![], routes: vec![] })
}

fn backup(luid: u64, family_v6: bool, metric: u32, automatic: bool) -> MetricBackup {
    MetricBackup { luid, family_v6, metric, automatic }
}

fn put(luid: u64, family: u16, target: Option<u32>) -> MetricWrite {
    MetricWrite { luid: LuidKey(luid), family, target }
}

fn writes(run: &UninstallRun) -> Vec<MetricWrite> {
    match run.action() {
        InstallAction::WriteMetrics(w) => w,
        other => panic!("{other:?}"),
    }
}

#[test]
fn a_removal_puts_the_machine_back_first() {
    let mut run = uninstall(true, "P".to_string(), "D".to_string());
    assert!(matches!(run.action(), InstallAction::LoadJournal));
    let mut journal = Journal::default();
    journal.bindings.push(BindingBackup { guid: "{G}".to_string(), v4: true, v6: false });
    journal.restore.push(backup(7, false, 9000, false));
    journal.touched.push(backup(7, false, 10, false));
    journal.touched.push(backup(8, true, 30, true));
    run.step(InstallEvent::Journal(journal), 1);
    match run.action() {
        InstallAction::WriteBindings(b) => {
            assert_eq!((b[0].guid.as_str(), b[0].v4, b[0].v6), ("{G}", true, false))
        }
        other => panic!("{other:?}"),
    }
    run.step(InstallEvent::Bindings(vec![true]), 2);
    assert!(matches!(run.action(), InstallAction::LoadMachine));
    let mut cfg = MachineConfig::default();
    cfg.wcm_backup = Some(WcmBackup { present: false, value: 0 });
    run.step(InstallEvent::Machine(cfg), 3);
    assert!(matches!(run.action(), InstallAction::ReadSnapshot));
    run.step(with(vec![nic(7, NicKind::Ethernet, [1; 6])]), 4);
    assert_eq!(writes(&run), vec![put(7, AF_INET, Some(9000))]);
    run.step(InstallEvent::MetricsWritten(vec![PUT_BACK]), 5);
    assert_eq!(writes(&run), vec![put(7, AF_INET, Some(10)), put(8, AF_INET6, None)]);
    run.step(InstallEvent::MetricsWritten(vec![PUT_BACK, FamilyOutcome::FamilyAbsent]), 6);
    match run.action() {
        InstallAction::SaveJournal(j) => {
            assert!(!j.in_flight && j.restore.is_empty() && j.bindings.is_empty());
            assert_eq!(j.touched.len(), 2);
            assert_eq!(j.finished_unix, Some(6));
            assert_eq!(j.mode, Mode::Auto);
        }
        other => panic!("{other:?}"),
    }
    run.step(InstallEvent::Tried(Ok(())), 7);
    assert!(matches!(run.action(), InstallAction::ChangePolicy(RegistryChange::Delete)));
    run.step(InstallEvent::PolicyChanged(Ok(())), 8);
    assert!(matches!(run.action(), InstallAction::UnregisterTasks));
    run.step(InstallEvent::Tried(Ok(())), 9);
    assert!(matches!(run.action(), InstallAction::SetAutostart(None)));
    run.step(InstallEvent::Tried(Err("denied".to_string())), 10);
    assert!(matches!(run.action(), InstallAction::RemoveData));
    run.step(InstallEvent::Tried(Ok(())), 11);
    assert!(run.outcome.ok);
    assert_eq!(
        run.outcome.messages,
        vec![
            "Restored every metric LinkSwitch changed.".to_string(),
            "Restored the Windows Wi-Fi connection policy.".to_string(),
            "Removed the scheduled tasks.".to_string(),
            "Warning: could not clear autostart: denied".to_string(),
            "Removed LinkSwitch's data.".to_string(),
            "The program itself is still at P; delete that folder to finish.".to_string(),
        ]
    );
}

#[test]
fn a_removal_finds_an_adapter_that_got_a_new_luid() {
    let mac = [2, 4, 6, 8, 10, 12];
    let mut cfg = MachineConfig::default();
    cfg.ethernet = Some(AdapterRef::from(&nic(7, NicKind::Ethernet, mac)));
    cfg.wifi = Some(AdapterRef::from(&nic(8, NicKind::Wifi, [3; 6])));
    let mut journal = Journal::default();
    journal.restore.push(backup(7, false, 10, false));
    journal.touched.push(backup(7, true, 5, true));
    journal.touched.push(backup(8, false, 25, false));
    journal.touched.push(backup(99, false, 40, false));
    let mut run = uninstall(true, "P".to_string(), "D".to_string());
    run.step(InstallEvent::Journal(journal), 1);
    run.step(InstallEvent::Bindings(vec![]), 1);
    run.step(InstallEvent::Machine(cfg), 1);
    run.step(with(vec![nic(8, NicKind::Wifi, [3; 6]), nic(70, NicKind::Ethernet, mac)]), 1);
    assert_eq!(writes(&run), vec![put(70, AF_INET, Some(10))]);
    run.step(InstallEvent::MetricsWritten(vec![PUT_BACK]), 1);
    assert_eq!(
        writes(&run),
        vec![
            put(70, AF_INET6, None),
            put(8, AF_INET, Some(25)),
            put(99, AF_INET, Some(40)),
        ]
    );
    run.step(
        InstallEvent::MetricsWritten(vec![PUT_BACK, PUT_BACK, FamilyOutcome::AdapterGone]),
        1,
    );
    assert!(run.outcome.ok);
    assert_eq!(
        run.outcome.messages,
        vec!["Restored every metric LinkSwitch changed on adapters that are still here.".to_string()]
    );
}

#[test]
fn a_removal_leaves_no_torn_journal_behind() {
    let mut journal = Journal::default();
    journal.in_flight = true;
    journal.restore.push(backup(7, false, 9000, false));
    journal.bindings.push(BindingBackup { guid: "{G}".to_string(), v4: true, v6: true });
    journal.touched.push(backup(7, false, 10, false));
    assert!(journal.is_torn());
    let mut run = uninstall(true, "P".to_string(), "D".to_string());
    run.step(InstallEvent::Journal(journal), 1);
    run.step(InstallEvent::Bindings(vec![false]), 1);
    run.step(InstallEvent::Machine(MachineConfig::default()), 1);
    run.step(with(vec![]), 1);
    run.step(InstallEvent::MetricsWritten(vec![PUT_BACK]), 1);
    run.step(InstallEvent::MetricsWritten(vec![PUT_BACK]), 2);
    let left = match run.action() {
        InstallAction::SaveJournal(j) => j.clone(),
        other => panic!("{other:?}"),
    };
    assert!(!left.is_torn() && !left.in_flight);
    assert!(left.restore.is_empty() && left.bindings.is_empty());
    assert_eq!(left.touched, vec![backup(7, false, 10, false)]);

    let mut recovery = recover_if_torn();
    recovery.step(Event::Journal(left), 3);
    assert!(matches!(recovery.action(), Action::Nothing));
}

#[test]
fn a_removal_that_failed_leaves_the_log() {
    let mut journal = Journal::default();
    journal.bindings.push(BindingBackup { guid: "{G}".to_string(), v4: true, v6: true });
    journal.restore.push(backup(7, false, 10, false));
    let mut run = uninstall(true, "P".to_string(), "D".to_string());
    run.step(InstallEvent::Journal(journal), 1);
    run.step(InstallEvent::Bindings(vec![false]), 1);
    run.step(InstallEvent::Machine(MachineConfig::default()), 1);
    run.step(with(vec![]), 1);
    run.step(InstallEvent::MetricsWritten(vec![FamilyOutcome::Failed(5)]), 1);
    run.step(InstallEvent::MetricsWritten(vec![]), 1);
    match run.action() {
        InstallAction::SaveJournal(j) => {
            assert_eq!(j.bindings.len(), 1);
            assert_eq!(j.touched, vec![backup(7, false, 10, false)]);
        }
        other => panic!("{other:?}"),
    }
    run.step(InstallEvent::Tried(Ok(())), 1);
    run.step(InstallEvent::Tried(Err("busy".to_string())), 1);
    run.step(InstallEvent::Tried(Ok(())), 1);
    assert!(matches!(run.action(), InstallAction::Nothing));
    assert!(!run.outcome.ok);
    assert_eq!(run.outcome.messages[0], "Could not reattach Ethernet's IP stack.");
    assert_eq!(run.outcome.messages[1], "Could not restore every metric LinkSwitch changed.");
    assert_eq!(run.outcome.messages[2], "Could not remove the scheduled tasks: busy");
    assert_eq!(run.outcome.messages[3], "Left D in place so the log can be inspected.");
    let run = uninstall(false, "P".to_string(), "D".to_string());
    assert_eq!(run.outcome.messages, vec!["Uninstall needs administrator rights.".to_string()]);
}

#[test]
fn locking_down_reports_what_icacls_said() {
    let args = harden_dacl(r"C:\ProgramData\LinkSwitch");
    assert_eq!(args[0], r"C:\ProgramData\LinkSwitch");
    assert_eq!(args[7], "*S-1-5-32-545:(OI)(CI)RX");
    assert_eq!(hardened(true, b"ignored"), Ok(()));
    assert_eq!(hardened(false, b"  no \xff way\r\n"), Err("no \u{fffd} way".to_string()));
}

#[test]
fn the_startup_entry_is_quoted() {
    match set_autostart(Some(r"C:\a b\x.exe")) {
        AutostartChange::Write(u) => assert_eq!(
            u,
            "\"C:\\a b\\x.exe\"\0".encode_utf16().collect::<Vec<u16>>()
        ),
        other => panic!("{other:?}"),
    }
    let delete = set_autostart(None);
    assert_eq!(autostart_changed(&delete, 2), Ok(()));
    assert_eq!(autostart_changed(&delete, 5), Err(5));
    assert_eq!(autostart_changed(&AutostartChange::Write(vec![0]), 2), Err(2));
}

#[test]
fn an_install_is_sound_only_with_every_task_and_program() {
    let probe = |xml: &str| Some(TaskProbe { last_result: None, xml: Some(xml.to_string()) });
    let all = || (0..5).map(|_| probe("<Command>x</Command>")).collect::<Vec<_>>();
    assert!(is_installed(Some(&health(&all())), &vec![true; 5]));
    assert!(!is_installed(Some(&health(&all())), &vec![true, true, false, true, true]));
    let mut missing = all();
    missing[4] = None;
    assert!(!is_installed(Some(&health(&missing)), &vec![true; 5]));
    assert!(!is_installed(None, &vec![true; 5]));
}

#[test]
fn a_request_prefers_the_task_and_falls_back_to_a_prompt() {
    assert!(matches!(request_apply(Mode::Wifi, true), Request::Done));
    match request_apply(Mode::WifiOnly, false) {
        Request::Elevate(args) => assert_eq!(args, vec!["--apply", "wifi-only"]),
        other => panic!("{other:?}"),
    }
    assert_eq!(elevated_apply(Ok(0), "no task"), Ok(()));
    assert_eq!(
        elevated_apply(Ok(4), "no task"),
        Err("The switch failed (exit code 4). no task".to_string())
    );
    assert_eq!(
        self_elevate(Err(ElevateError::Declined)),
        Err("Administrator rights are needed, and the request was declined.".to_string())
    );
    assert_eq!(self_elevate(Err(ElevateError::Failed("x".to_string()))), Err("x".to_string()));
    assert_eq!(self_elevate(Ok(3)), Ok(3));
}
