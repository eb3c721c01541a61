use linkswitch::config::Mode;
use linkswitch::elevate::join_args;
use linkswitch::tasks::{
    all_tasks, build_xml, current_user, extract_command, health, register_all, run, task_path,
    unescape, xml_escape, Start, TaskError, TaskProbe,
};

#[test]
fn xml_escapes_every_dangerous_character() {
    assert_eq!(xml_escape("a&b"), "a&amp;b");
    assert_eq!(xml_escape("<x>"), "&lt;x&gt;");
    assert_eq!(xml_escape("say \"hi\""), "say &quot;hi&quot;");
    assert_eq!(xml_escape("O'Brien"), "O&apos;Brien");
    assert_eq!(xml_escape("plain"), "plain");
}

#[test]
fn a_domain_with_an_ampersand_does_not_break_the_document() {
    // Real-world shapes that would otherwise produce malformed XML and an opaque HRESULT.
    let xml = build_xml(
        &all_tasks()[0],
        r"C:\Program Files (x86)\Link&Switch\linkswitch.exe",
        r"R&D\O'Brien",
    );
    assert!(!xml.contains("Link&Switch"), "raw ampersand leaked into the XML");
    assert!(xml.contains("Link&amp;Switch"));
    assert!(xml.contains("R&amp;D\\O&apos;Brien"));
}

#[test]
fn generated_xml_overrides_the_battery_defaults() {
    // Both default to true, which would make the widget do nothing on an unplugged laptop.
    let xml = build_xml(&all_tasks()[1], r"C:\x\linkswitch.exe", "PC\\user");
    assert!(xml.contains("<DisallowStartIfOnBatteries>false</DisallowStartIfOnBatteries>"));
    assert!(xml.contains("<StopIfGoingOnBatteries>false</StopIfGoingOnBatteries>"));
}

#[test]
fn generated_xml_requests_elevation_and_on_demand_start() {
    let xml = build_xml(&all_tasks()[1], r"C:\x\linkswitch.exe", "PC\\user");
    assert!(xml.contains("<RunLevel>HighestAvailable</RunLevel>"));
    assert!(xml.contains("<LogonType>InteractiveToken</LogonType>"));
    assert!(xml.contains("<AllowStartOnDemand>true</AllowStartOnDemand>"));
    // IgnoreNew would silently drop a second click.
    assert!(xml.contains("<MultipleInstancesPolicy>Queue</MultipleInstancesPolicy>"));
}

#[test]
fn only_the_recovery_task_has_a_trigger() {
    for spec in &all_tasks() {
        let xml = build_xml(spec, r"C:\x\linkswitch.exe", "PC\\user");
        assert_eq!(
            xml.contains("<LogonTrigger>"),
            spec.logon_trigger,
            "{} trigger mismatch",
            spec.name
        );
    }
}

#[test]
fn every_action_is_our_own_exe_never_a_shell() {
    for spec in &all_tasks() {
        let xml = build_xml(spec, r"C:\Program Files\LinkSwitch\linkswitch.exe", "PC\\u");
        assert!(xml.contains(r"<Command>C:\Program Files\LinkSwitch\linkswitch.exe</Command>"));
        let lower = spec.args.to_ascii_lowercase();
        assert!(!lower.contains("cmd") && !lower.contains("powershell"));
    }
}

#[test]
fn task_arguments_are_fixed_verbs_with_no_substitution() {
    // A task that runs whatever it is told with an elevated token would be an integrity
    // bridge for any process running as this user.
    for spec in &all_tasks() {
        assert!(
            !spec.args.contains("$(Arg"),
            "{} must not take runtime arguments",
            spec.name
        );
    }
}

#[test]
fn command_round_trips_out_of_the_generated_xml() {
    let exe = r"C:\Program Files\Link&Switch\linkswitch.exe";
    let xml = build_xml(&all_tasks()[0], exe, "PC\\user");
    assert_eq!(extract_command(&xml).as_deref(), Some(exe));
}

#[test]
fn unescape_does_not_double_expand() {
    // "&amp;lt;" is a literal "&lt;", not a "<".
    assert_eq!(unescape("&amp;lt;"), "&lt;");
    assert_eq!(unescape("a&amp;b"), "a&b");
}

#[test]
fn every_mode_maps_to_a_registered_task() {
    for mode in [Mode::Ethernet, Mode::Wifi, Mode::Auto] {
        assert!(
            all_tasks().iter().any(|t| t.name == mode.task_name()),
            "{} has no task",
            mode.as_str()
        );
    }
}

#[test]
fn task_paths_are_rooted_in_our_folder() {
    assert_eq!(task_path("ApplyWifi"), r"\LinkSwitch\ApplyWifi");
}

#[test]
fn wifi_only_has_a_task_too() {
    let tasks = all_tasks();
    let t = tasks.iter().find(|t| t.name == Mode::WifiOnly.task_name()).unwrap();
    assert_eq!(t.args, join_args(&["--apply", Mode::WifiOnly.as_str()]));
}

#[test]
fn every_escaped_text_reads_back() {
    for s in ["", "a&b<c>\"d\"'e'", "&amp;", "&&lt;", "C:\\x"] {
        let e = xml_escape(s);
        assert_eq!(unescape(&e), s);
        assert!(!e.contains('<') && !e.contains('>') && !e.contains('"') && !e.contains('\''));
    }
}

#[test]
fn a_document_without_a_command_has_none() {
    assert_eq!(extract_command("<Task></Task>"), None);
    assert_eq!(extract_command("<Command>x"), None);
    assert_eq!(extract_command("</Command><Command>a&amp;b</Command>").as_deref(), Some("a&b"));
}

#[test]
fn registrations_follow_the_tasks() {
    let r = register_all(r"C:\x\linkswitch.exe", r"PC\me");
    let names: Vec<&str> = r.iter().map(|t| t.name.as_str()).collect();
    assert_eq!(names, vec!["ApplyEthernet", "ApplyWifi", "ApplyWifiOnly", "ApplyAuto", "Recover"]);
    for (t, spec) in r.iter().zip(all_tasks().iter()) {
        assert_eq!(t.xml, build_xml(spec, r"C:\x\linkswitch.exe", r"PC\me"));
    }
}

#[test]
fn the_account_has_a_domain_only_if_there_is_one() {
    assert_eq!(current_user("PC", "me"), r"PC\me");
    assert_eq!(current_user("", "me"), "me");
}

#[test]
fn health_reads_the_command_back() {
    let xml = build_xml(&all_tasks()[0], r"C:\a & b\x.exe", "me");
    let found = vec![Some(TaskProbe { last_result: Some(4), xml: Some(xml) }), None];
    let h = health(&found);
    assert_eq!(h.len(), 5);
    assert_eq!(h[0].name, "ApplyEthernet");
    assert!(h[0].registered && !h[1].registered && !h[4].registered);
    assert_eq!(h[0].command.as_deref(), Some(r"C:\a & b\x.exe"));
    assert_eq!(h[0].last_result, Some(4));
}

#[test]
fn every_task_error_has_its_sentence() {
    let e = || "boom".to_string();
    let n = || "ApplyWifi".to_string();
    let words = [
        (TaskError::Service(e()), "cannot create the Task Scheduler service: boom"),
        (TaskError::Connection(e()), "cannot connect to the Task Scheduler: boom"),
        (TaskError::Root(e()), "cannot open the root task folder: boom"),
        (TaskError::Folder(e()), "cannot create the LinkSwitch task folder: boom"),
        (
            TaskError::Registering { name: n(), error: e() },
            "cannot register task ApplyWifi: boom",
        ),
        (TaskError::NotInstalled, "LinkSwitch is not installed yet."),
        (
            TaskError::Missing { name: n() },
            "the ApplyWifi task is missing; reinstall LinkSwitch.",
        ),
        (TaskError::Starting { name: n(), error: e() }, "cannot start the ApplyWifi task: boom"),
        (TaskError::Panicked, "the Task Scheduler thread panicked"),
    ];
    for (err, text) in &words {
        assert_eq!(&err.describe(), text);
    }
}

#[test]
fn starting_a_task_tells_its_failures_apart() {
    assert!(run(Mode::Auto, Start::Tried(Ok(()))).is_ok());
    let said = |s| run(Mode::Auto, s).unwrap_err().describe();
    assert_eq!(said(Start::NoFolder), "LinkSwitch is not installed yet.");
    assert_eq!(said(Start::NoTask), "the ApplyAuto task is missing; reinstall LinkSwitch.");
    assert_eq!(
        said(Start::Tried(Err("no".to_string()))),
        "cannot start the ApplyAuto task: no"
    );
}
