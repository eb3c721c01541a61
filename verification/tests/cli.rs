use linkswitch::cli::{install_args, parse, Cmd, HELP};
use linkswitch::config::Mode;

#[test]
fn no_arguments_runs_the_widget() {
    assert_eq!(parse(&[]), Ok(Cmd::Gui));
}

#[test]
fn apply_accepts_every_mode() {
    assert_eq!(parse(&["--apply", "wifi"]), Ok(Cmd::Apply(Mode::Wifi)));
    assert_eq!(
        parse(&["--apply", "wifi-only"]),
        Ok(Cmd::Apply(Mode::WifiOnly))
    );
    assert_eq!(
        parse(&["--apply", "ethernet"]),
        Ok(Cmd::Apply(Mode::Ethernet))
    );
    assert_eq!(parse(&["--apply", "auto"]), Ok(Cmd::Apply(Mode::Auto)));
}

#[test]
fn apply_rejects_a_missing_or_bogus_mode() {
    assert!(parse(&["--apply"]).is_err());
    assert!(parse(&["--apply", "sideways"]).is_err());
}

#[test]
fn unknown_commands_and_stray_arguments_are_rejected() {
    // An elevated process must never quietly do something other than what it was asked.
    assert!(parse(&["--destroy"]).is_err());
    assert!(parse(&["--apply", "wifi", "extra"]).is_err());
    assert!(parse(&["--uninstall", "now"]).is_err());
    assert!(parse(&["--status", "--verbose"]).is_err());
}

#[test]
fn install_defaults_to_autostart_and_leaves_the_policy_alone() {
    // The WCM policy is machine-wide and compliance-relevant, so it must be opt-in.
    assert_eq!(
        parse(&["--install"]),
        Ok(Cmd::Install {
            keep_wifi: false,
            autostart: true
        })
    );
    assert_eq!(
        parse(&["--install", "--keep-wifi-connected", "--no-autostart"]),
        Ok(Cmd::Install {
            keep_wifi: true,
            autostart: false
        })
    );
}

#[test]
fn status_takes_an_optional_json_flag() {
    assert_eq!(parse(&["--status"]), Ok(Cmd::Status { json: false }));
    assert_eq!(parse(&["--status", "--json"]), Ok(Cmd::Status { json: true }));
}

#[test]
fn help_and_version_have_the_usual_spellings() {
    for a in ["--help", "-h", "/?"] {
        assert_eq!(parse(&[a]), Ok(Cmd::Help));
    }
    for a in ["--version", "-V"] {
        assert_eq!(parse(&[a]), Ok(Cmd::Version));
    }
}

#[test]
fn help_text_documents_every_verb() {
    for verb in [
        "--status",
        "--install",
        "--uninstall",
        "--apply",
        "--recover",
    ] {
        assert!(HELP.contains(verb), "{verb} is missing from --help");
    }
}

#[test]
fn nothing_may_follow_help_or_version() {
    for a in ["--help", "-h", "/?", "--version", "-V"] {
        assert_eq!(parse(&[a, "--bogus"]).unwrap_err().0, "unexpected argument \"--bogus\"");
    }
}

#[test]
fn errors_name_what_was_wrong() {
    assert_eq!(parse(&["--destroy"]).unwrap_err().0, "unknown command \"--destroy\"; try --help");
    assert_eq!(parse(&["--uninstall", "now"]).unwrap_err().0, "unexpected argument \"now\"");
    assert_eq!(parse(&["--status", "--json", "-v"]).unwrap_err().0, "unknown option \"-v\"");
    assert_eq!(
        parse(&["--apply"]).unwrap_err().0,
        "--apply needs a mode: ethernet, wifi, wifi-only or auto"
    );
    assert_eq!(
        parse(&["--apply", "up"]).unwrap_err().0,
        "unknown mode \"up\"; expected ethernet, wifi, wifi-only or auto"
    );
    assert_eq!(parse(&["--recover"]), Ok(Cmd::Recover));
}

#[test]
fn an_elevated_copy_gets_the_same_command() {
    for keep_wifi in [false, true] {
        for autostart in [false, true] {
            assert_eq!(
                parse(&install_args(keep_wifi, autostart)),
                Ok(Cmd::Install { keep_wifi, autostart })
            );
        }
    }
}
