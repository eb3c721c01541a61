use linkswitch::elevate::{
    join_args, quote_arg, relaunch_elevated, relaunched, ElevateError, Launched, CANCELLED,
};

#[test]
fn simple_arguments_are_not_quoted() {
    assert_eq!(quote_arg("--apply"), "--apply");
    assert_eq!(quote_arg("wifi"), "wifi");
}

#[test]
fn paths_with_spaces_are_quoted() {
    assert_eq!(
        quote_arg(r"C:\Program Files\LinkSwitch\linkswitch.exe"),
        r#""C:\Program Files\LinkSwitch\linkswitch.exe""#
    );
}

#[test]
fn trailing_backslashes_do_not_escape_the_closing_quote() {
    // The classic Windows command-line bug: "C:\dir\" would swallow the quote.
    assert_eq!(quote_arg(r"C:\some dir\"), r#""C:\some dir\\""#);
}

#[test]
fn embedded_quotes_are_escaped() {
    assert_eq!(quote_arg(r#"a"b"#), r#""a\"b""#);
    assert_eq!(quote_arg(r#"a\"b"#), r#""a\\\"b""#);
}

#[test]
fn empty_argument_survives_as_an_empty_pair_of_quotes() {
    assert_eq!(quote_arg(""), "\"\"");
}

#[test]
fn arguments_join_with_single_spaces() {
    assert_eq!(
        join_args(&["--apply", "wifi", r"C:\Program Files\x"]),
        r#"--apply wifi "C:\Program Files\x""#
    );
}

#[test]
fn a_launch_is_quoted_and_ends_in_a_nul() {
    let l = relaunch_elevated(r"C:\a b\x.exe", &["--apply", "a b"]);
    let units = |s: &str| s.encode_utf16().chain(std::iter::once(0)).collect::<Vec<u16>>();
    assert_eq!(l.verb, units("runas"));
    assert_eq!(l.file, units(r"C:\a b\x.exe"));
    assert_eq!(l.parameters, units("--apply \"a b\""));
}

#[test]
fn declining_the_prompt_is_not_a_malfunction() {
    let refused = |code| Launched::Refused { code, message: "no".to_string() };
    assert!(matches!(relaunched(refused(CANCELLED)), Err(ElevateError::Declined)));
    assert!(matches!(relaunched(refused(5)), Err(ElevateError::Failed(m)) if m == "no"));
    assert!(
        matches!(relaunched(Launched::NoProcess), Err(ElevateError::Failed(m)) if m == "no child process handle")
    );
    assert!(matches!(relaunched(Launched::Ended(Some(5))), Ok(5)));
    assert!(matches!(relaunched(Launched::Ended(None)), Ok(0)));
}
