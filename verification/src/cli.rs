//! Argument parsing.
//!
//! There are seven verbs. Anything unrecognised is rejected rather than ignored: an elevated
//! process that quietly does something other than what it was asked is not acceptable.
use vstd::prelude::*;
use vstd::string::*;

use crate::config::{plain_mode_names_parse_back, Mode};
use crate::elevate::arg_views;
use crate::text;

verus! {

#[derive(Debug, Clone, Copy, PartialEq, Eq, Structural)]
pub enum Cmd {
    /// No arguments: run the desktop widget.
    Gui,
    /// Elevated worker. Started by a scheduled task.
    Apply(Mode),
    /// Elevated. Undo a half-finished change left by an interrupted switch. Runs at logon.
    Recover,
    /// Elevated. Register tasks and set the app up.
    Install {
        /// Also let Windows keep Wi-Fi connected while Ethernet is plugged in.
        keep_wifi: bool,
        /// Start the widget at logon.
        autostart: bool,
    },
    /// Elevated. Restore every metric, remove tasks and files.
    Uninstall,
    /// Print what LinkSwitch sees. Unprivileged.
    Status { json: bool },
    Help,
    Version,
}

#[derive(Debug, PartialEq, Eq)]
pub struct ParseError(pub String);

/// A message about one argument, which stands between quotation marks.
pub open spec fn about(before: Seq<char>, arg: Seq<char>, after: Seq<char>) -> Seq<char> {
    before + "\""@ + arg + "\""@ + after
}

fn about_text(before: &str, arg: &str, after: &str) -> (r: String)
    ensures
        r@ == about(before@, arg@, after@),
{
    let mut r = before.to_owned();
    r.append("\"");
    r.append(arg);
    r.append("\"");
    r.append(after);
    r
}

/// A command that takes no more than the first `n` arguments.
pub open spec fn alone(args: Seq<Seq<char>>, n: int, cmd: Cmd) -> Result<Cmd, Seq<char>> {
    if args.len() > n {
        Err(about("unexpected argument "@, args[n], ""@))
    } else {
        Ok(cmd)
    }
}

/// The first argument from `from` on that is none of the two options.
pub open spec fn first_unknown(
    args: Seq<Seq<char>>,
    from: int,
    a: Seq<char>,
    b: Seq<char>,
) -> Option<int>
    decreases args.len() - from,
{
    if from >= args.len() {
        None
    } else if args[from] == a || args[from] == b {
        first_unknown(args, from + 1, a, b)
    } else {
        Some(from)
    }
}

/// An option stands somewhere behind the command.
pub open spec fn given(args: Seq<Seq<char>>, option: Seq<char>) -> bool {
    exists|i: int| 1 <= i < args.len() && #[trigger] args[i] == option
}

pub open spec fn apply_command(args: Seq<Seq<char>>) -> Result<Cmd, Seq<char>> {
    if args.len() < 2 {
        Err("--apply needs a mode: ethernet, wifi, wifi-only or auto"@)
    } else {
        match Mode::named(args[1]) {
            Some(mode) => alone(args, 2, Cmd::Apply(mode)),
            None => Err(
                about(
                    "unknown mode "@,
                    args[1],
                    "; expected ethernet, wifi, wifi-only or auto"@,
                ),
            ),
        }
    }
}

pub open spec fn install_command(args: Seq<Seq<char>>) -> Result<Cmd, Seq<char>> {
    match first_unknown(args, 1, "--keep-wifi-connected"@, "--no-autostart"@) {
        Some(i) => Err(about("unknown option "@, args[i], ""@)),
        None => Ok(
            Cmd::Install {
                keep_wifi: given(args, "--keep-wifi-connected"@),
                autostart: !given(args, "--no-autostart"@),
            },
        ),
    }
}

pub open spec fn status_command(args: Seq<Seq<char>>) -> Result<Cmd, Seq<char>> {
    match first_unknown(args, 1, "--json"@, "--json"@) {
        Some(i) => Err(about("unknown option "@, args[i], ""@)),
        None => Ok(Cmd::Status { json: given(args, "--json"@) }),
    }
}

/// What the arguments ask for, or what is wrong with them.
pub open spec fn command(args: Seq<Seq<char>>) -> Result<Cmd, Seq<char>> {
    if args.len() == 0 {
        Ok(Cmd::Gui)
    } else if args[0] == "--apply"@ {
        apply_command(args)
    } else if args[0] == "--recover"@ {
        alone(args, 1, Cmd::Recover)
    } else if args[0] == "--install"@ {
        install_command(args)
    } else if args[0] == "--uninstall"@ {
        alone(args, 1, Cmd::Uninstall)
    } else if args[0] == "--status"@ {
        status_command(args)
    } else if args[0] == "--help"@ || args[0] == "-h"@ || args[0] == "/?"@ {
        alone(args, 1, Cmd::Help)
    } else if args[0] == "--version"@ || args[0] == "-V"@ {
        alone(args, 1, Cmd::Version)
    } else {
        Err(about("unknown command "@, args[0], "; try --help"@))
    }
}

/// An outcome of parsing, as plain values.
pub open spec fn outcome(r: Result<Cmd, ParseError>) -> Result<Cmd, Seq<char>> {
    match r {
        Ok(c) => Ok(c),
        Err(e) => Err(e.0@),
    }
}

fn reject_extra(args: &[&str], n: usize, cmd: Cmd) -> (r: Result<Cmd, ParseError>)
    ensures
        outcome(r) == alone(arg_views(args@), n as int, cmd),
{
    if args.len() > n {
        Err(ParseError(about_text("unexpected argument ", args[n], "")))
    } else {
        Ok(cmd)
    }
}

fn is_given(args: &[&str], option: &str) -> (r: bool)
    ensures
        r == given(arg_views(args@), option@),
{
    let ghost all = arg_views(args@);
    let mut i: usize = 1;
    while i < args.len()
        invariant
            1 <= i,
            all == arg_views(args@),
            forall|k: int| 1 <= k < i && k < all.len() ==> #[trigger] all[k] != option@,
        decreases args.len() - i,
    {
        assert(all[i as int] == args@[i as int]@);
        if text::same(args[i], option) {
            return true;
        }
        i = i + 1;
    }
    false
}

fn find_unknown(args: &[&str], a: &str, b: &str) -> (r: Option<usize>)
    ensures
        match r {
            Some(i) => first_unknown(arg_views(args@), 1, a@, b@) == Some(i as int) && i
                < args@.len(),
            None => first_unknown(arg_views(args@), 1, a@, b@) is None,
        },
{
    let ghost all = arg_views(args@);
    let mut i: usize = 1;
    while i < args.len()
        invariant
            1 <= i,
            all == arg_views(args@),
            first_unknown(all, 1, a@, b@) == first_unknown(all, i as int, a@, b@),
        decreases args.len() - i,
    {
        assert(all[i as int] == args@[i as int]@);
        if !text::same(args[i], a) && !text::same(args[i], b) {
            return Some(i);
        }
        i = i + 1;
    }
    None
}

fn parse_apply(args: &[&str]) -> (r: Result<Cmd, ParseError>)
    ensures
        outcome(r) == apply_command(arg_views(args@)),
{
    if args.len() < 2 {
        return Err(
            ParseError("--apply needs a mode: ethernet, wifi, wifi-only or auto".to_owned()),
        );
    }
    match Mode::parse(args[1]) {
        Some(mode) => reject_extra(args, 2, Cmd::Apply(mode)),
        None => Err(
            ParseError(
                about_text(
                    "unknown mode ",
                    args[1],
                    "; expected ethernet, wifi, wifi-only or auto",
                ),
            ),
        ),
    }
}

fn parse_install(args: &[&str]) -> (r: Result<Cmd, ParseError>)
    ensures
        outcome(r) == install_command(arg_views(args@)),
{
    match find_unknown(args, "--keep-wifi-connected", "--no-autostart") {
        Some(i) => Err(ParseError(about_text("unknown option ", args[i], ""))),
        None => Ok(
            Cmd::Install {
                keep_wifi: is_given(args, "--keep-wifi-connected"),
                autostart: !is_given(args, "--no-autostart"),
            },
        ),
    }
}

fn parse_status(args: &[&str]) -> (r: Result<Cmd, ParseError>)
    ensures
        outcome(r) == status_command(arg_views(args@)),
{
    match find_unknown(args, "--json", "--json") {
        Some(i) => Err(ParseError(about_text("unknown option ", args[i], ""))),
        None => Ok(Cmd::Status { json: is_given(args, "--json") }),
    }
}

pub fn parse(args: &[&str]) -> (r: Result<Cmd, ParseError>)
    ensures
        outcome(r) == command(arg_views(args@)),
{
    if args.len() == 0 {
        return Ok(Cmd::Gui);
    }
    let first = args[0];
    assert(arg_views(args@)[0] == first@);
    if text::same(first, "--apply") {
        parse_apply(args)
    } else if text::same(first, "--recover") {
        reject_extra(args, 1, Cmd::Recover)
    } else if text::same(first, "--install") {
        parse_install(args)
    } else if text::same(first, "--uninstall") {
        reject_extra(args, 1, Cmd::Uninstall)
    } else if text::same(first, "--status") {
        parse_status(args)
    } else if text::same(first, "--help") || text::same(first, "-h") || text::same(first, "/?") {
        reject_extra(args, 1, Cmd::Help)
    } else if text::same(first, "--version") || text::same(first, "-V") {
        reject_extra(args, 1, Cmd::Version)
    } else {
        Err(ParseError(about_text("unknown command ", first, "; try --help")))
    }
}

/// The arguments that ask an elevated copy for the same installation.
pub open spec fn install_arguments(keep_wifi: bool, autostart: bool) -> Seq<Seq<char>> {
    let verb = seq!["--install"@];
    let kept = if keep_wifi {
        verb.push("--keep-wifi-connected"@)
    } else {
        verb
    };
    if autostart {
        kept
    } else {
        kept.push("--no-autostart"@)
    }
}

/// The arguments that ask an elevated copy for the same installation.
pub fn install_args(keep_wifi: bool, autostart: bool) -> (r: Vec<&'static str>)
    ensures
        arg_views(r@) == install_arguments(keep_wifi, autostart),
{
    let mut r: Vec<&'static str> = Vec::new();
    r.push("--install");
    if keep_wifi {
        r.push("--keep-wifi-connected");
    }
    if !autostart {
        r.push("--no-autostart");
    }
    assert(arg_views(r@) =~= install_arguments(keep_wifi, autostart));
    r
}

/// The two options of a command are all that stands behind it.
pub open spec fn only_options(args: Seq<Seq<char>>, a: Seq<char>, b: Seq<char>) -> bool {
    forall|i: int| 1 <= i < args.len() ==> #[trigger] args[i] == a || args[i] == b
}

proof fn lemma_all_known(args: Seq<Seq<char>>, from: int, a: Seq<char>, b: Seq<char>)
    requires
        from >= 1,
    ensures
        first_unknown(args, from, a, b) is None <==> forall|i: int|
            from <= i < args.len() ==> #[trigger] args[i] == a || args[i] == b,
    decreases args.len() - from,
{
    if from < args.len() {
        lemma_all_known(args, from + 1, a, b);
        assert(args[from] == args[from]);
    }
}

/// Nothing is ignored: where the arguments make a command, every one of them is part of it.
pub proof fn nothing_is_ignored(args: Seq<Seq<char>>)
    ensures
        match command(args) {
            Ok(Cmd::Gui) => args.len() == 0,
            Ok(Cmd::Apply(mode)) => args.len() == 2 && args[0] == "--apply"@ && Mode::named(args[1])
                == Some(mode),
            Ok(Cmd::Recover) => args == seq!["--recover"@],
            Ok(Cmd::Install { .. }) => args.len() > 0 && args[0] == "--install"@ && only_options(
                args,
                "--keep-wifi-connected"@,
                "--no-autostart"@,
            ),
            Ok(Cmd::Uninstall) => args == seq!["--uninstall"@],
            Ok(Cmd::Status { .. }) => args.len() > 0 && args[0] == "--status"@ && only_options(
                args,
                "--json"@,
                "--json"@,
            ),
            Ok(Cmd::Help) => args.len() == 1 && (args[0] == "--help"@ || args[0] == "-h"@ || args[0]
                == "/?"@),
            Ok(Cmd::Version) => args.len() == 1 && (args[0] == "--version"@ || args[0] == "-V"@),
            Err(_) => args.len() > 0,
        },
{
    lemma_all_known(args, 1, "--keep-wifi-connected"@, "--no-autostart"@);
    lemma_all_known(args, 1, "--json"@, "--json"@);
    if command(args) matches Ok(Cmd::Recover) {
        assert(args =~= seq!["--recover"@]);
    }
    if command(args) matches Ok(Cmd::Uninstall) {
        assert(args =~= seq!["--uninstall"@]);
    }
}

/// What one copy of the program asks of another is understood as it was meant.
pub proof fn own_arguments_parse_back(keep_wifi: bool, autostart: bool, mode: Mode)
    ensures
        command(install_arguments(keep_wifi, autostart)) == Ok::<Cmd, Seq<char>>(
            Cmd::Install { keep_wifi, autostart },
        ),
        command(seq!["--uninstall"@]) == Ok::<Cmd, Seq<char>>(Cmd::Uninstall),
        command(seq!["--apply"@, mode.name()]) == Ok::<Cmd, Seq<char>>(Cmd::Apply(mode)),
{
    lemma_verbs_differ();
    plain_mode_names_parse_back(mode);
    let args = install_arguments(keep_wifi, autostart);
    lemma_all_known(args, 1, "--keep-wifi-connected"@, "--no-autostart"@);
    assert(args[0] == "--install"@);
    if keep_wifi {
        assert(args[1] == "--keep-wifi-connected"@);
    }
    if !autostart {
        assert(args[args.len() - 1] == "--no-autostart"@);
    }
}

proof fn lemma_verbs_differ()
    ensures
        "--install"@ != "--apply"@,
        "--install"@ != "--recover"@,
        "--uninstall"@ != "--apply"@,
        "--uninstall"@ != "--recover"@,
        "--uninstall"@ != "--install"@,
        "--recover"@ != "--apply"@,
        "--keep-wifi-connected"@ != "--no-autostart"@,
{
    reveal_strlit("--install");
    reveal_strlit("--apply");
    reveal_strlit("--recover");
    reveal_strlit("--uninstall");
    reveal_strlit("--keep-wifi-connected");
    reveal_strlit("--no-autostart");
    assert("--install"@[2] == 'i');
    assert("--recover"@[2] == 'r');
    assert("--apply"@[2] == 'a');
    assert("--uninstall"@[2] == 'u');
    assert("--no-autostart"@[2] == 'n');
    assert("--keep-wifi-connected"@[2] == 'k');
}

pub const HELP: &'static str =
    r#"LinkSwitch - choose whether Windows sends your traffic over Ethernet or Wi-Fi,
without unplugging the cable.

USAGE:
  linkswitch                     Run the desktop widget.
  linkswitch --status [--json]   Show what LinkSwitch sees. Needs no admin rights.
  linkswitch --install [OPTIONS] Set up: register the scheduled tasks that let the widget
                                 switch without a UAC prompt every time. Asks for admin once.
  linkswitch --uninstall         Restore every metric LinkSwitch changed and remove everything.
  linkswitch --apply MODE        Apply a mode directly. MODE is ethernet, wifi, wifi-only
                                 or auto.
                                 Needs admin; normally started by a scheduled task.
  linkswitch --recover           Undo a half-finished change left by an interrupted switch.
  linkswitch --help / --version

INSTALL OPTIONS:
  --keep-wifi-connected   Also turn off Windows' "minimize simultaneous connections" policy,
                          so Wi-Fi stays associated while Ethernet is plugged in. Off by
                          default: it is a machine-wide policy and is compliance-relevant on
                          managed systems. LinkSwitch works without it by connecting Wi-Fi
                          on demand.
  --no-autostart          Do not start the widget at logon.

MODES:
  ethernet   Ethernet carries your traffic.
  wifi       Wi-Fi carries your traffic. Ethernet stays connected and keeps serving its own
             subnet, so a NAS or printer on the wire still works.
  wifi-only  As above, but Ethernet's IP stack is detached entirely: no address, no routes,
             no DNS. The cable stays plugged in and the adapter stays enabled. This is zero
             IP, not zero traffic -- LLDP, network discovery and any VM bridge still reach
             the wire.
  auto       Hand both adapters back to Windows' automatic metrics.
"#;

} // verus!
