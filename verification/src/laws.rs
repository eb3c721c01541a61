//! What holds of finding adapters again, of the journal's state and of the command line, in terms
//! of what was saved and of what was typed.
use vstd::prelude::*;
use vstd::string::*;

use crate::cli::{command, first_unknown, given, Cmd};
use crate::config::{
    lemma_first_match, mac_text, matches_by, resolved, AdapterRef, AdapterRefView, JournalView,
    Mode, Trace,
};
use crate::net::adapters::{NicKind, NicView};
use crate::text;

verus! {

// --- finding an adapter again ------------------------------------------------------------

/// The adapter is of the kind, where one is asked for.
pub open spec fn right_kind(n: NicView, kind: Option<NicKind>) -> bool {
    kind is None || n.kind == kind->0
}

/// The LUID was saved, and this adapter has it.
pub open spec fn same_luid(saved: AdapterRefView, n: NicView) -> bool {
    saved.luid != 0 && n.luid.0 == saved.luid
}

/// A MAC was saved, and it is this adapter's: the burned-in one, or the current one where no
/// burned-in one is known.
pub open spec fn same_mac(saved: AdapterRefView, n: NicView) -> bool {
    saved.mac is Some && match n.permanent_mac {
        Some(m) => saved.mac->0 == mac_text(m),
        None => n.mac is Some && saved.mac->0 == mac_text(n.mac->0),
    }
}

/// A name was saved, and this adapter has it.
pub open spec fn same_name(saved: AdapterRefView, n: NicView) -> bool {
    saved.name.len() > 0 && n.friendly_name == saved.name
}

/// A description was saved, and this adapter has it.
pub open spec fn same_description(saved: AdapterRefView, n: NicView) -> bool {
    saved.description.len() > 0 && n.description == saved.description
}

/// How well an adapter matches a saved one: by its LUID, its MAC, its name, its description, or not
/// at all.
pub open spec fn likeness(saved: AdapterRefView, kind: Option<NicKind>, n: NicView) -> int {
    if !right_kind(n, kind) {
        0
    } else if same_luid(saved, n) {
        4
    } else if same_mac(saved, n) {
        3
    } else if same_name(saved, n) {
        2
    } else if same_description(saved, n) {
        1
    } else {
        0
    }
}

/// The adapter that a saved one is taken to be is of the right kind and matches it best, and of
/// several that match equally well it is the first; none is found only where none matches at all.
pub proof fn the_best_match_is_found(
    saved: AdapterRefView,
    kind: Option<NicKind>,
    nics: Seq<NicView>,
)
    ensures
        match resolved(Some(saved), kind, nics) {
            Some(i) => {
                &&& 0 <= i < nics.len() && likeness(saved, kind, nics[i]) > 0
                &&& forall|j: int|
                    0 <= j < nics.len() ==> likeness(saved, kind, #[trigger] nics[j]) <= likeness(
                        saved,
                        kind,
                        nics[i],
                    )
                &&& forall|j: int|
                    0 <= j < i ==> likeness(saved, kind, #[trigger] nics[j]) < likeness(
                        saved,
                        kind,
                        nics[i],
                    )
            },
            None => forall|j: int|
                0 <= j < nics.len() ==> likeness(saved, kind, #[trigger] nics[j]) == 0,
        },
        resolved(None, kind, nics) is None,
{
    lemma_first_match(saved, Trace::Luid, kind, nics, 0);
    lemma_first_match(saved, Trace::Mac, kind, nics, 0);
    lemma_first_match(saved, Trace::Name, kind, nics, 0);
    lemma_first_match(saved, Trace::Description, kind, nics, 0);
    if let Some(i) = resolved(Some(saved), kind, nics) {
        assert forall|j: int| 0 <= j < nics.len() implies likeness(saved, kind, #[trigger] nics[j])
            <= likeness(saved, kind, nics[i]) by {
            lemma_likeness_of(saved, kind, nics[j]);
            lemma_likeness_of(saved, kind, nics[i]);
        }
        assert forall|j: int| 0 <= j < i implies likeness(saved, kind, #[trigger] nics[j])
            < likeness(saved, kind, nics[i]) by {
            lemma_likeness_of(saved, kind, nics[j]);
            lemma_likeness_of(saved, kind, nics[i]);
        }
        lemma_likeness_of(saved, kind, nics[i]);
    } else {
        assert forall|j: int| 0 <= j < nics.len() implies likeness(saved, kind, #[trigger] nics[j])
            == 0 by {
            lemma_likeness_of(saved, kind, nics[j]);
        }
    }
}

proof fn lemma_likeness_of(saved: AdapterRefView, kind: Option<NicKind>, n: NicView)
    ensures
        same_luid(saved, n) == matches_by(saved, Trace::Luid, n),
        same_mac(saved, n) == matches_by(saved, Trace::Mac, n),
        same_name(saved, n) == matches_by(saved, Trace::Name, n),
        same_description(saved, n) == matches_by(saved, Trace::Description, n),
        right_kind(n, kind) == (kind is None || kind == Some(n.kind)),
{
}

/// What is remembered of an adapter is its LUID, its name, its description, and its burned-in MAC
/// where that is known and else the current one.
pub proof fn an_adapter_is_remembered_as_it_is(n: NicView)
    ensures
        ({
            let r = AdapterRef::remembering(n);
            &&& r.luid == n.luid.0 && r.name == n.friendly_name && r.description == n.description
            &&& n.permanent_mac matches Some(m) ==> r.mac == Some(mac_text(m))
            &&& n.permanent_mac is None ==> (n.mac matches Some(m) ==> r.mac == Some(mac_text(m)))
            &&& n.permanent_mac is None && n.mac is None ==> r.mac is None
        }),
{
}

/// A journal is torn exactly where a change is under way of which something is recorded.
pub proof fn a_torn_journal_has_something_to_undo(j: JournalView)
    ensures
        j.torn() <==> j.in_flight && !(j.restore.len() == 0 && j.bindings.len() == 0),
{
}

// --- the command line --------------------------------------------------------------------

/// Every name of a mode, and no other text, is read as that mode.
pub proof fn a_mode_has_exactly_its_names(s: Seq<char>)
    ensures
        ({
            let t = text::lower(text::trim(s));
            &&& Mode::named(s) == Some(Mode::Ethernet) <==> t == "ethernet"@ || t == "eth"@ || t
                == "wired"@
            &&& Mode::named(s) == Some(Mode::Wifi) <==> t == "wifi"@ || t == "wi-fi"@ || t
                == "wireless"@
            &&& Mode::named(s) == Some(Mode::WifiOnly) <==> t == "wifi-only"@ || t == "wifionly"@
                || t == "wifi_only"@ || t == "only"@
            &&& Mode::named(s) == Some(Mode::Auto) <==> t == "auto"@ || t == "automatic"@ || t
                == "restore"@
        }),
{
    reveal_strlit("ethernet");
    reveal_strlit("eth");
    reveal_strlit("wired");
    reveal_strlit("wifi");
    reveal_strlit("wi-fi");
    reveal_strlit("wireless");
    reveal_strlit("wifi-only");
    reveal_strlit("wifionly");
    reveal_strlit("wifi_only");
    reveal_strlit("only");
    reveal_strlit("auto");
    reveal_strlit("automatic");
    reveal_strlit("restore");
    let t = text::lower(text::trim(s));
    if t.len() > 0 {
        assert("ethernet"@[0] == 'e' && "eth"@[0] == 'e' && "wired"@[0] == 'w' && "wired"@[1] == 'i'
            && "wired"@[2] == 'r');
        assert("wifi"@[2] == 'f' && "wi-fi"@[2] == '-' && "wireless"@[2] == 'r'
            && "wireless"@.len() == 8 && "wifionly"@.len() == 8 && "wifionly"@[2] == 'f');
        assert("wifi-only"@.len() == 9 && "wifi-only"@[0] == 'w' && "wifi_only"@[4] == '_'
            && "wifi-only"@[4] == '-' && "automatic"@.len() == 9 && "automatic"@[0] == 'a');
        assert("only"@[0] == 'o' && "auto"@[0] == 'a' && "restore"@[0] == 'r' && "wifi"@[0] == 'w');
        assert("wired"@.len() == 5 && "wi-fi"@.len() == 5);
    }
}

/// One of the arguments behind the command is this option.
pub open spec fn says(args: Seq<Seq<char>>, option: Seq<char>) -> bool {
    exists|i: int| 1 <= i < args.len() && #[trigger] args[i] == option
}

/// Everything behind the command is one of the two options.
pub open spec fn says_only(args: Seq<Seq<char>>, a: Seq<char>, b: Seq<char>) -> bool {
    forall|i: int| 1 <= i < args.len() ==> #[trigger] args[i] == a || args[i] == b
}

proof fn lemma_all_options(args: Seq<Seq<char>>, from: int, a: Seq<char>, b: Seq<char>)
    requires
        from >= 1,
        says_only(args, a, b),
    ensures
        first_unknown(args, from, a, b) is None,
    decreases args.len() - from,
{
    if from < args.len() {
        assert(args[from] == a || args[from] == b);
        lemma_all_options(args, from + 1, a, b);
    }
}

/// What is typed is understood: every command by its own word, alone, and those with options with
/// any of them in any order, each meaning what it says.
pub proof fn every_command_is_understood(args: Seq<Seq<char>>)
    ensures
        args.len() == 0 ==> command(args) == Ok::<Cmd, Seq<char>>(Cmd::Gui),
        args.len() == 1 && args[0] == "--recover"@ ==> command(args) == Ok::<Cmd, Seq<char>>(
            Cmd::Recover,
        ),
        args.len() == 1 && args[0] == "--uninstall"@ ==> command(args) == Ok::<Cmd, Seq<char>>(
            Cmd::Uninstall,
        ),
        args.len() == 1 && (args[0] == "--help"@ || args[0] == "-h"@ || args[0] == "/?"@)
            ==> command(args) == Ok::<Cmd, Seq<char>>(Cmd::Help),
        args.len() == 1 && (args[0] == "--version"@ || args[0] == "-V"@) ==> command(args) == Ok::<
            Cmd,
            Seq<char>,
        >(Cmd::Version),
        args.len() == 2 && args[0] == "--apply"@ ==> (Mode::named(args[1]) matches Some(m)
            ==> command(args) == Ok::<Cmd, Seq<char>>(Cmd::Apply(m))),
        args.len() > 0 && args[0] == "--install"@ && says_only(
            args,
            "--keep-wifi-connected"@,
            "--no-autostart"@,
        ) ==> command(args) == Ok::<Cmd, Seq<char>>(
            Cmd::Install {
                keep_wifi: says(args, "--keep-wifi-connected"@),
                autostart: !says(args, "--no-autostart"@),
            },
        ),
        args.len() > 0 && args[0] == "--status"@ && says_only(args, "--json"@, "--json"@)
            ==> command(args) == Ok::<Cmd, Seq<char>>(Cmd::Status { json: args.len() > 1 }),
{
    lemma_words_differ(args[0]);
    if args.len() > 0 && args[0] == "--install"@ && says_only(
        args,
        "--keep-wifi-connected"@,
        "--no-autostart"@,
    ) {
        lemma_all_options(args, 1, "--keep-wifi-connected"@, "--no-autostart"@);
    }
    if args.len() > 0 && args[0] == "--status"@ && says_only(args, "--json"@, "--json"@) {
        lemma_all_options(args, 1, "--json"@, "--json"@);
        if args.len() > 1 {
            assert(args[1] == "--json"@);
            assert(given(args, "--json"@));
        }
    }
}

/// The words that ask for the usage or the version.
spec fn is_question(w: Seq<char>) -> bool {
    w == "--help"@ || w == "-h"@ || w == "/?"@ || w == "--version"@ || w == "-V"@
}

proof fn lemma_words_differ(w: Seq<char>)
    ensures
        "--recover"@ != "--apply"@,
        "--install"@ != "--apply"@ && "--install"@ != "--recover"@,
        "--uninstall"@ != "--apply"@ && "--uninstall"@ != "--recover"@ && "--uninstall"@
            != "--install"@,
        "--status"@ != "--apply"@ && "--status"@ != "--recover"@ && "--status"@ != "--install"@
            && "--status"@ != "--uninstall"@,
        is_question(w) ==> w != "--apply"@ && w != "--recover"@ && w != "--install"@ && w
            != "--uninstall"@ && w != "--status"@,
        w == "--version"@ || w == "-V"@ ==> w != "--help"@ && w != "-h"@ && w != "/?"@,
{
    reveal_strlit("--recover");
    reveal_strlit("--apply");
    reveal_strlit("--install");
    reveal_strlit("--uninstall");
    reveal_strlit("--status");
    reveal_strlit("--help");
    reveal_strlit("-h");
    reveal_strlit("/?");
    reveal_strlit("--version");
    reveal_strlit("-V");
    assert("--recover"@[2] == 'r' && "--apply"@[2] == 'a' && "--install"@[2] == 'i'
        && "--uninstall"@[2] == 'u' && "--status"@[2] == 's' && "--help"@[2] == 'h'
        && "--version"@[2] == 'v');
    assert("-h"@.len() == 2 && "/?"@.len() == 2 && "-V"@.len() == 2 && "-V"@[1] == 'V' && "-h"@[1]
        == 'h' && "/?"@[1] == '?');
}

} // verus!
