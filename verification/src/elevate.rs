//! Elevation: asking for it, and the command line it takes.
//!
//! LinkSwitch is one program in two roles. The widget runs unelevated all day; the worker needs
//! administrator rights. The normal path gets those rights from a scheduled task, so there is no
//! prompt per click. This module covers the fallback that relaunches the program with a prompt.
use vstd::prelude::*;
use vstd::string::*;

use crate::encoding::{utf16, wide};
use crate::text;

verus! {

/// How many backslashes stand at the end of `s`.
pub open spec fn trailing(s: Seq<char>) -> nat
    decreases s.len(),
{
    if s.len() > 0 && s.last() == '\\' {
        trailing(s.drop_last()) + 1
    } else {
        0
    }
}

/// An argument can stand on a command line as it is: it is not empty, and nothing in it ends an
/// argument or opens a quotation.
pub open spec fn plain(a: Seq<char>) -> bool {
    a.len() > 0 && forall|i: int|
        0 <= i < a.len() ==> (#[trigger] a[i]) != ' ' && a[i] != '\t' && a[i] != '"'
}

/// The inside of a quoted argument: the backslashes immediately before a quotation mark are
/// doubled and the mark itself is escaped.
pub open spec fn quoted_body(a: Seq<char>) -> Seq<char>
    decreases a.len(),
{
    if a.len() == 0 {
        Seq::empty()
    } else if a.last() == '"' {
        (quoted_body(a.drop_last()) + text::run('\\', trailing(a.drop_last()) + 1)).push('"')
    } else {
        quoted_body(a.drop_last()).push(a.last())
    }
}

/// One argument as it stands on a Windows command line.
pub open spec fn quoted(a: Seq<char>) -> Seq<char> {
    if plain(a) {
        a
    } else {
        (seq!['"'] + quoted_body(a) + text::run('\\', trailing(a))).push('"')
    }
}

fn push_run(out: &mut String, c: char, n: usize)
    ensures
        final(out)@ == old(out)@ + text::run(c, n as nat),
{
    let mut i: usize = 0;
    while i < n
        invariant
            i <= n,
            out@ == old(out)@ + text::run(c, i as nat),
        decreases n - i,
    {
        out.push(c);
        i = i + 1;
        assert(out@ =~= old(out)@ + text::run(c, i as nat));
    }
    assert(out@ =~= old(out)@ + text::run(c, n as nat));
}

fn is_plain(v: &Vec<char>) -> (r: bool)
    ensures
        r == plain(v@),
{
    if v.len() == 0 {
        return false;
    }
    let mut i: usize = 0;
    while i < v.len()
        invariant
            i <= v.len(),
            forall|k: int|
                0 <= k < i ==> (#[trigger] v@[k]) != ' ' && v@[k] != '\t' && v@[k] != '"',
        decreases v.len() - i,
    {
        if v[i] == ' ' || v[i] == '\t' || v[i] == '"' {
            return false;
        }
        i = i + 1;
    }
    true
}

/// Quote one argument for a Windows command line.
///
/// Paths reach here from `%ProgramFiles%` and from wherever the user unzipped the build, so
/// spaces are the norm rather than the exception.
pub fn quote_arg(a: &str) -> (r: String)
    ensures
        r@ == quoted(a@),
{
    let v = text::chars_of(a);
    if is_plain(&v) {
        return a.to_owned();
    }
    let mut out = String::new();
    out.push('"');
    let mut backslashes: usize = 0;
    let mut i: usize = 0;
    assert(out@ =~= seq!['"'] + quoted_body(a@.take(0)));
    while i < v.len()
        invariant
            i <= v.len(),
            v@ == a@,
            backslashes <= i,
            backslashes == trailing(a@.take(i as int)),
            out@ == seq!['"'] + quoted_body(a@.take(i as int)),
        decreases v.len() - i,
    {
        let c = v[i];
        let ghost head = a@.take(i as int);
        let ghost longer = a@.take(i + 1);
        assert(longer.drop_last() =~= head);
        assert(longer.last() == c);
        if c == '\\' {
            backslashes = backslashes + 1;
            out.push('\\');
        } else if c == '"' {
            push_run(&mut out, '\\', backslashes);
            out.push('\\');
            out.push('"');
            assert(text::run('\\', backslashes as nat).push('\\') =~= text::run(
                '\\',
                backslashes as nat + 1,
            ));
            backslashes = 0;
        } else {
            backslashes = 0;
            out.push(c);
        }
        i = i + 1;
        assert(out@ =~= seq!['"'] + quoted_body(a@.take(i as int)));
    }
    assert(a@.take(i as int) =~= a@);
    // Trailing backslashes would otherwise escape the closing quote.
    push_run(&mut out, '\\', backslashes);
    out.push('"');
    out
}

/// The arguments of a list, each quoted.
pub open spec fn all_quoted(args: Seq<Seq<char>>) -> Seq<Seq<char>> {
    args.map_values(|a: Seq<char>| quoted(a))
}

/// The texts of a list of string slices.
pub open spec fn arg_views(args: Seq<&str>) -> Seq<Seq<char>> {
    args.map_values(|a: &str| a@)
}

/// The command line made of the arguments, each quoted, with one space between each two.
pub fn join_args(args: &[&str]) -> (r: String)
    ensures
        r@ == text::join(all_quoted(arg_views(args@)), " "@),
{
    let mut parts: Vec<String> = Vec::new();
    let mut i: usize = 0;
    while i < args.len()
        invariant
            i <= args@.len(),
            text::views(parts@) == all_quoted(arg_views(args@)).take(i as int),
        decreases args@.len() - i,
    {
        let q = quote_arg(args[i]);
        let ghost before = text::views(parts@);
        parts.push(q);
        i = i + 1;
        assert(text::views(parts@) =~= before.push(q@));
        assert(text::views(parts@) =~= all_quoted(arg_views(args@)).take(i as int));
    }
    assert(text::views(parts@) =~= all_quoted(arg_views(args@)));
    text::join_text(&parts, " ")
}

/// Why an elevated copy could not be started.
#[derive(Debug)]
pub enum ElevateError {
    /// The user declined the prompt, or policy blocked it.
    Declined,
    Failed(String),
}

/// What the shell is handed to start an elevated copy; each text ends in a NUL.
#[derive(Debug)]
pub struct Launch {
    pub verb: Vec<u16>,
    pub file: Vec<u16>,
    pub parameters: Vec<u16>,
}

/// Relaunch a program elevated with the given arguments: what the shell is handed.
pub fn relaunch_elevated(exe: &str, args: &[&str]) -> (r: Launch)
    ensures
        r.verb@ == utf16("runas"@).push(0),
        r.file@ == utf16(exe@).push(0),
        r.parameters@ == utf16(text::join(all_quoted(arg_views(args@)), " "@)).push(0),
{
    Launch {
        verb: wide("runas"),
        file: wide(exe),
        parameters: wide(join_args(args).as_str()),
    }
}

/// What became of an elevated copy.
#[derive(Debug)]
pub enum Launched {
    /// The shell refused, with its code and its explanation.
    Refused { code: u32, message: String },
    /// The shell started nothing that can be waited for.
    NoProcess,
    /// The copy ended, with this exit code if the wait for it was good.
    Ended(Option<u32>),
}

/// The shell's code for a prompt that was declined.
pub const CANCELLED: u32 = 0x8007_04C7;

/// The exit code of an elevated copy, or why there is none. One that could not be waited for
/// counts as having gone well.
pub fn relaunched(launched: Launched) -> (r: Result<u32, ElevateError>)
    ensures
        match launched {
            Launched::Refused { code, message } => if code == CANCELLED {
                r matches Err(ElevateError::Declined)
            } else {
                r == Err::<u32, ElevateError>(ElevateError::Failed(message))
            },
            Launched::NoProcess => r matches Err(ElevateError::Failed(m)) && m@
                == "no child process handle"@,
            Launched::Ended(code) => r == Ok::<u32, ElevateError>(
                match code {
                    Some(c) => c,
                    None => 0,
                },
            ),
        },
{
    match launched {
        Launched::Refused { code, message } => {
            if code == CANCELLED {
                Err(ElevateError::Declined)
            } else {
                Err(ElevateError::Failed(message))
            }
        },
        Launched::NoProcess => Err(ElevateError::Failed("no child process handle".to_owned())),
        Launched::Ended(Some(code)) => Ok(code),
        Launched::Ended(None) => Ok(0),
    }
}

} // verus!
