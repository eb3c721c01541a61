//! How a Windows program splits its command line, and that quoted arguments survive it.
use vstd::prelude::*;

use crate::elevate::{all_quoted, plain, quoted, quoted_body, trailing};
use crate::text::{join, run};

verus! {

/// A command line being split, from the left.
#[verifier::ext_equal]
pub struct Splitting {
    /// The arguments that are complete.
    pub done: Seq<Seq<char>>,
    /// The argument being read.
    pub current: Seq<char>,
    /// Whether anything of the current argument has been read, be it an empty quotation.
    pub started: bool,
    /// Inside a quotation, where white space is part of the argument.
    pub inside: bool,
    /// Backslashes just read. What they mean depends on whether a quotation mark follows.
    pub slashes: nat,
}

/// Nothing read yet.
pub open spec fn fresh() -> Splitting {
    Splitting {
        done: Seq::empty(),
        current: Seq::empty(),
        started: false,
        inside: false,
        slashes: 0,
    }
}

/// Read one more character.
///
/// An even number of backslashes before a quotation mark stands for half as many, and the mark
/// opens or closes a quotation; an odd number stands for half as many, rounded down, and the mark
/// is part of the argument. Backslashes before anything else are backslashes. White space outside
/// a quotation ends the argument.
pub open spec fn split_step(s: Splitting, c: char) -> Splitting {
    if c == '\\' {
        Splitting { slashes: s.slashes + 1, ..s }
    } else if c == '"' {
        if s.slashes % 2 == 0 {
            Splitting {
                current: s.current + run('\\', s.slashes / 2),
                started: true,
                inside: !s.inside,
                slashes: 0,
                ..s
            }
        } else {
            Splitting {
                current: (s.current + run('\\', s.slashes / 2)).push('"'),
                started: true,
                slashes: 0,
                ..s
            }
        }
    } else {
        let current = s.current + run('\\', s.slashes);
        if !s.inside && (c == ' ' || c == '\t') {
            Splitting {
                done: if s.started || s.slashes > 0 {
                    s.done.push(current)
                } else {
                    s.done
                },
                current: Seq::empty(),
                started: false,
                slashes: 0,
                ..s
            }
        } else {
            Splitting { current: current.push(c), started: true, slashes: 0, ..s }
        }
    }
}

/// Read a text, character by character.
pub open spec fn split_run(s: Splitting, line: Seq<char>) -> Splitting
    decreases line.len(),
{
    if line.len() == 0 {
        s
    } else {
        split_step(split_run(s, line.drop_last()), line.last())
    }
}

/// The arguments a program sees when it is given the command line `line`.
pub open spec fn split_args(line: Seq<char>) -> Seq<Seq<char>> {
    let s = split_run(fresh(), line);
    if s.started || s.slashes > 0 {
        s.done.push(s.current + run('\\', s.slashes))
    } else {
        s.done
    }
}

proof fn lemma_run_concat(s: Splitting, a: Seq<char>, b: Seq<char>)
    ensures
        split_run(s, a + b) == split_run(split_run(s, a), b),
    decreases b.len(),
{
    if b.len() == 0 {
        assert(a + b =~= a);
    } else {
        assert((a + b).drop_last() =~= a + b.drop_last());
        lemma_run_concat(s, a, b.drop_last());
    }
}

proof fn lemma_run_push(s: Splitting, a: Seq<char>, c: char)
    ensures
        split_run(s, a.push(c)) == split_step(split_run(s, a), c),
{
    assert(a.push(c).drop_last() =~= a);
}

proof fn lemma_run_slashes(s: Splitting, n: nat)
    ensures
        split_run(s, run('\\', n)) == (Splitting { slashes: s.slashes + n, ..s }),
    decreases n,
{
    if n > 0 {
        lemma_run_slashes(s, (n - 1) as nat);
        assert(run('\\', n).drop_last() =~= run('\\', (n - 1) as nat));
    }
}

/// `a` is what has been read of the argument: the text itself, then its trailing backslashes.
spec fn reading(base: Splitting, a: Seq<char>) -> Splitting {
    Splitting {
        current: a.take(a.len() - trailing(a)),
        started: base.started || a.len() > trailing(a),
        slashes: trailing(a),
        ..base
    }
}

proof fn lemma_trailing(a: Seq<char>)
    ensures
        trailing(a) <= a.len(),
        a.take(a.len() - trailing(a)) + run('\\', trailing(a)) == a,
    decreases a.len(),
{
    if a.len() > 0 && a.last() == '\\' {
        let p = a.drop_last();
        lemma_trailing(p);
        assert(a.take(a.len() - trailing(a)) =~= p.take(p.len() - trailing(p)));
        assert(run('\\', trailing(a)) =~= run('\\', trailing(p)).push('\\'));
        assert(a.take(a.len() - trailing(a)) + run('\\', trailing(a)) =~= p.push('\\'));
        assert(p.push('\\') =~= a);
    } else {
        assert(a.take(a.len() as int) + run('\\', 0) =~= a);
    }
}

proof fn lemma_body(base: Splitting, a: Seq<char>)
    requires
        base.inside,
        base.started,
        base.current.len() == 0,
        base.slashes == 0,
    ensures
        split_run(base, quoted_body(a)) == reading(base, a),
    decreases a.len(),
{
    if a.len() == 0 {
        assert(reading(base, a) =~= base);
    } else {
        let p = a.drop_last();
        let c = a.last();
        lemma_body(base, p);
        lemma_trailing(p);
        lemma_trailing(a);
        let t = trailing(p);
        assert(p.push(c) =~= a);
        if c == '"' {
            let n = t + 1;
            lemma_run_concat(base, quoted_body(p), run('\\', n));
            lemma_run_slashes(reading(base, p), n);
            lemma_run_push(base, quoted_body(p) + run('\\', n), '"');
            assert((2 * t + 1) % 2 == 1 && (2 * t + 1) / 2 == t);
            assert(split_run(base, quoted_body(a)) =~= reading(base, a));
        } else if c == '\\' {
            lemma_run_push(base, quoted_body(p), c);
            assert(a.take(a.len() - trailing(a)) =~= p.take(p.len() - t));
            assert(split_run(base, quoted_body(a)) =~= reading(base, a));
        } else {
            lemma_run_push(base, quoted_body(p), c);
            assert(split_run(base, quoted_body(a)) =~= reading(base, a));
        }
    }
}

proof fn lemma_plain(base: Splitting, a: Seq<char>)
    requires
        !base.inside,
        base.current.len() == 0,
        base.slashes == 0,
        forall|i: int| 0 <= i < a.len() ==> (#[trigger] a[i]) != ' ' && a[i] != '\t' && a[i] != '"',
    ensures
        split_run(base, a) == reading(base, a),
    decreases a.len(),
{
    if a.len() == 0 {
        assert(reading(base, a) =~= base);
    } else {
        let p = a.drop_last();
        lemma_plain(base, p);
        lemma_trailing(p);
        lemma_trailing(a);
        assert(p.push(a.last()) =~= a);
        if a.last() == '\\' {
            assert(a.take(a.len() - trailing(a)) =~= p.take(p.len() - trailing(p)));
        }
        assert(split_run(base, a) =~= reading(base, a));
    }
}

/// Reading a quoted argument leaves exactly that argument as the one being read.
proof fn lemma_quoted(base: Splitting, a: Seq<char>)
    requires
        !base.inside,
        !base.started,
        base.current.len() == 0,
        base.slashes == 0,
    ensures
        ({
            let s = split_run(base, quoted(a));
            &&& s.done == base.done
            &&& !s.inside
            &&& s.started || s.slashes > 0
            &&& s.current + run('\\', s.slashes) == a
        }),
{
    lemma_trailing(a);
    if plain(a) {
        lemma_plain(base, a);
    } else {
        let t = trailing(a);
        let open = seq!['"'];
        let s0 = split_run(base, open);
        assert(open =~= Seq::<char>::empty().push('"'));
        lemma_run_push(base, Seq::<char>::empty(), '"');
        assert(base.current + run('\\', 0) =~= base.current);
        assert(s0 =~= Splitting { started: true, inside: true, ..base });
        lemma_body(s0, a);
        lemma_run_concat(base, open, quoted_body(a));
        lemma_run_concat(base, open + quoted_body(a), run('\\', t));
        lemma_run_slashes(reading(s0, a), t);
        lemma_run_push(base, open + quoted_body(a) + run('\\', t), '"');
        assert((2 * t) % 2 == 0 && (2 * t) / 2 == t);
        let s = split_run(base, quoted(a));
        assert(s.current + run('\\', 0) =~= s.current);
    }
}

proof fn lemma_join(args: Seq<Seq<char>>)
    requires
        args.len() > 0,
    ensures
        ({
            let s = split_run(fresh(), join(all_quoted(args), " "@));
            &&& s.done == args.drop_last()
            &&& !s.inside
            &&& s.started || s.slashes > 0
            &&& s.current + run('\\', s.slashes) == args.last()
        }),
    decreases args.len(),
{
    reveal_strlit(" ");
    let all = all_quoted(args);
    let last = args.last();
    if args.len() == 1 {
        lemma_quoted(fresh(), last);
        assert(args.drop_last() =~= Seq::<Seq<char>>::empty());
    } else {
        let rest = args.drop_last();
        lemma_join(rest);
        assert(all.drop_last() =~= all_quoted(rest));
        let line = join(all_quoted(rest), " "@);
        let s = split_run(fresh(), line);
        assert(line + " "@ =~= line.push(' '));
        lemma_run_push(fresh(), line, ' ');
        let next = split_step(s, ' ');
        assert(next.done =~= rest);
        lemma_run_concat(fresh(), line + " "@, quoted(last));
        lemma_quoted(next, last);
    }
}

/// A program started with the joined arguments sees exactly those arguments, whatever characters
/// they hold.
pub proof fn joined_arguments_split_back(args: Seq<Seq<char>>)
    ensures
        split_args(join(all_quoted(args), " "@)) == args,
{
    if args.len() == 0 {
        assert(split_args(join(all_quoted(args), " "@)) =~= args);
    } else {
        lemma_join(args);
        assert(args.drop_last().push(args.last()) =~= args);
    }
}

} // verus!
