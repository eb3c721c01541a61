//! What holds of the texts that everything else is put together from.
use vstd::prelude::*;
use vstd::string::*;

use crate::cli::{about, command, first_unknown};
use crate::config::joined;
use crate::elevate::{plain, quoted};
use crate::encoding::before_nul;
use crate::net::adapters::Ipv4Addr;
use crate::net::binding::{listed, warning_about};
use crate::net::guid::{digit_value, digits_value, hex_value};
use crate::net::luid::LuidKey;
use crate::net::wcm::MinimizePolicy;
use crate::text::{
    self, contains, dec, dec_int, dec_padded, hex, is_space, join, lower, padded, split_on,
    strip_back, strip_front, trim,
};

verus! {

// --- numbers -----------------------------------------------------------------------------

/// The number that decimal digits spell.
pub open spec fn decimal_value(s: Seq<char>) -> int
    decreases s.len(),
{
    if s.len() == 0 {
        0
    } else {
        decimal_value(s.drop_last()) * 10 + (s.last() as int - 48)
    }
}

/// A decimal text reads back as its number; it has nothing but digits, at least one, and no zero in
/// front of another digit.
pub proof fn a_number_reads_back(n: nat)
    ensures
        decimal_value(dec(n)) == n,
        dec(n).len() > 0,
        forall|i: int| 0 <= i < dec(n).len() ==> '0' <= #[trigger] dec(n)[i] <= '9',
        n > 0 ==> dec(n)[0] != '0',
    decreases n,
{
    if n < 10 {
        assert(dec(n).drop_last() =~= Seq::empty());
        assert(decimal_value(Seq::<char>::empty()) == 0);
    } else {
        a_number_reads_back(n / 10);
        assert(dec(n).drop_last() =~= dec(n / 10));
        assert(dec(n)[0] == dec(n / 10)[0]);
        assert forall|i: int| 0 <= i < dec(n).len() implies '0' <= #[trigger] dec(n)[i] <= '9' by {
            if i < dec(n / 10).len() {
                assert(dec(n)[i] == dec(n / 10)[i]);
            }
        }
    }
}

/// A padded number is the same number, of the width that was asked for where it fits, with zeros
/// before it and nothing else. A negative one has a sign before its magnitude.
pub proof fn padding_keeps_the_number(n: nat, w: nat, m: int)
    ensures
        dec_padded(n, w).len() >= w,
        dec(n).len() >= w ==> dec_padded(n, w) == dec(n),
        dec(n).len() < w ==> dec_padded(n, w).len() == w,
        decimal_value(dec_padded(n, w)) == n,
        m >= 0 ==> decimal_value(dec_int(m)) == m,
        m < 0 ==> dec_int(m)[0] == '-' && decimal_value(dec_int(m).skip(1)) == -m,
{
    a_number_reads_back(n);
    if dec(n).len() < w {
        lemma_leading_zeros((w - dec(n).len()) as nat, dec(n));
    }
    if m >= 0 {
        a_number_reads_back(m as nat);
    } else {
        a_number_reads_back((-m) as nat);
        assert(dec_int(m).skip(1) =~= dec((-m) as nat));
    }
}

proof fn lemma_leading_zeros(k: nat, s: Seq<char>)
    ensures
        decimal_value(text::run('0', k) + s) == decimal_value(s),
    decreases k + s.len(),
{
    let all = text::run('0', k) + s;
    if s.len() > 0 {
        lemma_leading_zeros(k, s.drop_last());
        assert(all.drop_last() =~= text::run('0', k) + s.drop_last());
    } else if k > 0 {
        lemma_leading_zeros((k - 1) as nat, s);
        assert(all.drop_last() =~= text::run('0', (k - 1) as nat) + s);
        assert(all.last() == '0');
    }
}

/// The number that small hexadecimal digits spell.
pub open spec fn hex_number(s: Seq<char>) -> int
    decreases s.len(),
{
    if s.len() == 0 {
        0
    } else {
        hex_number(s.drop_last()) * 16 + (if s.last() <= '9' {
            s.last() as int - 48
        } else {
            s.last() as int - 97 + 10
        })
    }
}

/// How many numbers `w` hexadecimal digits can spell.
pub open spec fn hex_room(w: nat) -> nat
    decreases w,
{
    if w == 0 {
        1
    } else {
        16 * hex_room((w - 1) as nat)
    }
}

/// A hexadecimal text has the digits that were asked for, and reads back as its number wherever that
/// fits.
pub proof fn a_hexadecimal_reads_back(n: nat, w: nat)
    requires
        n < hex_room(w),
    ensures
        hex(n, w).len() == w,
        hex_number(hex(n, w)) == n,
    decreases w,
{
    if w > 0 {
        a_hexadecimal_reads_back(n / 16, (w - 1) as nat);
        assert(hex(n, w).drop_last() =~= hex(n / 16, (w - 1) as nat));
    }
}

/// A LUID is displayed as `0x` and sixteen digits that read back as it is, so that no two LUIDs look
/// the same.
pub proof fn a_luid_is_displayed_in_full(luid: LuidKey)
    ensures
        luid.display().len() == 18,
        luid.display().take(2) == "0x"@,
        hex_number(luid.display().skip(2)) == luid.0,
{
    reveal_strlit("0x");
    assert(hex_room(16) == 0x1_0000_0000_0000_0000) by {
        reveal_with_fuel(hex_room, 17);
    }
    a_hexadecimal_reads_back(luid.0 as nat, 16);
    assert(luid.display().take(2) =~= "0x"@);
    assert(luid.display().skip(2) =~= hex(luid.0 as nat, 16));
}

// --- trimming, case, padding -------------------------------------------------------------

proof fn lemma_front(s: Seq<char>) -> (i: int)
    ensures
        0 <= i <= s.len(),
        strip_front(s, |c: char| is_space(c)) == s.skip(i),
        forall|k: int| 0 <= k < i ==> is_space(#[trigger] s[k]),
        i < s.len() ==> !is_space(s[i]),
    decreases s.len(),
{
    if s.len() > 0 && is_space(s[0]) {
        let rest = s.drop_first();
        let i = lemma_front(rest);
        assert(rest.skip(i) =~= s.skip(i + 1));
        assert forall|k: int| 0 <= k < i + 1 implies is_space(#[trigger] s[k]) by {
            if k > 0 {
                assert(rest[k - 1] == s[k]);
            }
        }
        if i < rest.len() {
            assert(rest[i] == s[i + 1]);
        }
        i + 1
    } else {
        assert(s.skip(0) =~= s);
        0
    }
}

proof fn lemma_back(s: Seq<char>) -> (j: int)
    ensures
        0 <= j <= s.len(),
        strip_back(s, |c: char| is_space(c)) == s.take(j),
        forall|k: int| j <= k < s.len() ==> is_space(#[trigger] s[k]),
        j > 0 ==> !is_space(s[j - 1]),
    decreases s.len(),
{
    if s.len() > 0 && is_space(s.last()) {
        let rest = s.drop_last();
        let j = lemma_back(rest);
        assert(rest.take(j) =~= s.take(j));
        assert forall|k: int| j <= k < s.len() implies is_space(#[trigger] s[k]) by {
            if k < rest.len() {
                assert(rest[k] == s[k]);
            }
        }
        j
    } else {
        assert(s.take(s.len() as int) =~= s);
        s.len() as int
    }
}

/// The positions `from` up to `to` are what is left of a text once the white space at both ends is
/// gone.
pub open spec fn trims_to(s: Seq<char>, t: Seq<char>, from: int, to: int) -> bool {
    &&& 0 <= from <= to <= s.len() && t == s.subrange(from, to)
    &&& forall|k: int| 0 <= k < from || to <= k < s.len() ==> is_space(#[trigger] s[k])
}

/// Trimming takes away white space at both ends, all of it, and nothing else. Blanks, tabs and line
/// ends are white space; what can be seen in ASCII is not.
pub proof fn trimming_takes_only_white_space(s: Seq<char>, c: char)
    ensures
        exists|from: int, to: int| #[trigger] trims_to(s, trim(s), from, to),
        trim(s).len() > 0 ==> !is_space(trim(s)[0]) && !is_space(trim(s).last()),
        c == ' ' || c == '\t' || c == '\n' || c == '\r' ==> is_space(c),
        '!' <= c <= '~' ==> !is_space(c),
{
    let i = lemma_front(s);
    let front = s.skip(i);
    let j = lemma_back(front);
    assert(front.take(j) =~= s.subrange(i, i + j));
    assert forall|k: int| 0 <= k < i || i + j <= k < s.len() implies is_space(#[trigger] s[k]) by {
        if k >= i {
            assert(front[k - i] == s[k]);
        }
    }
    assert(trims_to(s, trim(s), i, i + j));
    if j > 0 {
        assert(front[0] == s[i]);
    }
}

/// Making a text small changes its ASCII capitals to their small letters and leaves all else.
pub proof fn only_capitals_change(s: Seq<char>, i: int)
    requires
        0 <= i < s.len(),
    ensures
        lower(s).len() == s.len(),
        'A' <= s[i] <= 'Z' ==> lower(s)[i] as int == s[i] as int + 32,
        !('A' <= s[i] <= 'Z') ==> lower(s)[i] == s[i],
{
}

/// A padded text begins with the text, is as wide as asked for or wider, and has blanks behind it.
pub proof fn padding_comes_behind(s: Seq<char>, w: nat)
    ensures
        s.is_prefix_of(padded(s, w)),
        s.len() >= w ==> padded(s, w) == s,
        s.len() < w ==> padded(s, w).len() == w,
        forall|i: int| s.len() <= i < padded(s, w).len() ==> #[trigger] padded(s, w)[i] == ' ',
{
    assert(padded(s, w).subrange(0, s.len() as int) =~= s);
}

// --- splitting and joining ---------------------------------------------------------------

/// Splitting a text and joining its pieces with the separator gives the text back, and no piece
/// holds the separator: the pieces are what stands between.
pub proof fn pieces_join_back(s: Seq<char>, c: char)
    ensures
        split_on(s, c).len() > 0,
        join(split_on(s, c), seq![c]) == s,
        forall|i: int| 0 <= i < split_on(s, c).len() ==> !(#[trigger] split_on(s, c)[i]).contains(c),
    decreases s.len(),
{
    if s.len() > 0 {
        let head = split_on(s.drop_last(), c);
        let all = split_on(s, c);
        pieces_join_back(s.drop_last(), c);
        if s.last() == c {
            assert(all.drop_last() =~= head);
            assert(join(all, seq![c]) =~= join(head, seq![c]) + seq![c]);
            assert(s =~= s.drop_last().push(c));
        } else {
            assert(all.drop_last() =~= head.drop_last());
            assert(all.last() =~= head.last().push(s.last()));
            if head.len() == 1 {
                assert(join(head, seq![c]) == head[0]);
                assert(join(all, seq![c]) == all[0]);
            } else {
                assert(join(all, seq![c]) =~= join(head, seq![c]).push(s.last()));
            }
            assert(s =~= s.drop_last().push(s.last()));
            assert forall|i: int| 0 <= i < all.len() implies !(#[trigger] all[i]).contains(c) by {
                if i < head.len() - 1 {
                    assert(all[i] == head[i]);
                } else {
                    assert(!head.last().contains(c));
                    if all[i].contains(c) {
                        let k = choose|k: int| 0 <= k < all[i].len() && all[i][k] == c;
                        assert(head.last()[k] == c);
                    }
                }
            }
        }
    } else {
        assert(split_on(s, c).len() == 1);
        assert(s =~= Seq::empty());
    }
}

/// Every item stands in the text that they are joined to.
pub proof fn a_joined_item_is_there(items: Seq<Seq<char>>, sep: Seq<char>, i: int)
    requires
        0 <= i < items.len(),
    ensures
        contains(join(items, sep), items[i]),
    decreases items.len(),
{
    let all = join(items, sep);
    text::lemma_itself(all);
    if items.len() == 1 {
        assert(Seq::<char>::empty() + items[0] =~= all);
        text::lemma_piece(Seq::<char>::empty(), items[0], all);
    } else {
        let before = join(items.drop_last(), sep);
        text::lemma_piece(before + sep, items.last(), all);
        if i < items.len() - 1 {
            a_joined_item_is_there(items.drop_last(), sep, i);
            let at = choose|at: int| #[trigger] text::occurs_at(before, items[i], at);
            assert(all.subrange(at, at + items[i].len()) =~= before.subrange(
                at,
                at + items[i].len(),
            ));
            assert(text::occurs_at(all, items[i], at));
        }
    }
}

/// A list in a sentence holds every item; two are joined by `and` alone, more by commas and `and`
/// before the last.
pub proof fn a_sentence_lists_every_item(items: Seq<Seq<char>>, i: int)
    requires
        0 <= i < items.len(),
    ensures
        contains(listed(items), items[i]),
        items.len() == 1 ==> listed(items) == items[0],
        items.len() == 2 ==> listed(items) == items[0] + " and "@ + items[1],
        items.len() > 2 ==> contains(listed(items), ", and "@ + items.last()),
        items.len() > 2 ==> join(items.drop_last(), ", "@).is_prefix_of(listed(items)),
{
    let all = listed(items);
    text::lemma_itself(all);
    if items.len() == 1 {
        assert(Seq::<char>::empty() + items[0] =~= all);
        text::lemma_piece(Seq::<char>::empty(), items[0], all);
    } else if items.len() == 2 {
        text::lemma_piece(items[0] + " and "@, items[1], all);
        text::lemma_piece(items[0], " and "@, all);
        assert(Seq::<char>::empty() + items[0] =~= items[0]);
        text::lemma_piece(Seq::<char>::empty(), items[0], all);
    } else {
        let before = join(items.drop_last(), ", "@);
        text::lemma_field(before, ", and "@, items.last(), all);
        text::lemma_piece(before + ", and "@, items.last(), all);
        if i < items.len() - 1 {
            a_joined_item_is_there(items.drop_last(), ", "@, i);
            let at = choose|at: int| #[trigger] text::occurs_at(before, items[i], at);
            assert(all.subrange(at, at + items[i].len()) =~= before.subrange(
                at,
                at + items[i].len(),
            ));
            assert(text::occurs_at(all, items[i], at));
        }
    }
}

/// The warning about bridges begins with what they are; its verb is singular for exactly one.
pub proof fn a_warning_agrees_in_number(found: Seq<Seq<char>>)
    ensures
        found.len() == 0 ==> warning_about(found) is None,
        found.len() == 1 ==> warning_about(found) == Some(
            found[0] + " still "@ + "uses"@
                + " this adapter directly, so the wire will not be silent."@,
        ),
        found.len() > 1 ==> warning_about(found) == Some(
            listed(found) + " still "@ + "use"@
                + " this adapter directly, so the wire will not be silent."@,
        ),
{
}

/// What stands before the first NUL is the beginning of the units, holds no NUL, and ends where one
/// stands or where the units end.
pub proof fn a_nul_ends_a_text(u: Seq<u16>)
    ensures
        before_nul(u).is_prefix_of(u),
        forall|i: int| 0 <= i < before_nul(u).len() ==> #[trigger] before_nul(u)[i] != 0,
        before_nul(u).len() == u.len() || u[before_nul(u).len() as int] == 0,
    decreases u.len(),
{
    if u.len() == 0 || u[0] == 0 {
        assert(u.subrange(0, 0) =~= Seq::empty());
    } else {
        let rest = u.skip(1);
        a_nul_ends_a_text(rest);
        let b = before_nul(rest);
        assert(rest.subrange(0, b.len() as int) == b);
        assert(u.subrange(0, b.len() as int + 1) =~= seq![u[0]] + rest.subrange(0, b.len() as int));
        assert forall|i: int| 0 <= i < before_nul(u).len() implies #[trigger] before_nul(u)[i]
            != 0 by {
            if i > 0 {
                assert(before_nul(u)[i] == b[i - 1]);
            }
        }
        if b.len() < rest.len() {
            assert(rest[b.len() as int] == u[b.len() as int + 1]);
        }
    }
}

// --- paths and arguments -----------------------------------------------------------------

/// A path begins with the directory and ends in the name. Between them stands one backslash, or
/// nothing where the directory is empty, a bare drive, or ends in a separator.
pub proof fn a_path_has_one_separator(base: Seq<char>, leaf: Seq<char>)
    ensures
        ({
            let p = joined(base, leaf);
            let open = base.len() == 0 || base.last() == '\\' || base.last() == '/' || (base.len()
                == 2 && base[1] == ':');
            &&& base.is_prefix_of(p)
            &&& p.subrange(p.len() - leaf.len(), p.len() as int) == leaf
            &&& open ==> p.len() == base.len() + leaf.len()
            &&& !open ==> p.len() == base.len() + 1 + leaf.len() && p[base.len() as int] == '\\'
        }),
{
    reveal_strlit("\\");
    let p = joined(base, leaf);
    assert(p.subrange(0, base.len() as int) =~= base);
    assert(p.subrange(p.len() - leaf.len(), p.len() as int) =~= leaf);
}

/// What is wrong with the arguments is said of one of them, between quotation marks; the exception
/// is a mode that is missing.
pub proof fn a_mistake_is_named(args: Seq<Seq<char>>)
    ensures
        command(args) matches Err(m) ==> {
            ||| args.len() == 1 && args[0] == "--apply"@ && m
                == "--apply needs a mode: ethernet, wifi, wifi-only or auto"@
            ||| exists|i: int|
                0 <= i < args.len() && contains(m, "\""@ + #[trigger] args[i] + "\""@)
        },
{
    if let Err(m) = command(args) {
        let keep = "--keep-wifi-connected"@;
        let quiet = "--no-autostart"@;
        lemma_unknown(args, 1, keep, quiet);
        lemma_unknown(args, 1, "--json"@, "--json"@);
        lemma_about("unexpected argument "@, args[1], ""@);
        lemma_about("unexpected argument "@, args[2], ""@);
        lemma_about(
            "unknown mode "@,
            args[1],
            "; expected ethernet, wifi, wifi-only or auto"@,
        );
        lemma_about("unknown command "@, args[0], "; try --help"@);
        if let Some(i) = first_unknown(args, 1, keep, quiet) {
            lemma_about("unknown option "@, args[i], ""@);
        }
        if let Some(i) = first_unknown(args, 1, "--json"@, "--json"@) {
            lemma_about("unknown option "@, args[i], ""@);
        }
    }
}

proof fn lemma_about(before: Seq<char>, arg: Seq<char>, after: Seq<char>)
    ensures
        contains(about(before, arg, after), "\""@ + arg + "\""@),
{
    let m = about(before, arg, after);
    let quoted = "\""@ + arg + "\""@;
    assert(m =~= before + quoted + after);
    text::lemma_itself(m);
    text::lemma_piece(before + quoted, after, m);
    text::lemma_piece(before, quoted, m);
}

proof fn lemma_unknown(args: Seq<Seq<char>>, from: int, a: Seq<char>, b: Seq<char>)
    requires
        from >= 0,
    ensures
        first_unknown(args, from, a, b) matches Some(i) ==> from <= i < args.len() && args[i] != a
            && args[i] != b,
    decreases args.len() - from,
{
    if from < args.len() {
        lemma_unknown(args, from + 1, a, b);
    }
}

/// An argument without blanks, tabs and quotation marks stands on a command line as it is; any other
/// one, and an empty one, stands between quotation marks.
pub proof fn only_what_needs_it_is_quoted(a: Seq<char>)
    ensures
        a.len() > 0 && !a.contains(' ') && !a.contains('\t') && !a.contains('"') ==> quoted(a) == a,
        a.len() == 0 || a.contains(' ') || a.contains('\t') || a.contains('"') ==> quoted(a).len()
            >= 2 && quoted(a)[0] == '"' && quoted(a).last() == '"',
{
    if a.len() > 0 && !a.contains(' ') && !a.contains('\t') && !a.contains('"') {
        assert(plain(a));
    }
}

// --- names and numbers of the network ----------------------------------------------------

/// Hexadecimal digits mean the same in capitals and small.
pub proof fn digits_read_in_either_case(s: Seq<char>)
    ensures
        digits_value(lower(s)) == digits_value(s),
        hex_value(lower(s)) == hex_value(s),
    decreases s.len(),
{
    if s.len() > 0 {
        digits_read_in_either_case(s.drop_last());
        assert(lower(s).drop_last() =~= lower(s.drop_last()));
        assert(digit_value(lower(s).last()) == digit_value(s.last()));
        if s.len() > 1 {
            digits_read_in_either_case(s.skip(1));
            assert(lower(s).skip(1) =~= lower(s.skip(1)));
        }
    }
}

/// An IPv4 address is displayed as its four numbers, in order, with full stops between.
pub proof fn an_address_is_dotted(a: Ipv4Addr)
    ensures
        a.display() == join(
            seq![dec(a.a as nat), dec(a.b as nat), dec(a.c as nat), dec(a.d as nat)],
            "."@,
        ),
{
    let parts = seq![dec(a.a as nat), dec(a.b as nat), dec(a.c as nat), dec(a.d as nat)];
    reveal_with_fuel(join, 5);
    assert(parts.drop_last() =~= seq![parts[0], parts[1], parts[2]]);
    assert(parts.drop_last().drop_last() =~= seq![parts[0], parts[1]]);
    assert(parts.drop_last().drop_last().drop_last() =~= seq![parts[0]]);
}

/// Every documented value of the policy has its own meaning, and any other one is told as unknown
/// with the value.
pub proof fn a_policy_value_is_named(v: u32)
    ensures
        MinimizePolicy::of(0).words() == "Windows may keep Wi-Fi connected alongside Ethernet"@,
        MinimizePolicy::of(1).words()
            == "Windows blocks Wi-Fi from auto-connecting while Ethernet is up (Windows default)"@,
        MinimizePolicy::of(2).words() == "Windows minimises cellular connections only"@,
        MinimizePolicy::of(3).words()
            == "Group Policy prevents Wi-Fi entirely while Ethernet is connected"@,
        v > 3 ==> MinimizePolicy::of(v).words() == "unrecognised policy value"@,
        v > 3 ==> MinimizePolicy::of(v).debug_words() == "Unknown("@ + dec(v as nat) + ")"@,
        MinimizePolicy::of(0).debug_words() == "Allow"@,
        MinimizePolicy::of(1).debug_words() == "Minimize"@,
        MinimizePolicy::of(2).debug_words() == "MinimizeCellular"@,
        MinimizePolicy::of(3).debug_words() == "PreventWifi"@,
{
}

} // verus!
