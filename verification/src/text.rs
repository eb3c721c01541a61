//! Text building blocks: characters in and out of strings, numbers as digits, trimming,
//! searching and joining.
use vstd::prelude::*;
use vstd::string::*;

verus! {

/// `String::push` of the standard library: the character is appended at the end and nothing
/// else changes.
pub assume_specification[ String::push ](s: &mut String, ch: char)
    ensures
        final(s)@ == old(s)@.push(ch),
;

/// The characters of a string, in order.
pub fn chars_of(s: &str) -> (v: Vec<char>)
    ensures
        v@ == s@,
{
    let mut v: Vec<char> = Vec::new();
    for c in it: s.chars()
        invariant
            it.seq() == s@,
            v@ == s@.take(it.index() as int),
    {
        v.push(c);
    }
    v
}

/// The string made of `v[from..to]`.
pub fn slice_text(v: &Vec<char>, from: usize, to: usize) -> (s: String)
    requires
        from <= to <= v@.len(),
    ensures
        s@ == v@.subrange(from as int, to as int),
{
    let mut s = String::new();
    let mut i: usize = from;
    while i < to
        invariant
            from <= i <= to <= v@.len(),
            s@ == v@.subrange(from as int, i as int),
        decreases to - i,
    {
        s.push(v[i]);
        i = i + 1;
    }
    s
}

/// Are the two strings the same characters in the same order?
pub fn same(a: &str, b: &str) -> (r: bool)
    ensures
        r == (a@ == b@),
{
    a.to_owned() == b.to_owned()
}

// --- digits ------------------------------------------------------------------------------

/// The character of one decimal digit.
pub open spec fn digit(n: int) -> char {
    (48 + n) as char
}

/// A natural number in decimal, without leading zeros.
pub open spec fn dec(n: nat) -> Seq<char>
    decreases n,
{
    if n < 10 {
        seq![digit(n as int)]
    } else {
        dec(n / 10).push(digit((n % 10) as int))
    }
}

/// An integer in decimal: a minus sign when negative, then its magnitude.
pub open spec fn dec_int(n: int) -> Seq<char> {
    if n < 0 {
        seq!['-'] + dec((-n) as nat)
    } else {
        dec(n as nat)
    }
}

/// `n` copies of one character.
pub open spec fn run(c: char, n: nat) -> Seq<char> {
    Seq::new(n, |i: int| c)
}

/// A natural number in decimal, zero-padded on the left to at least `w` characters.
pub open spec fn dec_padded(n: nat, w: nat) -> Seq<char> {
    if dec(n).len() < w {
        run('0', (w - dec(n).len()) as nat) + dec(n)
    } else {
        dec(n)
    }
}

/// The character of one lower-case hexadecimal digit.
pub open spec fn hex_digit(n: int) -> char {
    if n < 10 {
        (48 + n) as char
    } else {
        (87 + n) as char
    }
}

/// The `w` low hexadecimal digits of `n`, lower case, most significant first.
pub open spec fn hex(n: nat, w: nat) -> Seq<char>
    decreases w,
{
    if w == 0 {
        Seq::empty()
    } else {
        hex(n / 16, (w - 1) as nat).push(hex_digit((n % 16) as int))
    }
}

fn digit_char(d: u8) -> (c: char)
    requires
        d < 10,
    ensures
        c == digit(d as int),
{
    (48u8 + d) as char
}

fn hex_char(d: u8) -> (c: char)
    requires
        d < 16,
    ensures
        c == hex_digit(d as int),
{
    if d < 10 {
        (48u8 + d) as char
    } else {
        (87u8 + d) as char
    }
}

/// Append a number in decimal.
pub fn push_dec(out: &mut String, n: u64)
    ensures
        final(out)@ == old(out)@ + dec(n as nat),
    decreases n,
{
    if n >= 10 {
        push_dec(out, n / 10);
    }
    out.push(digit_char((n % 10) as u8));
    assert(out@ =~= old(out)@ + dec(n as nat));
}

/// A number in decimal.
pub fn dec_text(n: u64) -> (s: String)
    ensures
        s@ == dec(n as nat),
{
    let mut s = String::new();
    push_dec(&mut s, n);
    s
}

/// Append an integer in decimal.
pub fn push_dec_int(out: &mut String, n: i64)
    ensures
        final(out)@ == old(out)@ + dec_int(n as int),
{
    if n < 0 {
        out.push('-');
        let magnitude: u64 = (-(n + 1)) as u64 + 1;
        push_dec(out, magnitude);
        assert(out@ =~= old(out)@ + dec_int(n as int));
    } else {
        push_dec(out, n as u64);
    }
}

/// Append a number in decimal, zero-padded to at least `w` characters.
pub fn push_dec_padded(out: &mut String, n: u64, w: usize)
    ensures
        final(out)@ == old(out)@ + dec_padded(n as nat, w as nat),
{
    let digits = dec_text(n);
    let len: usize = digits.as_str().unicode_len();
    let mut i: usize = len;
    while i < w
        invariant
            len <= i,
            i == len || i <= w,
            out@ == old(out)@ + run('0', (i - len) as nat),
        decreases w - i,
    {
        out.push('0');
        i = i + 1;
        assert(out@ =~= old(out)@ + run('0', (i - len) as nat));
    }
    out.append(digits.as_str());
    assert(out@ =~= old(out)@ + dec_padded(n as nat, w as nat));
}

/// Append the `w` low hexadecimal digits of a number.
pub fn push_hex(out: &mut String, n: u64, w: usize)
    ensures
        final(out)@ == old(out)@ + hex(n as nat, w as nat),
    decreases w,
{
    if w > 0 {
        push_hex(out, n / 16, w - 1);
        out.push(hex_char((n % 16) as u8));
    }
    assert(out@ =~= old(out)@ + hex(n as nat, w as nat));
}

// --- trimming and case -------------------------------------------------------------------

/// The characters Unicode calls white space.
pub open spec fn is_space(c: char) -> bool {
    let n = c as int;
    ||| 0x09 <= n <= 0x0d
    ||| n == 0x20
    ||| n == 0x85
    ||| n == 0xa0
    ||| n == 0x1680
    ||| 0x2000 <= n <= 0x200a
    ||| n == 0x2028
    ||| n == 0x2029
    ||| n == 0x202f
    ||| n == 0x205f
    ||| n == 0x3000
}

/// What is left after the leading characters that satisfy `p` are dropped.
pub open spec fn strip_front(s: Seq<char>, p: spec_fn(char) -> bool) -> Seq<char>
    decreases s.len(),
{
    if s.len() > 0 && p(s[0]) {
        strip_front(s.drop_first(), p)
    } else {
        s
    }
}

/// What is left after the trailing characters that satisfy `p` are dropped.
pub open spec fn strip_back(s: Seq<char>, p: spec_fn(char) -> bool) -> Seq<char>
    decreases s.len(),
{
    if s.len() > 0 && p(s.last()) {
        strip_back(s.drop_last(), p)
    } else {
        s
    }
}

/// White space removed at both ends.
pub open spec fn trim(s: Seq<char>) -> Seq<char> {
    strip_back(strip_front(s, |c: char| is_space(c)), |c: char| is_space(c))
}

/// An ASCII capital as its small letter; any other character as it is.
pub open spec fn lower_char(c: char) -> char {
    if 'A' <= c <= 'Z' {
        (c as int + 32) as char
    } else {
        c
    }
}

/// Every ASCII capital made small.
pub open spec fn lower(s: Seq<char>) -> Seq<char> {
    s.map_values(|c: char| lower_char(c))
}

pub fn space_char(c: char) -> (r: bool)
    ensures
        r == is_space(c),
{
    let n: u32 = c as u32;
    (0x09 <= n && n <= 0x0d) || n == 0x20 || n == 0x85 || n == 0xa0 || n == 0x1680 || (0x2000 <= n
        && n <= 0x200a) || n == 0x2028 || n == 0x2029 || n == 0x202f || n == 0x205f || n == 0x3000
}

fn small_char(c: char) -> (r: char)
    ensures
        r == lower_char(c),
{
    if 'A' <= c && c <= 'Z' {
        ((c as u8) + 32u8) as char
    } else {
        c
    }
}

/// Every ASCII capital made small.
pub fn lower_text(s: &str) -> (r: String)
    ensures
        r@ == lower(s@),
{
    let v = chars_of(s);
    let mut r = String::new();
    let mut i: usize = 0;
    while i < v.len()
        invariant
            i <= v.len(),
            v@ == s@,
            r@ == lower(s@.take(i as int)),
        decreases v.len() - i,
    {
        r.push(small_char(v[i]));
        i = i + 1;
        assert(r@ =~= lower(s@.take(i as int)));
    }
    assert(s@.take(i as int) =~= s@);
    r
}

/// White space removed at both ends.
pub fn trim_text(s: &str) -> (r: String)
    ensures
        r@ == trim(s@),
{
    let v = chars_of(s);
    let ghost space = |c: char| is_space(c);
    let mut from: usize = 0;
    proof {
        assert(v@.skip(0) =~= s@);
    }
    while from < v.len() && space_char(v[from])
        invariant
            from <= v.len(),
            v@ == s@,
            space == (|c: char| is_space(c)),
            strip_front(s@, space) == strip_front(v@.skip(from as int), space),
        decreases v.len() - from,
    {
        assert(v@.skip(from as int).drop_first() =~= v@.skip(from + 1));
        from = from + 1;
    }
    let mut to: usize = v.len();
    proof {
        assert(v@.skip(from as int) =~= v@.subrange(from as int, to as int));
    }
    while from < to && space_char(v[to - 1])
        invariant
            from <= to <= v.len(),
            space == (|c: char| is_space(c)),
            trim(s@) == strip_back(v@.subrange(from as int, to as int), space),
        decreases to,
    {
        assert(v@.subrange(from as int, to as int).drop_last() =~= v@.subrange(
            from as int,
            to - 1,
        ));
        to = to - 1;
    }
    slice_text(&v, from, to)
}

/// Every leading `c` removed.
pub fn strip_front_of(s: &str, c: char) -> (r: String)
    ensures
        r@ == strip_front(s@, |x: char| x == c),
{
    let v = chars_of(s);
    let ghost p = |x: char| x == c;
    let mut from: usize = 0;
    proof {
        assert(v@.skip(0) =~= s@);
    }
    while from < v.len() && v[from] == c
        invariant
            from <= v.len(),
            v@ == s@,
            p == (|x: char| x == c),
            strip_front(s@, p) == strip_front(v@.skip(from as int), p),
        decreases v.len() - from,
    {
        assert(v@.skip(from as int).drop_first() =~= v@.skip(from + 1));
        from = from + 1;
    }
    proof {
        assert(v@.skip(from as int) =~= v@.subrange(from as int, v@.len() as int));
    }
    slice_text(&v, from, v.len())
}

/// Every trailing `c` removed.
pub fn strip_back_of(s: &str, c: char) -> (r: String)
    ensures
        r@ == strip_back(s@, |x: char| x == c),
{
    let v = chars_of(s);
    let ghost p = |x: char| x == c;
    let mut to: usize = v.len();
    proof {
        assert(v@.subrange(0, to as int) =~= s@);
    }
    while 0 < to && v[to - 1] == c
        invariant
            to <= v.len(),
            p == (|x: char| x == c),
            strip_back(s@, p) == strip_back(v@.subrange(0, to as int), p),
        decreases to,
    {
        assert(v@.subrange(0, to as int).drop_last() =~= v@.subrange(0, to - 1));
        to = to - 1;
    }
    slice_text(&v, 0, to)
}

// --- searching, splitting, joining -------------------------------------------------------

/// `needle` stands in `hay` at position `at`.
pub open spec fn occurs_at(hay: Seq<char>, needle: Seq<char>, at: int) -> bool {
    &&& 0 <= at
    &&& at + needle.len() <= hay.len()
    &&& hay.subrange(at, at + needle.len()) == needle
}

/// `needle` stands somewhere in `hay`.
pub open spec fn contains(hay: Seq<char>, needle: Seq<char>) -> bool {
    exists|at: int| #[trigger] occurs_at(hay, needle, at)
}

/// What a text ends in stands in every text that begins with it.
pub proof fn lemma_piece(before: Seq<char>, piece: Seq<char>, whole: Seq<char>)
    requires
        (before + piece).is_prefix_of(whole),
    ensures
        before.is_prefix_of(whole),
        contains(whole, piece),
{
    let at = before.len() as int;
    let end = at + piece.len() as int;
    assert(whole.subrange(0, end) == before + piece);
    assert(whole.subrange(0, at) =~= before) by {
        assert(whole.subrange(0, at) =~= whole.subrange(0, end).subrange(0, at));
        assert((before + piece).subrange(0, at) =~= before);
    }
    assert(whole.subrange(at, end) =~= piece) by {
        assert(whole.subrange(at, end) =~= whole.subrange(0, end).subrange(at, end));
        assert((before + piece).subrange(at, end) =~= piece);
    }
    assert(occurs_at(whole, piece, at));
}

/// The same of a name and what follows it.
pub proof fn lemma_field(before: Seq<char>, name: Seq<char>, value: Seq<char>, whole: Seq<char>)
    requires
        (before + name + value).is_prefix_of(whole),
    ensures
        before.is_prefix_of(whole),
        contains(whole, name + value),
{
    assert(before + name + value =~= before + (name + value));
    lemma_piece(before, name + value, whole);
}

/// A text begins with itself.
pub proof fn lemma_itself(s: Seq<char>)
    ensures
        s.is_prefix_of(s),
{
    assert(s.subrange(0, s.len() as int) =~= s);
}

/// The first position at or after `from` where `needle` stands in `hay`.
pub open spec fn index_from(hay: Seq<char>, needle: Seq<char>, from: int) -> Option<int>
    decreases hay.len() - from + 1,
{
    if from + needle.len() > hay.len() {
        None
    } else if occurs_at(hay, needle, from) {
        Some(from)
    } else {
        index_from(hay, needle, from + 1)
    }
}

/// [`index_from`] finds an occurrence with none before it, and finds nothing only when there is
/// nothing to find.
pub proof fn lemma_index_from(hay: Seq<char>, needle: Seq<char>, from: int)
    ensures
        match index_from(hay, needle, from) {
            Some(at) => {
                &&& from <= at
                &&& occurs_at(hay, needle, at)
                &&& forall|k: int| from <= k < at ==> !occurs_at(hay, needle, k)
            },
            None => forall|k: int| from <= k ==> !occurs_at(hay, needle, k),
        },
    decreases hay.len() - from + 1,
{
    if from + needle.len() <= hay.len() && !occurs_at(hay, needle, from) {
        lemma_index_from(hay, needle, from + 1);
    }
}

/// An occurrence with none before it is the one [`index_from`] finds.
pub proof fn lemma_first_occurrence(hay: Seq<char>, needle: Seq<char>, from: int, at: int)
    requires
        from <= at,
        occurs_at(hay, needle, at),
        forall|k: int| from <= k < at ==> !occurs_at(hay, needle, k),
    ensures
        index_from(hay, needle, from) == Some(at),
{
    lemma_index_from(hay, needle, from);
}

/// The strings of a list, as sequences of characters.
pub open spec fn views(v: Seq<String>) -> Seq<Seq<char>> {
    v.map_values(|s: String| s@)
}

/// The pieces of `s` between the separators `c`; always at least one.
pub open spec fn split_on(s: Seq<char>, c: char) -> Seq<Seq<char>>
    decreases s.len(),
{
    if s.len() == 0 {
        seq![Seq::<char>::empty()]
    } else {
        let head = split_on(s.drop_last(), c);
        if s.last() == c {
            head.push(Seq::<char>::empty())
        } else {
            head.drop_last().push(head.last().push(s.last()))
        }
    }
}

/// The items with `sep` between each two.
pub open spec fn join(items: Seq<Seq<char>>, sep: Seq<char>) -> Seq<char>
    decreases items.len(),
{
    if items.len() == 0 {
        Seq::empty()
    } else if items.len() == 1 {
        items[0]
    } else {
        join(items.drop_last(), sep) + sep + items.last()
    }
}

/// Every occurrence of `pat` replaced by `rep`, scanning from the left and never looking again
/// at what was replaced.
pub open spec fn replaced(s: Seq<char>, pat: Seq<char>, rep: Seq<char>) -> Seq<char>
    decreases s.len(),
{
    if pat.len() == 0 || s.len() < pat.len() {
        s
    } else if s.take(pat.len() as int) == pat {
        rep + replaced(s.skip(pat.len() as int), pat, rep)
    } else {
        seq![s[0]] + replaced(s.skip(1), pat, rep)
    }
}

/// `s` with spaces after it up to `w` characters.
pub open spec fn padded(s: Seq<char>, w: nat) -> Seq<char> {
    if s.len() < w {
        s + run(' ', (w - s.len()) as nat)
    } else {
        s
    }
}

fn stands_at(hay: &Vec<char>, needle: &Vec<char>, at: usize) -> (r: bool)
    requires
        at <= hay@.len(),
    ensures
        r == occurs_at(hay@, needle@, at as int),
{
    if needle.len() > hay.len() - at {
        return false;
    }
    let mut i: usize = 0;
    while i < needle.len()
        invariant
            i <= needle.len(),
            at + needle.len() <= hay.len(),
            forall|k: int| 0 <= k < i ==> hay@[at + k] == needle@[k],
        decreases needle.len() - i,
    {
        if hay[at + i] != needle[i] {
            assert(hay@.subrange(at as int, at + needle@.len())[i as int] != needle@[i as int]);
            return false;
        }
        i = i + 1;
    }
    assert(hay@.subrange(at as int, at + needle@.len()) =~= needle@);
    true
}

/// The first position at or after `from` where `needle` stands in `hay`.
pub fn find_from(hay: &Vec<char>, needle: &Vec<char>, from: usize) -> (r: Option<usize>)
    requires
        from <= hay@.len(),
    ensures
        match r {
            Some(at) => index_from(hay@, needle@, from as int) == Some(at as int) && at
                <= hay@.len(),
            None => index_from(hay@, needle@, from as int) is None,
        },
{
    let mut at: usize = from;
    while at < hay.len()
        invariant
            from <= at <= hay.len(),
            index_from(hay@, needle@, from as int) == index_from(hay@, needle@, at as int),
        decreases hay.len() - at,
    {
        if stands_at(hay, needle, at) {
            return Some(at);
        }
        proof {
            lemma_index_from(hay@, needle@, at as int);
            lemma_index_from(hay@, needle@, at + 1);
        }
        at = at + 1;
    }
    proof {
        lemma_index_from(hay@, needle@, at as int);
    }
    if stands_at(hay, needle, at) {
        Some(at)
    } else {
        None
    }
}

/// Does `needle` stand somewhere in `hay`?
pub fn has(hay: &str, needle: &str) -> (r: bool)
    ensures
        r == contains(hay@, needle@),
{
    let h = chars_of(hay);
    let n = chars_of(needle);
    proof {
        lemma_index_from(hay@, needle@, 0);
    }
    find_from(&h, &n, 0).is_some()
}

/// The pieces of `s` between the separators `c`.
pub fn split_text(s: &str, c: char) -> (r: Vec<String>)
    ensures
        views(r@) == split_on(s@, c),
{
    let v = chars_of(s);
    let mut done: Vec<String> = Vec::new();
    let mut piece = String::new();
    let mut i: usize = 0;
    proof {
        assert(views(done@).push(piece@) =~= split_on(s@.take(0), c));
    }
    while i < v.len()
        invariant
            i <= v.len(),
            v@ == s@,
            views(done@).push(piece@) == split_on(s@.take(i as int), c),
        decreases v.len() - i,
    {
        let ch = v[i];
        let ghost head = s@.take(i as int);
        assert(s@.take(i + 1).drop_last() =~= head);
        assert(s@.take(i + 1).last() == ch);
        assert(split_on(head, c).last() == piece@);
        assert(split_on(head, c).drop_last() =~= views(done@));
        if ch == c {
            let ghost before = views(done@).push(piece@);
            done.push(piece);
            piece = String::new();
            assert(views(done@) =~= before);
        } else {
            piece.push(ch);
        }
        i = i + 1;
        assert(views(done@).push(piece@) =~= split_on(s@.take(i as int), c));
    }
    assert(s@.take(i as int) =~= s@);
    let ghost before = views(done@).push(piece@);
    done.push(piece);
    assert(views(done@) =~= before);
    done
}

/// The items with `sep` between each two.
pub fn join_text(items: &Vec<String>, sep: &str) -> (r: String)
    ensures
        r@ == join(views(items@), sep@),
{
    let mut r = String::new();
    let mut i: usize = 0;
    while i < items.len()
        invariant
            i <= items.len(),
            r@ == join(views(items@).take(i as int), sep@),
        decreases items.len() - i,
    {
        let ghost all = views(items@);
        assert(all.take(i + 1).drop_last() =~= all.take(i as int));
        if i > 0 {
            r.append(sep);
        }
        r.append(items[i].as_str());
        i = i + 1;
        assert(r@ =~= join(all.take(i as int), sep@));
    }
    assert(views(items@).take(i as int) =~= views(items@));
    r
}

/// Every occurrence of `pat` replaced by `rep`.
pub fn replace_text(s: &str, pat: &str, rep: &str) -> (r: String)
    requires
        pat@.len() > 0,
    ensures
        r@ == replaced(s@, pat@, rep@),
{
    let v = chars_of(s);
    let p = chars_of(pat);
    let mut r = String::new();
    let mut i: usize = 0;
    assert(v@.skip(0) =~= s@);
    assert(r@ + replaced(s@, pat@, rep@) =~= replaced(s@, pat@, rep@));
    while i < v.len()
        invariant
            i <= v.len(),
            v@ == s@,
            p@ == pat@,
            pat@.len() > 0,
            r@ + replaced(v@.skip(i as int), pat@, rep@) == replaced(s@, pat@, rep@),
        decreases v.len() - i,
    {
        let ghost rest = v@.skip(i as int);
        let ghost done = r@;
        if stands_at(&v, &p, i) {
            assert(rest.take(pat@.len() as int) =~= v@.subrange(i as int, i + pat@.len()));
            r.append(rep);
            i = i + p.len();
            assert(rest.skip(pat@.len() as int) =~= v@.skip(i as int));
            assert(r@ + replaced(v@.skip(i as int), pat@, rep@) =~= done + replaced(
                rest,
                pat@,
                rep@,
            ));
        } else {
            assert(rest.len() >= pat@.len() ==> rest.take(pat@.len() as int) =~= v@.subrange(
                i as int,
                i + pat@.len(),
            ));
            r.push(v[i]);
            i = i + 1;
            assert(rest.skip(1) =~= v@.skip(i as int));
            proof {
                if rest.len() < pat@.len() {
                    assert(rest =~= seq![rest[0]] + rest.skip(1));
                }
            }
            assert(r@ + replaced(v@.skip(i as int), pat@, rep@) =~= done + replaced(
                rest,
                pat@,
                rep@,
            ));
        }
    }
    assert(r@ + v@.skip(i as int) =~= r@);
    r
}

/// Append `s` and then spaces, so that at least `w` characters are added.
pub fn push_padded(out: &mut String, s: &str, w: usize)
    ensures
        final(out)@ == old(out)@ + padded(s@, w as nat),
{
    out.append(s);
    let len: usize = s.unicode_len();
    let mut i: usize = len;
    while i < w
        invariant
            len <= i,
            len == s@.len(),
            i == len || i <= w,
            out@ == old(out)@ + s@ + run(' ', (i - len) as nat),
        decreases w - i,
    {
        out.push(' ');
        i = i + 1;
        assert(out@ =~= old(out)@ + s@ + run(' ', (i - len) as nat));
    }
    assert(out@ =~= old(out)@ + padded(s@, w as nat));
}

// --- facts about the above ---------------------------------------------------------------

/// No capital among the first `n` characters.
pub open spec fn small_to(s: Seq<char>, n: nat) -> bool
    decreases n,
{
    n == 0 || small_to(s, (n - 1) as nat) && !('A' <= s[n - 1] <= 'Z')
}

/// A text without capitals is its own lower-case form.
pub proof fn lemma_lower_unchanged(s: Seq<char>)
    requires
        small_to(s, s.len()),
    ensures
        lower(s) == s,
{
    assert forall|i: int| 0 <= i < s.len() implies #[trigger] lower(s)[i] == s[i] by {
        lemma_small_at(s, s.len(), i);
    }
    assert(lower(s) =~= s);
}

proof fn lemma_small_at(s: Seq<char>, n: nat, i: int)
    requires
        small_to(s, n),
        0 <= i < n,
    ensures
        !('A' <= s[i] <= 'Z'),
    decreases n,
{
    if i < n - 1 {
        lemma_small_at(s, (n - 1) as nat, i);
    }
}

/// A text with no white space at its ends is its own trimmed form.
pub proof fn lemma_trim_unchanged(s: Seq<char>)
    requires
        s.len() > 0 ==> !is_space(s[0]) && !is_space(s.last()),
    ensures
        trim(s) == s,
{
}

/// Nothing but white space.
pub open spec fn blank(s: Seq<char>) -> bool {
    forall|i: int| 0 <= i < s.len() ==> is_space(#[trigger] s[i])
}

/// White space around a text that has none at its ends is trimmed away, and nothing else.
pub proof fn lemma_trim_around(before: Seq<char>, s: Seq<char>, after: Seq<char>)
    requires
        blank(before),
        blank(after),
        s.len() > 0,
        !is_space(s[0]),
        !is_space(s.last()),
    ensures
        trim(before + s + after) == s,
{
    lemma_strip_front(before, s + after);
    assert(before + s + after =~= before + (s + after));
    lemma_strip_back(s, after);
}

proof fn lemma_strip_front(before: Seq<char>, s: Seq<char>)
    requires
        blank(before),
        s.len() > 0,
        !is_space(s[0]),
    ensures
        strip_front(before + s, |c: char| is_space(c)) == s,
    decreases before.len(),
{
    if before.len() == 0 {
        assert(before + s =~= s);
    } else {
        let rest = before.skip(1);
        assert((before + s)[0] == before[0]);
        assert((before + s).skip(1) =~= rest + s);
        assert((before + s).drop_first() =~= rest + s);
        lemma_strip_front(rest, s);
    }
}

proof fn lemma_strip_back(s: Seq<char>, after: Seq<char>)
    requires
        blank(after),
        s.len() > 0,
        !is_space(s.last()),
    ensures
        strip_back(s + after, |c: char| is_space(c)) == s,
    decreases after.len(),
{
    if after.len() == 0 {
        assert(s + after =~= s);
    } else {
        let rest = after.drop_last();
        assert((s + after).last() == after.last());
        assert((s + after).drop_last() =~= s + rest);
        lemma_strip_back(s, rest);
    }
}

/// The two hexadecimal digits of a byte determine it.
pub proof fn lemma_hex_byte(a: u8, b: u8)
    requires
        hex(a as nat, 2) == hex(b as nat, 2),
    ensures
        a == b,
{
    lemma_hex_two(a);
    lemma_hex_two(b);
    assert(hex(a as nat, 2)[0] == hex(b as nat, 2)[0]);
    assert(hex(a as nat, 2)[1] == hex(b as nat, 2)[1]);
}

/// The digits of a byte, spelled out.
pub proof fn lemma_hex_two(a: u8)
    ensures
        hex(a as nat, 2) == seq![hex_digit(a as int / 16), hex_digit(a as int % 16)],
{
    reveal_with_fuel(hex, 3);
    assert(hex(a as nat, 2) =~= seq![hex_digit(a as int / 16), hex_digit(a as int % 16)]);
}

} // verus!
