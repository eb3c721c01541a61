//! Text as Windows hands it over: UTF-16 units, and bytes that are meant to be UTF-8.
use vstd::prelude::*;
use vstd::string::*;
use vstd::utf8::*;

use crate::text;

verus! {

/// `char::from_u32` of the standard library: the character with that number, and nothing for a
/// number that is a surrogate or lies above the last character.
pub assume_specification[ char::from_u32 ](i: u32) -> (r: Option<char>)
    ensures
        i < 0xd800 || 0xe000 <= i <= 0x10ffff ==> r == Some(i as char),
        0xd800 <= i < 0xe000 || i > 0x10ffff ==> r is None,
;

/// What stands in a text where its encoding could not be read.
pub open spec fn replacement() -> char {
    '\u{fffd}'
}

/// The UTF-16 units of one character.
pub open spec fn utf16_units(c: char) -> Seq<u16> {
    let n = c as int;
    if n < 0x10000 {
        seq![n as u16]
    } else {
        seq![(0xd800 + (n - 0x10000) / 0x400) as u16, (0xdc00 + (n - 0x10000) % 0x400) as u16]
    }
}

/// A text in UTF-16.
pub open spec fn utf16(s: Seq<char>) -> Seq<u16>
    decreases s.len(),
{
    if s.len() == 0 {
        Seq::empty()
    } else {
        utf16(s.drop_last()) + utf16_units(s.last())
    }
}

pub open spec fn is_high(u: u16) -> bool {
    0xd800 <= u < 0xdc00
}

pub open spec fn is_low(u: u16) -> bool {
    0xdc00 <= u < 0xe000
}

/// The character that a pair of surrogates stands for.
pub open spec fn paired(high: u16, low: u16) -> char {
    (0x10000 + (high - 0xd800) * 0x400 + (low - 0xdc00)) as char
}

/// The text that UTF-16 units spell, with a replacement character for every surrogate that has
/// no partner.
pub open spec fn utf16_text(u: Seq<u16>) -> Seq<char>
    decreases u.len(),
{
    if u.len() == 0 {
        Seq::empty()
    } else if !is_high(u[0]) && !is_low(u[0]) {
        seq![u[0] as char] + utf16_text(u.skip(1))
    } else if is_high(u[0]) && u.len() > 1 && is_low(u[1]) {
        seq![paired(u[0], u[1])] + utf16_text(u.skip(2))
    } else {
        seq![replacement()] + utf16_text(u.skip(1))
    }
}

/// The units before the first NUL, or all of them when there is none.
pub open spec fn before_nul(u: Seq<u16>) -> Seq<u16>
    decreases u.len(),
{
    if u.len() == 0 || u[0] == 0 {
        Seq::empty()
    } else {
        seq![u[0]] + before_nul(u.skip(1))
    }
}

fn push_units(r: &mut Vec<u16>, c: char)
    ensures
        final(r)@ == old(r)@ + utf16_units(c),
{
    let n: u32 = c as u32;
    if n < 0x10000 {
        r.push(n as u16);
    } else {
        let m: u32 = n - 0x10000;
        r.push((0xd800 + m / 0x400) as u16);
        r.push((0xdc00 + m % 0x400) as u16);
    }
    assert(r@ =~= old(r)@ + utf16_units(c));
}

/// A text in UTF-16 with a NUL after it, as Windows takes it.
pub fn wide(s: &str) -> (r: Vec<u16>)
    ensures
        r@ == utf16(s@).push(0),
{
    let v = text::chars_of(s);
    let mut r: Vec<u16> = Vec::new();
    let mut i: usize = 0;
    while i < v.len()
        invariant
            i <= v.len(),
            v@ == s@,
            r@ == utf16(s@.take(i as int)),
        decreases v.len() - i,
    {
        push_units(&mut r, v[i]);
        assert(s@.take(i + 1).drop_last() =~= s@.take(i as int));
        i = i + 1;
        assert(r@ =~= utf16(s@.take(i as int)));
    }
    assert(s@.take(i as int) =~= s@);
    r.push(0);
    r
}

fn char_of(n: u32) -> (c: char)
    requires
        n < 0xd800 || 0xe000 <= n <= 0x10ffff,
    ensures
        c == n as char,
{
    match char::from_u32(n) {
        Some(c) => c,
        None => '\u{fffd}',
    }
}

/// The text in a UTF-16 buffer, up to the first NUL.
pub fn utf16_to_string(buf: &[u16]) -> (r: String)
    ensures
        r@ == utf16_text(before_nul(buf@)),
{
    let mut end: usize = 0;
    assert(buf@.skip(0) =~= buf@);
    assert(Seq::<u16>::empty() + before_nul(buf@) =~= before_nul(buf@));
    assert(buf@.take(0) =~= Seq::<u16>::empty());
    while end < buf.len() && buf[end] != 0
        invariant
            end <= buf@.len(),
            before_nul(buf@) == buf@.take(end as int) + before_nul(buf@.skip(end as int)),
        decreases buf@.len() - end,
    {
        let ghost rest = buf@.skip(end as int);
        assert(rest.skip(1) =~= buf@.skip(end + 1));
        assert(buf@.take(end as int) + (seq![rest[0]] + before_nul(rest.skip(1))) =~= buf@.take(
            end + 1,
        ) + before_nul(buf@.skip(end + 1)));
        end = end + 1;
    }
    let ghost units = buf@.take(end as int);
    assert(units + Seq::<u16>::empty() =~= units);
    let mut r = String::new();
    let mut i: usize = 0;
    assert(units.skip(0) =~= units);
    assert(r@ + utf16_text(units) =~= utf16_text(units));
    while i < end
        invariant
            i <= end <= buf@.len(),
            units == buf@.take(end as int),
            r@ + utf16_text(units.skip(i as int)) == utf16_text(units),
        decreases end - i,
    {
        let ghost rest = units.skip(i as int);
        let ghost done = r@;
        let u: u16 = buf[i];
        if u < 0xd800 || u >= 0xe000 {
            r.push(char_of(u as u32));
            i = i + 1;
            assert(rest.skip(1) =~= units.skip(i as int));
        } else if u < 0xdc00 && i + 1 < end && 0xdc00 <= buf[i + 1] && buf[i + 1] < 0xe000 {
            let low: u16 = buf[i + 1];
            let n: u32 = 0x10000 + (u as u32 - 0xd800) * 0x400 + (low as u32 - 0xdc00);
            r.push(char_of(n));
            i = i + 2;
            assert(rest.skip(2) =~= units.skip(i as int));
        } else {
            r.push('\u{fffd}');
            i = i + 1;
            assert(rest.skip(1) =~= units.skip(i as int));
        }
        assert(r@ + utf16_text(units.skip(i as int)) =~= done + utf16_text(rest));
    }
    assert(r@ + utf16_text(units.skip(i as int)) =~= r@);
    r
}

proof fn lemma_units_front(c: char, rest: Seq<u16>)
    ensures
        utf16_text(utf16_units(c) + rest) == seq![c] + utf16_text(rest),
        forall|k: int| 0 <= k < utf16_units(c).len() && c != '\0' ==> utf16_units(c)[k] != 0,
{
    let u = utf16_units(c) + rest;
    if (c as int) < 0x10000 {
        assert(u.skip(1) =~= rest);
    } else {
        assert(u.skip(2) =~= rest);
    }
}

proof fn lemma_utf16_push_front(c: char, s: Seq<char>)
    ensures
        utf16(seq![c] + s) == utf16_units(c) + utf16(s),
    decreases s.len(),
{
    if s.len() == 0 {
        assert((seq![c] + s).drop_last() =~= s);
        assert(utf16(seq![c] + s) =~= utf16_units(c) + utf16(s));
    } else {
        assert((seq![c] + s).drop_last() =~= seq![c] + s.drop_last());
        lemma_utf16_push_front(c, s.drop_last());
        assert(utf16(seq![c] + s) =~= utf16_units(c) + utf16(s));
    }
}

proof fn lemma_before_nul(u: Seq<u16>)
    requires
        forall|k: int| 0 <= k < u.len() ==> #[trigger] u[k] != 0,
    ensures
        before_nul(u.push(0)) == u,
    decreases u.len(),
{
    if u.len() > 0 {
        assert(u.push(0).skip(1) =~= u.skip(1).push(0));
        lemma_before_nul(u.skip(1));
        assert(seq![u[0]] + u.skip(1) =~= u);
    }
}

proof fn lemma_utf16_round_trip(s: Seq<char>)
    ensures
        utf16_text(utf16(s)) == s,
        (forall|i: int| 0 <= i < s.len() ==> #[trigger] s[i] != '\0') ==> (forall|k: int|
            0 <= k < utf16(s).len() ==> #[trigger] utf16(s)[k] != 0),
    decreases s.len(),
{
    if s.len() > 0 {
        let rest = s.skip(1);
        assert(seq![s[0]] + rest =~= s);
        lemma_utf16_push_front(s[0], rest);
        lemma_units_front(s[0], utf16(rest));
        lemma_utf16_round_trip(rest);
        if forall|i: int| 0 <= i < s.len() ==> #[trigger] s[i] != '\0' {
            assert forall|i: int| 0 <= i < rest.len() implies #[trigger] rest[i] != '\0' by {
                assert(rest[i] == s[i + 1]);
            }
            assert(s[0] != '\0');
        }
    }
}

/// A text without a NUL comes back unchanged from its wide form.
pub proof fn wide_text_reads_back(s: Seq<char>)
    requires
        forall|i: int| 0 <= i < s.len() ==> #[trigger] s[i] != '\0',
    ensures
        utf16_text(before_nul(utf16(s).push(0))) == s,
{
    lemma_utf16_round_trip(s);
    lemma_before_nul(utf16(s));
}

/// What `String::from_utf8_lossy` makes of some bytes.
pub uninterp spec fn utf8_lossy(bytes: Seq<u8>) -> Seq<char>;

/// `String::from_utf8_lossy` of the standard library: bytes that are UTF-8 give the text they
/// spell, and what cannot be read becomes replacement characters. How many of them, and where, is
/// left to the name.
#[verifier::external_body]
pub(crate) fn utf8_to_string(bytes: &[u8]) -> (r: String)
    ensures
        r@ == utf8_lossy(bytes@),
        valid_utf8(bytes@) ==> encode_utf8(r@) == bytes@,
{
    String::from_utf8_lossy(bytes).into_owned()
}

} // verus!
