//! Adapter GUIDs, as numbers and as text.
use vstd::prelude::*;
use vstd::string::*;

use crate::text;

verus! {

#[derive(Debug, Clone, Copy, PartialEq, Eq)]
pub struct Guid {
    pub data1: u32,
    pub data2: u16,
    pub data3: u16,
    pub data4: [u8; 8],
}

/// A GUID as plain values.
#[verifier::ext_equal]
pub struct GuidView {
    pub data1: u32,
    pub data2: u16,
    pub data3: u16,
    pub data4: Seq<u8>,
}

impl View for Guid {
    type V = GuidView;

    open spec fn view(&self) -> GuidView {
        GuidView {
            data1: self.data1,
            data2: self.data2,
            data3: self.data3,
            data4: self.data4@,
        }
    }
}

/// Byte number `i` of the last eight bytes of a 128-bit number, most significant first.
pub open spec fn low_byte(v: u128, i: int) -> u8 {
    (v as int / vstd::arithmetic::power::pow(256, (7 - i) as nat) % 256) as u8
}

impl Guid {
    pub fn from_values(data1: u32, data2: u16, data3: u16, data4: [u8; 8]) -> (r: Guid)
        ensures
            r@ == (GuidView { data1, data2, data3, data4: data4@ }),
    {
        Guid { data1, data2, data3, data4 }
    }

    /// The GUID whose 32 hexadecimal digits, in order, are those of the number.
    pub fn from_u128(v: u128) -> (r: Guid)
        ensures
            r.data1 == v / 0x1_0000_0000_0000_0000_0000_0000,
            r.data2 == v / 0x1_0000_0000_0000_0000_0000 % 0x1_0000,
            r.data3 == v / 0x1_0000_0000_0000_0000 % 0x1_0000,
            r.data4@ == Seq::new(8, |i: int| low_byte(v, i)),
    {
        proof {
            reveal_with_fuel(vstd::arithmetic::power::pow, 9);
        }
        let data4: [u8; 8] = [
            (v / 0x100_0000_0000_0000 % 256) as u8,
            (v / 0x1_0000_0000_0000 % 256) as u8,
            (v / 0x100_0000_0000 % 256) as u8,
            (v / 0x1_0000_0000 % 256) as u8,
            (v / 0x100_0000 % 256) as u8,
            (v / 0x1_0000 % 256) as u8,
            (v / 0x100 % 256) as u8,
            (v % 256) as u8,
        ];
        assert(data4@ =~= Seq::new(8, |i: int| low_byte(v, i)));
        Guid {
            data1: (v / 0x1_0000_0000_0000_0000_0000_0000) as u32,
            data2: (v / 0x1_0000_0000_0000_0000_0000 % 0x1_0000) as u16,
            data3: (v / 0x1_0000_0000_0000_0000 % 0x1_0000) as u16,
            data4,
        }
    }
}

// --- numbers in hexadecimal --------------------------------------------------------------

/// The value of a hexadecimal digit of either case.
pub open spec fn digit_value(c: char) -> Option<nat> {
    if '0' <= c <= '9' {
        Some((c as int - '0' as int) as nat)
    } else if 'a' <= c <= 'f' {
        Some((c as int - 'a' as int + 10) as nat)
    } else if 'A' <= c <= 'F' {
        Some((c as int - 'A' as int + 10) as nat)
    } else {
        None
    }
}

/// The number that a non-empty run of hexadecimal digits spells.
pub open spec fn digits_value(s: Seq<char>) -> Option<nat>
    decreases s.len(),
{
    if s.len() == 0 {
        None
    } else {
        match digit_value(s.last()) {
            None => None,
            Some(d) => if s.len() == 1 {
                Some(d)
            } else {
                match digits_value(s.drop_last()) {
                    None => None,
                    Some(n) => Some(n * 16 + d),
                }
            },
        }
    }
}

/// The number that a text spells in hexadecimal. As everywhere where the standard integer parser
/// is at work, one plus sign may stand before the digits.
pub open spec fn hex_value(s: Seq<char>) -> Option<nat> {
    if s.len() > 1 && s[0] == '+' {
        digits_value(s.skip(1))
    } else {
        digits_value(s)
    }
}

fn value_of(c: char) -> (r: Option<u32>)
    ensures
        match r {
            Some(d) => digit_value(c) == Some(d as nat) && d < 16,
            None => digit_value(c) is None,
        },
{
    if '0' <= c && c <= '9' {
        Some(c as u32 - 48)
    } else if 'a' <= c && c <= 'f' {
        Some(c as u32 - 87)
    } else if 'A' <= c && c <= 'F' {
        Some(c as u32 - 55)
    } else {
        None
    }
}

/// A bound that grows with the number of digits.
spec fn room(n: nat) -> nat
    decreases n,
{
    if n == 0 {
        1
    } else {
        16 * room((n - 1) as nat)
    }
}

proof fn lemma_room_grows(m: nat, n: nat)
    requires
        m <= n,
    ensures
        room(m) <= room(n),
    decreases n,
{
    if m < n {
        lemma_room_grows(m, (n - 1) as nat);
    }
}

proof fn lemma_bad_digit(s: Seq<char>, i: int)
    requires
        0 <= i < s.len(),
        digit_value(s[i]) is None,
    ensures
        digits_value(s) is None,
    decreases s.len(),
{
    if i < s.len() - 1 {
        lemma_bad_digit(s.drop_last(), i);
    }
}

/// Read `v[from..to]` as hexadecimal.
fn read_hex(v: &Vec<char>, from: usize, to: usize) -> (r: Option<u32>)
    requires
        from <= to <= v@.len(),
        to - from <= 8,
    ensures
        match r {
            Some(n) => hex_value(v@.subrange(from as int, to as int)) == Some(n as nat) && n < room(
                (to - from) as nat,
            ),
            None => hex_value(v@.subrange(from as int, to as int)) is None,
        },
{
    let ghost whole = v@.subrange(from as int, to as int);
    let mut start: usize = from;
    if to - from > 1 && v[from] == '+' {
        start = from + 1;
        assert(whole.skip(1) =~= v@.subrange(start as int, to as int));
    }
    let ghost digits = v@.subrange(start as int, to as int);
    assert(hex_value(whole) == digits_value(digits));
    if start == to {
        return None;
    }
    proof {
        reveal_with_fuel(room, 9);
        assert(room(8) == 0x1_0000_0000);
    }
    let mut n: u32 = 0;
    let mut i: usize = start;
    while i < to
        invariant
            from <= start <= i <= to <= v@.len(),
            start <= from + 1,
            to - from <= 8,
            digits == v@.subrange(start as int, to as int),
            hex_value(v@.subrange(from as int, to as int)) == digits_value(digits),
            i == start ==> n == 0,
            i > start ==> digits_value(digits.take(i - start)) == Some(n as nat),
            n < room((i - start) as nat),
            room(8) == 0x1_0000_0000,
        decreases to - i,
    {
        assert(digits.take(i + 1 - start).drop_last() =~= digits.take(i - start));
        assert(digits.take(i + 1 - start).last() == v@[i as int]);
        match value_of(v[i]) {
            None => {
                proof {
                    assert(digits[i - start] == v@[i as int]);
                    lemma_bad_digit(digits, i - start);
                }
                return None;
            },
            Some(d) => {
                proof {
                    lemma_room_grows((i + 1 - start) as nat, 8);
                }
                n = n * 16 + d;
            },
        }
        i = i + 1;
    }
    assert(digits.take(i - start) =~= digits);
    proof {
        lemma_room_grows((to - start) as nat, (to - from) as nat);
    }
    Some(n)
}

// --- a GUID as text ----------------------------------------------------------------------

/// The text without the white space and the braces around it.
pub open spec fn bare(s: Seq<char>) -> Seq<char> {
    text::strip_back(
        text::strip_front(text::trim(s), |x: char| x == '{'),
        |x: char| x == '}',
    )
}

/// The last eight bytes, from the sixteen digits of the last two groups.
pub open spec fn tail_bytes(tail: Seq<char>) -> Option<Seq<u8>> {
    if forall|i: int| 0 <= i < 8 ==> hex_value(#[trigger] tail.subrange(2 * i, 2 * i + 2)) is Some {
        Some(Seq::new(8, |i: int| (hex_value(tail.subrange(2 * i, 2 * i + 2))->0) as u8))
    } else {
        None
    }
}

/// The GUID that a text spells: five groups of 8, 4, 4, 4 and 12 hexadecimal digits with hyphens
/// between them, in braces or not.
pub open spec fn guid_in(s: Seq<char>) -> Option<GuidView> {
    let parts = text::split_on(bare(s), '-');
    if parts.len() != 5 || parts[0].len() != 8 || parts[1].len() != 4 || parts[2].len() != 4
        || parts[3].len() != 4 || parts[4].len() != 12 {
        None
    } else {
        match (
            hex_value(parts[0]),
            hex_value(parts[1]),
            hex_value(parts[2]),
            tail_bytes(parts[3] + parts[4]),
        ) {
            (Some(d1), Some(d2), Some(d3), Some(d4)) => Some(
                GuidView { data1: d1 as u32, data2: d2 as u16, data3: d3 as u16, data4: d4 },
            ),
            _ => None,
        }
    }
}

fn read_tail(tail: &Vec<char>) -> (r: Option<[u8; 8]>)
    requires
        tail@.len() == 16,
    ensures
        match r {
            Some(d) => tail_bytes(tail@) == Some(d@),
            None => tail_bytes(tail@) is None,
        },
{
    let mut d: [u8; 8] = [0, 0, 0, 0, 0, 0, 0, 0];
    let mut i: usize = 0;
    proof {
        reveal_with_fuel(room, 3);
    }
    while i < 8
        invariant
            i <= 8,
            tail@.len() == 16,
            d@.len() == 8,
            room(2) == 256,
            forall|k: int|
                0 <= k < i ==> {
                    &&& hex_value(#[trigger] tail@.subrange(2 * k, 2 * k + 2)) is Some
                    &&& d@[k] == (hex_value(tail@.subrange(2 * k, 2 * k + 2))->0) as u8
                },
        decreases 8 - i,
    {
        match read_hex(tail, 2 * i, 2 * i + 2) {
            None => {
                return None;
            },
            Some(n) => {
                d[i] = n as u8;
            },
        }
        i = i + 1;
    }
    assert(d@ =~= Seq::new(8, |k: int| (hex_value(tail@.subrange(2 * k, 2 * k + 2))->0) as u8));
    Some(d)
}

/// Parse `{XXXXXXXX-XXXX-XXXX-XXXX-XXXXXXXXXXXX}` as it appears among the names of an adapter.
pub fn parse_guid(s: &str) -> (r: Option<Guid>)
    ensures
        match r {
            Some(g) => guid_in(s@) == Some(g@),
            None => guid_in(s@) is None,
        },
{
    let t = text::trim_text(s);
    let t = text::strip_front_of(t.as_str(), '{');
    let t = text::strip_back_of(t.as_str(), '}');
    let parts = text::split_text(t.as_str(), '-');
    let ghost views = text::views(parts@);
    assert(views == text::split_on(bare(s@), '-'));
    if parts.len() != 5 {
        return None;
    }
    let p0 = text::chars_of(parts[0].as_str());
    let p1 = text::chars_of(parts[1].as_str());
    let p2 = text::chars_of(parts[2].as_str());
    let p3 = text::chars_of(parts[3].as_str());
    let mut p4 = text::chars_of(parts[4].as_str());
    assert(p0@ == views[0] && p1@ == views[1] && p2@ == views[2] && p3@ == views[3] && p4@
        == views[4]);
    if p0.len() != 8 || p1.len() != 4 || p2.len() != 4 || p3.len() != 4 || p4.len() != 12 {
        return None;
    }
    proof {
        reveal_with_fuel(room, 9);
        assert(p0@.subrange(0, 8) =~= p0@);
        assert(p1@.subrange(0, 4) =~= p1@);
        assert(p2@.subrange(0, 4) =~= p2@);
    }
    let d1: u32 = match read_hex(&p0, 0, 8) {
        Some(n) => n,
        None => {
            return None;
        },
    };
    let d2: u32 = match read_hex(&p1, 0, 4) {
        Some(n) => n,
        None => {
            return None;
        },
    };
    let d3: u32 = match read_hex(&p2, 0, 4) {
        Some(n) => n,
        None => {
            return None;
        },
    };
    let mut tail = p3;
    tail.append(&mut p4);
    match read_tail(&tail) {
        Some(d4) => Some(Guid::from_values(d1, d2 as u16, d3 as u16, d4)),
        None => None,
    }
}

// --- what is written is read back --------------------------------------------------------

/// A GUID as text, without braces.
pub open spec fn guid_text(g: GuidView) -> Seq<char> {
    text::hex(g.data1 as nat, 8) + "-"@ + text::hex(g.data2 as nat, 4) + "-"@ + text::hex(
        g.data3 as nat,
        4,
    ) + "-"@ + pairs(g.data4, 0, 2) + "-"@ + pairs(g.data4, 2, 8)
}

/// The bytes from `i` up to `j`, each as two hexadecimal digits.
pub open spec fn pairs(d: Seq<u8>, i: int, j: int) -> Seq<char>
    decreases j - i,
{
    if j <= i {
        Seq::empty()
    } else {
        pairs(d, i, j - 1) + text::hex(d[j - 1] as nat, 2)
    }
}

/// Nothing but lower-case hexadecimal digits.
spec fn all_hex(s: Seq<char>) -> bool {
    forall|i: int| 0 <= i < s.len() ==> ('0' <= (#[trigger] s[i]) <= '9') || ('a' <= s[i] <= 'f')
}

proof fn lemma_hex_reads_back(n: nat, w: nat)
    requires
        0 < w,
        n < room(w),
    ensures
        text::hex(n, w).len() == w,
        all_hex(text::hex(n, w)),
        digits_value(text::hex(n, w)) == Some(n),
        hex_value(text::hex(n, w)) == Some(n),
    decreases w,
{
    let s = text::hex(n, w);
    if w > 1 {
        assert(n / 16 < room((w - 1) as nat)) by {
            assert(n < 16 * room((w - 1) as nat));
        }
        lemma_hex_reads_back(n / 16, (w - 1) as nat);
        assert(s.drop_last() =~= text::hex(n / 16, (w - 1) as nat));
    } else {
        assert(text::hex(n / 16, 0) =~= Seq::empty());
        assert(n < 16) by {
            reveal_with_fuel(room, 2);
        }
    }
    assert(s.last() == text::hex_digit((n % 16) as int));
    assert(digit_value(text::hex_digit((n % 16) as int)) == Some(n % 16));
}

proof fn lemma_no_separator(s: Seq<char>, c: char)
    requires
        forall|i: int| 0 <= i < s.len() ==> #[trigger] s[i] != c,
    ensures
        text::split_on(s, c) == seq![s],
    decreases s.len(),
{
    if s.len() > 0 {
        lemma_no_separator(s.drop_last(), c);
        let head = text::split_on(s.drop_last(), c);
        assert(s.drop_last().push(s.last()) =~= s);
        assert(text::split_on(s, c) =~= seq![s]);
    } else {
        assert(s =~= Seq::empty());
    }
}

proof fn lemma_split_last(a: Seq<char>, b: Seq<char>, c: char)
    requires
        forall|i: int| 0 <= i < b.len() ==> #[trigger] b[i] != c,
    ensures
        text::split_on(a.push(c) + b, c) == text::split_on(a, c).push(b),
    decreases b.len(),
{
    if b.len() == 0 {
        assert(a.push(c) + b =~= a.push(c));
        assert(a.push(c).drop_last() =~= a);
        assert(b =~= Seq::empty());
    } else {
        let s = a.push(c) + b;
        assert(s.drop_last() =~= a.push(c) + b.drop_last());
        lemma_split_last(a, b.drop_last(), c);
        assert(s.last() == b.last());
        assert(b.drop_last().push(b.last()) =~= b);
        let head = text::split_on(a, c).push(b.drop_last());
        assert(head.drop_last() =~= text::split_on(a, c));
        assert(text::split_on(s, c) =~= text::split_on(a, c).push(b));
    }
}

proof fn lemma_pairs(d: Seq<u8>, i: int, j: int)
    requires
        0 <= i <= j <= d.len(),
    ensures
        pairs(d, i, j).len() == 2 * (j - i),
        all_hex(pairs(d, i, j)),
        forall|k: int|
            i <= k < j ==> #[trigger] pairs(d, i, j).subrange(2 * (k - i), 2 * (k - i) + 2)
                == text::hex(d[k] as nat, 2),
    decreases j - i,
{
    if i < j {
        reveal_with_fuel(room, 3);
        lemma_pairs(d, i, j - 1);
        lemma_hex_reads_back(d[j - 1] as nat, 2);
        let whole = pairs(d, i, j);
        let head = pairs(d, i, j - 1);
        assert forall|k: int| i <= k < j implies #[trigger] whole.subrange(
            2 * (k - i),
            2 * (k - i) + 2,
        ) == text::hex(d[k] as nat, 2) by {
            if k < j - 1 {
                assert(whole.subrange(2 * (k - i), 2 * (k - i) + 2) =~= head.subrange(
                    2 * (k - i),
                    2 * (k - i) + 2,
                ));
            } else {
                assert(whole.subrange(2 * (k - i), 2 * (k - i) + 2) =~= text::hex(d[k] as nat, 2));
            }
        }
    }
}

/// A GUID written out is read back as the same GUID, in braces and without.
pub proof fn guid_text_parses_back(g: GuidView)
    requires
        g.data4.len() == 8,
    ensures
        guid_in(guid_text(g)) == Some(g),
        guid_in(seq!['{'] + guid_text(g) + seq!['}']) == Some(g),
{
    reveal_strlit("-");
    reveal_with_fuel(room, 9);
    let a = text::hex(g.data1 as nat, 8);
    let b = text::hex(g.data2 as nat, 4);
    let c = text::hex(g.data3 as nat, 4);
    let d = pairs(g.data4, 0, 2);
    let e = pairs(g.data4, 2, 8);
    lemma_hex_reads_back(g.data1 as nat, 8);
    lemma_hex_reads_back(g.data2 as nat, 4);
    lemma_hex_reads_back(g.data3 as nat, 4);
    lemma_pairs(g.data4, 0, 2);
    lemma_pairs(g.data4, 2, 8);
    let s1 = a.push('-') + b;
    let s2 = s1.push('-') + c;
    let s3 = s2.push('-') + d;
    let s4 = s3.push('-') + e;
    assert(guid_text(g) =~= s4);
    lemma_no_separator(a, '-');
    lemma_split_last(a, b, '-');
    lemma_split_last(s1, c, '-');
    lemma_split_last(s2, d, '-');
    lemma_split_last(s3, e, '-');
    let parts = text::split_on(s4, '-');
    assert(parts =~= seq![a, b, c, d, e]);

    let tail = d + e;
    assert forall|i: int| 0 <= i < 8 implies #[trigger] tail.subrange(2 * i, 2 * i + 2)
        == text::hex(g.data4[i] as nat, 2) by {
        if i < 2 {
            assert(tail.subrange(2 * i, 2 * i + 2) =~= d.subrange(2 * (i - 0), 2 * (i - 0) + 2));
        } else {
            assert(tail.subrange(2 * i, 2 * i + 2) =~= e.subrange(2 * (i - 2), 2 * (i - 2) + 2));
        }
    }
    assert forall|i: int| 0 <= i < 8 implies hex_value(
        #[trigger] tail.subrange(2 * i, 2 * i + 2),
    ) == Some(g.data4[i] as nat) by {
        lemma_hex_reads_back(g.data4[i] as nat, 2);
    }
    assert(tail_bytes(tail)->0 =~= g.data4);

    let plain = s4;
    let braced = seq!['{'] + s4 + seq!['}'];
    assert(plain[0] == a[0]);
    assert(plain.last() == e.last());
    assert(bare(plain) == plain);
    text::lemma_trim_unchanged(braced);
    assert(braced.drop_first() =~= s4.push('}'));
    assert(s4.push('}').drop_last() =~= s4);
    let open = |x: char| x == '{';
    let close = |x: char| x == '}';
    assert(text::strip_front(s4.push('}'), open) == s4.push('}'));
    assert(text::strip_front(braced, open) == s4.push('}'));
    assert(text::strip_back(s4, close) == s4);
    assert(text::strip_back(s4.push('}'), close) == s4);
    assert(bare(braced) == plain);
}

} // verus!
