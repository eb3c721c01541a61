//! The log: one line per event, stamped with the time in UTC.
//!
//! The elevated worker runs under Task Scheduler with no console and no window, so a log file is
//! its only diagnostics channel.
use vstd::prelude::*;
use vstd::string::*;

use crate::text;

verus! {

pub const MAX_BYTES: u64 = 1_000_000;

/// A year of 366 days.
pub open spec fn leap(y: int) -> bool {
    y % 4 == 0 && y % 100 != 0 || y % 400 == 0
}

/// The days of a month.
pub open spec fn month_len(y: int, m: int) -> int {
    if m == 2 {
        if leap(y) {
            29
        } else {
            28
        }
    } else if m == 4 || m == 6 || m == 9 || m == 11 {
        30
    } else {
        31
    }
}

/// The days of a year before a month begins.
pub open spec fn days_before_month(y: int, m: int) -> int
    decreases m,
{
    if m <= 1 {
        0
    } else {
        days_before_month(y, m - 1) + month_len(y, m - 1)
    }
}

/// A day that the calendar has.
pub open spec fn valid_date(y: int, m: int, d: int) -> bool {
    1 <= m <= 12 && 1 <= d <= month_len(y, m)
}

/// The number of a day, counted from 1970-01-01, which is day 0: 365 for every year before it and
/// one more for every leap year among them.
pub open spec fn day_number(y: int, m: int, d: int) -> int {
    365 * (y - 1970) + ((y - 1) / 4 - (y - 1) / 100 + (y - 1) / 400 - 477) + days_before_month(y, m)
        + (d - 1)
}

/// A moment on the calendar, in seconds from the start of 1970.
pub open spec fn unix_of(t: (i64, u32, u32, u32, u32, u32)) -> int {
    day_number(t.0 as int, t.1 as int, t.2 as int) * 86_400 + t.3 * 3600 + t.4 * 60 + t.5
}

/// A moment that the calendar and the clock have.
pub open spec fn valid_moment(t: (i64, u32, u32, u32, u32, u32)) -> bool {
    valid_date(t.0 as int, t.1 as int, t.2 as int) && t.3 < 24 && t.4 < 60 && t.5 < 60
}

proof fn lemma_year_of_era(doe: int, yoe: int)
    requires
        0 <= doe < 146_097,
        yoe == (doe - doe / 1460 + doe / 36_524 - doe / 146_096) / 365,
    ensures
        0 <= yoe < 400,
        0 <= doe - (365 * yoe + yoe / 4 - yoe / 100),
        doe - (365 * yoe + yoe / 4 - yoe / 100) <= 364 + (if leap(yoe + 1) {
            1int
        } else {
            0int
        }),
{
}

/// The first days of the months, spelled out.
proof fn lemma_month_starts(y: int)
    ensures
        ({
            let l = if leap(y) {
                1int
            } else {
                0int
            };
            &&& days_before_month(y, 1) == 0
            &&& days_before_month(y, 2) == 31
            &&& days_before_month(y, 3) == 59 + l
            &&& days_before_month(y, 4) == 90 + l
            &&& days_before_month(y, 5) == 120 + l
            &&& days_before_month(y, 6) == 151 + l
            &&& days_before_month(y, 7) == 181 + l
            &&& days_before_month(y, 8) == 212 + l
            &&& days_before_month(y, 9) == 243 + l
            &&& days_before_month(y, 10) == 273 + l
            &&& days_before_month(y, 11) == 304 + l
            &&& days_before_month(y, 12) == 334 + l
            &&& days_before_month(y, 13) == 365 + l
        }),
{
    reveal_with_fuel(days_before_month, 14);
}

/// An era of 400 years shifts the quotients of a year by whole numbers, and its leap years not at
/// all.
proof fn lemma_era(era: int, yoe: int)
    requires
        0 <= yoe < 400,
    ensures
        ({
            let year = yoe + era * 400;
            &&& year / 4 == yoe / 4 + 100 * era
            &&& year / 100 == yoe / 100 + 4 * era
            &&& year / 400 == era
            &&& leap(yoe + 1) == leap(year + 1)
        }),
{
}

/// A year counted from March: its days, in order, fall on the right dates.
#[verifier::spinoff_prover]
#[verifier::rlimit(60)]
proof fn lemma_march_year(era: int, yoe: int, doy: int, mp: int)
    requires
        0 <= yoe < 400,
        0 <= doy <= 364 + (if leap(yoe + 1) {
            1int
        } else {
            0int
        }),
        mp == (5 * doy + 2) / 153,
    ensures
        0 <= mp < 12,
        ({
            let year = yoe + era * 400;
            let m = if mp < 10 {
                mp + 3
            } else {
                mp - 9
            };
            let y = if m <= 2 {
                year + 1
            } else {
                year
            };
            let d = doy - (153 * mp + 2) / 5 + 1;
            &&& valid_date(y, m, d)
            &&& day_number(y, m, d) == era * 146_097 + (365 * yoe + yoe / 4 - yoe / 100) + doy
                - 719_468
        }),
{
    let year = yoe + era * 400;
    lemma_month_starts(year);
    lemma_month_starts(year + 1);
    lemma_era(era, yoe);
    assert(0 <= mp < 12);
    assert(mp == 0 || mp == 1 || mp == 2 || mp == 3 || mp == 4 || mp == 5 || mp == 6 || mp == 7 || mp
        == 8 || mp == 9 || mp == 10 || mp == 11);
    lemma_leap_days(year);
}

fn floor_days(secs: i64) -> (r: (i64, i64))
    ensures
        r.0 == secs as int / 86_400,
        r.1 == secs as int % 86_400,
{
    if secs >= 0 {
        (secs / 86_400, secs % 86_400)
    } else {
        let back: i64 = -(secs + 1);
        let days: i64 = -(back / 86_400) - 1;
        let rem: i64 = 86_399 - back % 86_400;
        assert(secs as int == days * 86_400 + rem);
        (days, rem)
    }
}

fn floor_eras(z: i64) -> (r: (i64, i64))
    requires
        -0x1000_0000_0000_0000 < z < 0x1000_0000_0000_0000,
    ensures
        r.0 == z as int / 146_097,
        r.1 == z as int % 146_097,
{
    if z >= 0 {
        (z / 146_097, z % 146_097)
    } else {
        let back: i64 = -(z + 1);
        let eras: i64 = -(back / 146_097) - 1;
        let rem: i64 = 146_096 - back % 146_097;
        assert(z as int == eras * 146_097 + rem);
        (eras, rem)
    }
}

/// The moment on the calendar that is `secs` seconds after the start of 1970, in UTC.
pub fn civil_from_unix(secs: i64) -> (t: (i64, u32, u32, u32, u32, u32))
    ensures
        valid_moment(t),
        unix_of(t) == secs,
{
    let (days, rem) = floor_days(secs);
    let z: i64 = days + 719_468;
    let (era, doe) = floor_eras(z);
    let yoe: i64 = (doe - doe / 1460 + doe / 36_524 - doe / 146_096) / 365;
    proof {
        lemma_year_of_era(doe as int, yoe as int);
    }
    let doy: i64 = doe - (365 * yoe + yoe / 4 - yoe / 100);
    let mp: i64 = (5 * doy + 2) / 153;
    proof {
        lemma_march_year(era as int, yoe as int, doy as int, mp as int);
    }
    let year: i64 = yoe + era * 400;
    let d: u32 = (doy - (153 * mp + 2) / 5 + 1) as u32;
    let m: u32 = (if mp < 10 {
        mp + 3
    } else {
        mp - 9
    }) as u32;
    let y: i64 = if m <= 2 {
        year + 1
    } else {
        year
    };
    let h: u32 = (rem / 3600) as u32;
    let mi: u32 = ((rem % 3600) / 60) as u32;
    let s: u32 = (rem % 60) as u32;
    assert(rem == h * 3600 + mi * 60 + s);
    (y, m, d, h, mi, s)
}

proof fn lemma_months_ordered(y: int, m1: int, m2: int)
    requires
        1 <= m1 < m2,
    ensures
        0 <= days_before_month(y, m1),
        days_before_month(y, m1) + month_len(y, m1) <= days_before_month(y, m2),
    decreases m2,
{
    if m1 + 1 < m2 {
        lemma_months_ordered(y, m1, m2 - 1);
    } else if m1 > 1 {
        lemma_months_ordered(y, m1 - 1, m1);
    }
}

/// The number of a year's first day.
spec fn year_start(y: int) -> int {
    365 * (y - 1970) + ((y - 1) / 4 - (y - 1) / 100 + (y - 1) / 400 - 477)
}

/// One in a leap year, else none.
spec fn leap_day(y: int) -> int {
    if leap(y) {
        1
    } else {
        0
    }
}

/// Dividing by `k` steps up exactly at the multiples of `k`.
proof fn lemma_quotient_step(y: int, k: int)
    requires
        k > 0,
    ensures
        y / k == (y - 1) / k + (if y % k == 0 {
            1int
        } else {
            0int
        }),
{
    let q = y / k;
    let r = y % k;
    vstd::arithmetic::div_mod::lemma_fundamental_div_mod(y, k);
    if r == 0 {
        assert(y - 1 == (q - 1) * k + (k - 1)) by (nonlinear_arith)
            requires
                y == k * q + r,
                r == 0,
        ;
        vstd::arithmetic::div_mod::lemma_fundamental_div_mod_converse(y - 1, k, q - 1, k - 1);
    } else {
        vstd::arithmetic::mul::lemma_mul_is_commutative(q, k);
        vstd::arithmetic::div_mod::lemma_fundamental_div_mod_converse(y - 1, k, q, r - 1);
    }
}

/// The count of leap years grows by one across a leap year and stays across any other.
proof fn lemma_leap_days(y: int)
    ensures
        y / 4 - y / 100 + y / 400 == (y - 1) / 4 - (y - 1) / 100 + (y - 1) / 400 + leap_day(y),
{
    lemma_quotient_step(y, 4);
    lemma_quotient_step(y, 100);
    lemma_quotient_step(y, 400);
}

proof fn lemma_year_end(y: int, m: int, d: int)
    requires
        valid_date(y, m, d),
    ensures
        year_start(y) <= day_number(y, m, d) < year_start(y + 1),
{
    lemma_months_ordered(y, m, 13);
    assert(days_before_month(y, 13) == 365 + leap_day(y)) by {
        lemma_month_starts(y);
    }
    lemma_leap_days(y);
}

proof fn lemma_years_ordered(y1: int, y2: int)
    requires
        y1 <= y2,
    ensures
        year_start(y1) <= year_start(y2),
    decreases y2 - y1,
{
    if y1 < y2 {
        lemma_years_ordered(y1, y2 - 1);
        lemma_year_end(y2 - 1, 1, 1);
    }
}

/// A later date has a later number.
proof fn lemma_day_number_orders(y1: int, m1: int, d1: int, y2: int, m2: int, d2: int)
    requires
        valid_date(y1, m1, d1),
        valid_date(y2, m2, d2),
        y1 < y2 || y1 == y2 && m1 < m2 || y1 == y2 && m1 == m2 && d1 < d2,
    ensures
        day_number(y1, m1, d1) < day_number(y2, m2, d2),
{
    if y1 < y2 {
        lemma_year_end(y1, m1, d1);
        lemma_years_ordered(y1 + 1, y2);
        lemma_year_end(y2, m2, d2);
    } else if m1 < m2 {
        lemma_months_ordered(y1, m1, m2);
    }
}

/// No second moment of the calendar has the same number of seconds: what [`civil_from_unix`]
/// returns is the only answer.
pub proof fn calendar_time_is_unique(
    a: (i64, u32, u32, u32, u32, u32),
    b: (i64, u32, u32, u32, u32, u32),
)
    requires
        valid_moment(a),
        valid_moment(b),
        unix_of(a) == unix_of(b),
    ensures
        a == b,
{
    let na = day_number(a.0 as int, a.1 as int, a.2 as int);
    let nb = day_number(b.0 as int, b.1 as int, b.2 as int);
    assert(na == nb);
    let before = a.0 < b.0 || a.0 == b.0 && a.1 < b.1 || a.0 == b.0 && a.1 == b.1 && a.2 < b.2;
    let after = b.0 < a.0 || b.0 == a.0 && b.1 < a.1 || b.0 == a.0 && b.1 == a.1 && b.2 < a.2;
    if before {
        lemma_day_number_orders(a.0 as int, a.1 as int, a.2 as int, b.0 as int, b.1 as int, b.2 as int);
    }
    if after {
        lemma_day_number_orders(b.0 as int, b.1 as int, b.2 as int, a.0 as int, a.1 as int, a.2 as int);
    }
}

/// The calendar runs on day by day from 1970-01-01, which is day 0: a day's number is one more than
/// that of the day before, within a month, from one month to the next and from one year to the
/// next. February has a twenty-ninth day every fourth year, but not in a year that ends a century,
/// unless 400 divides it.
pub proof fn a_day_follows_a_day(y: int, m: int, d: int)
    requires
        1 <= m <= 12,
    ensures
        day_number(1970, 1, 1) == 0,
        day_number(y, m, d + 1) == day_number(y, m, d) + 1,
        m == 1 || m == 3 || m == 5 || m == 7 || m == 8 || m == 10 ==> day_number(y, m + 1, 1)
            == day_number(y, m, 31) + 1,
        m == 4 || m == 6 || m == 9 || m == 11 ==> day_number(y, m + 1, 1) == day_number(y, m, 30)
            + 1,
        y % 400 == 0 || (y % 4 == 0 && y % 100 != 0) ==> day_number(y, 3, 1) == day_number(y, 2, 29)
            + 1,
        y % 4 != 0 || (y % 100 == 0 && y % 400 != 0) ==> day_number(y, 3, 1) == day_number(y, 2, 28)
            + 1,
        day_number(y + 1, 1, 1) == day_number(y, 12, 31) + 1,
        valid_date(y, m, d) ==> 1 <= d <= 31 && (m == 2 ==> d <= 29) && (m == 4 || m == 6 || m == 9
            || m == 11 ==> d <= 30),
{
    reveal_with_fuel(days_before_month, 3);
    lemma_month_starts(y);
    lemma_leap_days(y);
    assert(days_before_month(y, 13) == days_before_month(y, 12) + 31);
    assert(days_before_month(y, 13) == 365 + leap_day(y));
    assert(1969int / 4 - 1969int / 100 + 1969int / 400 == 477);
}

// --- lines -------------------------------------------------------------------------------

/// A year as it is stamped: at least four characters wide, a minus sign counted among them.
pub open spec fn year_stamp(y: int) -> Seq<char> {
    if y < 0 {
        seq!['-'] + text::dec_padded((-y) as nat, 3)
    } else {
        text::dec_padded(y as nat, 4)
    }
}

/// A moment as it is stamped: `1970-01-01T00:00:00Z`.
pub open spec fn stamp(t: (i64, u32, u32, u32, u32, u32)) -> Seq<char> {
    year_stamp(t.0 as int) + "-"@ + text::dec_padded(t.1 as nat, 2) + "-"@ + text::dec_padded(
        t.2 as nat,
        2,
    ) + "T"@ + text::dec_padded(t.3 as nat, 2) + ":"@ + text::dec_padded(t.4 as nat, 2) + ":"@
        + text::dec_padded(t.5 as nat, 2) + "Z"@
}

/// Seconds counted as a signed number, as the clock arithmetic takes them.
pub open spec fn signed_seconds(secs: u64) -> int {
    if secs < 0x8000_0000_0000_0000 {
        secs as int
    } else {
        secs - 0x1_0000_0000_0000_0000
    }
}

/// Seconds since the Unix epoch, formatted as a UTC calendar time.
pub fn timestamp(secs: u64) -> (r: String)
    ensures
        exists|t: (i64, u32, u32, u32, u32, u32)| #[trigger]
            valid_moment(t) && unix_of(t) == signed_seconds(secs) && r@ == stamp(t),
{
    let signed: i64 = if secs < 0x8000_0000_0000_0000 {
        secs as i64
    } else {
        (secs - 0x8000_0000_0000_0000) as i64 + i64::MIN
    };
    let t = civil_from_unix(signed);
    let (y, mo, d, h, mi, s) = t;
    let mut r = String::new();
    if y < 0 {
        r.push('-');
        let magnitude: u64 = (-(y + 1)) as u64 + 1;
        text::push_dec_padded(&mut r, magnitude, 3);
    } else {
        text::push_dec_padded(&mut r, y as u64, 4);
    }
    assert(r@ =~= year_stamp(y as int));
    r.append("-");
    text::push_dec_padded(&mut r, mo as u64, 2);
    r.append("-");
    text::push_dec_padded(&mut r, d as u64, 2);
    r.append("T");
    text::push_dec_padded(&mut r, h as u64, 2);
    r.append(":");
    text::push_dec_padded(&mut r, mi as u64, 2);
    r.append(":");
    text::push_dec_padded(&mut r, s as u64, 2);
    r.append("Z");
    assert(r@ == stamp(t));
    r
}

/// One line of the log file, without its line end.
pub fn line(stamp: &str, msg: &str) -> (r: String)
    ensures
        r@ == stamp@ + " "@ + msg@,
{
    let mut r = stamp.to_owned();
    r.append(" ");
    r.append(msg);
    r
}

/// The line that opens a run: which version in which role, and which process.
pub fn init(version: &str, role: &str, pid: u32) -> (r: String)
    ensures
        r@ == "--- linkswitch "@ + version@ + " start (role="@ + role@ + ", pid="@ + text::dec(
            pid as nat,
        ) + ") ---"@,
{
    let mut r = "--- linkswitch ".to_owned();
    r.append(version);
    r.append(" start (role=");
    r.append(role);
    r.append(", pid=");
    text::push_dec(&mut r, pid as u64);
    r.append(") ---");
    r
}

/// Is a log file of this many bytes set aside before more is written?
pub fn rotate_if_large(bytes: u64) -> (r: bool)
    ensures
        r == (bytes > MAX_BYTES),
{
    bytes > MAX_BYTES
}

} // verus!
