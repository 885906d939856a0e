//! Gregorian calendar arithmetic and the ISO 8601 timestamp of the global theme state.
use vstd::prelude::*;

use crate::text::string_of;

verus! {

/// A leap year of the Gregorian calendar.
pub open spec fn is_leap_year(y: int) -> bool {
    (y % 4 == 0 && y % 100 != 0) || y % 400 == 0
}

/// Days in year `y`.
pub open spec fn year_len(y: int) -> int {
    if is_leap_year(y) {
        366
    } else {
        365
    }
}

/// Days from 1970-01-01 to the first day of year `y` (for `y >= 1970`).
pub open spec fn days_before_year(y: int) -> int
    decreases y - 1970,
{
    if y <= 1970 {
        0
    } else {
        days_before_year(y - 1) + year_len(y - 1)
    }
}

/// Days in month `m` (1 to 12) of year `y`.
pub open spec fn month_len(y: int, m: int) -> int {
    if m == 2 {
        if is_leap_year(y) {
            29
        } else {
            28
        }
    } else if m == 4 || m == 6 || m == 9 || m == 11 {
        30
    } else {
        31
    }
}

/// Days from the first day of year `y` to the first day of month `m`.
pub open spec fn days_before_month(y: int, m: int) -> int
    decreases m,
{
    if m <= 1 {
        0
    } else {
        days_before_month(y, m - 1) + month_len(y, m - 1)
    }
}

/// `(y, m, d)` is a date of the Gregorian calendar from 1970 on.
pub open spec fn is_date(y: int, m: int, d: int) -> bool {
    y >= 1970 && 1 <= m <= 12 && 1 <= d <= month_len(y, m)
}

/// The number of days from 1970-01-01 to the date `(y, m, d)`.
pub open spec fn day_number(y: int, m: int, d: int) -> int {
    days_before_year(y) + days_before_month(y, m) + d - 1
}

/// `(y, m, d)` is the date `days` days after 1970-01-01.
pub open spec fn is_date_of(days: int, y: int, m: int, d: int) -> bool {
    is_date(y, m, d) && day_number(y, m, d) == days
}

pub proof fn lemma_days_before_month_bounds(y: int, m: int)
    requires
        1 <= m <= 13,
    ensures
        0 <= days_before_month(y, m),
        m <= 12 ==> days_before_month(y, m) + month_len(y, m) == days_before_month(y, m + 1),
        days_before_month(y, 13) == year_len(y),
    decreases m,
{
    assert(days_before_month(y, 1) == 0);
    assert(days_before_month(y, 2) == 31);
    assert(days_before_month(y, 3) == 31 + month_len(y, 2));
    assert(days_before_month(y, 4) == 62 + month_len(y, 2));
    assert(days_before_month(y, 5) == 92 + month_len(y, 2));
    assert(days_before_month(y, 6) == 123 + month_len(y, 2));
    assert(days_before_month(y, 7) == 153 + month_len(y, 2));
    assert(days_before_month(y, 8) == 184 + month_len(y, 2));
    assert(days_before_month(y, 9) == 215 + month_len(y, 2));
    assert(days_before_month(y, 10) == 245 + month_len(y, 2));
    assert(days_before_month(y, 11) == 276 + month_len(y, 2));
    assert(days_before_month(y, 12) == 306 + month_len(y, 2));
    assert(days_before_month(y, 13) == 337 + month_len(y, 2));
    if m > 1 {
        lemma_days_before_month_bounds(y, m - 1);
    }
}

pub proof fn lemma_days_before_month_mono(y: int, a: int, b: int)
    requires
        1 <= a <= b <= 13,
    ensures
        days_before_month(y, a) + (b - a) * 28 <= days_before_month(y, b),
    decreases b - a,
{
    if a < b {
        lemma_days_before_month_mono(y, a, b - 1);
        lemma_days_before_month_bounds(y, b - 1);
    }
}

pub proof fn lemma_days_before_year_mono(a: int, b: int)
    requires
        1970 <= a <= b,
    ensures
        days_before_year(a) + (b - a) * 365 <= days_before_year(b),
    decreases b - a,
{
    if a < b {
        lemma_days_before_year_mono(a, b - 1);
    }
}

/// A day number names one date only.
pub proof fn lemma_date_unique(y1: int, m1: int, d1: int, y2: int, m2: int, d2: int)
    requires
        is_date(y1, m1, d1),
        is_date(y2, m2, d2),
        day_number(y1, m1, d1) == day_number(y2, m2, d2),
    ensures
        y1 == y2 && m1 == m2 && d1 == d2,
{
    lemma_days_before_month_bounds(y1, m1);
    lemma_days_before_month_bounds(y2, m2);
    lemma_days_before_month_bounds(y1, 13);
    lemma_days_before_month_bounds(y2, 13);
    // the day within its year is below the year's length
    lemma_days_before_month_mono(y1, m1 + 1, 13);
    lemma_days_before_month_mono(y2, m2 + 1, 13);
    if y1 < y2 {
        lemma_days_before_year_mono(y1 + 1, y2);
        assert(false);
    } else if y2 < y1 {
        lemma_days_before_year_mono(y2 + 1, y1);
        assert(false);
    }
    if m1 < m2 {
        lemma_days_before_month_mono(y1, m1 + 1, m2);
        assert(false);
    } else if m2 < m1 {
        lemma_days_before_month_mono(y1, m2 + 1, m1);
        assert(false);
    }
}

/// `is_leap`: whether `year` is a leap year.
pub fn is_leap(year: u64) -> (r: bool)
    ensures
        r == is_leap_year(year as int),
{
    (year % 4 == 0 && year % 100 != 0) || (year % 400 == 0)
}

fn month_days(year: u64, month: u64) -> (r: u64)
    requires
        1 <= month <= 12,
    ensures
        r as int == month_len(year as int, month as int),
{
    if month == 2 {
        if is_leap(year) {
            29
        } else {
            28
        }
    } else if month == 4 || month == 6 || month == 9 || month == 11 {
        30
    } else {
        31
    }
}

/// The Gregorian date `days` days after 1970-01-01, as `(year, month, day)`.
///
/// Day counts above `i64::MAX` do not fit the signed counter that the year search uses;
/// for them the result is `(1970, 12, 31)`.
pub fn days_to_date(days: u64) -> (r: (u64, u64, u64))
    ensures
        days <= i64::MAX ==> is_date_of(days as int, r.0 as int, r.1 as int, r.2 as int),
        days > i64::MAX ==> r == (1970u64, 12u64, 31u64),
{
    if days > 0x7fff_ffff_ffff_ffff {
        return (1970, 12, 31);
    }
    let mut y: u64 = 1970;
    let mut remaining: u64 = days;
    loop
        invariant
            days <= i64::MAX,
            1970 <= y,
            days_before_year(y as int) + remaining == days,
        ensures
            1970 <= y,
            days_before_year(y as int) + remaining == days,
            remaining < year_len(y as int),
        decreases remaining,
    {
        proof {
            lemma_days_before_year_mono(1970, y as int);
        }
        let days_in_year: u64 = if is_leap(y) {
            366
        } else {
            365
        };
        if remaining < days_in_year {
            break;
        }
        remaining = remaining - days_in_year;
        y = y + 1;
    }
    proof {
        lemma_days_before_month_bounds(y as int, 13);
    }
    let mut m: u64 = 1;
    while m <= 12
        invariant
            1 <= m <= 13,
            days <= i64::MAX,
            1970 <= y,
            days_before_month(y as int, m as int) + remaining < year_len(y as int),
            days_before_year(y as int) + days_before_month(y as int, m as int) + remaining
                == days,
        decreases 13 - m,
    {
        proof {
            lemma_days_before_month_bounds(y as int, m as int);
        }
        let days_in_month = month_days(y, m);
        if remaining < days_in_month {
            return (y, m, remaining + 1);
        }
        remaining = remaining - days_in_month;
        m = m + 1;
    }
    proof {
        lemma_days_before_month_bounds(y as int, 13);
    }
    (y, 12, 31)
}

/// The decimal digit for `d < 10`.
pub open spec fn digit_char(d: int) -> char {
    if d == 0 {
        '0'
    } else if d == 1 {
        '1'
    } else if d == 2 {
        '2'
    } else if d == 3 {
        '3'
    } else if d == 4 {
        '4'
    } else if d == 5 {
        '5'
    } else if d == 6 {
        '6'
    } else if d == 7 {
        '7'
    } else if d == 8 {
        '8'
    } else {
        '9'
    }
}

/// The decimal digits of `n`, as `{}` formats an unsigned integer.
pub open spec fn decimal(n: nat) -> Seq<char>
    decreases n,
{
    if n < 10 {
        seq![digit_char(n as int)]
    } else {
        decimal(n / 10).push(digit_char((n % 10) as int))
    }
}

/// `{:0w}`: the decimal digits of `n`, padded with leading zeros to at least `w` characters.
pub open spec fn padded(n: nat, w: nat) -> Seq<char> {
    let s = decimal(n);
    if s.len() >= w {
        s
    } else {
        Seq::new((w - s.len()) as nat, |i: int| '0') + s
    }
}

/// `YYYY-MM-DDTHH:MM:SSZ` for the given date and time of day.
pub open spec fn timestamp_text(y: nat, mo: nat, d: nat, h: nat, mi: nat, s: nat) -> Seq<char> {
    padded(y, 4) + "-"@ + padded(mo, 2) + "-"@ + padded(d, 2) + "T"@ + padded(h, 2) + ":"@
        + padded(mi, 2) + ":"@ + padded(s, 2) + "Z"@
}

/// The UTC timestamp of `secs` seconds after the Unix epoch.
pub open spec fn is_utc_timestamp_of(secs: nat, text: Seq<char>) -> bool {
    exists|y: int, m: int, d: int|
        #![trigger is_date_of((secs / 86400) as int, y, m, d)]
        is_date_of((secs / 86400) as int, y, m, d) && text == timestamp_text(
            y as nat,
            m as nat,
            d as nat,
            (secs % 86400) / 3600,
            ((secs % 86400) % 3600) / 60,
            (secs % 86400) % 60,
        )
}

fn digit_exec(d: u64) -> (c: char)
    requires
        d < 10,
    ensures
        c == digit_char(d as int),
{
    if d == 0 {
        '0'
    } else if d == 1 {
        '1'
    } else if d == 2 {
        '2'
    } else if d == 3 {
        '3'
    } else if d == 4 {
        '4'
    } else if d == 5 {
        '5'
    } else if d == 6 {
        '6'
    } else if d == 7 {
        '7'
    } else if d == 8 {
        '8'
    } else {
        '9'
    }
}

pub(crate) fn decimal_exec(n: u64) -> (r: Vec<char>)
    ensures
        r@ == decimal(n as nat),
    decreases n,
{
    if n < 10 {
        let mut v: Vec<char> = Vec::new();
        v.push(digit_exec(n));
        assert(v@ =~= seq![digit_char(n as int)]);
        v
    } else {
        let mut v = decimal_exec(n / 10);
        v.push(digit_exec(n % 10));
        v
    }
}

/// Appends `n` zero-padded to `w` digits.
fn push_padded(out: &mut Vec<char>, n: u64, w: usize)
    ensures
        final(out)@ == old(out)@ + padded(n as nat, w as nat),
{
    let mut ds = decimal_exec(n);
    let mut k = ds.len();
    let ghost base = out@;
    while k < w
        invariant
            ds@ == decimal(n as nat),
            ds@.len() <= k <= w || (k == ds@.len() && k >= w),
            out@ == base + Seq::new((k - ds@.len()) as nat, |i: int| '0'),
        decreases w - k,
    {
        out.push('0');
        assert(base + Seq::new((k + 1 - ds@.len()) as nat, |i: int| '0') =~= (base + Seq::new(
            (k - ds@.len()) as nat,
            |i: int| '0',
        )).push('0'));
        k = k + 1;
    }
    let ghost zeros = out@;
    out.append(&mut ds);
    proof {
        if decimal(n as nat).len() >= w {
            assert(Seq::new((k - decimal(n as nat).len()) as nat, |i: int| '0') =~= Seq::<
                char,
            >::empty());
            assert(out@ =~= base + padded(n as nat, w as nat));
        } else {
            assert(out@ =~= base + padded(n as nat, w as nat));
        }
    }
}

fn push_lit(out: &mut Vec<char>, c: char)
    ensures
        final(out)@ == old(out)@.push(c),
{
    out.push(c);
}

/// The `YYYY-MM-DDTHH:MM:SSZ` UTC timestamp of `secs` seconds after the Unix epoch.
pub fn utc_timestamp(secs: u64) -> (r: String)
    ensures
        is_utc_timestamp_of(secs as nat, r@),
{
    let days_since_epoch = secs / 86400;
    let time_secs = secs % 86400;
    let hours = time_secs / 3600;
    let minutes = (time_secs % 3600) / 60;
    let seconds = time_secs % 60;
    let (year, month, day) = days_to_date(days_since_epoch);
    let mut out: Vec<char> = Vec::new();
    push_padded(&mut out, year, 4);
    push_lit(&mut out, '-');
    push_padded(&mut out, month, 2);
    push_lit(&mut out, '-');
    push_padded(&mut out, day, 2);
    push_lit(&mut out, 'T');
    push_padded(&mut out, hours, 2);
    push_lit(&mut out, ':');
    push_padded(&mut out, minutes, 2);
    push_lit(&mut out, ':');
    push_padded(&mut out, seconds, 2);
    push_lit(&mut out, 'Z');
    proof {
        reveal_strlit("-");
        reveal_strlit("T");
        reveal_strlit(":");
        reveal_strlit("Z");
        assert(out@ =~= timestamp_text(
            year as nat,
            month as nat,
            day as nat,
            hours as nat,
            minutes as nat,
            seconds as nat,
        ));
        assert(is_date_of((secs as nat / 86400) as int, year as int, month as int, day as int));
    }
    string_of(&out)
}

#[verifier::external_type_specification]
#[verifier::external_body]
pub struct ExSystemTime(std::time::SystemTime);

/// `SystemTime::now`: the clock's current reading; nothing is known of it.
#[verifier::external_body]
fn system_time_now() -> std::time::SystemTime {
    std::time::SystemTime::now()
}

/// `SystemTime::duration_since(UNIX_EPOCH)`, with `None` for a time before the epoch (the
/// error is dropped). Nothing is stated of the value: it comes from the clock.
#[verifier::external_body]
fn since_epoch(t: std::time::SystemTime) -> Option<core::time::Duration> {
    t.duration_since(std::time::UNIX_EPOCH).ok()
}

/// `Duration::as_secs`: the whole seconds of a duration. Nothing is stated of the value: a
/// duration is opaque here.
#[verifier::external_body]
fn whole_seconds(d: core::time::Duration) -> u64 {
    d.as_secs()
}

/// The current UTC time as `YYYY-MM-DDTHH:MM:SSZ`, or `unknown` when the clock reads a time
/// before the Unix epoch.
pub fn chrono_or_default() -> (r: String)
    ensures
        r@ == "unknown"@ || exists|secs: nat| #[trigger] is_utc_timestamp_of(secs, r@),
{
    match since_epoch(system_time_now()) {
        Some(d) => utc_timestamp(whole_seconds(d)),
        None => String::from_str("unknown"),
    }
}

} // verus!
