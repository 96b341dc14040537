//! Calendar dates of Unix times, as the daemon's log files are named.
use vstd::prelude::*;

use crate::text::{decimal, u128_text};

verus! {

/// Whether `y` is a leap year of the Gregorian calendar.
pub open spec fn is_leap(y: int) -> bool {
    (y % 4 == 0 && y % 100 != 0) || y % 400 == 0
}

/// The days of year `y`.
pub open spec fn year_days(y: int) -> int {
    if is_leap(y) {
        366
    } else {
        365
    }
}

/// The days of month `m` (1 to 12) of year `y`.
pub open spec fn month_days(y: int, m: int) -> int {
    if m == 2 {
        if is_leap(y) {
            29
        } else {
            28
        }
    } else if m == 4 || m == 6 || m == 9 || m == 11 {
        30
    } else {
        31
    }
}

/// The date `days` days into month `m` of year `y`, counting on through
/// the later months of that year.
pub open spec fn date_in_year(days: int, y: int, m: int) -> (int, int, int)
    decreases 12 - m,
{
    if m < 12 && days >= month_days(y, m) {
        date_in_year(days - month_days(y, m), y, m + 1)
    } else {
        (y, m, days + 1)
    }
}

/// The date `days` days after the first of January of year `y`, as
/// (year, month, day).
pub open spec fn date_after(days: nat, y: int) -> (int, int, int)
    decreases days,
{
    if days >= year_days(y) {
        date_after((days - year_days(y)) as nat, y + 1)
    } else {
        date_in_year(days as int, y, 1)
    }
}

/// The UTC date of a Unix time, as (year, month, day).
pub open spec fn utc_date(secs: u64) -> (int, int, int) {
    date_after((secs / 86400) as nat, 1970)
}

/// `n` in decimal, padded with zeros to `width` digits.
pub open spec fn padded(n: nat, width: nat) -> Seq<char> {
    let d = decimal(n);
    if d.len() >= width {
        d
    } else {
        Seq::new((width - d.len()) as nat, |i: int| '0') + d
    }
}

/// The UTC date of a Unix time as `YYYYMMDD`.
pub open spec fn log_date_of(secs: u64) -> Seq<char> {
    let (y, m, d) = utc_date(secs);
    padded(y as nat, 4) + padded(m as nat, 2) + padded(d as nat, 2)
}

/// The days of the `n` years from year `y` on.
pub open spec fn span(y: int, n: nat) -> int
    decreases n,
{
    if n == 0 {
        0
    } else {
        year_days(y) + span(y + 1, (n - 1) as nat)
    }
}

proof fn lemma_span_split(y: int, a: nat, b: nat)
    ensures
        span(y, a + b) == span(y, a) + span(y + a, b),
    decreases a,
{
    if a > 0 {
        lemma_span_split(y + 1, (a - 1) as nat, b);
        assert((a + b - 1) as nat == ((a - 1) as nat + b) as nat);
    }
}

proof fn lemma_skip_span(days: nat, y: int, n: nat)
    requires
        days >= span(y, n),
    ensures
        date_after(days, y) == date_after((days - span(y, n)) as nat, y + n),
    decreases n,
{
    if n > 0 {
        assert(span(y + 1, (n - 1) as nat) >= 0) by {
            lemma_span_nonneg(y + 1, (n - 1) as nat);
        }
        assert(days >= year_days(y));
        lemma_skip_span((days - year_days(y)) as nat, y + 1, (n - 1) as nat);
    }
}

proof fn lemma_span_nonneg(y: int, n: nat)
    ensures
        span(y, n) >= 0,
    decreases n,
{
    if n > 0 {
        lemma_span_nonneg(y + 1, (n - 1) as nat);
    }
}

proof fn lemma_four_years(y: int)
    requires
        y % 4 == 0,
    ensures
        span(y, 4) == 1460 + (if is_leap(y) { 1int } else { 0int }),
{
    reveal_with_fuel(span, 5);
    assert(!is_leap(y + 1));
    assert(!is_leap(y + 2));
    assert(!is_leap(y + 3));
}

#[verifier::spinoff_prover]
#[verifier::rlimit(50)]
proof fn lemma_century_blocks(y: int, k: nat)
    requires
        y % 100 == 0,
        1 <= k <= 25,
    ensures
        span(y, 4 * k) == 1460 + (if is_leap(y) { 1int } else { 0int }) + 1461 * (k - 1),
    decreases k,
{
    if k == 1 {
        lemma_four_years(y);
    } else {
        lemma_century_blocks(y, (k - 1) as nat);
        let p = 4 * (k - 1);
        lemma_span_split(y, p as nat, 4);
        assert((y + p) % 4 == 0);
        assert((y + p) % 100 != 0);
        lemma_four_years(y + p);
        assert((p + 4) as nat == 4 * k);
    }
}

proof fn lemma_four_centuries()
    ensures
        span(0, 400) == 146097,
{
    lemma_century_blocks(0, 25);
    lemma_century_blocks(100, 25);
    lemma_century_blocks(200, 25);
    lemma_century_blocks(300, 25);
    lemma_span_split(0, 100, 300);
    lemma_span_split(100, 100, 200);
    lemma_span_split(200, 100, 100);
}

proof fn lemma_span_shift(y: int)
    ensures
        span(y + 1, 400) == span(y, 400),
{
    lemma_span_split(y, 400, 1);
    reveal_with_fuel(span, 2);
    assert(year_days(y + 400) == year_days(y));
    assert(span(y, 401) == year_days(y) + span(y + 1, 400));
}

proof fn lemma_era(y: nat)
    ensures
        span(y as int, 400) == 146097,
    decreases y,
{
    if y == 0 {
        lemma_four_centuries();
    } else {
        lemma_era((y - 1) as nat);
        lemma_span_shift(y - 1);
    }
}

proof fn lemma_skip_eras(days: nat, y: nat, e: nat)
    requires
        days >= 146097 * e,
    ensures
        date_after(days, y as int) == date_after((days - 146097 * e) as nat, (y + 400 * e) as int),
    decreases e,
{
    if e > 0 {
        lemma_era(y);
        lemma_skip_span(days, y as int, 400);
        lemma_skip_eras((days - 146097) as nat, y + 400, (e - 1) as nat);
    }
}

fn is_leap_year(y: u64) -> (r: bool)
    ensures
        r == is_leap(y as int),
{
    (y % 4 == 0 && y % 100 != 0) || y % 400 == 0
}

fn pad_number(n: u64, width: usize) -> (r: String)
    requires
        width <= 20,
    ensures
        r@ == padded(n as nat, width as nat),
{
    let digits = u128_text(n as u128);
    let len = digits.as_str().unicode_len();
    if len >= width {
        return digits;
    }
    let mut s = String::new();
    let mut k: usize = 0;
    while k < width - len
        invariant
            k <= width - len,
            s@ == Seq::new(k as nat, |i: int| '0'),
        decreases width - len - k,
    {
        s.append("0");
        proof {
            reveal_strlit("0");
        }
        assert(s@ =~= Seq::new((k + 1) as nat, |i: int| '0'));
        k = k + 1;
    }
    s.append(digits.as_str());
    s
}

/// The UTC date of a Unix time as `YYYYMMDD`, the date part of the
/// daemon's log file names.
pub fn format_log_date(secs: u64) -> (r: String)
    ensures
        r@ == log_date_of(secs),
{
    let total: u64 = secs / 86400;
    let eras: u64 = total / 146097;
    let mut days: u64 = total % 146097;
    let mut y: u64 = 1970 + 400 * eras;
    proof {
        lemma_skip_eras(total as nat, 1970, eras as nat);
    }
    loop
        invariant_except_break
            y >= 1970,
            y - 1970 - 400 * eras <= total % 146097 - days,
            eras == total / 146097,
            days <= total % 146097,
            total == secs / 86400,
            date_after(days as nat, y as int) == date_after(total as nat, 1970),
        ensures
            days < year_days(y as int),
            date_in_year(days as int, y as int, 1) == date_after(total as nat, 1970),
        decreases days,
    {
        let len: u64 = if is_leap_year(y) { 366 } else { 365 };
        if days < len {
            break;
        }
        days = days - len;
        y = y + 1;
    }
    let mut m: u64 = 1;
    let mut d: u64 = days;
    loop
        invariant_except_break
            1 <= m <= 12,
            d <= days,
            date_in_year(d as int, y as int, m as int) == date_after(total as nat, 1970),
        ensures
            1 <= m <= 12,
            d <= days,
            (y as int, m as int, d + 1) == date_after(total as nat, 1970),
        decreases 12 - m,
    {
        let len: u64 = if m == 2 {
            if is_leap_year(y) { 29 } else { 28 }
        } else if m == 4 || m == 6 || m == 9 || m == 11 {
            30
        } else {
            31
        };
        if m < 12 && d >= len {
            d = d - len;
            m = m + 1;
        } else {
            break;
        }
    }
    let mut out = pad_number(y, 4);
    out.append(pad_number(m, 2).as_str());
    out.append(pad_number(d + 1, 2).as_str());
    out
}


/// The days of the months of year `y` before month `m`.
pub open spec fn days_before(y: int, m: int) -> int
    decreases m,
{
    if m <= 1 {
        0
    } else {
        days_before(y, m - 1) + month_days(y, m - 1)
    }
}

proof fn lemma_months_fill_year(y: int)
    ensures
        days_before(y, 12) + 31 == year_days(y),
{
    reveal_with_fuel(days_before, 12);
}

proof fn lemma_date_in_year_valid(days: int, y: int, m: int)
    requires
        1 <= m <= 12,
        0 <= days,
        days + days_before(y, m) < year_days(y),
    ensures
        date_in_year(days, y, m).0 == y,
        1 <= date_in_year(days, y, m).1 <= 12,
        1 <= date_in_year(days, y, m).2 <= month_days(y, date_in_year(days, y, m).1),
    decreases 12 - m,
{
    if m < 12 && days >= month_days(y, m) {
        lemma_date_in_year_valid(days - month_days(y, m), y, m + 1);
    } else if m == 12 {
        lemma_months_fill_year(y);
    }
}

proof fn lemma_date_after_valid(days: nat, y: int)
    ensures
        1 <= date_after(days, y).1 <= 12,
        1 <= date_after(days, y).2 <= month_days(date_after(days, y).0, date_after(days, y).1),
        date_after(days, y).0 >= y,
    decreases days,
{
    if days >= year_days(y) {
        lemma_date_after_valid((days - year_days(y)) as nat, y + 1);
    } else {
        lemma_date_in_year_valid(days as int, y, 1);
    }
}

/// Every Unix time falls on a real calendar day, in 1970 or later: the
/// month is one of twelve and the day lies within that month.
pub proof fn law_log_date_is_a_calendar_day(secs: u64)
    ensures
        utc_date(secs).0 >= 1970,
        1 <= utc_date(secs).1 <= 12,
        1 <= utc_date(secs).2 <= month_days(utc_date(secs).0, utc_date(secs).1),
{
    lemma_date_after_valid((secs / 86400) as nat, 1970);
}

/// The day after the last of a year is the first of January of the next.
pub proof fn law_new_year_follows(y: int)
    ensures
        date_after(year_days(y) as nat, y) == (y + 1, 1int, 1int),
{
    reveal_with_fuel(date_after, 2);
    assert(year_days(y + 1) > 0);
    assert(date_after(0, y + 1) == date_in_year(0, y + 1, 1));
}

} // verus!
