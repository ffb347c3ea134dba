//! Civil dates (proleptic Gregorian, UTC) for the daily log file names.

use vstd::prelude::*;
use vstd::string::*;
use crate::text::{
    lemma_fixed_digits_len_of, lemma_fixed_digits_order, lemma_text_before_append, lemma_text_before_differs,
    lemma_text_before_prefix, lemma_zero_padded_fixed, pow10, text_before, zero_padded,
    zero_padded_string,
};

verus! {

/// Gregorian leap years: divisible by 4 but not by 100, or by 400.
pub open spec fn is_leap_year(y: int) -> bool {
    (y % 4 == 0 && y % 100 != 0) || y % 400 == 0
}

pub open spec fn days_in_year(y: int) -> int {
    if is_leap_year(y) {
        366
    } else {
        365
    }
}

/// The length of month `m` (1 = January) of year `y`.
pub open spec fn days_in_month(y: int, m: int) -> int {
    if m == 2 {
        if is_leap_year(y) {
            29
        } else {
            28
        }
    } else if m == 4 || m == 6 || m == 9 || m == 11 {
        30
    } else {
        31
    }
}

/// Days from 1970-01-01 to the first day of year `y` (`y >= 1970`).
pub open spec fn days_before_year(y: int) -> int
    decreases y - 1970,
{
    if y <= 1970 {
        0
    } else {
        days_before_year(y - 1) + days_in_year(y - 1)
    }
}

/// Days from the first of January to the first day of month `m` of year `y`.
pub open spec fn days_before_month(y: int, m: int) -> int
    decreases m,
{
    if m <= 1 {
        0
    } else {
        days_before_month(y, m - 1) + days_in_month(y, m - 1)
    }
}

/// A calendar date: year, month (1..=12), day of the month (from 1).
#[derive(Debug, Clone, Copy, PartialEq, Eq, Structural)]
pub struct CivilDate {
    pub year: u64,
    pub month: u64,
    pub day: u64,
}

/// A real date from 1970 on.
pub open spec fn valid_date(c: CivilDate) -> bool {
    &&& c.year >= 1970
    &&& 1 <= c.month <= 12
    &&& 1 <= c.day <= days_in_month(c.year as int, c.month as int)
}

/// The number of days from 1970-01-01 to `c`.
pub open spec fn day_number(c: CivilDate) -> int {
    days_before_year(c.year as int) + days_before_month(c.year as int, c.month as int) + c.day - 1
}

/// The date of the day that lies `days` days after 1970-01-01.
pub open spec fn date_of_day(days: nat) -> CivilDate {
    choose|c: CivilDate| valid_date(c) && day_number(c) == days
}

/// `YYYY-MM-DD`, each field zero-padded (the year to at least four digits).
pub open spec fn date_text(c: CivilDate) -> Seq<char> {
    zero_padded(c.year as nat, 4) + seq!['-'] + zero_padded(c.month as nat, 2) + seq!['-']
        + zero_padded(c.day as nat, 2)
}

proof fn lemma_days_before_year_step(y: int)
    requires
        y >= 1970,
    ensures
        days_before_year(y + 1) == days_before_year(y) + days_in_year(y),
{
}

proof fn lemma_days_before_year_monotonic(a: int, b: int)
    requires
        1970 <= a <= b,
    ensures
        days_before_year(a) <= days_before_year(b),
        days_before_year(b) - days_before_year(a) >= 365 * (b - a),
    decreases b - a,
{
    if a < b {
        lemma_days_before_year_monotonic(a, b - 1);
        lemma_days_before_year_step(b - 1);
    }
}

proof fn lemma_days_before_month_monotonic(y: int, a: int, b: int)
    requires
        1 <= a <= b,
    ensures
        days_before_month(y, a) <= days_before_month(y, b),
    decreases b - a,
{
    if a < b {
        lemma_days_before_month_monotonic(y, a, b - 1);
    }
}

proof fn lemma_months_fill_year(y: int)
    ensures
        days_before_month(y, 13) == days_in_year(y),
{
    reveal_with_fuel(days_before_month, 13);
}

/// A valid date's day of the year lies inside its year.
proof fn lemma_day_of_year_bounds(c: CivilDate)
    requires
        valid_date(c),
    ensures
        0 <= days_before_month(c.year as int, c.month as int) + c.day - 1 < days_in_year(c.year as int),
{
    let y = c.year as int;
    let m = c.month as int;
    lemma_days_before_month_monotonic(y, 1, m);
    lemma_days_before_month_monotonic(y, m + 1, 13);
    lemma_months_fill_year(y);
    assert(days_before_month(y, m + 1) == days_before_month(y, m) + days_in_month(y, m));
}

/// Two dates with the same day number are the same date: `date_of_day`
/// names exactly one date for each day.
pub proof fn lemma_day_number_injective(a: CivilDate, b: CivilDate)
    requires
        valid_date(a),
        valid_date(b),
        day_number(a) == day_number(b),
    ensures
        a == b,
{
    lemma_day_of_year_bounds(a);
    lemma_day_of_year_bounds(b);
    let ya = a.year as int;
    let yb = b.year as int;
    if ya < yb {
        lemma_days_before_year_monotonic(ya + 1, yb);
        lemma_days_before_year_step(ya);
        assert(false);
    } else if yb < ya {
        lemma_days_before_year_monotonic(yb + 1, ya);
        lemma_days_before_year_step(yb);
        assert(false);
    }
    let ma = a.month as int;
    let mb = b.month as int;
    if ma < mb {
        lemma_days_before_month_monotonic(ya, ma + 1, mb);
        assert(false);
    } else if mb < ma {
        lemma_days_before_month_monotonic(ya, mb + 1, ma);
        assert(false);
    }
}

/// Whether `y` is a Gregorian leap year.
pub fn is_leap(y: i64) -> (r: bool)
    ensures
        r == is_leap_year(y as int),
{
    (y % 4 == 0 && y % 100 != 0) || (y % 400 == 0)
}

fn month_length(year: u64, month: u64) -> (r: u64)
    requires
        1 <= month <= 12,
    ensures
        r == days_in_month(year as int, month as int),
{
    if month == 2 {
        if (year % 4 == 0 && year % 100 != 0) || year % 400 == 0 {
            29
        } else {
            28
        }
    } else if month == 4 || month == 6 || month == 9 || month == 11 {
        30
    } else {
        31
    }
}

/// The calendar date of the day `days` days after 1970-01-01, counting
/// whole years from 1970 and then whole months.
pub fn civil_date(days: u64) -> (c: CivilDate)
    ensures
        valid_date(c),
        day_number(c) == days,
        c == date_of_day(days as nat),
{
    let mut y: u64 = 1970;
    let mut d: u64 = days;
    loop
        invariant
            y >= 1970,
            d <= days,
            days_before_year(y as int) + d == days,
            days_before_year(y as int) >= 365 * (y - 1970),
        ensures
            y >= 1970,
            days_before_year(y as int) + d == days,
            d < days_in_year(y as int),
        decreases d,
    {
        let yd: u64 = if (y % 4 == 0 && y % 100 != 0) || y % 400 == 0 {
            366
        } else {
            365
        };
        assert(yd == days_in_year(y as int));
        if d < yd {
            break;
        }
        proof {
            lemma_days_before_year_step(y as int);
        }
        d = d - yd;
        y = y + 1;
    }
    let mut m: u64 = 1;
    loop
        invariant
            1 <= m <= 12,
            y >= 1970,
            days_before_month(y as int, m as int) + d < days_in_year(y as int),
            days_before_year(y as int) + days_before_month(y as int, m as int) + d == days,
        ensures
            1 <= m <= 12,
            days_before_year(y as int) + days_before_month(y as int, m as int) + d == days,
            d < days_in_month(y as int, m as int),
        decreases 12 - m,
    {
        let md = month_length(y, m);
        if d < md {
            break;
        }
        proof {
            lemma_days_before_month_monotonic(y as int, m as int + 1, 13);
            lemma_months_fill_year(y as int);
            if m == 12 {
                assert(days_before_month(y as int, 13) == days_before_month(y as int, 12) + md);
                assert(false);
            }
        }
        d = d - md;
        m = m + 1;
    }
    let c = CivilDate { year: y, month: m, day: d + 1 };
    proof {
        let w = date_of_day(days as nat);
        assert(valid_date(c) && day_number(c) == days);
        lemma_day_number_injective(w, c);
    }
    c
}

/// Formats a date as `YYYY-MM-DD`.
pub fn format_date(c: CivilDate) -> (s: String)
    ensures
        s@ == date_text(c),
{
    let mut s = zero_padded_string(c.year, 4);
    proof {
        reveal_strlit("-");
    }
    s.append("-");
    let month = zero_padded_string(c.month, 2);
    s.append(month.as_str());
    s.append("-");
    let day = zero_padded_string(c.day, 2);
    s.append(day.as_str());
    s
}

/// The `YYYY-MM-DD` date (UTC) of the moment `secs` seconds after the Unix
/// epoch.
pub fn date_string_from_unix_secs(secs: u64) -> (s: String)
    ensures
        s@ == date_text(date_of_day((secs / 86400) as nat)),
{
    format_date(civil_date(secs / 86400))
}

/// Reads the system clock with `SystemTime::now().duration_since(UNIX_EPOCH)`
/// in whole seconds (0 for a clock set before the epoch). Nothing is stated
/// of the value: it is the time of the call.
#[verifier::external_body]
fn unix_time_secs() -> u64 {
    std::time::SystemTime::now().duration_since(std::time::UNIX_EPOCH).unwrap_or_default().as_secs()
}

/// Today's date (UTC) as `YYYY-MM-DD`.
pub fn today_date_string() -> (s: String)
    ensures
        exists|secs: u64| s@ == date_text(#[trigger] date_of_day((secs / 86400) as nat)),
{
    let secs = unix_time_secs();
    date_string_from_unix_secs(secs)
}

/// The name of the daily log file for the moment `secs`: `YYYY-MM-DD.log`.
pub fn log_file_name(secs: u64) -> (s: String)
    ensures
        s@ == date_text(date_of_day((secs / 86400) as nat)) + ".log"@,
{
    let mut s = date_string_from_unix_secs(secs);
    s.append(".log");
    s
}

/// The name of today's (UTC) log file: `YYYY-MM-DD.log`.
pub fn today_log_file_name() -> (s: String)
    ensures
        exists|secs: u64| s@ == #[trigger] date_text(date_of_day((secs / 86400) as nat)) + ".log"@,
{
    let secs = unix_time_secs();
    log_file_name(secs)
}

/// `a` is an earlier date than `b`: by year, then month, then day.
pub open spec fn date_before(a: CivilDate, b: CivilDate) -> bool {
    ||| a.year < b.year
    ||| a.year == b.year && a.month < b.month
    ||| a.year == b.year && a.month == b.month && a.day < b.day
}

/// Earlier dates have smaller day numbers.
proof fn lemma_day_number_order(a: CivilDate, b: CivilDate)
    requires
        valid_date(a),
        valid_date(b),
        date_before(a, b),
    ensures
        day_number(a) < day_number(b),
{
    lemma_day_of_year_bounds(a);
    lemma_day_of_year_bounds(b);
    let ya = a.year as int;
    let yb = b.year as int;
    if ya < yb {
        lemma_days_before_year_step(ya);
        lemma_days_before_year_monotonic(ya + 1, yb);
    } else if a.month < b.month {
        let ma = a.month as int;
        assert(days_before_month(ya, ma + 1) == days_before_month(ya, ma) + days_in_month(ya, ma));
        lemma_days_before_month_monotonic(ya, ma + 1, b.month as int);
    }
}

/// A date's year lies no further from 1970 than its day number.
proof fn lemma_year_within_days(c: CivilDate)
    requires
        valid_date(c),
    ensures
        c.year - 1970 <= day_number(c),
{
    lemma_day_of_year_bounds(c);
    lemma_days_before_year_monotonic(1970, c.year as int);
}

/// Every day from 1970 on has a date.
proof fn lemma_date_exists(d: nat)
    requires
        d < 0x8000_0000_0000_0000,
    ensures
        exists|c: CivilDate| valid_date(c) && day_number(c) == d,
    decreases d,
{
    if d == 0 {
        let c = CivilDate { year: 1970, month: 1, day: 1 };
        assert(valid_date(c) && day_number(c) == 0);
    } else {
        lemma_date_exists((d - 1) as nat);
        let c = choose|c: CivilDate| valid_date(c) && day_number(c) == d - 1;
        lemma_year_within_days(c);
        let y = c.year as int;
        let m = c.month as int;
        if c.day < days_in_month(y, m) {
            let n = CivilDate { year: c.year, month: c.month, day: (c.day + 1) as u64 };
            assert(valid_date(n) && day_number(n) == d);
        } else if c.month < 12 {
            let n = CivilDate { year: c.year, month: (c.month + 1) as u64, day: 1 };
            assert(days_before_month(y, m + 1) == days_before_month(y, m) + days_in_month(y, m));
            assert(valid_date(n) && day_number(n) == d);
        } else {
            let n = CivilDate { year: (c.year + 1) as u64, month: 1, day: 1 };
            lemma_months_fill_year(y);
            assert(days_before_month(y, 13) == days_before_month(y, 12) + days_in_month(y, 12));
            lemma_days_before_year_step(y);
            assert(valid_date(n) && day_number(n) == d);
        }
    }
}

/// The date of a day is a real date with that day number.
pub proof fn lemma_date_of_day(d: nat)
    requires
        d < 0x8000_0000_0000_0000,
    ensures
        valid_date(date_of_day(d)),
        day_number(date_of_day(d)) == d,
{
    lemma_date_exists(d);
}

/// Of two valid dates before the year 10000, the earlier one's text sorts
/// first.
proof fn lemma_date_text_order(a: CivilDate, b: CivilDate)
    requires
        valid_date(a),
        valid_date(b),
        b.year < 10000,
        date_before(a, b),
    ensures
        text_before(date_text(a), date_text(b)),
{
    reveal_with_fuel(pow10, 5);
    assert(pow10(2) == 100 && pow10(4) == 10000);
    lemma_zero_padded_fixed(a.year as nat, 4);
    lemma_zero_padded_fixed(b.year as nat, 4);
    lemma_zero_padded_fixed(a.month as nat, 2);
    lemma_zero_padded_fixed(b.month as nat, 2);
    lemma_zero_padded_fixed(a.day as nat, 2);
    lemma_zero_padded_fixed(b.day as nat, 2);
    let ya = zero_padded(a.year as nat, 4);
    let yb = zero_padded(b.year as nat, 4);
    let ma = zero_padded(a.month as nat, 2);
    let mb = zero_padded(b.month as nat, 2);
    let da = zero_padded(a.day as nat, 2);
    let db = zero_padded(b.day as nat, 2);
    let dash = seq!['-'];
    assert(date_text(a) =~= ya + (dash + ma + dash + da));
    assert(date_text(b) =~= yb + (dash + mb + dash + db));
    if a.year < b.year {
        lemma_fixed_digits_order(a.year as nat, b.year as nat, 4);
        lemma_fixed_digits_len_of(a.year as nat, b.year as nat, 4);
        lemma_text_before_append(ya, yb, dash + ma + dash + da, dash + mb + dash + db);
    } else if a.month < b.month {
        lemma_fixed_digits_order(a.month as nat, b.month as nat, 2);
        lemma_fixed_digits_len_of(a.month as nat, b.month as nat, 2);
        lemma_text_before_append(ma, mb, dash + da, dash + db);
        lemma_text_before_prefix(ya + dash, ma + (dash + da), mb + (dash + db));
        assert(date_text(a) =~= (ya + dash) + (ma + (dash + da)));
        assert(date_text(b) =~= (ya + dash) + (mb + (dash + db)));
    } else {
        lemma_fixed_digits_order(a.day as nat, b.day as nat, 2);
        lemma_text_before_prefix(ya + dash + ma + dash, da, db);
        assert(date_text(a) =~= (ya + dash + ma + dash) + da);
        assert(date_text(b) =~= (ya + dash + ma + dash) + db);
    }
}

/// The date text follows the clock: for two readings `s1 <= s2` of the
/// clock (in seconds since the Unix epoch) before the year 10000, the text
/// of `s1` sorts no later than that of `s2`, and the two texts are equal
/// exactly when both readings fall on the same UTC day: the text changes
/// at UTC midnight and at no other moment.
pub proof fn lemma_date_text_follows_clock(s1: u64, s2: u64)
    requires
        s1 <= s2,
        date_of_day((s2 / 86400) as nat).year < 10000,
    ensures
        (date_text(date_of_day((s1 / 86400) as nat)) == date_text(date_of_day((s2 / 86400) as nat)))
            <==> s1 / 86400 == s2 / 86400,
        s1 / 86400 != s2 / 86400 ==> text_before(
            date_text(date_of_day((s1 / 86400) as nat)),
            date_text(date_of_day((s2 / 86400) as nat)),
        ),
{
    let d1 = (s1 / 86400) as nat;
    let d2 = (s2 / 86400) as nat;
    if d1 != d2 {
        assert(d1 < d2);
        lemma_date_of_day(d1);
        lemma_date_of_day(d2);
        let a = date_of_day(d1);
        let b = date_of_day(d2);
        if !date_before(a, b) {
            if a == b {
                assert(false);
            } else {
                assert(date_before(b, a));
                lemma_day_number_order(b, a);
                assert(false);
            }
        }
        lemma_date_text_order(a, b);
        lemma_text_before_differs(date_text(a), date_text(b));
    }
}

} // verus!
