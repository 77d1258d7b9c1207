//! Readings of the UTC clock, the export's seven-day window, and the
//! `YYYY-MM-DD` date of article front matter.
use vstd::prelude::*;
use vstd::string::*;

use chrono::{Datelike, Utc};

use crate::text::{decimal, digit_char, digit_char_exec, push_char, push_decimal};

verus! {

/// One reading of the UTC clock: seconds since the Unix epoch and
/// nanoseconds past that second, and the UTC calendar date of the same
/// instant.
#[derive(Debug, Clone, Copy)]
pub struct ClockReading {
    pub secs: i64,
    pub nanos: u32,
    pub year: i32,
    pub month: u32,
    pub day: u32,
}

/// A leap year of the proleptic Gregorian calendar.
pub open spec fn is_leap_year(y: int) -> bool {
    y % 4 == 0 && (y % 100 != 0 || y % 400 == 0)
}

/// The number of days of month `m` of year `y`.
pub open spec fn days_in_month(y: int, m: int) -> int {
    if m == 2 {
        if is_leap_year(y) {
            29
        } else {
            28
        }
    } else if m == 4 || m == 6 || m == 9 || m == 11 {
        30
    } else {
        31
    }
}

/// `(y, m, d)` is a day of the calendar.
pub open spec fn is_calendar_date(y: int, m: int, d: int) -> bool {
    1 <= m <= 12 && 1 <= d <= days_in_month(y, m)
}

/// The leap years from year 1 up to, not including, year `y` (negative
/// counts below year 1).
pub open spec fn leap_years_before(y: int) -> int {
    (y - 1) / 4 - (y - 1) / 100 + (y - 1) / 400
}

/// Days from 1970-01-01 to January 1 of year `y`.
pub open spec fn days_before_year(y: int) -> int {
    365 * (y - 1970) + leap_years_before(y) - leap_years_before(1970)
}

/// Days from January 1 to the first of month `m` of year `y`.
pub open spec fn days_before_month(y: int, m: int) -> int {
    (if m <= 1 {
        0int
    } else if m == 2 {
        31
    } else if m == 3 {
        59
    } else if m == 4 {
        90
    } else if m == 5 {
        120
    } else if m == 6 {
        151
    } else if m == 7 {
        181
    } else if m == 8 {
        212
    } else if m == 9 {
        243
    } else if m == 10 {
        273
    } else if m == 11 {
        304
    } else {
        334
    }) + if m > 2 && is_leap_year(y) {
        1int
    } else {
        0int
    }
}

/// The number of the day `(y, m, d)`, counted from 1970-01-01 (day 0).
pub open spec fn day_number(y: int, m: int, d: int) -> int {
    days_before_year(y) + days_before_month(y, m) + d - 1
}

/// What holds of every clock reading: an instant within chrono's range of
/// dates (years -262143 to 262143, less than 2^44 seconds either side of
/// the epoch), outside any leap second, whose calendar date is the UTC day
/// holding the instant.
pub open spec fn is_clock_reading(r: ClockReading) -> bool {
    &&& -17_592_186_044_416 <= r.secs <= 17_592_186_044_416
    &&& r.nanos < 1_000_000_000
    &&& -262143 <= r.year <= 262143
    &&& is_calendar_date(r.year as int, r.month as int, r.day as int)
    &&& day_number(r.year as int, r.month as int, r.day as int) == r.secs / 86400
}

/// A year has 366 days when it is a leap year, else 365.
proof fn lemma_year_length(y: int)
    ensures
        days_before_year(y + 1) - days_before_year(y) == if is_leap_year(y) {
            366int
        } else {
            365int
        },
{
    assert(y / 4 - (y - 1) / 4 == if y % 4 == 0 { 1int } else { 0int });
    assert(y / 100 - (y - 1) / 100 == if y % 100 == 0 { 1int } else { 0int });
    assert(y / 400 - (y - 1) / 400 == if y % 400 == 0 { 1int } else { 0int });
    assert(y % 400 == 0 ==> y % 100 == 0) by {
        if y % 400 == 0 {
            assert(y == 400 * (y / 400));
            assert(y == 100 * (4 * (y / 400)));
        }
    }
    assert(y % 100 == 0 ==> y % 4 == 0) by {
        if y % 100 == 0 {
            assert(y == 100 * (y / 100));
            assert(y == 4 * (25 * (y / 100)));
        }
    }
}

/// Later years start later: at least 365 days per year.
proof fn lemma_years_ascend(a: int, b: int)
    requires
        a <= b,
    ensures
        days_before_year(b) - days_before_year(a) >= 365 * (b - a),
    decreases b - a,
{
    if a < b {
        lemma_years_ascend(a, b - 1);
        lemma_year_length(b - 1);
    }
}

/// A calendar date lies in its year, and in its month within the year.
proof fn lemma_date_in_year(y: int, m: int, d: int)
    requires
        is_calendar_date(y, m, d),
    ensures
        days_before_year(y) <= day_number(y, m, d) < days_before_year(y + 1),
        days_before_month(y, m) <= day_number(y, m, d) - days_before_year(y) < days_before_month(y, m)
            + days_in_month(y, m),
{
    lemma_year_length(y);
}

/// Each day number names one calendar date: two calendar dates with the
/// same day number are the same date.
pub proof fn lemma_day_number_names_one_date(y1: int, m1: int, d1: int, y2: int, m2: int, d2: int)
    requires
        is_calendar_date(y1, m1, d1),
        is_calendar_date(y2, m2, d2),
        day_number(y1, m1, d1) == day_number(y2, m2, d2),
    ensures
        y1 == y2 && m1 == m2 && d1 == d2,
{
    lemma_date_in_year(y1, m1, d1);
    lemma_date_in_year(y2, m2, d2);
    if y1 < y2 {
        lemma_years_ascend(y1 + 1, y2);
    } else if y2 < y1 {
        lemma_years_ascend(y2 + 1, y1);
    }
    assert(y1 == y2);
}

/// A clock reading's date is the calendar day that holds its instant: any
/// calendar date numbered as the instant's day is the reading's date.
pub proof fn lemma_reading_date_is_its_instants_day(r: ClockReading, y: int, m: int, d: int)
    requires
        is_clock_reading(r),
        is_calendar_date(y, m, d),
        day_number(y, m, d) == r.secs / 86400,
    ensures
        y == r.year && m == r.month && d == r.day,
{
    lemma_day_number_names_one_date(y, m, d, r.year as int, r.month as int, r.day as int);
}

/// Calls `chrono::Utc::now()` and returns `timestamp()`,
/// `timestamp_subsec_nanos()`, `year()`, `month()` and `day()` of that one
/// instant. It reads the clock, so only what holds of every `DateTime<Utc>`
/// that `now()` builds is claimed: chrono's date range (`NaiveDate`'s years
/// run from -262143 to 262143); nanoseconds below 10^9 (`now()` builds its
/// instant from a `Duration` or from milliseconds, never inside a leap
/// second); and a date of the proleptic Gregorian calendar that is the day
/// holding the instant (`DateTime::from_timestamp` takes the date as day
/// `secs.div_euclid(86400)` after 1970-01-01, through
/// `NaiveDate::from_num_days_from_ce_opt`).
#[verifier::external_body]
pub(crate) fn utc_now() -> (now: ClockReading)
    ensures
        is_clock_reading(now),
{
    let t = Utc::now();
    ClockReading {
        secs: t.timestamp(),
        nanos: t.timestamp_subsec_nanos(),
        year: t.year(),
        month: t.month(),
        day: t.day(),
    }
}

/// Seconds in seven days.
pub const WEEK_SECS: i64 = 604800;

/// The instant seven days before the reading `now`: 604800 seconds
/// earlier, the nanoseconds unchanged.
pub open spec fn week_before(now: ClockReading) -> (i64, u32) {
    ((now.secs - WEEK_SECS) as i64, now.nanos)
}

/// The start of the export window for the clock reading `now`.
pub fn week_before_reading(now: &ClockReading) -> (cutoff: (i64, u32))
    requires
        is_clock_reading(*now),
    ensures
        cutoff == week_before(*now),
{
    (now.secs - WEEK_SECS, now.nanos)
}

/// `k` zero characters (none when `k <= 0`).
pub open spec fn zeros(k: int) -> Seq<char> {
    Seq::new(if k > 0 { k as nat } else { 0 }, |i: int| '0')
}

/// `s` with zeros in front up to `width` characters.
pub open spec fn zero_padded(s: Seq<char>, width: int) -> Seq<char> {
    zeros(width - s.len()) + s
}

/// A year as chrono's `%Y` writes it: four digits at least, zero-padded,
/// with a sign in front of years outside 0 to 9999.
pub open spec fn year_text(y: int) -> Seq<char> {
    if 0 <= y <= 9999 {
        zero_padded(decimal(y as nat), 4)
    } else if y < 0 {
        seq!['-'] + zero_padded(decimal((-y) as nat), 4)
    } else {
        seq!['+'] + zero_padded(decimal(y as nat), 4)
    }
}

/// A number below 100 as two digits, as `%m` and `%d` write months and days.
pub open spec fn two_digits(v: int) -> Seq<char> {
    seq![digit_char(v / 10), digit_char(v % 10)]
}

/// A date as the format `%Y-%m-%d` writes it.
pub open spec fn date_text(year: int, month: int, day: int) -> Seq<char> {
    year_text(year) + seq!['-'] + two_digits(month) + seq!['-'] + two_digits(day)
}

/// The value of a decimal digit character.
pub open spec fn digit_value(c: char) -> int {
    c as int - 48
}

/// A number below 10000, zero-padded to four digits: its thousands,
/// hundreds, tens and units.
proof fn lemma_padded4_digits(n: int)
    requires
        0 <= n < 10000,
    ensures
        zero_padded(decimal(n as nat), 4) == seq![
            digit_char(n / 1000),
            digit_char(n / 100 % 10),
            digit_char(n / 10 % 10),
            digit_char(n % 10),
        ],
{
    reveal_with_fuel(decimal, 4);
    let t = zero_padded(decimal(n as nat), 4);
    if n < 10 {
        assert(decimal(n as nat) == seq![digit_char(n)]);
    } else if n < 100 {
        assert(decimal((n / 10) as nat) == seq![digit_char(n / 10)]);
        assert(decimal(n as nat) == seq![digit_char(n / 10), digit_char(n % 10)]);
    } else if n < 1000 {
        assert(decimal((n / 100) as nat) == seq![digit_char(n / 100)]);
        assert((n / 10) / 10 == n / 100);
        assert(decimal((n / 10) as nat) == seq![digit_char(n / 100), digit_char(n / 10 % 10)]);
        assert(decimal(n as nat) == seq![digit_char(n / 100), digit_char(n / 10 % 10), digit_char(n % 10)]);
    } else {
        assert(decimal((n / 1000) as nat) == seq![digit_char(n / 1000)]);
        assert((n / 100) / 10 == n / 1000);
        assert((n / 10) / 10 == n / 100);
        assert(decimal((n / 100) as nat) == seq![digit_char(n / 1000), digit_char(n / 100 % 10)]);
        assert(decimal((n / 10) as nat) == seq![
            digit_char(n / 1000),
            digit_char(n / 100 % 10),
            digit_char(n / 10 % 10),
        ]);
    }
    assert(t =~= seq![digit_char(n / 1000), digit_char(n / 100 % 10), digit_char(n / 10 % 10), digit_char(n % 10)]);
}

/// The date text of a day in years 0 to 9999 reads back as that day: four
/// year digits, a dash, two month digits, a dash and two day digits.
pub proof fn lemma_date_text_reads_back(y: int, m: int, d: int)
    requires
        0 <= y <= 9999,
        is_calendar_date(y, m, d),
    ensures
        ({
            let t = date_text(y, m, d);
            &&& t.len() == 10
            &&& t[4] == '-' && t[7] == '-'
            &&& forall|i: int| 0 <= i < 10 && i != 4 && i != 7 ==> '0' <= #[trigger] t[i] <= '9'
            &&& 1000 * digit_value(t[0]) + 100 * digit_value(t[1]) + 10 * digit_value(t[2]) + digit_value(t[3]) == y
            &&& 10 * digit_value(t[5]) + digit_value(t[6]) == m
            &&& 10 * digit_value(t[8]) + digit_value(t[9]) == d
        }),
{
    lemma_padded4_digits(y);
    let t = date_text(y, m, d);
    assert(t =~= seq![
        digit_char(y / 1000),
        digit_char(y / 100 % 10),
        digit_char(y / 10 % 10),
        digit_char(y % 10),
        '-',
        digit_char(m / 10),
        digit_char(m % 10),
        '-',
        digit_char(d / 10),
        digit_char(d % 10),
    ]);
}

/// The length of a decimal numeral, up to four digits.
proof fn lemma_decimal_len(n: nat)
    ensures
        n < 10 ==> decimal(n).len() == 1,
        10 <= n < 100 ==> decimal(n).len() == 2,
        100 <= n < 1000 ==> decimal(n).len() == 3,
        1000 <= n ==> decimal(n).len() >= 4,
    decreases n,
{
    if n >= 10 {
        lemma_decimal_len(n / 10);
    }
}

/// Appends `n` written with at least four digits, zero-padded.
fn push_padded4(s: &mut String, n: u64)
    ensures
        final(s)@ == old(s)@ + zero_padded(decimal(n as nat), 4),
{
    proof {
        lemma_decimal_len(n as nat);
    }
    let ghost start = s@;
    if n < 10 {
        push_char(s, '0');
        push_char(s, '0');
        push_char(s, '0');
        assert(zeros(3) =~= seq!['0', '0', '0']);
    } else if n < 100 {
        push_char(s, '0');
        push_char(s, '0');
        assert(zeros(2) =~= seq!['0', '0']);
    } else if n < 1000 {
        push_char(s, '0');
        assert(zeros(1) =~= seq!['0']);
    } else {
        assert(zeros(4 - decimal(n as nat).len()) =~= Seq::<char>::empty());
    }
    push_decimal(s, n);
    assert(s@ =~= start + zero_padded(decimal(n as nat), 4));
}

/// Appends a number below 100 as two digits.
fn push_two_digits(s: &mut String, v: u32)
    requires
        v < 100,
    ensures
        final(s)@ == old(s)@ + two_digits(v as int),
{
    let ghost start = s@;
    push_char(s, digit_char_exec((v / 10) as u64));
    push_char(s, digit_char_exec((v % 10) as u64));
    assert(s@ =~= start + two_digits(v as int));
}

/// The UTC date of the clock reading `now`, written `%Y-%m-%d`.
pub fn reading_date_text(now: &ClockReading) -> (text: String)
    requires
        is_clock_reading(*now),
    ensures
        text@ == date_text(now.year as int, now.month as int, now.day as int),
{
    let mut text = String::new();
    let y = now.year;
    if y < 0 {
        push_char(&mut text, '-');
        push_padded4(&mut text, (0 - y) as u64);
    } else if y > 9999 {
        push_char(&mut text, '+');
        push_padded4(&mut text, y as u64);
    } else {
        push_padded4(&mut text, y as u64);
    }
    assert(text@ =~= year_text(y as int));
    push_char(&mut text, '-');
    push_two_digits(&mut text, now.month);
    push_char(&mut text, '-');
    push_two_digits(&mut text, now.day);
    text
}

} // verus!
