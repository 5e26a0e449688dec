//! Calendar values (proleptic Gregorian dates and UTC date-times with the
//! ranges of `chrono`), their ordering, day-of-year, the previous day, and
//! their textual forms (`%Y-%m-%d`, `%Y-%m-%dT%H:%M:%SZ`, ...).

use vstd::prelude::*;

use chrono::{Datelike, Timelike};

use crate::text::push_padded;

verus! {

/// Smallest year `chrono` represents.
pub const MIN_YEAR: i32 = -262143;

/// Largest year `chrono` represents.
pub const MAX_YEAR: i32 = 262142;

/// A calendar date (`chrono::NaiveDate`).
#[derive(Debug, Clone, Copy, PartialEq, Eq, Structural)]
pub struct Date {
    pub year: i32,
    pub month: u32,
    pub day: u32,
}

/// A UTC date and time of day (`chrono::DateTime<Utc>` / `NaiveDateTime`).
/// A `nanosecond` of one second or more marks a leap second, as in `chrono`.
#[derive(Debug, Clone, Copy, PartialEq, Eq, Structural)]
pub struct DateTime {
    pub date: Date,
    pub hour: u32,
    pub minute: u32,
    pub second: u32,
    pub nanosecond: u32,
}

/// Leap year of the proleptic Gregorian calendar.
pub open spec fn is_leap(y: int) -> bool {
    (y % 4 == 0 && y % 100 != 0) || y % 400 == 0
}

/// Number of days of a month.
pub open spec fn days_in_month_spec(y: int, m: int) -> int {
    if m == 2 {
        if is_leap(y) {
            29
        } else {
            28
        }
    } else if m == 4 || m == 6 || m == 9 || m == 11 {
        30
    } else {
        31
    }
}

/// A date that exists and that `chrono` represents.
pub open spec fn date_wf(d: Date) -> bool {
    &&& MIN_YEAR <= d.year <= MAX_YEAR
    &&& 1 <= d.month <= 12
    &&& 1 <= d.day <= days_in_month_spec(d.year as int, d.month as int)
}

/// A date-time that exists and that `chrono` represents.
pub open spec fn datetime_wf(t: DateTime) -> bool {
    &&& date_wf(t.date)
    &&& t.hour < 24
    &&& t.minute < 60
    &&& t.second < 60
    &&& t.nanosecond < 2_000_000_000
    &&& (t.nanosecond >= 1_000_000_000 ==> t.second == 59)
}

/// Chronological order of dates.
pub open spec fn date_lt(a: Date, b: Date) -> bool {
    a.year < b.year || (a.year == b.year && (a.month < b.month || (a.month == b.month && a.day
        < b.day)))
}

/// Chronological order of date-times.
pub open spec fn datetime_lt(a: DateTime, b: DateTime) -> bool {
    date_lt(a.date, b.date) || (a.date == b.date && (a.hour < b.hour || (a.hour == b.hour && (
    a.minute < b.minute || (a.minute == b.minute && (a.second < b.second || (a.second
        == b.second && a.nanosecond < b.nanosecond)))))))
}

/// Days of the months before `m` in year `y`.
pub open spec fn days_before_month(y: int, m: int) -> int
    decreases m,
{
    if m <= 1 {
        0
    } else {
        days_before_month(y, m - 1) + days_in_month_spec(y, m - 1)
    }
}

/// Day of the year, 1 for January 1st.
pub open spec fn ordinal_spec(d: Date) -> int {
    days_before_month(d.year as int, d.month as int) + d.day
}

/// The previous calendar day.
pub open spec fn pred_spec(d: Date) -> Date {
    if d.day > 1 {
        Date { day: (d.day - 1) as u32, ..d }
    } else if d.month > 1 {
        Date {
            month: (d.month - 1) as u32,
            day: days_in_month_spec(d.year as int, d.month - 1) as u32,
            ..d
        }
    } else {
        Date { year: (d.year - 1) as i32, month: 12, day: 31 }
    }
}

/// The first date `chrono` represents.
pub open spec fn is_min_date(d: Date) -> bool {
    d.year == MIN_YEAR && d.month == 1 && d.day == 1
}

/// Midnight of a date.
pub open spec fn midnight(d: Date) -> DateTime {
    DateTime { date: d, hour: 0, minute: 0, second: 0, nanosecond: 0 }
}

/// Midnight of a date.
pub fn midnight_of(d: Date) -> (r: DateTime)
    ensures
        r == midnight(d),
{
    DateTime { date: d, hour: 0, minute: 0, second: 0, nanosecond: 0 }
}

/// Number of days of a month.
pub fn days_in_month(y: i32, m: u32) -> (r: u32)
    requires
        1 <= m <= 12,
    ensures
        r == days_in_month_spec(y as int, m as int),
        28 <= r <= 31,
{
    if m == 2 {
        if (y % 4 == 0 && y % 100 != 0) || y % 400 == 0 {
            29
        } else {
            28
        }
    } else if m == 4 || m == 6 || m == 9 || m == 11 {
        30
    } else {
        31
    }
}

/// Day of the year (1..=366) of a date (`Datelike::ordinal`).
pub fn day_of_year_index(d: Date) -> (r: u32)
    requires
        date_wf(d),
    ensures
        r == ordinal_spec(d),
        1 <= r <= 366,
{
    let mut acc: u32 = 0;
    let mut m: u32 = 1;
    while m < d.month
        invariant
            date_wf(d),
            1 <= m <= d.month,
            acc == days_before_month(d.year as int, m as int),
            acc <= 31 * (m - 1),
        decreases d.month - m,
    {
        acc = acc + days_in_month(d.year, m);
        m = m + 1;
    }
    proof {
        lemma_year_length(d.year as int);
        lemma_days_before_month_mono(d.year as int, d.month as int, 12);
        assert(days_before_month(d.year as int, 12) + days_in_month_spec(d.year as int, 12)
            == days_before_month(d.year as int, 13));
    }
    acc + d.day
}

/// A year has 365 or 366 days.
pub proof fn lemma_year_length(y: int)
    ensures
        days_before_month(y, 13) == if is_leap(y) {
            366int
        } else {
            365int
        },
{
    reveal_with_fuel(days_before_month, 13);
}

/// `days_before_month` grows with the month.
pub proof fn lemma_days_before_month_mono(y: int, a: int, b: int)
    requires
        1 <= a <= b,
    ensures
        days_before_month(y, a) + days_in_month_spec(y, a) <= days_before_month(y, b)
            + days_in_month_spec(y, b),
    decreases b - a,
{
    if a < b {
        lemma_days_before_month_mono(y, a, b - 1);
    }
}

/// The previous calendar day (`NaiveDate::pred_opt`).
pub fn pred_date(d: Date) -> (r: Date)
    requires
        date_wf(d),
        !is_min_date(d),
    ensures
        r == pred_spec(d),
        date_wf(r),
        date_lt(r, d),
{
    if d.day > 1 {
        Date { day: d.day - 1, ..d }
    } else if d.month > 1 {
        Date { month: d.month - 1, day: days_in_month(d.year, d.month - 1), ..d }
    } else {
        Date { year: d.year - 1, month: 12, day: 31 }
    }
}

/// The next calendar day.
pub open spec fn succ_spec(d: Date) -> Date {
    if d.day < days_in_month_spec(d.year as int, d.month as int) {
        Date { day: (d.day + 1) as u32, ..d }
    } else if d.month < 12 {
        Date { month: (d.month + 1) as u32, day: 1, ..d }
    } else {
        Date { year: (d.year + 1) as i32, month: 1, day: 1 }
    }
}

/// The last date `chrono` represents.
pub open spec fn is_max_date(d: Date) -> bool {
    d.year == MAX_YEAR && d.month == 12 && d.day == 31
}

/// The next calendar day (`NaiveDate::succ_opt`).
pub fn succ_date(d: Date) -> (r: Date)
    requires
        date_wf(d),
        !is_max_date(d),
    ensures
        r == succ_spec(d),
        date_wf(r),
        date_lt(d, r),
{
    if d.day < days_in_month(d.year, d.month) {
        Date { day: d.day + 1, ..d }
    } else if d.month < 12 {
        Date { month: d.month + 1, day: 1, ..d }
    } else {
        Date { year: d.year + 1, month: 1, day: 1 }
    }
}

/// `d` moved `n` days forward.
pub open spec fn add_days_spec(d: Date, n: nat) -> Date
    decreases n,
{
    if n == 0 {
        d
    } else {
        succ_spec(add_days_spec(d, (n - 1) as nat))
    }
}

/// `d` moved `n` days back.
pub open spec fn sub_days_spec(d: Date, n: nat) -> Date
    decreases n,
{
    if n == 0 {
        d
    } else {
        pred_spec(sub_days_spec(d, (n - 1) as nat))
    }
}

/// Order of dates is transitive.
pub proof fn lemma_date_lt_trans(a: Date, b: Date, c: Date)
    requires
        date_lt(a, b),
        date_lt(b, c),
    ensures
        date_lt(a, c),
{
}

/// Chronological order of dates.
pub fn date_before(a: Date, b: Date) -> (r: bool)
    ensures
        r == date_lt(a, b),
{
    a.year < b.year || (a.year == b.year && (a.month < b.month || (a.month == b.month && a.day
        < b.day)))
}

/// Chronological order of date-times.
pub fn datetime_before(a: DateTime, b: DateTime) -> (r: bool)
    ensures
        r == datetime_lt(a, b),
{
    date_before(a.date, b.date) || (a.date == b.date && (a.hour < b.hour || (a.hour == b.hour
        && (a.minute < b.minute || (a.minute == b.minute && (a.second < b.second || (a.second
        == b.second && a.nanosecond < b.nanosecond)))))))
}

/// `date_lt` is a strict total order.
pub proof fn lemma_date_lt_total(a: Date, b: Date)
    ensures
        date_lt(a, b) || date_lt(b, a) || a == b,
        !(date_lt(a, b) && date_lt(b, a)),
        !date_lt(a, a),
{
}

/// Calendar order: a date comes before its next day and after its previous
/// day, and an earlier year (or an earlier month of the same year) comes
/// first whatever the days.
pub proof fn date_order_is_calendar_order(d: Date, a: Date, b: Date)
    requires
        date_wf(d),
    ensures
        !is_max_date(d) ==> date_lt(d, succ_spec(d)),
        !is_min_date(d) ==> date_lt(pred_spec(d), d),
        a.year < b.year ==> date_lt(a, b),
        a.year == b.year && a.month < b.month ==> date_lt(a, b),
        date_lt(a, b) ==> a.year <= b.year,
{
}

// ----- text forms -------------------------------------------------------

/// `%Y` of `chrono`: four zero-padded digits for years 0..=9999, otherwise
/// an explicit sign followed by at least four digits.
pub open spec fn year_text(y: int) -> Seq<char> {
    if 0 <= y <= 9999 {
        crate::text::padded(y as nat, 4)
    } else if y < 0 {
        seq!['-'] + crate::text::padded((-y) as nat, 4)
    } else {
        seq!['+'] + crate::text::padded(y as nat, 4)
    }
}

/// `{:04}` of a Rust integer: zero padding to four characters, sign included.
pub open spec fn int4_text(y: int) -> Seq<char> {
    if y >= 0 {
        crate::text::padded(y as nat, 4)
    } else {
        seq!['-'] + crate::text::padded((-y) as nat, 3)
    }
}

/// Two zero-padded digits (`%m`, `%d`, `%H`, `%M`).
pub open spec fn two(v: int) -> Seq<char> {
    crate::text::padded(v as nat, 2)
}

/// Seconds as `%S` prints them (60 during a leap second).
pub open spec fn second_text(t: DateTime) -> Seq<char> {
    two(
        if t.nanosecond >= 1_000_000_000 {
            t.second + 1
        } else {
            t.second as int
        },
    )
}

/// `%Y-%m-%d`.
pub open spec fn date_text(d: Date) -> Seq<char> {
    year_text(d.year as int) + seq!['-'] + two(d.month as int) + seq!['-'] + two(d.day as int)
}

/// `%Y-%m-%dT%H:%M:%SZ`.
pub open spec fn iso_z_text(t: DateTime) -> Seq<char> {
    date_text(t.date) + seq!['T'] + two(t.hour as int) + seq![':'] + two(t.minute as int) + seq![
        ':',
    ] + second_text(t) + seq!['Z']
}

/// `%Y-%m-%dT%H%M`.
pub open spec fn compact_text(t: DateTime) -> Seq<char> {
    date_text(t.date) + seq!['T'] + two(t.hour as int) + two(t.minute as int)
}

/// Appends `%Y` of `y`.
pub fn push_year(out: &mut String, y: i32)
    ensures
        final(out)@ == old(out)@ + year_text(y as int),
{
    if 0 <= y && y <= 9999 {
        push_padded(out, y as u64, 4);
    } else if y < 0 {
        out.push('-');
        let a: i64 = -(y as i64);
        push_padded(out, a as u64, 4);
    } else {
        out.push('+');
        push_padded(out, y as u64, 4);
    }
    proof {
        assert(final(out)@ =~= old(out)@ + year_text(y as int));
    }
}

/// Appends `{:04}` of `y`.
pub fn push_int4(out: &mut String, y: i32)
    ensures
        final(out)@ == old(out)@ + int4_text(y as int),
{
    if y >= 0 {
        push_padded(out, y as u64, 4);
    } else {
        out.push('-');
        let a: i64 = -(y as i64);
        push_padded(out, a as u64, 3);
    }
    proof {
        assert(final(out)@ =~= old(out)@ + int4_text(y as int));
    }
}

/// Appends two zero-padded digits of `v`.
pub fn push_two(out: &mut String, v: u32)
    ensures
        final(out)@ == old(out)@ + two(v as int),
{
    push_padded(out, v as u64, 2);
}

/// Appends `%Y-%m-%d` of `d`.
pub fn push_date(out: &mut String, d: Date)
    ensures
        final(out)@ == old(out)@ + date_text(d),
{
    push_year(out, d.year);
    out.push('-');
    push_two(out, d.month);
    out.push('-');
    push_two(out, d.day);
    proof {
        assert(final(out)@ =~= old(out)@ + date_text(d));
    }
}

/// Appends `%Y-%m-%dT%H:%M:%SZ` of `t`.
pub fn push_iso_z(out: &mut String, t: DateTime)
    requires
        datetime_wf(t),
    ensures
        final(out)@ == old(out)@ + iso_z_text(t),
{
    push_date(out, t.date);
    out.push('T');
    push_two(out, t.hour);
    out.push(':');
    push_two(out, t.minute);
    out.push(':');
    if t.nanosecond >= 1_000_000_000 {
        push_two(out, t.second + 1);
    } else {
        push_two(out, t.second);
    }
    out.push('Z');
    proof {
        assert(final(out)@ =~= old(out)@ + iso_z_text(t));
    }
}

/// Appends `%Y-%m-%dT%H%M` of `t`.
pub fn push_compact(out: &mut String, t: DateTime)
    ensures
        final(out)@ == old(out)@ + compact_text(t),
{
    push_date(out, t.date);
    out.push('T');
    push_two(out, t.hour);
    push_two(out, t.minute);
    proof {
        assert(final(out)@ =~= old(out)@ + compact_text(t));
    }
}

/// `%Y-%m-%d` of a date, as a new string (`NaiveDate`'s `Display`).
pub fn date_to_string(d: Date) -> (s: String)
    ensures
        s@ == date_text(d),
{
    let mut s = String::new();
    push_date(&mut s, d);
    proof {
        assert(s@ =~= date_text(d));
    }
    s
}

// ----- canonical text and the chrono parsers -----------------------------

/// Digits `s[a..b]` read as a number.
pub open spec fn field(s: Seq<char>, a: int, b: int) -> nat {
    crate::text::digits_value(s.subrange(a, b))
}

/// Whether `s[a..b]` is made of ASCII digits.
pub open spec fn digits_at(s: Seq<char>, a: int, b: int) -> bool {
    crate::text::all_digits(s.subrange(a, b))
}

/// The date written by the ten characters `YYYY-MM-DD` at the start of `s`.
pub open spec fn canonical_date(s: Seq<char>) -> Date {
    Date { year: field(s, 0, 4) as i32, month: field(s, 5, 7) as u32, day: field(s, 8, 10) as u32 }
}

/// `s` is exactly `YYYY-MM-DD` with four-digit year, two-digit month and
/// day, and names an existing date.
pub open spec fn canonical_ymd(s: Seq<char>) -> bool {
    &&& s.len() == 10
    &&& digits_at(s, 0, 4)
    &&& s[4] == '-'
    &&& digits_at(s, 5, 7)
    &&& s[7] == '-'
    &&& digits_at(s, 8, 10)
    &&& date_wf(canonical_date(s))
}

/// The date-time written by `YYYY-MM-DDTHHMM`.
pub open spec fn canonical_compact_datetime(s: Seq<char>) -> DateTime {
    DateTime {
        date: canonical_date(s),
        hour: field(s, 11, 13) as u32,
        minute: field(s, 13, 15) as u32,
        second: 0,
        nanosecond: 0,
    }
}

/// `s` is exactly `YYYY-MM-DDTHHMM` naming an existing date-time.
pub open spec fn canonical_compact(s: Seq<char>) -> bool {
    &&& s.len() == 15
    &&& canonical_ymd(s.subrange(0, 10))
    &&& s[10] == 'T'
    &&& digits_at(s, 11, 13)
    &&& digits_at(s, 13, 15)
    &&& field(s, 11, 13) < 24
    &&& field(s, 13, 15) < 60
}

/// `%Y-%m-%d`
pub open spec fn ymd_format() -> Seq<char> {
    seq!['%', 'Y', '-', '%', 'm', '-', '%', 'd']
}

/// `%Y-%m-%dT%H%M`
pub open spec fn compact_format() -> Seq<char> {
    seq!['%', 'Y', '-', '%', 'm', '-', '%', 'd', 'T', '%', 'H', '%', 'M']
}

/// What `chrono::NaiveDate::parse_from_str(s, fmt)` returns.
pub uninterp spec fn chrono_naive_date_parse(s: Seq<char>, fmt: Seq<char>) -> Option<Date>;

/// What `chrono::NaiveDateTime::parse_from_str(s, fmt)` returns.
pub uninterp spec fn chrono_naive_datetime_parse(s: Seq<char>, fmt: Seq<char>) -> Option<
    DateTime,
>;

/// Calls `chrono::NaiveDate::parse_from_str(s, fmt)`. Claims: the result is
/// the named parse of `(s, fmt)`; a parsed date exists in chrono's range; and
/// with the format `%Y-%m-%d`, the canonical text `YYYY-MM-DD` of an
/// existing date parses to that date (chrono reads up to four year digits
/// and two month and day digits, then requires the input to be consumed).
/// Other accepted inputs (leading spaces, signs, one-digit fields, other
/// formats) are left to the name.
#[verifier::external_body]
pub(crate) fn naive_date_parse(s: &str, fmt: &str) -> (r: Option<Date>)
    ensures
        r == chrono_naive_date_parse(s@, fmt@),
        r matches Some(d) ==> date_wf(d),
        (fmt@ == ymd_format() && canonical_ymd(s@)) ==> r == Some(canonical_date(s@)),
{
    match chrono::NaiveDate::parse_from_str(s, fmt) {
        Ok(d) => Some(Date { year: d.year(), month: d.month(), day: d.day() }),
        Err(_) => None,
    }
}

/// Calls `chrono::NaiveDateTime::parse_from_str(s, fmt)`. Claims: the result
/// is the named parse of `(s, fmt)`; a parsed value exists in chrono's range
/// (a second field of 60 gives a leap second); with the format
/// `%Y-%m-%dT%H%M`, which has no seconds field, the seconds and nanoseconds
/// are zero, and the canonical text `YYYY-MM-DDTHHMM` parses to the
/// date-time it writes.
#[verifier::external_body]
pub(crate) fn naive_datetime_parse(s: &str, fmt: &str) -> (r: Option<DateTime>)
    ensures
        r == chrono_naive_datetime_parse(s@, fmt@),
        r matches Some(t) ==> datetime_wf(t),
        fmt@ == compact_format() ==> (r matches Some(t) ==> t.second == 0 && t.nanosecond == 0),
        (fmt@ == compact_format() && canonical_compact(s@)) ==> r == Some(
            canonical_compact_datetime(s@),
        ),
{
    match chrono::NaiveDateTime::parse_from_str(s, fmt) {
        Ok(t) => Some(DateTime {
            date: Date { year: t.year(), month: t.month(), day: t.day() },
            hour: t.hour(),
            minute: t.minute(),
            second: t.second(),
            nanosecond: t.nanosecond(),
        }),
        Err(_) => None,
    }
}

// ----- lemmas relating text and values ----------------------------------

/// Digits of `crate::text::decimal(n)` read back give `n`.
pub proof fn lemma_decimal_value(n: nat)
    ensures
        crate::text::all_digits(crate::text::decimal(n)),
        crate::text::digits_value(crate::text::decimal(n)) == n,
    decreases n,
{
    if n < 10 {
        let s = crate::text::decimal(n);
        assert(s.drop_last() =~= Seq::<char>::empty());
        assert(crate::text::digit_value(crate::text::digit_char(n)) == n);
        assert(s.last() == crate::text::digit_char(n));
        assert(crate::text::digits_value(s.drop_last()) == 0);
        assert(crate::text::digits_value(s) == crate::text::digits_value(s.drop_last()) * 10
            + crate::text::digit_value(s.last()));
    } else {
        lemma_decimal_value(n / 10);
        let s = crate::text::decimal(n);
        assert(s.drop_last() =~= crate::text::decimal(n / 10));
        assert(crate::text::digit_value(crate::text::digit_char(n % 10)) == n % 10);
        assert(s.last() == crate::text::digit_char(n % 10));
        assert((n / 10) * 10 + n % 10 == n);
        assert(crate::text::digits_value(s) == crate::text::digits_value(s.drop_last()) * 10
            + crate::text::digit_value(s.last()));
        assert forall|i: int| 0 <= i < s.len() implies crate::text::is_digit(#[trigger] s[i]) by {
            if i < s.len() - 1 {
                assert(s[i] == crate::text::decimal(n / 10)[i]);
            }
        }
    }
}

/// Leading zeros do not change the value of a digit string.
pub proof fn lemma_zeros_prefix_value(k: nat, s: Seq<char>)
    ensures
        crate::text::digits_value(crate::text::zeros(k) + s) == crate::text::digits_value(s),
    decreases s.len(), k,
{
    if s.len() == 0 {
        assert(crate::text::zeros(k) + s =~= crate::text::zeros(k));
        if k > 0 {
            assert(crate::text::zeros(k).drop_last() =~= crate::text::zeros((k - 1) as nat));
            lemma_zeros_prefix_value((k - 1) as nat, s);
            assert(crate::text::zeros((k - 1) as nat) + s =~= crate::text::zeros((k - 1) as nat));
        }
    } else {
        lemma_zeros_prefix_value(k, s.drop_last());
        assert((crate::text::zeros(k) + s).drop_last() =~= crate::text::zeros(k) + s.drop_last());
    }
}

/// `crate::text::padded(n, w)` is a digit string of value `n`, of length `w` when `n`
/// has at most `w` digits.
pub proof fn lemma_padded(n: nat, w: nat)
    ensures
        crate::text::all_digits(crate::text::padded(n, w)),
        crate::text::digits_value(crate::text::padded(n, w)) == n,
        crate::text::decimal(n).len() <= w ==> crate::text::padded(n, w).len() == w,
        crate::text::padded(n, w).len() >= w,
{
    lemma_decimal_value(n);
    let d = crate::text::decimal(n);
    if d.len() < w {
        lemma_zeros_prefix_value((w - d.len()) as nat, d);
        let p = crate::text::zeros((w - d.len()) as nat) + d;
        assert forall|i: int| 0 <= i < p.len() implies crate::text::is_digit(#[trigger] p[i]) by {
            if i >= w - d.len() {
                assert(p[i] == d[i - (w - d.len())]);
            }
        }
    }
}

/// `crate::text::decimal(n)` of a number below `10^k` has at most `k` digits.
pub proof fn lemma_decimal_small(n: nat, k: nat)
    requires
        1 <= k,
        n < crate::text::pow10(k),
    ensures
        crate::text::decimal(n).len() <= k,
{
    crate::text::lemma_decimal_len_pow(n, k);
}

/// A date with a year in 0..=9999 is written in canonical form, and that
/// form reads back as the same date.
pub proof fn lemma_date_text_canonical(d: Date)
    requires
        date_wf(d),
        0 <= d.year <= 9999,
    ensures
        canonical_ymd(date_text(d)),
        canonical_date(date_text(d)) == d,
{
    reveal_with_fuel(crate::text::pow10, 5);
    lemma_decimal_small(d.year as nat, 4);
    lemma_decimal_small(d.month as nat, 2);
    lemma_decimal_small(d.day as nat, 2);
    lemma_padded(d.year as nat, 4);
    lemma_padded(d.month as nat, 2);
    lemma_padded(d.day as nat, 2);
    let s = date_text(d);
    let y = crate::text::padded(d.year as nat, 4);
    let m = crate::text::padded(d.month as nat, 2);
    let dd = crate::text::padded(d.day as nat, 2);
    assert(s =~= y + seq!['-'] + m + seq!['-'] + dd);
    assert(s.subrange(0, 4) =~= y);
    assert(s.subrange(5, 7) =~= m);
    assert(s.subrange(8, 10) =~= dd);
}

/// A date-time with a year in 0..=9999 and zero seconds is written by
/// `%Y-%m-%dT%H%M` in canonical form, and that form reads back as itself.
pub proof fn lemma_compact_text_canonical(t: DateTime)
    requires
        datetime_wf(t),
        0 <= t.date.year <= 9999,
        t.second == 0,
        t.nanosecond == 0,
    ensures
        canonical_compact(compact_text(t)),
        canonical_compact_datetime(compact_text(t)) == t,
{
    reveal_with_fuel(crate::text::pow10, 5);
    lemma_date_text_canonical(t.date);
    lemma_decimal_small(t.hour as nat, 2);
    lemma_decimal_small(t.minute as nat, 2);
    lemma_padded(t.hour as nat, 2);
    lemma_padded(t.minute as nat, 2);
    let s = compact_text(t);
    let dt = date_text(t.date);
    let h = two(t.hour as int);
    let mi = two(t.minute as int);
    assert(s =~= dt + seq!['T'] + h + mi);
    assert(s.subrange(0, 10) =~= dt);
    assert(s.subrange(11, 13) =~= h);
    assert(s.subrange(13, 15) =~= mi);
    assert(s.subrange(0, 4) =~= dt.subrange(0, 4));
    assert(s.subrange(5, 7) =~= dt.subrange(5, 7));
    assert(s.subrange(8, 10) =~= dt.subrange(8, 10));
}

} // verus!
