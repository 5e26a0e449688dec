//! The time axis of the ERA5 hourly NetCDF files (`hours since …` or
//! `seconds since …` an epoch), and the names of the ERA5 files.

use vstd::prelude::*;

use chrono::{Datelike, Timelike};

use crate::text::{strip_prefix_str, trim};
use crate::time::{naive_date_parse, naive_datetime_parse, Date, DateTime};

verus! {

/// Unit of the values of a time axis.
#[derive(Debug, Clone, Copy, PartialEq, Eq, Structural)]
pub enum TimeUnit {
    Hours,
    Seconds,
}

/// Why a time axis cannot be read.
#[derive(Debug, Clone, PartialEq, Eq)]
pub enum TimeAxisError {
    /// The units (trimmed) start with neither `hours since ` nor `seconds since `.
    UnsupportedUnits(String),
    /// The epoch text (trimmed) is in none of the accepted forms.
    BadEpoch(String),
    /// The axis has no value.
    EmptyAxis,
}

/// `hours since `
pub open spec fn hours_since() -> Seq<char> {
    "hours since "@
}

/// `seconds since `
pub open spec fn seconds_since() -> Seq<char> {
    "seconds since "@
}

/// Unit and trimmed epoch text of trimmed units `hours since <epoch>` or
/// `seconds since <epoch>`; none for other units.
pub open spec fn units_split(units: Seq<char>) -> Option<(TimeUnit, Seq<char>)> {
    let t = crate::text::trim_spec(units);
    match crate::text::strip_prefix_spec(t, hours_since()) {
        Some(rest) => Some((TimeUnit::Hours, crate::text::trim_spec(rest))),
        None => match crate::text::strip_prefix_spec(t, seconds_since()) {
            Some(rest) => Some((TimeUnit::Seconds, crate::text::trim_spec(rest))),
            None => None,
        },
    }
}

/// The epoch read from its text, trying in turn `%Y-%m-%d %H:%M:%S`,
/// `%Y-%m-%d %H:%M:%S%.f`, `%Y-%m-%dT%H:%M:%S` and, as a date at midnight,
/// `%Y-%m-%d`.
pub open spec fn epoch_spec(rest: Seq<char>) -> Option<DateTime> {
    match crate::time::chrono_naive_datetime_parse(rest, "%Y-%m-%d %H:%M:%S"@) {
        Some(t) => Some(t),
        None => match crate::time::chrono_naive_datetime_parse(rest, "%Y-%m-%d %H:%M:%S%.f"@) {
            Some(t) => Some(t),
            None => match crate::time::chrono_naive_datetime_parse(rest, "%Y-%m-%dT%H:%M:%S"@) {
                Some(t) => Some(t),
                None => match crate::time::chrono_naive_date_parse(rest, "%Y-%m-%d"@) {
                    Some(d) => Some(crate::time::midnight(d)),
                    None => None,
                },
            },
        },
    }
}

/// Largest number of seconds a `chrono::TimeDelta` holds.
pub open spec fn max_delta_secs() -> int {
    i64::MAX / 1000
}

/// What `chrono` gives for `t` plus `secs` seconds: none when the delta or
/// the result is out of range.
pub uninterp spec fn chrono_add_seconds(t: DateTime, secs: int) -> Option<DateTime>;

/// Calls `chrono::TimeDelta::try_seconds(secs)` and
/// `NaiveDateTime::checked_add_signed`. Claims: the result is the named sum
/// of `(t, secs)`; it is none when `secs` is beyond `i64::MAX / 1000`
/// seconds either way (the documented range of a `TimeDelta`); a result is a
/// date-time in chrono's range.
#[verifier::external_body]
fn checked_add_seconds(t: DateTime, secs: i64) -> (r: Option<DateTime>)
    requires
        crate::time::datetime_wf(t),
    ensures
        r == chrono_add_seconds(t, secs as int),
        (secs > max_delta_secs() || secs < -max_delta_secs()) ==> r is None,
        r matches Some(u) ==> crate::time::datetime_wf(u),
{
    let nd = chrono::NaiveDate::from_ymd_opt(t.date.year, t.date.month, t.date.day)?;
    let ndt = nd.and_hms_nano_opt(t.hour, t.minute, t.second, t.nanosecond)?;
    let u = ndt.checked_add_signed(chrono::TimeDelta::try_seconds(secs)?)?;
    Some(DateTime {
        date: Date { year: u.year(), month: u.month(), day: u.day() },
        hour: u.hour(),
        minute: u.minute(),
        second: u.second(),
        nanosecond: u.nanosecond(),
    })
}

/// First instant of the axis: the epoch plus the first value, in the unit
/// of the axis; none where chrono's arithmetic overflows.
pub open spec fn axis_start_spec(epoch: DateTime, unit: TimeUnit, first: i64) -> Option<DateTime> {
    match unit {
        TimeUnit::Hours => if first * 3600 < i64::MIN || first * 3600 > i64::MAX {
            None
        } else {
            chrono_add_seconds(epoch, first * 3600)
        },
        TimeUnit::Seconds => chrono_add_seconds(epoch, first as int),
    }
}

/// Integer division rounding toward zero, as Rust's `/`.
pub open spec fn div_toward_zero(a: int, b: int) -> int {
    if a >= 0 {
        a / b
    } else {
        -((-a) / b)
    }
}

/// Step of the axis in hours, from its first two values (1 for a single
/// value); seconds are divided by 3600, rounding toward zero.
pub open spec fn axis_step_spec(unit: TimeUnit, values: Seq<i64>) -> int {
    if values.len() >= 2 {
        let d = values[1] - values[0];
        match unit {
            TimeUnit::Hours => d,
            TimeUnit::Seconds => div_toward_zero(d, 3600),
        }
    } else {
        1
    }
}

/// Whether reading the axis overflows: the start is out of chrono's range
/// or the difference of the first two values out of `i64`.
pub open spec fn axis_overflows(unit: TimeUnit, epoch: DateTime, values: Seq<i64>) -> bool {
    ||| axis_start_spec(epoch, unit, values[0]) is None
    ||| (values.len() >= 2 && (values[1] - values[0] < i64::MIN || values[1] - values[0]
        > i64::MAX))
}

/// Splits trimmed units into their unit and trimmed epoch text.
pub fn split_time_units(units: &str) -> (r: Result<(TimeUnit, String), TimeAxisError>)
    ensures
        match units_split(units@) {
            None => r matches Err(TimeAxisError::UnsupportedUnits(u)) && u@
                == crate::text::trim_spec(units@),
            Some((unit, rest)) => r matches Ok((ru, rr)) && ru == unit && rr@ == rest,
        },
{
    let t = trim(units);
    let hs = "hours since ";
    let ss = "seconds since ";
    proof {
        reveal_strlit("hours since ");
        reveal_strlit("seconds since ");
    }
    match strip_prefix_str(t.as_str(), hs) {
        Some(rest) => Ok((TimeUnit::Hours, trim(rest.as_str()))),
        None => match strip_prefix_str(t.as_str(), ss) {
            Some(rest) => Ok((TimeUnit::Seconds, trim(rest.as_str()))),
            None => Err(TimeAxisError::UnsupportedUnits(t)),
        },
    }
}

/// Reads the epoch of a time axis (see [`epoch_spec`]).
pub fn parse_epoch(rest: &str) -> (r: Option<DateTime>)
    ensures
        r == epoch_spec(rest@),
        r matches Some(t) ==> crate::time::datetime_wf(t),
{
    match naive_datetime_parse(rest, "%Y-%m-%d %H:%M:%S") {
        Some(t) => Some(t),
        None => match naive_datetime_parse(rest, "%Y-%m-%d %H:%M:%S%.f") {
            Some(t) => Some(t),
            None => match naive_datetime_parse(rest, "%Y-%m-%dT%H:%M:%S") {
                Some(t) => Some(t),
                None => match naive_date_parse(rest, "%Y-%m-%d") {
                    Some(d) => Some(crate::time::midnight_of(d)),
                    None => None,
                },
            },
        },
    }
}

/// First instant of an axis (see [`axis_start_spec`]).
fn axis_start(epoch: DateTime, unit: TimeUnit, first: i64) -> (r: Option<DateTime>)
    requires
        crate::time::datetime_wf(epoch),
    ensures
        r == axis_start_spec(epoch, unit, first),
{
    match unit {
        TimeUnit::Hours => match first.checked_mul(3600) {
            Some(s) => checked_add_seconds(epoch, s),
            None => None,
        },
        TimeUnit::Seconds => checked_add_seconds(epoch, first),
    }
}

/// Reads a time axis: its first instant and its step in hours. Units are
/// `hours since <epoch>` or `seconds since <epoch>` (surrounding spaces
/// allowed); the step comes from the first two values (1 for a single
/// value). Defined where chrono's arithmetic does not overflow.
pub fn parse_time_axis(units: &str, values: &[i64]) -> (r: Result<(DateTime, i64), TimeAxisError>)
    requires
        units_split(units@) matches Some((unit, rest)) ==> (epoch_spec(rest) matches Some(epoch)
            ==> (values@.len() > 0 ==> !axis_overflows(unit, epoch, values@))),
    ensures
        match units_split(units@) {
            None => r matches Err(TimeAxisError::UnsupportedUnits(u)) && u@
                == crate::text::trim_spec(units@),
            Some((unit, rest)) => match epoch_spec(rest) {
                None => r matches Err(TimeAxisError::BadEpoch(x)) && x@ == rest,
                Some(epoch) => if values@.len() == 0 {
                    r == Err::<(DateTime, i64), TimeAxisError>(TimeAxisError::EmptyAxis)
                } else {
                    r matches Ok((start, step)) && Some(start) == axis_start_spec(
                        epoch,
                        unit,
                        values@[0],
                    ) && step == axis_step_spec(unit, values@)
                },
            },
        },
{
    let (unit, rest) = match split_time_units(units) {
        Ok(p) => p,
        Err(e) => {
            return Err(e);
        },
    };
    let epoch = match parse_epoch(rest.as_str()) {
        Some(t) => t,
        None => {
            return Err(TimeAxisError::BadEpoch(rest));
        },
    };
    if values.len() == 0 {
        return Err(TimeAxisError::EmptyAxis);
    }
    let first = values[0];
    let start = axis_start(epoch, unit, first).unwrap();
    let step: i64 = if values.len() >= 2 {
        let d = values[1] - values[0];
        match unit {
            TimeUnit::Hours => d,
            TimeUnit::Seconds => d / 3600,
        }
    } else {
        1
    };
    Ok((start, step))
}

/// [`parse_time_axis`] where chrono's arithmetic does not overflow; none
/// where it does (reading the start or the step would fail).
pub fn try_parse_time_axis(units: &str, values: &[i64]) -> (r: Option<
    Result<(DateTime, i64), TimeAxisError>,
>)
    ensures
        match units_split(units@) {
            None => r matches Some(Err(TimeAxisError::UnsupportedUnits(u))) && u@
                == crate::text::trim_spec(units@),
            Some((unit, rest)) => match epoch_spec(rest) {
                None => r matches Some(Err(TimeAxisError::BadEpoch(x))) && x@ == rest,
                Some(epoch) => if values@.len() == 0 {
                    r == Some(Err::<(DateTime, i64), TimeAxisError>(TimeAxisError::EmptyAxis))
                } else if axis_overflows(unit, epoch, values@) {
                    r is None
                } else {
                    r matches Some(Ok((start, step))) && Some(start) == axis_start_spec(
                        epoch,
                        unit,
                        values@[0],
                    ) && step == axis_step_spec(unit, values@)
                },
            },
        },
{
    let (unit, rest) = match split_time_units(units) {
        Ok(p) => p,
        Err(e) => {
            return Some(Err(e));
        },
    };
    let epoch = match parse_epoch(rest.as_str()) {
        Some(t) => t,
        None => {
            return Some(Err(TimeAxisError::BadEpoch(rest)));
        },
    };
    if values.len() == 0 {
        return Some(Err(TimeAxisError::EmptyAxis));
    }
    if axis_start(epoch, unit, values[0]).is_none() {
        return None;
    }
    if values.len() >= 2 {
        if values[0] < 0 && values[1] > i64::MAX + values[0] {
            return None;
        }
        if values[0] > 0 && values[1] < i64::MIN + values[0] {
            return None;
        }
    }
    Some(parse_time_axis(units, values))
}

// ----- ERA5 downloads and files --------------------------------------------

/// Result of an attempt to download one day of ERA5.
#[derive(Debug, Clone, Copy, PartialEq, Eq, Structural)]
pub enum DownloadOutcome {
    /// The NetCDF file was written.
    Downloaded,
    /// The day is not published yet on ERA5/ERA5T (about five days of
    /// delay): expected, retried at the next run; not an error.
    NotAvailableYet,
}

/// Exit code of the download script for a day not published yet.
pub const EXIT_NOT_AVAILABLE_YET: i32 = 3;

/// A failed download: the script's exit code (none when killed by a signal).
#[derive(Debug, Clone, Copy, PartialEq, Eq, Structural)]
pub struct DownloadFailed {
    pub exit_code: Option<i32>,
}

/// Reads the exit status of the download script: 0 is a download, 3 a day
/// not published yet, anything else (or no code) a failure.
pub fn download_outcome(exit_code: Option<i32>) -> (r: Result<DownloadOutcome, DownloadFailed>)
    ensures
        exit_code == Some(0i32) ==> r == Ok::<DownloadOutcome, DownloadFailed>(
            DownloadOutcome::Downloaded,
        ),
        exit_code == Some(EXIT_NOT_AVAILABLE_YET) ==> r == Ok::<DownloadOutcome, DownloadFailed>(
            DownloadOutcome::NotAvailableYet,
        ),
        (exit_code != Some(0i32) && exit_code != Some(EXIT_NOT_AVAILABLE_YET)) ==> r == Err::<
            DownloadOutcome,
            DownloadFailed,
        >(DownloadFailed { exit_code }),
{
    match exit_code {
        Some(0) => Ok(DownloadOutcome::Downloaded),
        Some(3) => Ok(DownloadOutcome::NotAvailableYet),
        other => Err(DownloadFailed { exit_code: other }),
    }
}

/// Decimal text of an integer, with `-` when negative (`Display` of `i32`).
pub open spec fn int_text(y: int) -> Seq<char> {
    if y < 0 {
        seq!['-'] + crate::text::decimal((-y) as nat)
    } else {
        crate::text::decimal(y as nat)
    }
}

/// Appends the decimal text of `y`.
fn push_int(out: &mut String, y: i32)
    ensures
        final(out)@ == old(out)@ + int_text(y as int),
{
    if y < 0 {
        out.push('-');
        let a: i64 = -(y as i64);
        crate::text::push_decimal(out, a as u64);
    } else {
        crate::text::push_decimal(out, y as u64);
    }
    proof {
        assert(final(out)@ =~= old(out)@ + int_text(y as int));
    }
}

/// Name of the yearly ERA5 file: `era5_2m_temperature_{year}.nc`.
pub open spec fn annual_file_spec(year: i32) -> Seq<char> {
    "era5_2m_temperature_"@ + int_text(year as int) + ".nc"@
}

/// Name of the yearly ERA5 file read by the climatology build.
pub fn annual_file_name(year: i32) -> (r: String)
    ensures
        r@ == annual_file_spec(year),
{
    let mut s = String::from_str("era5_2m_temperature_");
    push_int(&mut s, year);
    s.append(".nc");
    s
}

/// Name of the daily ERA5 file: `era5_{YYYY-MM-DD}.nc`.
pub open spec fn day_file_spec(day: Date) -> Seq<char> {
    "era5_"@ + crate::time::date_text(day) + ".nc"@
}

/// Name of the daily ERA5 file downloaded by the observed run.
pub fn day_file_name(day: Date) -> (r: String)
    ensures
        r@ == day_file_spec(day),
{
    let mut s = String::from_str("era5_");
    crate::time::push_date(&mut s, day);
    s.append(".nc");
    s
}

/// Source of the climatology: `era5_{start}-{end}`.
pub open spec fn climatology_source_spec(start: i32, end: i32) -> Seq<char> {
    "era5_"@ + int_text(start as int) + seq!['-'] + int_text(end as int)
}

/// The source recorded in the metadata of a climatology file.
pub fn climatology_source(start: i32, end: i32) -> (r: String)
    ensures
        r@ == climatology_source_spec(start, end),
{
    let mut s = String::from_str("era5_");
    push_int(&mut s, start);
    s.push('-');
    push_int(&mut s, end);
    proof {
        assert(s@ =~= climatology_source_spec(start, end));
    }
    s
}

/// The years `start..=end` (none when `start > end`).
pub fn year_range(start: i32, end: i32) -> (r: Vec<i32>)
    ensures
        r@.len() == (if start <= end {
            end - start + 1
        } else {
            0
        }),
        forall|k: int| 0 <= k < r@.len() ==> r@[k] == start + k,
{
    let mut r: Vec<i32> = Vec::new();
    if start > end {
        return r;
    }
    let mut y: i32 = start;
    loop
        invariant_except_break
            start <= y <= end,
            r@.len() == y - start,
        invariant
            forall|k: int| 0 <= k < r@.len() ==> r@[k] == start + k,
        ensures
            r@.len() == end - start + 1,
        decreases end - y,
    {
        r.push(y);
        if y == end {
            break;
        }
        y = y + 1;
    }
    r
}

} // verus!
