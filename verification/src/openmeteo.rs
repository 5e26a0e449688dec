//! Decisions of the ARPEGE Europe forecast run over Open-Meteo's
//! `data_spatial` files: which model run to read, the URL of an hourly
//! file, which hours of a day to fetch, and the days a run recomputes.

use vstd::prelude::*;

use crate::keys::trim_end_slashes;
use crate::time::{
    midnight_of, pred_date, push_compact, push_int4, push_two, push_year, succ_date, Date,
    DateTime,
};

verus! {

/// Default base URL of the map tiles service.
pub const DEFAULT_BASE: &'static str = "https://map-tiles.open-meteo.com";

/// Domain of the ARPEGE Europe files.
pub const DOMAIN: &'static str = "meteofrance_arpege_europe";

/// Hours after 00 UTC from which the 00Z run is taken as published.
pub const RUN_PUBLISH_DELAY_H: u32 = 6;

/// Hours a daily mean needs.
pub const HOURS_PER_DAY: usize = 24;

/// The model run to read at `now`: today's 00Z run once it is published,
/// yesterday's 00Z run before (both cover the whole of today).
pub open spec fn latest_model_run_spec(now: DateTime) -> DateTime {
    if now.hour >= RUN_PUBLISH_DELAY_H {
        crate::time::midnight(now.date)
    } else {
        crate::time::midnight(crate::time::pred_spec(now.date))
    }
}

/// Selects the most recent 00Z run supposed published at `now`.
pub fn latest_model_run(now: DateTime) -> (r: DateTime)
    requires
        crate::time::datetime_wf(now),
        now.hour < RUN_PUBLISH_DELAY_H ==> !crate::time::is_min_date(now.date),
    ensures
        r == latest_model_run_spec(now),
        crate::time::datetime_wf(r),
{
    if now.hour >= RUN_PUBLISH_DELAY_H {
        midnight_of(now.date)
    } else {
        midnight_of(pred_date(now.date))
    }
}

/// The chosen run is a 00Z run, at least the publication delay before
/// `now`, and the latest such run: the next 00Z run is less than the delay
/// before `now` (or after it).
pub proof fn latest_model_run_is_latest_published(now: DateTime)
    requires
        crate::time::datetime_wf(now),
        now.hour < RUN_PUBLISH_DELAY_H ==> !crate::time::is_min_date(now.date),
    ensures
        latest_model_run_spec(now).hour == 0 && latest_model_run_spec(now).minute == 0,
        now.hour >= RUN_PUBLISH_DELAY_H ==> latest_model_run_spec(now).date == now.date,
        now.hour < RUN_PUBLISH_DELAY_H ==> crate::time::succ_spec(
            latest_model_run_spec(now).date,
        ) == now.date,
{
}

/// URL of the hourly file of `time` in `model_run`:
/// `{base}/data_spatial/{domain}/{Y:04}/{M:02}/{D:02}/{HH:02}{mm:02}Z/{time %Y-%m-%dT%H%M}.om`.
pub open spec fn url_for_hour_spec(base: Seq<char>, model_run: DateTime, time: DateTime) -> Seq<
    char,
> {
    crate::keys::trim_end_char(base, '/') + "/data_spatial/"@ + DOMAIN@ + seq!['/']
        + crate::time::int4_text(model_run.date.year as int) + seq!['/'] + crate::time::two(
        model_run.date.month as int,
    ) + seq!['/'] + crate::time::two(model_run.date.day as int) + seq!['/'] + crate::time::two(
        model_run.hour as int,
    ) + crate::time::two(model_run.minute as int) + seq!['Z', '/'] + crate::time::compact_text(
        time,
    ) + ".om"@
}

/// URL of the hourly ARPEGE Europe file of `time` in `model_run`.
pub fn url_for_hour(base: &str, model_run: DateTime, time: DateTime) -> (r: String)
    ensures
        r@ == url_for_hour_spec(base@, model_run, time),
{
    let mut s = trim_end_slashes(base);
    s.append("/data_spatial/");
    s.append(DOMAIN);
    s.push('/');
    push_int4(&mut s, model_run.date.year);
    s.push('/');
    push_two(&mut s, model_run.date.month);
    s.push('/');
    push_two(&mut s, model_run.date.day);
    s.push('/');
    push_two(&mut s, model_run.hour);
    push_two(&mut s, model_run.minute);
    s.push('Z');
    s.push('/');
    push_compact(&mut s, time);
    s.append(".om");
    proof {
        assert(s@ =~= url_for_hour_spec(base@, model_run, time));
    }
    s
}

/// `day` at `h`:00:00.
pub open spec fn at_hour(day: Date, h: int) -> DateTime {
    DateTime { date: day, hour: h as u32, minute: 0, second: 0, nanosecond: 0 }
}

/// The hours of `day` to fetch from `model_run`: in increasing order, the
/// hours `h` of 0..24 whose instant is not before the run.
pub fn hours_to_fetch(day: Date, model_run: DateTime) -> (r: Vec<u32>)
    ensures
        forall|i: int, j: int| 0 <= i < j < r@.len() ==> r@[i] < r@[j],
        forall|h: u32|
            r@.contains(h) <==> (h < 24 && !crate::time::datetime_lt(
                at_hour(day, h as int),
                model_run,
            )),
{
    let mut r: Vec<u32> = Vec::new();
    let mut h: u32 = 0;
    while h < 24
        invariant
            h <= 24,
            forall|i: int, j: int| 0 <= i < j < r@.len() ==> r@[i] < r@[j],
            forall|k: int| 0 <= k < r@.len() ==> r@[k] < h,
            forall|x: u32|
                r@.contains(x) <==> (x < h && !crate::time::datetime_lt(
                    at_hour(day, x as int),
                    model_run,
                )),
        decreases 24 - h,
    {
        let t = DateTime { date: day, hour: h, minute: 0, second: 0, nanosecond: 0 };
        let ghost before = r@;
        if !crate::time::datetime_before(t, model_run) {
            r.push(h);
            proof {
                assert forall|x: u32|
                    r@.contains(x) <==> (x < h + 1 && !crate::time::datetime_lt(
                        at_hour(day, x as int),
                        model_run,
                    )) by {
                    if r@.contains(x) {
                        let k = choose|k: int| 0 <= k < r@.len() && r@[k] == x;
                        if k < before.len() {
                            assert(before[k] == x);
                            assert(before.contains(x));
                        }
                    }
                    if x == h {
                        assert(r@[before.len() as int] == h);
                    } else if x < h && !crate::time::datetime_lt(at_hour(day, x as int), model_run) {
                        assert(before.contains(x));
                        let k = choose|k: int| 0 <= k < before.len() && before[k] == x;
                        assert(r@[k] == x);
                    }
                }
            }
        } else {
            proof {
                assert forall|x: u32|
                    r@.contains(x) <==> (x < h + 1 && !crate::time::datetime_lt(
                        at_hour(day, x as int),
                        model_run,
                    )) by {
                    if x == h {
                        assert(at_hour(day, x as int) == t);
                        if r@.contains(x) {
                            let k = choose|k: int| 0 <= k < r@.len() && r@[k] == x;
                        }
                    }
                }
            }
        }
        h = h + 1;
    }
    r
}

/// A 00Z run covers every hour of its own day and of the days after it:
/// none of the 24 hours of such a day is before the run, so all of them
/// are fetched and the daily mean spans the whole day.
pub proof fn zero_z_run_covers_whole_days(run_day: Date, day: Date, h: int)
    requires
        run_day == day || crate::time::date_lt(run_day, day),
        0 <= h < 24,
    ensures
        !crate::time::datetime_lt(at_hour(day, h), crate::time::midnight(run_day)),
{
}

/// Whether enough hours were fetched for an unbiased daily mean.
pub fn day_is_complete(hours_available: usize) -> (r: bool)
    ensures
        r == (hours_available >= HOURS_PER_DAY),
{
    hours_available >= HOURS_PER_DAY
}

/// `arpege_europe_{%Y%m%dT%HZ}` of the run: the source recorded in the
/// metadata of a forecast anomaly file.
pub open spec fn source_label_spec(model_run: DateTime) -> Seq<char> {
    "arpege_europe_"@ + crate::time::year_text(model_run.date.year as int) + crate::time::two(
        model_run.date.month as int,
    ) + crate::time::two(model_run.date.day as int) + seq!['T'] + crate::time::two(
        model_run.hour as int,
    ) + seq!['Z']
}

/// The source recorded in the metadata of a forecast anomaly file.
pub fn source_label(model_run: DateTime) -> (r: String)
    ensures
        r@ == source_label_spec(model_run),
{
    let mut s = String::from_str("arpege_europe_");
    push_year(&mut s, model_run.date.year);
    push_two(&mut s, model_run.date.month);
    push_two(&mut s, model_run.date.day);
    s.push('T');
    push_two(&mut s, model_run.hour);
    s.push('Z');
    proof {
        assert(s@ =~= source_label_spec(model_run));
    }
    s
}

/// The days `today`, `today + 1`, …, `today + days_ahead` (none when
/// `days_ahead` is negative).
pub fn days_ahead_of(today: Date, days_ahead: i64) -> (r: Vec<Date>)
    requires
        crate::time::date_wf(today),
        forall|k: nat|
            k < days_ahead ==> !crate::time::is_max_date(
                #[trigger] crate::time::add_days_spec(today, k),
            ),
    ensures
        days_ahead < 0 ==> r@.len() == 0,
        days_ahead >= 0 ==> r@.len() == days_ahead + 1,
        forall|k: int| 0 <= k < r@.len() ==> r@[k] == crate::time::add_days_spec(today, k as nat),
        forall|k: int| 0 <= k < r@.len() ==> crate::time::date_wf(r@[k]),
{
    let mut r: Vec<Date> = Vec::new();
    if days_ahead < 0 {
        return r;
    }
    let mut cur = today;
    let mut k: i64 = 0;
    r.push(cur);
    while k < days_ahead
        invariant
            0 <= k <= days_ahead,
            crate::time::date_wf(today),
            forall|j: nat|
                j < days_ahead ==> !crate::time::is_max_date(
                    #[trigger] crate::time::add_days_spec(today, j),
                ),
            cur == crate::time::add_days_spec(today, k as nat),
            crate::time::date_wf(cur),
            r@.len() == k + 1,
            forall|j: int| 0 <= j < r@.len() ==> r@[j] == crate::time::add_days_spec(today, j as nat),
            forall|j: int| 0 <= j < r@.len() ==> crate::time::date_wf(r@[j]),
        decreases days_ahead - k,
    {
        proof {
            assert(!crate::time::is_max_date(crate::time::add_days_spec(today, k as nat)));
        }
        cur = succ_date(cur);
        k = k + 1;
        r.push(cur);
        proof {
            assert(crate::time::add_days_spec(today, k as nat) == crate::time::succ_spec(
                crate::time::add_days_spec(today, (k - 1) as nat),
            ));
        }
    }
    r
}

/// The days `today - 1`, …, `today - count` (none when `count` is not
/// positive).
pub fn days_back_of(today: Date, count: i64) -> (r: Vec<Date>)
    requires
        crate::time::date_wf(today),
        forall|k: nat|
            k < count ==> !crate::time::is_min_date(
                #[trigger] crate::time::sub_days_spec(today, k),
            ),
    ensures
        count <= 0 ==> r@.len() == 0,
        count > 0 ==> r@.len() == count,
        forall|k: int|
            0 <= k < r@.len() ==> r@[k] == crate::time::sub_days_spec(today, (k + 1) as nat),
        forall|k: int| 0 <= k < r@.len() ==> crate::time::date_wf(r@[k]),
{
    let mut r: Vec<Date> = Vec::new();
    let mut cur = today;
    let mut k: i64 = 0;
    while k < count
        invariant
            0 <= k,
            k <= count || count <= 0,
            count <= 0 ==> k == 0,
            crate::time::date_wf(today),
            forall|j: nat|
                j < count ==> !crate::time::is_min_date(
                    #[trigger] crate::time::sub_days_spec(today, j),
                ),
            cur == crate::time::sub_days_spec(today, k as nat),
            crate::time::date_wf(cur),
            r@.len() == k,
            forall|j: int|
                0 <= j < r@.len() ==> r@[j] == crate::time::sub_days_spec(today, (j + 1) as nat),
            forall|j: int| 0 <= j < r@.len() ==> crate::time::date_wf(r@[j]),
        decreases count - k,
    {
        proof {
            assert(!crate::time::is_min_date(crate::time::sub_days_spec(today, k as nat)));
        }
        cur = pred_date(cur);
        k = k + 1;
        r.push(cur);
        proof {
            assert(crate::time::sub_days_spec(today, k as nat) == crate::time::pred_spec(
                crate::time::sub_days_spec(today, (k - 1) as nat),
            ));
        }
    }
    r
}

/// `today` moved `count` days back (forward when `count` is negative).
pub open spec fn shift_back_spec(today: Date, count: int) -> Date {
    if count >= 0 {
        crate::time::sub_days_spec(today, count as nat)
    } else {
        crate::time::add_days_spec(today, (-count) as nat)
    }
}

/// `today` moved `count` days back (forward when `count` is negative),
/// as `today - Duration::days(count)`.
pub fn date_minus_days(today: Date, count: i64) -> (r: Date)
    requires
        crate::time::date_wf(today),
        count >= 0 ==> forall|k: nat|
            k < count ==> !crate::time::is_min_date(
                #[trigger] crate::time::sub_days_spec(today, k),
            ),
        count < 0 ==> forall|k: nat|
            k < -count ==> !crate::time::is_max_date(
                #[trigger] crate::time::add_days_spec(today, k),
            ),
    ensures
        r == shift_back_spec(today, count as int),
        crate::time::date_wf(r),
{
    let mut cur = today;
    if count >= 0 {
        let mut k: i64 = 0;
        while k < count
            invariant
                0 <= k <= count,
                crate::time::date_wf(today),
                forall|j: nat|
                    j < count ==> !crate::time::is_min_date(
                        #[trigger] crate::time::sub_days_spec(today, j),
                    ),
                cur == crate::time::sub_days_spec(today, k as nat),
                crate::time::date_wf(cur),
            decreases count - k,
        {
            proof {
                assert(!crate::time::is_min_date(crate::time::sub_days_spec(today, k as nat)));
            }
            cur = pred_date(cur);
            k = k + 1;
        }
    } else {
        let mut k: i64 = 0;
        while k > count
            invariant
                count <= k <= 0,
                crate::time::date_wf(today),
                forall|j: nat|
                    j < -count ==> !crate::time::is_max_date(
                        #[trigger] crate::time::add_days_spec(today, j),
                    ),
                cur == crate::time::add_days_spec(today, (-k) as nat),
                crate::time::date_wf(cur),
            decreases k - count,
        {
            proof {
                assert(!crate::time::is_max_date(crate::time::add_days_spec(today, (-k) as nat)));
            }
            cur = succ_date(cur);
            k = k - 1;
        }
    }
    cur
}

} // verus!
