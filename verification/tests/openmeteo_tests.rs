use infoclimat_pipelines::openmeteo::{
    date_minus_days, day_is_complete, days_ahead_of, days_back_of, hours_to_fetch,
    latest_model_run, source_label, url_for_hour,
};
use infoclimat_pipelines::time::{Date, DateTime};

fn date(year: i32, month: u32, day: u32) -> Date {
    Date { year, month, day }
}

fn utc(year: i32, month: u32, day: u32, hour: u32, minute: u32, second: u32) -> DateTime {
    DateTime { date: date(year, month, day), hour, minute, second, nanosecond: 0 }
}

#[test]
fn latest_run_at_midnight_returns_previous_day_00z() {
    // 00:00 UTC: today's 00Z is not published yet (< 06Z) → 00Z D-1.
    let now = utc(2026, 5, 26, 0, 0, 0);
    assert_eq!(latest_model_run(now), utc(2026, 5, 25, 0, 0, 0));
}

#[test]
fn latest_run_at_07h30_returns_today_00z() {
    let now = utc(2026, 5, 26, 7, 30, 0);
    assert_eq!(latest_model_run(now), utc(2026, 5, 26, 0, 0, 0));
}

#[test]
fn latest_run_at_13h05_returns_today_00z() {
    let now = utc(2026, 5, 26, 13, 5, 0);
    assert_eq!(latest_model_run(now), utc(2026, 5, 26, 0, 0, 0));
}

#[test]
fn latest_run_before_publish_delay_returns_yesterday_00z() {
    let now = utc(2026, 5, 26, 3, 0, 0);
    assert_eq!(latest_model_run(now), utc(2026, 5, 25, 0, 0, 0));
}

#[test]
fn latest_run_exactly_at_publish_delay_returns_today_00z() {
    let now = utc(2026, 5, 26, 6, 0, 0);
    assert_eq!(latest_model_run(now), utc(2026, 5, 26, 0, 0, 0));
}

#[test]
fn url_for_hour_format() {
    let run = utc(2026, 5, 26, 0, 0, 0);
    let time = utc(2026, 5, 26, 3, 0, 0);
    let url = url_for_hour("https://example.test", run, time);
    assert_eq!(
        url,
        "https://example.test/data_spatial/meteofrance_arpege_europe/2026/05/26/0000Z/2026-05-26T0300.om"
    );
}

#[test]
fn hours_before_the_run_are_not_fetched() {
    let run = utc(2026, 5, 26, 6, 0, 0);
    assert_eq!(hours_to_fetch(date(2026, 5, 26), run), (6..24).collect::<Vec<u32>>());
    assert_eq!(hours_to_fetch(date(2026, 5, 27), run), (0..24).collect::<Vec<u32>>());
    assert!(hours_to_fetch(date(2026, 5, 25), run).is_empty());
    assert!(day_is_complete(24));
    assert!(!day_is_complete(18));
}

#[test]
fn days_of_a_run() {
    let today = date(2026, 12, 30);
    assert_eq!(
        days_ahead_of(today, 2),
        vec![date(2026, 12, 30), date(2026, 12, 31), date(2027, 1, 1)]
    );
    assert!(days_ahead_of(today, -1).is_empty());
    assert_eq!(days_back_of(date(2026, 3, 2), 2), vec![date(2026, 3, 1), date(2026, 2, 28)]);
    assert!(days_back_of(today, 0).is_empty());
    assert_eq!(date_minus_days(date(2024, 3, 1), 1), date(2024, 2, 29));
    assert_eq!(date_minus_days(date(2026, 5, 26), 30), date(2026, 4, 26));
    assert_eq!(date_minus_days(date(2026, 5, 26), -6), date(2026, 6, 1));
}

#[test]
fn source_label_names_the_run() {
    assert_eq!(source_label(utc(2026, 5, 26, 0, 0, 0)), "arpege_europe_20260526T00Z");
}
