use infoclimat_pipelines::era5::{
    annual_file_name, climatology_source, day_file_name, download_outcome, parse_time_axis,
    try_parse_time_axis, year_range, DownloadFailed, DownloadOutcome, TimeAxisError,
};
use infoclimat_pipelines::keys::{
    date_from_file_name, file_name_date, keys_named_before, keys_with_file_date_before,
};
use infoclimat_pipelines::time::{Date, DateTime};

fn date(year: i32, month: u32, day: u32) -> Date {
    Date { year, month, day }
}

fn utc(year: i32, month: u32, day: u32, hour: u32, minute: u32, second: u32) -> DateTime {
    DateTime { date: date(year, month, day), hour, minute, second, nanosecond: 0 }
}

#[test]
fn main_parse_date_from_key_extracts_date() {
    assert_eq!(date_from_file_name("anomaly/observed/2026-05-26.om"), Some(date(2026, 5, 26)));
}

#[test]
fn parse_date_from_key_rejects_non_date_stem() {
    assert_eq!(date_from_file_name("anomaly/observed/latest.om"), None);
}

#[test]
fn parse_date_from_key_rejects_wrong_extension() {
    assert_eq!(date_from_file_name("anomaly/observed/2026-05-26.txt"), None);
}

#[test]
fn download_exit_codes() {
    assert_eq!(download_outcome(Some(0)), Ok(DownloadOutcome::Downloaded));
    assert_eq!(download_outcome(Some(3)), Ok(DownloadOutcome::NotAvailableYet));
    assert_eq!(download_outcome(Some(1)), Err(DownloadFailed { exit_code: Some(1) }));
    assert_eq!(download_outcome(None), Err(DownloadFailed { exit_code: None }));
}

#[test]
fn era5_file_names() {
    assert_eq!(annual_file_name(1991), "era5_2m_temperature_1991.nc");
    assert_eq!(day_file_name(date(2026, 5, 6)), "era5_2026-05-06.nc");
    assert_eq!(climatology_source(1991, 2020), "era5_1991-2020");
    assert_eq!(year_range(2019, 2021), vec![2019, 2020, 2021]);
    assert!(year_range(2021, 2019).is_empty());
}

#[test]
fn time_axis_in_hours() {
    let r = parse_time_axis("  hours since 1900-01-01 00:00:00 ", &[1_060_680, 1_060_681]);
    assert_eq!(r, Ok((utc(2021, 1, 1, 0, 0, 0), 1)));
}

#[test]
fn time_axis_in_seconds_with_a_bare_date() {
    let r = parse_time_axis("seconds since 1970-01-01", &[1_609_459_200, 1_609_466_400]);
    assert_eq!(r, Ok((utc(2021, 1, 1, 0, 0, 0), 2)));
    let single = parse_time_axis("seconds since 1970-01-01T00:00:00", &[3600]);
    assert_eq!(single, Ok((utc(1970, 1, 1, 1, 0, 0), 1)));
    let frac = parse_time_axis("hours since 2000-01-01 06:00:00.5", &[0, -1]);
    assert_eq!(
        frac,
        Ok((DateTime { nanosecond: 500_000_000, ..utc(2000, 1, 1, 6, 0, 0) }, -1))
    );
}

#[test]
fn time_axis_errors() {
    assert_eq!(
        parse_time_axis(" days since 1970-01-01 ", &[0]),
        Err(TimeAxisError::UnsupportedUnits("days since 1970-01-01".to_string()))
    );
    assert_eq!(
        parse_time_axis("hours since yesterday", &[0]),
        Err(TimeAxisError::BadEpoch("yesterday".to_string()))
    );
    assert_eq!(parse_time_axis("hours since 1970-01-01", &[]), Err(TimeAxisError::EmptyAxis));
}

#[test]
fn time_axis_overflow_is_reported_where_chrono_would_fail() {
    assert_eq!(try_parse_time_axis("hours since 1970-01-01", &[i64::MAX, 0]), None);
    assert_eq!(try_parse_time_axis("seconds since 1970-01-01", &[1, i64::MIN]), None);
    assert_eq!(
        try_parse_time_axis("seconds since 1970-01-01", &[-7200, -3600]),
        Some(Ok((utc(1969, 12, 31, 22, 0, 0), 1)))
    );
}

#[test]
fn observed_retention_selects_files_dated_before_cutoff() {
    let keys = vec![
        "anomaly/observed/2026-04-25.om".to_string(),
        "anomaly/observed/2026-04-26.om".to_string(),
        "anomaly/observed/latest.om".to_string(),
        "anomaly/observed/2026-04-01.txt".to_string(),
        "anomaly/observed/2026-03-31.om".to_string(),
    ];
    assert_eq!(
        keys_with_file_date_before(&keys, date(2026, 4, 26)),
        vec!["anomaly/observed/2026-04-25.om", "anomaly/observed/2026-03-31.om"]
    );
}

#[test]
fn retention_reads_the_given_file_names() {
    assert_eq!(file_name_date("2026-04-25.om"), Some(date(2026, 4, 25)));
    assert_eq!(file_name_date("2026-04-25.omx"), None);
    let keys = vec!["a/x".to_string(), "b/y".to_string(), "c/z".to_string()];
    let names = vec![Some("2026-01-01.om".to_string()), None, Some("2027-01-01.om".to_string())];
    assert_eq!(keys_named_before(&keys, &names, date(2026, 6, 1)), vec!["a/x"]);
}

#[test]
fn date_from_file_name_of_plain_keys() {
    assert_eq!(date_from_file_name("2026-05-26.om"), Some(date(2026, 5, 26)));
    assert_eq!(date_from_file_name("observed//2026-02-29.om"), None);
}

#[test]
fn retention_drops_folder_markers_among_dated_files() {
    let keys = vec![
        "anomaly/observed/".to_string(),
        "anomaly/observed/2026-04-01.om".to_string(),
        "anomaly/observed/2026-05-01.om".to_string(),
    ];
    assert_eq!(
        keys_with_file_date_before(&keys, date(2026, 4, 15)),
        vec!["anomaly/observed/2026-04-01.om"]
    );
}
