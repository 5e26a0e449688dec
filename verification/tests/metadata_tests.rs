use infoclimat_pipelines::keys::{
    key_to_valid_time, keys_dated_before, object_key, parse_date_from_key, timestep_file_name,
};
use infoclimat_pipelines::metadata::{
    anomaly_metadata_keys, build_anomaly_metadata, build_forecast_metadata, build_valid_times,
    collect_valid_times, forecast_metadata_keys, forecast_run_prefix,
};
use infoclimat_pipelines::time::{Date, DateTime};

fn date(year: i32, month: u32, day: u32) -> Date {
    Date { year, month, day }
}

fn utc(year: i32, month: u32, day: u32, hour: u32, minute: u32) -> DateTime {
    DateTime { date: date(year, month, day), hour, minute, second: 0, nanosecond: 0 }
}

#[test]
fn anomaly_metadata_parse_date_from_key_extracts_date() {
    let key = "anomaly/temperature_2m/observed/2026-05-21.om";
    assert_eq!(parse_date_from_key(key), Some(date(2026, 5, 21)));
}

#[test]
fn parse_date_from_key_rejects_non_om() {
    assert_eq!(parse_date_from_key("anomaly/temperature_2m/observed/"), None);
    assert_eq!(parse_date_from_key("foo/bar/notadate.om"), None);
}

#[test]
fn parse_date_from_key_rejects_impossible_dates() {
    assert_eq!(parse_date_from_key("a/2026-02-30.om"), None);
    assert_eq!(parse_date_from_key("a/2024-02-29.om"), Some(date(2024, 2, 29)));
}

#[test]
fn valid_times_unions_and_sorts() {
    let observed = vec![
        "anomaly/temperature_2m/observed/2026-05-20.om".to_string(),
        "anomaly/temperature_2m/observed/2026-05-19.om".to_string(),
    ];
    let forecast = vec![
        "anomaly/temperature_2m/forecast/2026-05-26.om".to_string(),
        "anomaly/temperature_2m/forecast/2026-05-25.om".to_string(),
    ];
    let vt = build_valid_times(&observed, &forecast);
    assert_eq!(
        vt,
        vec![
            "2026-05-19T00:00:00Z",
            "2026-05-20T00:00:00Z",
            "2026-05-25T00:00:00Z",
            "2026-05-26T00:00:00Z",
        ]
    );
}

#[test]
fn valid_times_dedupes_overlap() {
    // A date present in both observed and forecast appears once.
    let observed = vec!["anomaly/temperature_2m/observed/2026-05-26.om".to_string()];
    let forecast = vec!["anomaly/temperature_2m/forecast/2026-05-26.om".to_string()];
    let vt = build_valid_times(&observed, &forecast);
    assert_eq!(vt, vec!["2026-05-26T00:00:00Z"]);
}

#[test]
fn anomaly_metadata_for_today() {
    let observed = vec![
        "anomaly/temperature_2m/observed/2026-05-20.om".to_string(),
        "anomaly/temperature_2m/observed/README.txt".to_string(),
    ];
    let meta = build_anomaly_metadata(date(2026, 5, 26), &observed, &Vec::new()).unwrap();
    assert_eq!(meta.reference_time, "2026-05-26T00:00:00Z");
    assert_eq!(meta.valid_times, vec!["2026-05-20T00:00:00Z"]);
    assert_eq!(meta.variables, vec!["temperature_2m_anomaly"]);
    assert!(build_anomaly_metadata(date(2026, 5, 26), &Vec::new(), &observed[1..].to_vec()).is_none());
    assert_eq!(
        anomaly_metadata_keys(date(2026, 5, 6)),
        vec![
            "data_spatial/anomaly_europe/latest.json",
            "data_spatial/anomaly_europe/in-progress.json",
            "data_spatial/anomaly_europe/2026/05/06/0000Z/meta.json",
        ]
    );
}

#[test]
fn key_to_valid_time_extracts_iso_from_filename() {
    let k = "data_spatial/arome_om_reunion/2026/05/28/0600Z/2026-05-29T0000.om";
    assert_eq!(key_to_valid_time(k), Some("2026-05-29T00:00:00Z".to_string()));
}

#[test]
fn key_to_valid_time_preserves_intraday_time() {
    let k = "data_spatial/arome_om_reunion/2026/05/28/0000Z/2026-05-28T1800.om";
    assert_eq!(key_to_valid_time(k), Some("2026-05-28T18:00:00Z".to_string()));
}

#[test]
fn key_to_valid_time_rejects_non_om() {
    assert!(key_to_valid_time("foo/bar/meta.json").is_none());
    assert!(key_to_valid_time("foo/bar/not_a_timestamp.om").is_none());
    // Old layout (variable_leadtime) is refused.
    assert!(key_to_valid_time("data_spatial/arome_om_reunion/2026/05/28/0000Z/temperature_2m_006h.om").is_none());
}

#[test]
fn timestep_key_reads_back_its_valid_time() {
    let t = utc(2026, 12, 31, 23, 0);
    let key = object_key("data_spatial/arome_om_reunion/2026/12/31/1800Z/", &timestep_file_name(t));
    assert_eq!(key, "data_spatial/arome_om_reunion/2026/12/31/1800Z/2026-12-31T2300.om");
    assert_eq!(key_to_valid_time(&key), Some("2026-12-31T23:00:00Z".to_string()));
}

#[test]
fn forecast_metadata_sorts_and_dedupes_valid_times() {
    let run = utc(2026, 5, 28, 6, 0);
    let prefix = forecast_run_prefix(run);
    assert_eq!(prefix, "data_spatial/arome_om_reunion/2026/05/28/0600Z/");
    let keys = vec![
        format!("{prefix}2026-05-29T0000.om"),
        format!("{prefix}meta.json"),
        format!("{prefix}2026-05-28T0700.om"),
        format!("{prefix}2026-05-29T0000.om"),
    ];
    assert_eq!(
        collect_valid_times(&keys),
        vec!["2026-05-28T07:00:00Z", "2026-05-29T00:00:00Z"]
    );
    let vars = vec!["temperature_2m".to_string(), "precipitation_sum".to_string()];
    let meta = build_forecast_metadata(run, &keys, &vars).unwrap();
    assert_eq!(meta.reference_time, "2026-05-28T06:00:00Z");
    assert_eq!(meta.valid_times.len(), 2);
    assert_eq!(meta.variables, vars);
    assert!(build_forecast_metadata(run, &vec![format!("{prefix}meta.json")], &vars).is_none());
    assert_eq!(
        forecast_metadata_keys(run),
        vec![
            "data_spatial/arome_om_reunion/latest.json",
            "data_spatial/arome_om_reunion/in-progress.json",
            "data_spatial/arome_om_reunion/2026/05/28/0600Z/meta.json",
        ]
    );
}

#[test]
fn garbage_collection_selects_dated_files_before_cutoff() {
    let keys = vec![
        "anomaly/forecast/2026-05-24.om".to_string(),
        "anomaly/forecast/latest.om".to_string(),
        "anomaly/forecast/2026-05-26.om".to_string(),
        "anomaly/forecast/2026-05-25.om".to_string(),
    ];
    assert_eq!(
        keys_dated_before(&keys, date(2026, 5, 26)),
        vec!["anomaly/forecast/2026-05-24.om", "anomaly/forecast/2026-05-25.om"]
    );
}

#[test]
fn listings_do_not_depend_on_key_order_nor_on_the_list() {
    let a = "anomaly/temperature_2m/observed/2026-05-19.om".to_string();
    let b = "anomaly/temperature_2m/forecast/2026-05-26.om".to_string();
    let c = "anomaly/temperature_2m/forecast/2026-05-20.om".to_string();
    let one = build_valid_times(&vec![a.clone(), b.clone()], &vec![c.clone()]);
    let two = build_valid_times(&vec![c.clone()], &vec![b.clone(), a.clone()]);
    assert_eq!(one, two);
    let prefix = "data_spatial/arome_om_reunion/2026/05/28/0600Z/";
    let k1 = vec![format!("{prefix}2026-05-29T0100.om"), format!("{prefix}2026-05-28T2300.om")];
    let k2 = vec![format!("{prefix}2026-05-28T2300.om"), format!("{prefix}2026-05-29T0100.om")];
    assert_eq!(collect_valid_times(&k1), collect_valid_times(&k2));
}

#[test]
fn day_key_reads_back_its_date() {
    let d = date(2024, 2, 29);
    let key = object_key("anomaly/temperature_2m/observed", &infoclimat_pipelines::keys::day_file_name(d));
    assert_eq!(parse_date_from_key(&key), Some(d));
}
