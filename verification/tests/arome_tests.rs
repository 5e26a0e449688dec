use infoclimat_pipelines::arome::{
    find_by_grib_name, latest_run, territory_from_lowercase, parse_filename, parse_packages, parse_stem, parse_territory,
    precipitation_slice, shortnames_csv, split_on, OptionError,
};
use infoclimat_pipelines::meteofrance::AromeOmTerritory;
use infoclimat_pipelines::time::{Date, DateTime};
use infoclimat_pipelines::variables::variables_for_package;

fn utc(year: i32, month: u32, day: u32, hour: u32, minute: u32, second: u32) -> DateTime {
    DateTime { date: Date { year, month, day }, hour, minute, second, nanosecond: 0 }
}

#[test]
fn parse_filename_extracts_shortname_and_leadtime() {
    let p = "/tmp/x/2t_006h.nc";
    assert_eq!(parse_filename(p), Some(("2t".to_string(), 6)));
    let p = "/tmp/x/10u_042h.nc";
    assert_eq!(parse_filename(p), Some(("10u".to_string(), 42)));
}

#[test]
fn parse_filename_rejects_non_matching() {
    assert!(parse_filename("/tmp/foo.txt").is_none());
    // "no_underscore.nc" → stem "no_underscore" → ("no","underscore") → no final 'h' → None.
    assert!(parse_filename("/tmp/no_underscore.nc").is_none());
}

#[test]
fn parse_stem_splits_on_the_last_underscore() {
    assert_eq!(parse_stem("max_i10fg_012h"), Some(("max_i10fg".to_string(), 12)));
    assert_eq!(parse_stem("2t_+7h"), Some(("2t".to_string(), 7)));
    assert_eq!(parse_stem("2t_h"), None);
    assert_eq!(parse_stem("2t_4294967296h"), None);
    assert_eq!(parse_stem("2t_12"), None);
}

#[test]
fn latest_run_floors_to_3h_with_publication_delay() {
    // 2026-05-28 14:23Z → candidate 10:23Z → floor 09:00Z.
    let now = utc(2026, 5, 28, 14, 23, 0);
    assert_eq!(latest_run(now), utc(2026, 5, 28, 9, 0, 0));
}

#[test]
fn latest_run_handles_day_boundary() {
    // 2026-05-28 01:00Z → candidate 21:00 the day before → 21:00Z D-1.
    let now = utc(2026, 5, 28, 1, 0, 0);
    assert_eq!(latest_run(now), utc(2026, 5, 27, 21, 0, 0));
}

#[test]
fn latest_run_crosses_the_new_year() {
    let now = utc(2026, 1, 1, 3, 59, 59);
    assert_eq!(latest_run(now), utc(2025, 12, 31, 21, 0, 0));
    assert_eq!(latest_run(utc(2026, 3, 1, 4, 0, 0)), utc(2026, 3, 1, 0, 0, 0));
}

#[test]
fn parse_territory_accepts_reunion_case_insensitive() {
    assert!(matches!(parse_territory("reunion").unwrap(), AromeOmTerritory::Reunion));
    assert!(matches!(parse_territory("REUNION").unwrap(), AromeOmTerritory::Reunion));
}

#[test]
fn parse_territory_accepts_accented_and_rejects_others() {
    assert!(matches!(parse_territory("RÉUNION").unwrap(), AromeOmTerritory::Reunion));
    assert_eq!(
        parse_territory("Mayotte"),
        Err(OptionError::UnsupportedTerritory("mayotte".to_string()))
    );
}

#[test]
fn parse_packages_csv() {
    assert_eq!(parse_packages("SP1,SP3").unwrap(), vec!["SP1", "SP3"]);
    assert!(parse_packages("SP1,FOO").is_err());
}

#[test]
fn parse_packages_trims_items_and_reports_the_first_bad_one() {
    assert_eq!(parse_packages(" SP2 , SP1").unwrap(), vec!["SP2", "SP1"]);
    assert_eq!(
        parse_packages("SP1,,SP3"),
        Err(OptionError::UnsupportedPackage(String::new()))
    );
    assert_eq!(
        parse_packages("SP1, sp2 ,FOO"),
        Err(OptionError::UnsupportedPackage("sp2".to_string()))
    );
}

#[test]
fn split_on_keeps_empty_pieces() {
    assert_eq!(split_on("a,,b,", ','), vec!["a", "", "b", ""]);
    assert_eq!(split_on("", ','), vec![""]);
}

#[test]
fn shortnames_csv_joins_the_package_variables() {
    assert_eq!(shortnames_csv(&variables_for_package("SP2")), "2d,lcc,mcc,hcc");
    assert_eq!(shortnames_csv(&Vec::new()), "");
}

#[test]
fn decoded_files_are_matched_to_the_requested_variables() {
    let sp1 = variables_for_package("SP1");
    assert_eq!(find_by_grib_name(&sp1, "tp").unwrap().om_name, "precipitation");
    assert!(find_by_grib_name(&sp1, "lcc").is_none());
}

#[test]
fn precipitation_slice_is_found_by_name() {
    let names = vec!["temperature_2m".to_string(), "precipitation".to_string()];
    assert_eq!(precipitation_slice(&names), Some(1));
    assert_eq!(precipitation_slice(&vec!["temperature_2m".to_string()]), None);
}

#[test]
fn parse_filename_reads_stems_of_plain_paths() {
    assert_eq!(parse_filename("10v_048h.nc"), Some(("10v".to_string(), 48)));
    assert_eq!(parse_filename("work/dec/2r_001h"), Some(("2r".to_string(), 1)));
    assert_eq!(parse_filename("work/dec/.hidden_001h"), Some((".hidden".to_string(), 1)));
    assert_eq!(parse_filename("work/dec/tp_001h.nc.tmp"), None);
}

#[test]
fn territory_is_read_from_lowercased_text() {
    assert_eq!(territory_from_lowercase("réunion".to_string()), Ok(AromeOmTerritory::Reunion));
    assert_eq!(
        territory_from_lowercase("Reunion".to_string()),
        Err(OptionError::UnsupportedTerritory("Reunion".to_string()))
    );
}
