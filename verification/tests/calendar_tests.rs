use infoclimat_pipelines::keys::{climatology_file_name, day_file_name, object_key};
use infoclimat_pipelines::time::{date_to_string, day_of_year_index, Date};

#[test]
fn doy_index_non_leap_year_jan_1() {
    let d = Date { year: 2025, month: 1, day: 1 };
    assert_eq!(day_of_year_index(d), 1);
}

#[test]
fn doy_index_non_leap_year_dec_31() {
    let d = Date { year: 2025, month: 12, day: 31 };
    assert_eq!(day_of_year_index(d), 365);
}

#[test]
fn doy_index_leap_year_feb_29() {
    let d = Date { year: 2024, month: 2, day: 29 };
    assert_eq!(day_of_year_index(d), 60);
}

#[test]
fn doy_index_leap_year_dec_31() {
    let d = Date { year: 2024, month: 12, day: 31 };
    assert_eq!(day_of_year_index(d), 366);
}

#[test]
fn doy_index_century_years() {
    assert_eq!(day_of_year_index(Date { year: 1900, month: 3, day: 1 }), 60);
    assert_eq!(day_of_year_index(Date { year: 2000, month: 3, day: 1 }), 61);
}

#[test]
fn file_names_follow_the_bucket_layout() {
    assert_eq!(climatology_file_name(7), "007.om");
    assert_eq!(climatology_file_name(366), "366.om");
    let d = Date { year: 2026, month: 5, day: 6 };
    assert_eq!(date_to_string(d), "2026-05-06");
    assert_eq!(
        object_key("anomaly/temperature_2m/forecast///", &day_file_name(d)),
        "anomaly/temperature_2m/forecast/2026-05-06.om"
    );
    assert_eq!(date_to_string(Date { year: -44, month: 3, day: 15 }), "-0044-03-15");
    assert_eq!(date_to_string(Date { year: 12345, month: 1, day: 2 }), "+12345-01-02");
}
