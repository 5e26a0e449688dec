use infoclimat_pipelines::variables::{
    lookup_by_grib, lookup_by_om, variables, variables_for_package, UnitConversion,
};

#[test]
fn registry_round_trip_grib_to_om_to_grib() {
    for v in variables() {
        let by_grib = lookup_by_grib(v.grib_short_name).expect("grib not found");
        let by_om = lookup_by_om(by_grib.om_name).expect("om not found");
        assert_eq!(by_om.grib_short_name, v.grib_short_name);
    }
}

#[test]
fn registry_om_names_are_unique() {
    let mut names: Vec<&str> = variables().iter().map(|v| v.om_name).collect();
    names.sort_unstable();
    let len = names.len();
    names.dedup();
    assert_eq!(names.len(), len, "duplicate om_name in VARIABLES");
}

#[test]
fn registry_grib_short_names_are_unique() {
    let mut names: Vec<&str> = variables().iter().map(|v| v.grib_short_name).collect();
    names.sort_unstable();
    let len = names.len();
    names.dedup();
    assert_eq!(names.len(), len, "duplicate grib_short_name");
}

#[test]
fn variables_for_each_package_non_empty() {
    for pkg in ["SP1", "SP2"] {
        assert!(!variables_for_package(pkg).is_empty(), "no vars in {pkg}");
    }
}

#[test]
fn registry_has_seven_sp1_and_four_sp2_variables() {
    assert_eq!(variables().len(), 11);
    assert_eq!(variables_for_package("SP1").len(), 7);
    assert_eq!(variables_for_package("SP2").len(), 4);
    assert!(variables_for_package("SP3").is_empty());
    let sp2: Vec<&str> = variables_for_package("SP2").iter().map(|v| v.om_name).collect();
    assert_eq!(sp2, vec!["dew_point_2m", "cloud_cover_low", "cloud_cover_mid", "cloud_cover_high"]);
}

#[test]
fn lookups_give_the_conversions() {
    let t = lookup_by_grib("2t").unwrap();
    assert_eq!(t.om_name, "temperature_2m");
    assert_eq!(t.unit_conversion, UnitConversion::KelvinToCelsius);
    assert_eq!(lookup_by_om("pressure_msl").unwrap().unit_conversion, UnitConversion::PascalToHectopascal);
    assert_eq!(lookup_by_om("precipitation").unwrap().grib_short_name, "tp");
    assert!(lookup_by_grib("wind_speed_10m").is_none());
    assert!(lookup_by_om("2t").is_none());
}
