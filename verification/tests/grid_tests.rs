use infoclimat_pipelines::grid::{check_shape, ArpegeEuropeGrid, Grid, ReunionGrid, ShapeMismatch};

fn deg(mdeg: i64) -> f64 {
    mdeg as f64 / 1000.0
}

#[test]
fn reunion_grid_has_expected_dimensions() {
    let g = ReunionGrid;
    let geo = g.geometry();
    assert_eq!(g.nx(), 1395);
    assert_eq!(g.ny(), 899);
    assert!((deg(geo.dx) - 0.025).abs() < 1e-9);
    assert!((deg(geo.dy) - 0.025).abs() < 1e-9);
    assert!((deg(geo.lon_min) - 32.75).abs() < 1e-9);
    assert!((deg(geo.lon_max) - 67.6).abs() < 1e-9);
    assert!((deg(geo.lat_min) - (-25.9)).abs() < 1e-9);
    assert!((deg(geo.lat_max) - (-3.45)).abs() < 1e-9);
}

#[test]
fn reunion_grid_corner_roundtrip() {
    let g = ReunionGrid;
    let geo = g.geometry();
    let (i, j) = g.lonlat_to_indices(geo.lon_min, geo.lat_min).unwrap();
    assert_eq!((i, j), (0, 0));
    let (lon, lat) = g.indices_to_lonlat(0, 0);
    assert!((lon as f64 / 1000.0 - deg(geo.lon_min)).abs() < 1e-9);
    assert!((lat as f64 / 1000.0 - deg(geo.lat_min)).abs() < 1e-9);
}

#[test]
fn reunion_grid_rejects_outside_bbox() {
    let g = ReunionGrid;
    // Greenwich (lon 0°): west of the domain.
    assert!(g.lonlat_to_indices(0, 0).is_none());
    // Saint-Denis, Réunion (~55.5°E, -21.1°N): inside.
    assert!(g.lonlat_to_indices(55_500, -21_100).is_some());
    // Mayotte (~45.2°E, -12.8°N): inside the Indian Ocean domain too.
    assert!(g.lonlat_to_indices(45_200, -12_800).is_some());
}

#[test]
fn arpege_europe_grid_is_741_by_521() {
    let g = ArpegeEuropeGrid;
    assert_eq!(g.nx(), 741);
    assert_eq!(g.ny(), 521);
}

#[test]
fn nearest_indices_round_halves_up_and_stay_in_the_grid() {
    let g = ArpegeEuropeGrid;
    assert_eq!(g.lonlat_to_indices(-31_950, 20_049), Some((1, 0)));
    assert_eq!(g.lonlat_to_indices(42_000, 72_000), Some((740, 520)));
    assert_eq!(g.lonlat_to_indices(42_001, 72_000), None);
    assert_eq!(g.indices_to_lonlat(740, 520), (42_000, 72_000));
    let r = ReunionGrid;
    assert_eq!(r.lonlat_to_indices(55_500, -21_100), Some((910, 192)));
    assert_eq!(r.indices_to_lonlat(910, 192), (55_500, -21_100));
}

#[test]
fn shapes_are_checked_against_the_grid() {
    assert_eq!(check_shape((521, 741), (521, 741)), Ok(()));
    assert_eq!(
        check_shape((105, 180), (521, 741)),
        Err(ShapeMismatch { actual_ny: 105, actual_nx: 180, expected_ny: 521, expected_nx: 741 })
    );
}
