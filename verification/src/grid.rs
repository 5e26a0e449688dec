//! The forecast grids of the pipelines, as regular longitude/latitude
//! grids whose extents and steps are written in thousandths of a degree:
//! ARPEGE Europe (741 × 521, 0.1°) and AROME-OM Indian Ocean (1395 × 899,
//! 0.025°, kept under the name `ReunionGrid`).

use vstd::prelude::*;

verus! {

/// A regular grid: `nx` columns from `lon_min` eastward and `ny` rows from
/// `lat_min` northward, `dx` and `dy` apart (thousandths of a degree).
#[derive(Debug, Clone, Copy, PartialEq, Eq, Structural)]
pub struct GridGeometry {
    pub nx: usize,
    pub ny: usize,
    pub lon_min: i64,
    pub lon_max: i64,
    pub lat_min: i64,
    pub lat_max: i64,
    pub dx: i64,
    pub dy: i64,
}

/// A grid whose last column and row fall on its maximum longitude and
/// latitude, with positive steps and coordinates within ±360°.
pub open spec fn geometry_wf(g: GridGeometry) -> bool {
    &&& g.nx >= 1
    &&& g.ny >= 1
    &&& 0 < g.dx <= 360_000
    &&& 0 < g.dy <= 360_000
    &&& -360_000 <= g.lon_min <= g.lon_max <= 360_000
    &&& -360_000 <= g.lat_min <= g.lat_max <= 360_000
    &&& g.lon_min + (g.nx - 1) * g.dx == g.lon_max
    &&& g.lat_min + (g.ny - 1) * g.dy == g.lat_max
}

/// `num / d` rounded to the nearest integer, halves away from zero
/// (`f64::round` of a nonnegative quotient).
pub open spec fn round_div(num: int, d: int) -> int {
    (2 * num + d) / (2 * d)
}

/// Nearest grid indices of a point, clamped to the grid; none outside the
/// extent.
pub open spec fn lonlat_to_indices_spec(g: GridGeometry, lon: int, lat: int) -> Option<
    (usize, usize),
> {
    if lon < g.lon_min || lon > g.lon_max || lat < g.lat_min || lat > g.lat_max {
        None
    } else {
        let i = round_div(lon - g.lon_min, g.dx as int);
        let j = round_div(lat - g.lat_min, g.dy as int);
        Some(
            (
                (if i < g.nx - 1 {
                    i
                } else {
                    g.nx - 1
                }) as usize,
                (if j < g.ny - 1 {
                    j
                } else {
                    g.ny - 1
                }) as usize,
            ),
        )
    }
}

/// Nearest grid indices of a point (thousandths of a degree), clamped to
/// the grid; none outside the extent.
pub fn geometry_lonlat_to_indices(g: &GridGeometry, lon: i64, lat: i64) -> (r: Option<
    (usize, usize),
>)
    requires
        geometry_wf(*g),
    ensures
        r == lonlat_to_indices_spec(*g, lon as int, lat as int),
        r matches Some((i, j)) ==> i < g.nx && j < g.ny,
{
    if lon < g.lon_min || lon > g.lon_max {
        return None;
    }
    if lat < g.lat_min || lat > g.lat_max {
        return None;
    }
    let i = (2 * (lon - g.lon_min) + g.dx) / (2 * g.dx);
    let j = (2 * (lat - g.lat_min) + g.dy) / (2 * g.dy);
    let ci: usize = if (i as u64) < (g.nx - 1) as u64 {
        i as usize
    } else {
        g.nx - 1
    };
    let cj: usize = if (j as u64) < (g.ny - 1) as u64 {
        j as usize
    } else {
        g.ny - 1
    };
    proof {
        assert(0 <= i && 0 <= j) by (nonlinear_arith)
            requires
                lon >= g.lon_min,
                lat >= g.lat_min,
                g.dx > 0,
                g.dy > 0,
                i == (2 * (lon - g.lon_min) + g.dx) / (2 * g.dx),
                j == (2 * (lat - g.lat_min) + g.dy) / (2 * g.dy),
        ;
    }
    Some((ci, cj))
}

/// Coordinates (thousandths of a degree) of the grid point `(i, j)`.
pub open spec fn indices_to_lonlat_spec(g: GridGeometry, i: int, j: int) -> (int, int) {
    (g.lon_min + i * g.dx, g.lat_min + j * g.dy)
}

/// Coordinates (thousandths of a degree) of the grid point `(i, j)`.
pub fn geometry_indices_to_lonlat(g: &GridGeometry, i: usize, j: usize) -> (r: (i128, i128))
    requires
        geometry_wf(*g),
    ensures
        (r.0 as int, r.1 as int) == indices_to_lonlat_spec(*g, i as int, j as int),
{
    proof {
        assert(0 <= (i as int) * (g.dx as int) <= 0x1_0000_0000_0000_0000 * 360_000) by (
        nonlinear_arith)
            requires
                0 <= i < 0x1_0000_0000_0000_0000,
                0 < g.dx <= 360_000,
        ;
        assert(0 <= (j as int) * (g.dy as int) <= 0x1_0000_0000_0000_0000 * 360_000) by (
        nonlinear_arith)
            requires
                0 <= j < 0x1_0000_0000_0000_0000,
                0 < g.dy <= 360_000,
        ;
    }
    let lon = g.lon_min as i128 + (i as i128) * (g.dx as i128);
    let lat = g.lat_min as i128 + (j as i128) * (g.dy as i128);
    (lon, lat)
}

/// `(2 i d + d) / (2 d)` is `i`.
proof fn lemma_round_div_exact(i: int, d: int)
    requires
        i >= 0,
        d > 0,
    ensures
        round_div(i * d, d) == i,
{
    assert((2 * (i * d) + d) / (2 * d) == i) by (nonlinear_arith)
        requires
            i >= 0,
            d > 0,
    {
        assert(2 * (i * d) + d == (2 * d) * i + d);
        assert(0 <= d < 2 * d);
    }
}

/// Every grid point maps back to its own indices: the coordinates of
/// `(i, j)` lie in the extent and their nearest indices are `(i, j)`.
pub proof fn grid_point_round_trip(g: GridGeometry, i: int, j: int)
    requires
        geometry_wf(g),
        0 <= i < g.nx,
        0 <= j < g.ny,
    ensures
        lonlat_to_indices_spec(g, indices_to_lonlat_spec(g, i, j).0, indices_to_lonlat_spec(
            g,
            i,
            j,
        ).1) == Some((i as usize, j as usize)),
{
    lemma_round_div_exact(i, g.dx as int);
    lemma_round_div_exact(j, g.dy as int);
    assert(i * g.dx <= (g.nx - 1) * g.dx) by (nonlinear_arith)
        requires
            0 <= i <= g.nx - 1,
            g.dx > 0,
    ;
    assert(j * g.dy <= (g.ny - 1) * g.dy) by (nonlinear_arith)
        requires
            0 <= j <= g.ny - 1,
            g.dy > 0,
    ;
    assert(i * g.dx >= 0 && j * g.dy >= 0) by (nonlinear_arith)
        requires
            i >= 0,
            j >= 0,
            g.dx > 0,
            g.dy > 0,
    ;
}

/// A forecast grid.
pub trait Grid {
    /// The geometry of the grid.
    spec fn geometry_spec(&self) -> GridGeometry;

    /// The geometry of the grid.
    fn geometry(&self) -> (g: GridGeometry)
        ensures
            g == self.geometry_spec(),
            geometry_wf(g),
    ;

    /// Number of columns (longitudes).
    fn nx(&self) -> (r: usize)
        ensures
            r == self.geometry_spec().nx,
    {
        self.geometry().nx
    }

    /// Number of rows (latitudes).
    fn ny(&self) -> (r: usize)
        ensures
            r == self.geometry_spec().ny,
    {
        self.geometry().ny
    }

    /// Nearest grid indices of a point given in thousandths of a degree,
    /// clamped to the grid; none outside the extent.
    fn lonlat_to_indices(&self, lon: i64, lat: i64) -> (r: Option<(usize, usize)>)
        ensures
            r == lonlat_to_indices_spec(self.geometry_spec(), lon as int, lat as int),
    {
        let g = self.geometry();
        geometry_lonlat_to_indices(&g, lon, lat)
    }

    /// Coordinates, in thousandths of a degree, of the grid point `(i, j)`.
    fn indices_to_lonlat(&self, i: usize, j: usize) -> (r: (i128, i128))
        ensures
            (r.0 as int, r.1 as int) == indices_to_lonlat_spec(
                self.geometry_spec(),
                i as int,
                j as int,
            ),
    {
        let g = self.geometry();
        geometry_indices_to_lonlat(&g, i, j)
    }
}

/// ARPEGE Europe (Open-Meteo): 741 × 521 points at 0.1°, from 32°W 20°N to
/// 42°E 72°N.
#[derive(Debug, Clone, Copy, PartialEq, Eq, Structural)]
pub struct ArpegeEuropeGrid;

/// Geometry of ARPEGE Europe.
pub open spec fn arpege_europe_geometry() -> GridGeometry {
    GridGeometry {
        nx: 741,
        ny: 521,
        lon_min: -32_000i64,
        lon_max: 42_000,
        lat_min: 20_000,
        lat_max: 72_000,
        dx: 100,
        dy: 100,
    }
}

impl Grid for ArpegeEuropeGrid {
    open spec fn geometry_spec(&self) -> GridGeometry {
        arpege_europe_geometry()
    }

    fn geometry(&self) -> (g: GridGeometry) {
        GridGeometry {
            nx: 741,
            ny: 521,
            lon_min: -32_000,
            lon_max: 42_000,
            lat_min: 20_000,
            lat_max: 72_000,
            dx: 100,
            dy: 100,
        }
    }
}

/// AROME-OM Indian Ocean (Météo-France): 1395 × 899 points at 0.025°, from
/// 32.75°E 25.9°S to 67.6°E 3.45°S — Réunion, Mayotte, Madagascar, the East
/// African coast and southern India.
#[derive(Debug, Clone, Copy, PartialEq, Eq, Structural)]
pub struct ReunionGrid;

/// Geometry of AROME-OM Indian Ocean.
pub open spec fn reunion_geometry() -> GridGeometry {
    GridGeometry {
        nx: 1395,
        ny: 899,
        lon_min: 32_750,
        lon_max: 67_600,
        lat_min: -25_900i64,
        lat_max: -3_450i64,
        dx: 25,
        dy: 25,
    }
}

impl Grid for ReunionGrid {
    open spec fn geometry_spec(&self) -> GridGeometry {
        reunion_geometry()
    }

    fn geometry(&self) -> (g: GridGeometry) {
        GridGeometry {
            nx: 1395,
            ny: 899,
            lon_min: 32_750,
            lon_max: 67_600,
            lat_min: -25_900,
            lat_max: -3_450,
            dx: 25,
            dy: 25,
        }
    }
}

/// Why an array does not fit a grid: its rows and columns, and the grid's.
#[derive(Debug, Clone, Copy, PartialEq, Eq, Structural)]
pub struct ShapeMismatch {
    pub actual_ny: usize,
    pub actual_nx: usize,
    pub expected_ny: usize,
    pub expected_nx: usize,
}

/// Checks that an array of `(rows, columns)` has the grid's `(ny, nx)`.
pub fn check_shape(actual: (usize, usize), expected: (usize, usize)) -> (r: Result<
    (),
    ShapeMismatch,
>)
    ensures
        actual == expected ==> r is Ok,
        actual != expected ==> r == Err::<(), ShapeMismatch>(
            ShapeMismatch {
                actual_ny: actual.0,
                actual_nx: actual.1,
                expected_ny: expected.0,
                expected_nx: expected.1,
            },
        ),
{
    if actual.0 == expected.0 && actual.1 == expected.1 {
        Ok(())
    } else {
        Err(
            ShapeMismatch {
                actual_ny: actual.0,
                actual_nx: actual.1,
                expected_ny: expected.0,
                expected_nx: expected.1,
            },
        )
    }
}

} // verus!
