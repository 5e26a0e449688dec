//! The 1991-2020 daily climatology: days of the year, the 15-day smoothing
//! window (days of the year wrap around), and the layout of its files.

use vstd::prelude::*;

verus! {

/// Half-width, in days, of the smoothing window.
pub const SMOOTHING_HALF_WIDTH: u32 = 7;

/// Number of days averaged by the smoothing.
pub const SMOOTHING_DAYS: u32 = 15;

/// Number of daily climatology files (one per day of year, 366 included).
pub const DAYS_OF_YEAR: u32 = 366;

/// Day `doy + offset`, wrapped into `1..=max_doy`.
pub open spec fn wrapped_doy(doy: int, offset: int, max_doy: int) -> int {
    (doy + offset - 1) % max_doy + 1
}

/// The days averaged for `doy`: `doy - 7`, …, `doy + 7`, each wrapped into
/// `1..=max_doy`, in that order.
pub open spec fn smoothing_window_spec(doy: int, max_doy: int) -> Seq<int> {
    Seq::new(
        SMOOTHING_DAYS as nat,
        |k: int| wrapped_doy(doy, k - SMOOTHING_HALF_WIDTH, max_doy),
    )
}

/// The days averaged around `doy` (±7 days, circular over `1..=max_doy`).
pub fn smoothing_window(doy: u32, max_doy: u32) -> (r: Vec<u32>)
    requires
        0 < max_doy <= i32::MAX,
        doy <= i32::MAX - SMOOTHING_HALF_WIDTH,
    ensures
        r@.len() == SMOOTHING_DAYS,
        forall|k: int|
            0 <= k < SMOOTHING_DAYS ==> r@[k] as int == smoothing_window_spec(
                doy as int,
                max_doy as int,
            )[k],
        forall|k: int| 0 <= k < SMOOTHING_DAYS ==> 1 <= #[trigger] r@[k] <= max_doy,
{
    let mut r: Vec<u32> = Vec::new();
    let mut k: u32 = 0;
    while k < SMOOTHING_DAYS
        invariant
            k <= SMOOTHING_DAYS,
            0 < max_doy <= i32::MAX,
            doy <= i32::MAX - SMOOTHING_HALF_WIDTH,
            r@.len() == k,
            forall|j: int|
                0 <= j < k ==> r@[j] as int == wrapped_doy(
                    doy as int,
                    j - SMOOTHING_HALF_WIDTH,
                    max_doy as int,
                ),
            forall|j: int| 0 <= j < k ==> 1 <= #[trigger] r@[j] <= max_doy,
        decreases SMOOTHING_DAYS - k,
    {
        let d: i64 = doy as i64 + k as i64 - SMOOTHING_HALF_WIDTH as i64 - 1;
        let m: i64 = max_doy as i64;
        let w: i64 = d.checked_rem_euclid(m).unwrap() + 1;
        r.push(w as u32);
        k = k + 1;
    }
    r
}

/// Largest day of year present, 366 when there is none.
pub fn max_doy(doys: &Vec<u32>) -> (r: u32)
    ensures
        doys@.len() == 0 ==> r == DAYS_OF_YEAR,
        doys@.len() > 0 ==> doys@.contains(r) && forall|i: int|
            0 <= i < doys@.len() ==> doys@[i] <= r,
{
    if doys.len() == 0 {
        return DAYS_OF_YEAR;
    }
    let mut best = doys[0];
    let mut i: usize = 1;
    while i < doys.len()
        invariant
            1 <= i <= doys@.len(),
            doys@.contains(best),
            forall|j: int| 0 <= j < i ==> doys@[j] <= best,
        decreases doys@.len() - i,
    {
        if doys[i] > best {
            best = doys[i];
        }
        i = i + 1;
    }
    best
}

/// Each day of the window lies in `1..=max_doy`, the window has the day
/// itself in its middle, and it wraps: 366 is followed by 1.
pub proof fn smoothing_window_wraps(doy: int, max_doy: int)
    requires
        1 <= doy <= max_doy,
    ensures
        forall|k: int|
            0 <= k < SMOOTHING_DAYS ==> 1 <= #[trigger] smoothing_window_spec(doy, max_doy)[k]
                <= max_doy,
        smoothing_window_spec(doy, max_doy)[SMOOTHING_HALF_WIDTH as int] == doy,
        doy == max_doy ==> smoothing_window_spec(doy, max_doy)[SMOOTHING_HALF_WIDTH + 1] == 1,
{
    assert((doy - 1) % max_doy == doy - 1) by {
        vstd::arithmetic::div_mod::lemma_small_mod((doy - 1) as nat, max_doy as nat);
    }
    if doy == max_doy {
        assert(max_doy % max_doy == 0) by {
            vstd::arithmetic::div_mod::lemma_mod_self_0(max_doy);
        }
    }
}

} // verus!
