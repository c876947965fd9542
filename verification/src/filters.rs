//! GPS input filters: speed constraint, monotonicity, and velocity smoothing.

use vstd::prelude::*;
use crate::model;
use crate::model::{DistCm, SpeedCms};

verus! {

/// Maximum city-bus speed: 60 km/h = 1667 cm/s.
pub const V_MAX_CMS: SpeedCms = 1667;

/// GPS noise margin for urban canyons: 20 m.
pub const SIGMA_GPS_CM: DistCm = 2000;

/// Largest accepted backward step of the raw projection (50 m).
pub const MONOTONIC_TOLERANCE_CM: DistCm = 5000;

/// Largest distance allowed in `dt` seconds (at least one second is assumed).
pub open spec fn spec_max_step(dt: int) -> int {
    V_MAX_CMS * (if dt < 1 { 1 } else { dt }) + SIGMA_GPS_CM
}

/// Reject GPS updates that exceed physical limits:
/// accepted iff `|z_new - z_prev| <= V_MAX_CMS * max(dt, 1) + SIGMA_GPS_CM`.
pub fn check_speed_constraint(z_new: DistCm, z_prev: DistCm, dt: i32) -> (ok: bool)
    requires
        model::fits_i32(z_new - z_prev),
        model::fits_i32(spec_max_step(dt as int)),
    ensures
        ok == (model::abs(z_new - z_prev) <= spec_max_step(dt as int)),
{
    let d = z_new as i64 - z_prev as i64;
    let dist_abs: i64 = if d < 0 {
        -d
    } else {
        d
    };
    let dt1: i32 = if dt < 1 {
        1
    } else {
        dt
    };
    let max_dist = V_MAX_CMS * dt1 + SIGMA_GPS_CM;
    dist_abs <= max_dist as i64
}

/// Monotonicity constraint with noise tolerance: accepted iff the new
/// projection is at most 50 m behind the previous position.
pub fn check_monotonic(z_new: DistCm, z_prev: DistCm) -> (ok: bool)
    requires
        model::fits_i32(z_prev - MONOTONIC_TOLERANCE_CM),
    ensures
        ok == (z_new >= z_prev - MONOTONIC_TOLERANCE_CM),
{
    z_new >= z_prev - MONOTONIC_TOLERANCE_CM
}

/// `prev + trunc(3 * (target - prev) / 10)`: exponential smoothing with α = 0.3.
pub open spec fn spec_ema(prev: int, target: int) -> int {
    prev + model::trunc_div(3 * (target - prev), 10)
}

/// `prev + trunc(2 * (target - prev) / 10)`: conservative re-synchronisation gain.
pub open spec fn spec_soft_resync(prev: int, target: int) -> int {
    prev + model::trunc_div(2 * (target - prev), 10)
}

/// EMA velocity filter: `v + 3 * (v_gps - v) / 10`.
pub fn update_dr_ema(v_filtered_prev: SpeedCms, v_gps: SpeedCms) -> (v: SpeedCms)
    requires
        model::fits_i32(3 * (v_gps - v_filtered_prev)),
    ensures
        v == spec_ema(v_filtered_prev as int, v_gps as int),
{
    let d = v_gps - v_filtered_prev;
    let step = 3 * d / 10;
    assert((d >= 0 ==> 0 <= step <= d) && (d < 0 ==> d <= step <= 0)) by (nonlinear_arith)
        requires
            step == model::trunc_div(3 * d, 10),
    ;
    v_filtered_prev + step
}

/// Soft re-synchronisation after an outage: `prev + 2 * (target - prev) / 10`.
pub fn soft_resync(prev: i32, target: i32) -> (r: i32)
    requires
        model::fits_i32(2 * (target - prev)),
    ensures
        r == spec_soft_resync(prev as int, target as int),
{
    let d = target - prev;
    let step = 2 * d / 10;
    assert((d >= 0 ==> 0 <= step <= d) && (d < 0 ==> d <= step <= 0)) by (nonlinear_arith)
        requires
            step == model::trunc_div(2 * d, 10),
    ;
    prev + step
}

/// Smoothing never overshoots: the filtered value lies between the previous
/// value and the target.
pub proof fn lemma_ema_between(prev: int, target: int)
    ensures
        prev <= target ==> prev <= spec_ema(prev, target) <= target,
        target <= prev ==> target <= spec_ema(prev, target) <= prev,
        prev <= target ==> prev <= spec_soft_resync(prev, target) <= target,
        target <= prev ==> target <= spec_soft_resync(prev, target) <= prev,
{
    let d = target - prev;
    assert(d >= 0 ==> 0 <= model::trunc_div(3 * d, 10) <= d) by (nonlinear_arith);
    assert(d < 0 ==> d <= model::trunc_div(3 * d, 10) <= 0) by (nonlinear_arith);
    assert(d >= 0 ==> 0 <= model::trunc_div(2 * d, 10) <= d) by (nonlinear_arith);
    assert(d < 0 ==> d <= model::trunc_div(2 * d, 10) <= 0) by (nonlinear_arith);
}

} // verus!
