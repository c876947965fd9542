//! Stop-index recovery after a GPS jump.
//!
//! Candidate stops are within ±300 m of the position, not more than one index
//! behind the last known stop, not more than 100 m behind the position, and
//! reachable ahead given the filtered speed and the time since the last fix.
//! The candidate with the lowest score
//! `|s_i - s| + 5000 * max(0, last_index - i) + anchor penalty`
//! wins; ties go to the lower index.

use vstd::prelude::*;
use crate::model;
use crate::model::{DistCm, FreezeContext, SpeedCms, Stop};

verus! {

/// Search radius around the position (300 m).
pub const GPS_JUMP_THRESHOLD: DistCm = 30000;

/// Largest backward distance to a candidate (100 m).
pub const MAX_BACKWARD_RECOVERY_CM: i64 = 10_000;

/// Speed cap used for reachability: 60 km/h.
pub const V_MAX_CMS: i64 = 1667;

/// Uncertainty rate added to the reachable distance (2 m/s).
pub const MIN_RECOVERY_RATE_CMS: i64 = 200;

/// Cap of the uncertainty term (200 m).
pub const MAX_BASE_DISTANCE_CM: i64 = 20_000;

/// Cap of the reachable distance (500 m).
pub const MAX_RECOVERY_DISTANCE_CM: i64 = 50_000;

/// Penalty per index behind the last known stop.
pub const INDEX_PENALTY: i32 = 5000;

/// `a + b` saturating at the bounds of `i32`.
pub open spec fn spec_sat_add_i32(a: int, b: int) -> int {
    if a + b > i32::MAX {
        i32::MAX as int
    } else if a + b < i32::MIN {
        i32::MIN as int
    } else {
        a + b
    }
}

/// Penalty for candidates behind the position frozen at an off-route episode:
/// the backward distance beyond 2 m, in whole metres (truncated), costs 5 per
/// metre up to 50 m and 20 per metre beyond.
pub open spec fn spec_anchor_penalty(s_cm: int, ctx: Option<FreezeContext>) -> int {
    match ctx {
        None => 0,
        Some(c) => {
            let back = if c.frozen_s_cm - s_cm > 0 { c.frozen_s_cm - s_cm } else { 0 };
            let back_m = model::trunc_div(back - 200, 100);
            if back_m < 50 {
                5 * back_m
            } else {
                250 + 20 * (back_m - 50)
            }
        },
    }
}

/// Seconds since the last fix, at least 1.
pub open spec fn spec_dt1(dt: u64) -> int {
    if dt < 1 {
        1
    } else {
        dt as int
    }
}

/// Distance reachable ahead of the position since the last fix.
pub open spec fn spec_max_reachable(v: int, dt: u64) -> int {
    let d = spec_dt1(dt);
    let vc = if v < V_MAX_CMS { v } else { V_MAX_CMS as int };
    let base = if MIN_RECOVERY_RATE_CMS * d < MAX_BASE_DISTANCE_CM {
        MIN_RECOVERY_RATE_CMS * d
    } else {
        MAX_BASE_DISTANCE_CM as int
    };
    if vc * d + base < MAX_RECOVERY_DISTANCE_CM {
        vc * d + base
    } else {
        MAX_RECOVERY_DISTANCE_CM as int
    }
}

/// Arithmetic of the reachable distance fits `i64`.
pub open spec fn reach_arith_ok(v: int, dt: u64) -> bool {
    let d = spec_dt1(dt);
    let vc = if v < V_MAX_CMS { v } else { V_MAX_CMS as int };
    let base = if MIN_RECOVERY_RATE_CMS * d < MAX_BASE_DISTANCE_CM {
        MIN_RECOVERY_RATE_CMS * d
    } else {
        MAX_BASE_DISTANCE_CM as int
    };
    &&& d <= i64::MAX
    &&& model::fits_i64(MIN_RECOVERY_RATE_CMS * d)
    &&& model::fits_i64(vc * d)
    &&& model::fits_i64(vc * d + base)
}

/// Whether stop `i` passes the radius and index filters.
pub open spec fn spec_near(s_cm: int, stops: Seq<Stop>, last_index: u8, i: int) -> bool {
    let last1 = if last_index >= 1 { last_index - 1 } else { 0 };
    &&& model::abs(s_cm - stops[i].progress_cm) < GPS_JUMP_THRESHOLD
    &&& (i as u8) >= last1
}

/// Whether stop `i` is a recovery candidate.
pub open spec fn spec_candidate(s_cm: int, v: int, dt: u64, stops: Seq<Stop>, last_index: u8, i: int) -> bool {
    let p = stops[i].progress_cm as int;
    &&& spec_near(s_cm, stops, last_index, i)
    &&& (p < s_cm ==> s_cm - p <= MAX_BACKWARD_RECOVERY_CM)
    &&& (if p > s_cm { p - s_cm } else { 0 }) <= spec_max_reachable(v, dt)
}

/// Score of stop `i` (lower is better).
pub open spec fn spec_score(s_cm: int, stops: Seq<Stop>, last_index: u8, ctx: Option<FreezeContext>, i: int) -> int {
    let behind = last_index - i;
    let index_penalty = INDEX_PENALTY * (if behind > 0 { behind } else { 0 });
    spec_sat_add_i32(
        spec_sat_add_i32(model::abs(s_cm - stops[i].progress_cm), index_penalty),
        spec_anchor_penalty(s_cm, ctx),
    )
}

/// Whether stop `i` can be chosen: a candidate scoring below `i32::MAX`.
pub open spec fn spec_selectable(
    s_cm: int,
    v: int,
    dt: u64,
    stops: Seq<Stop>,
    last_index: u8,
    ctx: Option<FreezeContext>,
    i: int,
) -> bool {
    &&& spec_candidate(s_cm, v, dt, stops, last_index, i)
    &&& spec_score(s_cm, stops, last_index, ctx, i) < i32::MAX
}

/// Inputs on which the search does not overflow.
pub open spec fn recovery_inputs_ok(
    s_cm: int,
    v: int,
    dt: u64,
    stops: Seq<Stop>,
    last_index: u8,
    ctx: Option<FreezeContext>,
) -> bool {
    &&& stops.len() <= i32::MAX
    &&& forall|i: int| 0 <= i < stops.len() ==> model::diff_fits(s_cm, #[trigger] stops[i].progress_cm as int)
    &&& ctx matches Some(c) ==> model::fits_i32(c.frozen_s_cm - s_cm)
    &&& forall|i: int|
        0 <= i < stops.len() && #[trigger] spec_near(s_cm, stops, last_index, i) && !(stops[i].progress_cm
            < s_cm && s_cm - stops[i].progress_cm > MAX_BACKWARD_RECOVERY_CM) ==> reach_arith_ok(v, dt)
}

/// A recovered stop is never more than 100 m behind the position, never
/// beyond the distance reachable at 60 km/h (capped at 500 m) ahead of it,
/// always within 300 m of it, and never more than one index before the last
/// known stop (for routes of at most 256 stops).
pub proof fn lemma_recovery_bounds(
    s_cm: int,
    v: int,
    dt: u64,
    stops: Seq<Stop>,
    last_index: u8,
    ctx: Option<FreezeContext>,
    i: int,
)
    requires
        0 <= i < stops.len(),
        spec_selectable(s_cm, v, dt, stops, last_index, ctx, i),
    ensures
        stops[i].progress_cm >= s_cm - MAX_BACKWARD_RECOVERY_CM,
        stops[i].progress_cm <= s_cm + MAX_RECOVERY_DISTANCE_CM,
        stops[i].progress_cm <= s_cm + V_MAX_CMS * spec_dt1(dt) + MAX_BASE_DISTANCE_CM,
        model::abs(s_cm - stops[i].progress_cm) < GPS_JUMP_THRESHOLD,
        i < 256 ==> i >= last_index - 1,
{
    let d = spec_dt1(dt);
    let vc = if v < V_MAX_CMS { v } else { V_MAX_CMS as int };
    assert(vc * d <= V_MAX_CMS * d) by (nonlinear_arith)
        requires
            vc <= V_MAX_CMS,
            d >= 1,
    ;
}

fn sat_add_i32(a: i32, b: i32) -> (r: i32)
    ensures
        r == spec_sat_add_i32(a as int, b as int),
{
    let x = a as i64 + b as i64;
    if x > i32::MAX as i64 {
        i32::MAX
    } else if x < i32::MIN as i64 {
        i32::MIN
    } else {
        x as i32
    }
}

fn anchor_penalty(s_cm: DistCm, freeze_ctx: &Option<FreezeContext>) -> (p: i32)
    requires
        freeze_ctx matches Some(c) ==> model::fits_i32(c.frozen_s_cm - s_cm),
    ensures
        p == spec_anchor_penalty(s_cm as int, *freeze_ctx),
{
    match freeze_ctx {
        Some(ctx) => {
            let diff = ctx.frozen_s_cm - s_cm;
            let backward_cm = if diff > 0 {
                diff
            } else {
                0
            };
            let backward_cm = backward_cm - 200;
            let backward_m = backward_cm / 100;
            if backward_m < 50 {
                5 * backward_m
            } else {
                250 + 20 * (backward_m - 50)
            }
        },
        None => 0,
    }
}

/// Find the stop index to resume from after a GPS jump: the candidate with the
/// lowest score, the lowest index among equal scores, or `None` when no
/// candidate scores below `i32::MAX`.
pub fn find_stop_index(
    s_cm: DistCm,
    v_filtered: SpeedCms,
    dt_since_last_fix: u64,
    stops: &[Stop],
    last_index: u8,
    freeze_ctx: &Option<FreezeContext>,
) -> (r: Option<usize>)
    requires
        recovery_inputs_ok(
            s_cm as int,
            v_filtered as int,
            dt_since_last_fix,
            stops@,
            last_index,
            *freeze_ctx,
        ),
    ensures
        r is None <==> !exists|i: int|
            0 <= i < stops@.len() && spec_selectable(
                s_cm as int,
                v_filtered as int,
                dt_since_last_fix,
                stops@,
                last_index,
                *freeze_ctx,
                i,
            ),
        r matches Some(j) ==> {
            &&& j < stops@.len()
            &&& spec_selectable(
                s_cm as int,
                v_filtered as int,
                dt_since_last_fix,
                stops@,
                last_index,
                *freeze_ctx,
                j as int,
            )
            &&& forall|i: int|
                0 <= i < stops@.len() && spec_candidate(
                    s_cm as int,
                    v_filtered as int,
                    dt_since_last_fix,
                    stops@,
                    last_index,
                    i,
                ) ==> spec_score(s_cm as int, stops@, last_index, *freeze_ctx, j as int) <= spec_score(
                    s_cm as int,
                    stops@,
                    last_index,
                    *freeze_ctx,
                    i,
                )
            &&& forall|i: int|
                0 <= i < j && spec_candidate(
                    s_cm as int,
                    v_filtered as int,
                    dt_since_last_fix,
                    stops@,
                    last_index,
                    i,
                ) ==> spec_score(s_cm as int, stops@, last_index, *freeze_ctx, j as int) < spec_score(
                    s_cm as int,
                    stops@,
                    last_index,
                    *freeze_ctx,
                    i,
                )
        },
{
    let ghost s = s_cm as int;
    let ghost v = v_filtered as int;
    let ghost ctx = *freeze_ctx;
    let mut best_idx: Option<usize> = None;
    let mut best_score: i32 = i32::MAX;
    let spatial_anchor_penalty = anchor_penalty(s_cm, freeze_ctx);
    let last1 = last_index.saturating_sub(1);
    let mut i: usize = 0;
    while i < stops.len()
        invariant
            0 <= i <= stops@.len(),
            recovery_inputs_ok(s, v, dt_since_last_fix, stops@, last_index, ctx),
            s == s_cm,
            v == v_filtered,
            ctx == *freeze_ctx,
            spatial_anchor_penalty == spec_anchor_penalty(s, ctx),
            last1 == (if last_index >= 1 { last_index - 1 } else { 0 }),
            best_idx is None ==> best_score == i32::MAX,
            best_idx is None <==> !exists|k: int|
                0 <= k < i && spec_selectable(s, v, dt_since_last_fix, stops@, last_index, ctx, k),
            best_idx matches Some(j) ==> {
                &&& j < i
                &&& spec_selectable(s, v, dt_since_last_fix, stops@, last_index, ctx, j as int)
                &&& best_score == spec_score(s, stops@, last_index, ctx, j as int)
                &&& forall|k: int|
                    0 <= k < j && spec_candidate(s, v, dt_since_last_fix, stops@, last_index, k)
                        ==> best_score < spec_score(s, stops@, last_index, ctx, k)
            },
            forall|k: int|
                0 <= k < i && spec_candidate(s, v, dt_since_last_fix, stops@, last_index, k)
                    ==> best_score <= spec_score(s, stops@, last_index, ctx, k),
        decreases stops@.len() - i,
    {
        let stop = stops[i];
        assert(model::diff_fits(s, stops@[i as int].progress_cm as int));
        let d = model::abs_diff_i32(s_cm, stop.progress_cm);
        if d >= GPS_JUMP_THRESHOLD || (#[verifier::truncate] (i as u8)) < last1 {
            assert(!spec_candidate(s, v, dt_since_last_fix, stops@, last_index, i as int));
            proof {
                if let Some(j) = best_idx {
                    assert(spec_selectable(s, v, dt_since_last_fix, stops@, last_index, ctx, j as int));
                }
            }
            i = i + 1;
            continue;
        }
        assert(spec_near(s, stops@, last_index, i as int));
        let behind = last_index as i32 - i as i32;
        let index_penalty = INDEX_PENALTY * (if behind > 0 {
            behind
        } else {
            0
        });
        let backward_dist: i64 = if stop.progress_cm < s_cm {
            (s_cm - stop.progress_cm) as i64
        } else {
            0
        };
        if backward_dist > MAX_BACKWARD_RECOVERY_CM {
            assert(!spec_candidate(s, v, dt_since_last_fix, stops@, last_index, i as int));
            proof {
                if let Some(j) = best_idx {
                    assert(spec_selectable(s, v, dt_since_last_fix, stops@, last_index, ctx, j as int));
                }
            }
            i = i + 1;
            continue;
        }
        assert(reach_arith_ok(v, dt_since_last_fix));
        let dist_to_stop: i64 = if stop.progress_cm > s_cm {
            (stop.progress_cm - s_cm) as i64
        } else {
            0
        };
        let dt: i64 = if dt_since_last_fix < 1 {
            1
        } else {
            dt_since_last_fix as i64
        };
        let v_capped: i64 = if (v_filtered as i64) < V_MAX_CMS {
            v_filtered as i64
        } else {
            V_MAX_CMS
        };
        let base0 = MIN_RECOVERY_RATE_CMS * dt;
        let base = if base0 < MAX_BASE_DISTANCE_CM {
            base0
        } else {
            MAX_BASE_DISTANCE_CM
        };
        let dynamic = v_capped * dt;
        let reach = dynamic + base;
        let max_reachable = if reach < MAX_RECOVERY_DISTANCE_CM {
            reach
        } else {
            MAX_RECOVERY_DISTANCE_CM
        };
        if dist_to_stop > max_reachable {
            assert(!spec_candidate(s, v, dt_since_last_fix, stops@, last_index, i as int));
            proof {
                if let Some(j) = best_idx {
                    assert(spec_selectable(s, v, dt_since_last_fix, stops@, last_index, ctx, j as int));
                }
            }
            i = i + 1;
            continue;
        }
        assert(spec_candidate(s, v, dt_since_last_fix, stops@, last_index, i as int));
        let score = sat_add_i32(sat_add_i32(d, index_penalty), spatial_anchor_penalty);
        assert(score == spec_score(s, stops@, last_index, ctx, i as int));
        let ghost prev_idx = best_idx;
        if score < best_score {
            best_score = score;
            best_idx = Some(i);
        }
        proof {
            if let Some(j) = best_idx {
                assert(spec_selectable(s, v, dt_since_last_fix, stops@, last_index, ctx, j as int));
            } else {
                assert(!spec_selectable(s, v, dt_since_last_fix, stops@, last_index, ctx, i as int));
                assert forall|k: int| 0 <= k < i + 1 implies !spec_selectable(
                    s,
                    v,
                    dt_since_last_fix,
                    stops@,
                    last_index,
                    ctx,
                    k,
                ) by {
                    if k < i {
                    }
                }
            }
        }
        i = i + 1;
    }
    best_idx
}

/// A stop ahead of the position passing the radius and index filters is a
/// recovery candidate exactly when its distance ahead is at most
/// `min(min(v, 1667) * dt + min(200 * dt, 20000), 50000)` (with `dt` at least
/// one second). So a stop up to `min(200 * dt, 20000)` ahead is a candidate
/// even when the bus stood still, and a faster bus never has fewer candidates.
pub proof fn lemma_recovery_reach(
    s_cm: int,
    v: int,
    v_faster: int,
    dt: u64,
    stops: Seq<Stop>,
    last_index: u8,
    i: int,
)
    requires
        0 <= i < stops.len(),
        spec_near(s_cm, stops, last_index, i),
        stops[i].progress_cm >= s_cm,
        v <= v_faster,
    ensures
        ({
            let ahead = stops[i].progress_cm - s_cm;
            let d = if dt < 1 { 1 } else { dt as int };
            let vc = if v < 1667 { v } else { 1667 };
            let floor = if 200 * d < 20000 { 200 * d } else { 20000 };
            &&& spec_candidate(s_cm, v, dt, stops, last_index, i) <==> (ahead <= 50000 && ahead <= vc * d
                + floor)
            &&& (v >= 0 && ahead <= floor) ==> spec_candidate(s_cm, v, dt, stops, last_index, i)
            &&& spec_candidate(s_cm, v, dt, stops, last_index, i) ==> spec_candidate(
                s_cm,
                v_faster,
                dt,
                stops,
                last_index,
                i,
            )
        }),
{
    let d = spec_dt1(dt);
    let vc = if v < V_MAX_CMS { v } else { V_MAX_CMS as int };
    let vf = if v_faster < V_MAX_CMS { v_faster } else { V_MAX_CMS as int };
    assert(vc * d <= vf * d) by (nonlinear_arith)
        requires
            vc <= vf,
            d >= 1,
    ;
    assert(v >= 0 ==> vc * d >= 0) by (nonlinear_arith)
        requires
            v >= 0 ==> vc >= 0,
            d >= 1,
    ;
}

} // verus!
