//! Per-fix localization step: map matching, off-route hysteresis, input
//! filters, Kalman update and dead reckoning.

use vstd::prelude::*;
use crate::model;
use crate::model::{DistCm, DrState, GpsFix, KalmanState, PositionSignals, RouteData, SpeedCms};
use crate::filters;
use crate::filters::{
    check_monotonic, check_speed_constraint, soft_resync, update_dr_ema, MONOTONIC_TOLERANCE_CM,
    SIGMA_GPS_CM, V_MAX_CMS,
};
use crate::hysteresis;
use crate::hysteresis::{reset_off_route_state, update_off_route_hysteresis, OffRouteStatus};
use crate::projection;
use crate::projection::project_to_route;
use crate::search;
use crate::search::{find_best_segment_grid_only, find_best_segment_restricted};

verus! {

/// Longest outage (seconds) bridged by dead reckoning.
pub const MAX_DR_OUTAGE_S: u64 = 10;

/// Why a fix was rejected.
#[derive(Debug, Clone, Copy, PartialEq, Eq, Structural)]
pub enum RejectReason {
    /// An outage before any fix was received.
    NoPreviousFix,
}

impl RejectReason {
    /// Text of the reason in output records.
    pub open spec fn spec_text(self) -> Seq<char> {
        match self {
            RejectReason::NoPreviousFix => "no previous fix"@,
        }
    }

    pub fn as_str(&self) -> (s: &'static str)
        ensures
            s@ == self.spec_text(),
    {
        match self {
            RejectReason::NoPreviousFix => "no previous fix",
        }
    }
}

/// Outcome of processing one GPS fix.
#[derive(Debug, Clone, Copy, PartialEq, Eq, Structural)]
pub enum ProcessResult {
    /// Position accepted (`snapped` when it comes from an off-route re-entry snap).
    Valid { signals: PositionSignals, v_cms: SpeedCms, seg_idx: usize, snapped: bool },
    Rejected(RejectReason),
    /// Outage longer than dead reckoning bridges.
    Outage,
    /// Position predicted by dead reckoning.
    DrOutage { s_cm: DistCm, v_cms: SpeedCms },
    /// Confirmed off-route: position frozen.
    OffRoute { last_valid_s: DistCm, last_valid_v: SpeedCms, freeze_time: u64 },
    /// Suspected off-route: position frozen, awaiting confirmation.
    SuspectOffRoute { s_cm: DistCm, v_cms: SpeedCms },
}

/// Speed decay over `dt` seconds of dead reckoning: `(9/10)^dt`, scaled by 10000.
pub open spec fn spec_dr_decay(dt: int) -> int {
    if dt <= 0 {
        10000
    } else if dt == 1 {
        9000
    } else if dt == 2 {
        8100
    } else if dt == 3 {
        7290
    } else if dt == 4 {
        6561
    } else if dt == 5 {
        5905
    } else if dt == 6 {
        5314
    } else if dt == 7 {
        4783
    } else if dt == 8 {
        4305
    } else if dt == 9 {
        3874
    } else {
        3487
    }
}

/// Decay numerator for `dt` seconds (`dt` above 10 uses the 10 s value).
pub fn dr_decay_numerator(dt: u64) -> (f: u32)
    ensures
        f == spec_dr_decay(dt as int),
{
    if dt == 0 {
        10000
    } else if dt == 1 {
        9000
    } else if dt == 2 {
        8100
    } else if dt == 3 {
        7290
    } else if dt == 4 {
        6561
    } else if dt == 5 {
        5905
    } else if dt == 6 {
        5314
    } else if dt == 7 {
        4783
    } else if dt == 8 {
        4305
    } else if dt == 9 {
        3874
    } else {
        3487
    }
}

/// `a - b`, saturating at 0.
pub open spec fn spec_sat_sub(a: u64, b: u64) -> u64 {
    if a >= b {
        (a - b) as u64
    } else {
        0
    }
}

/// Speed after dead-reckoning decay over `dt` seconds.
pub open spec fn spec_decayed_v(v: SpeedCms, dt: u64) -> SpeedCms {
    (((v as u32) as int * spec_dr_decay(dt as int)) / 10000) as SpeedCms
}

/// Inputs on which `handle_outage` does not overflow.
pub open spec fn outage_inputs_ok(dr: DrState, timestamp: u64) -> bool {
    match dr.last_gps_time {
        None => true,
        Some(t) => {
            let dt = spec_sat_sub(timestamp, t);
            dt <= MAX_DR_OUTAGE_S ==> {
                &&& model::fits_i32(dr.filtered_v * (dt as int))
                &&& model::fits_i32(dr.last_valid_s + dr.filtered_v * (dt as int))
                &&& (dr.filtered_v as u32) as int * spec_dr_decay(dt as int) <= u32::MAX
            }
        },
    }
}

/// Effect of an outage fix (no position) on the filter state.
pub open spec fn spec_handle_outage(state: KalmanState, dr: DrState, timestamp: u64) -> (
    KalmanState,
    DrState,
    ProcessResult,
) {
    match dr.last_gps_time {
        None => (state, dr, ProcessResult::Rejected(RejectReason::NoPreviousFix)),
        Some(t) => {
            let dt = spec_sat_sub(timestamp, t);
            if dt > MAX_DR_OUTAGE_S {
                (state, DrState { in_recovery: true, ..dr }, ProcessResult::Outage)
            } else {
                let s = (dr.last_valid_s + dr.filtered_v * (dt as int)) as DistCm;
                let v = spec_decayed_v(dr.filtered_v, dt);
                (
                    hysteresis::spec_reset_off_route(KalmanState { s_cm: s, ..state }),
                    DrState { in_recovery: true, filtered_v: v, ..dr },
                    ProcessResult::DrOutage { s_cm: s, v_cms: v },
                )
            }
        },
    }
}

/// Handle a GPS outage: dead-reckon from the last valid position for up to
/// 10 s (with decaying speed), mark recovery, and reset off-route state.
fn handle_outage(state: &mut KalmanState, dr: &mut DrState, timestamp: u64) -> (r: ProcessResult)
    requires
        outage_inputs_ok(*old(dr), timestamp),
    ensures
        (*final(state), *final(dr), r) == spec_handle_outage(*old(state), *old(dr), timestamp),
{
    let dt = match dr.last_gps_time {
        Some(t) => timestamp.saturating_sub(t),
        None => {
            return ProcessResult::Rejected(RejectReason::NoPreviousFix);
        },
    };
    if dt > MAX_DR_OUTAGE_S {
        dr.in_recovery = true;
        return ProcessResult::Outage;
    }
    dr.in_recovery = true;
    state.s_cm = dr.last_valid_s + dr.filtered_v * (dt as DistCm);
    let factor = dr_decay_numerator(dt);
    dr.filtered_v = ((dr.filtered_v as u32) * factor / 10000) as SpeedCms;
    reset_off_route_state(state);
    ProcessResult::DrOutage { s_cm: state.s_cm, v_cms: dr.filtered_v }
}

/// Seconds since the previous fix, as the signed value used by the filters
/// (1 before the first fix).
pub open spec fn spec_dt(dr: DrState, gps: GpsFix) -> i32 {
    match dr.last_gps_time {
        Some(t) => spec_sat_sub(gps.timestamp, t) as i32,
        None => 1,
    }
}

/// GPS speed clamped to `[0, V_MAX_CMS]`.
pub open spec fn spec_clamp_speed(v: SpeedCms) -> int {
    if v < 0 {
        0
    } else if v > V_MAX_CMS {
        V_MAX_CMS as int
    } else {
        v as int
    }
}

/// Whether the heading filter runs in relaxed mode.
pub open spec fn spec_relaxed(dr: DrState, is_first_fix: bool) -> bool {
    is_first_fix || dr.in_recovery
}

pub open spec fn spec_query(gps: GpsFix, relaxed: bool) -> search::MatchQuery {
    search::spec_unrestricted_query(gps.x_cm, gps.y_cm, gps.heading_cdeg, gps.speed_cms, relaxed)
}

/// Route progress of the fix projected onto segment `idx`.
pub open spec fn spec_project(route: &RouteData, gps: GpsFix, idx: int) -> int {
    projection::spec_progress(
        gps.x_cm as int,
        gps.y_cm as int,
        projection::spec_projection_node(route, idx),
    )
}

/// Inputs on which the filtering path does not overflow.
pub open spec fn filter_path_ok(st: KalmanState, dr: DrState, gps: GpsFix, z: int, dt: int) -> bool {
    let frozen = st.frozen_s_cm is Some;
    let speed_ok = model::abs(z - st.s_cm) <= filters::spec_max_step(dt);
    let mono_ok = z >= st.s_cm - MONOTONIC_TOLERANCE_CM;
    let dr_ok = model::fits_i32(st.v_cms * dt) && model::fits_i32(st.s_cm + st.v_cms * dt);
    &&& !frozen ==> {
        &&& model::fits_i32(z - st.s_cm)
        &&& model::fits_i32(filters::spec_max_step(dt))
        &&& !speed_ok ==> dr_ok
        &&& speed_ok ==> model::fits_i32(st.s_cm - MONOTONIC_TOLERANCE_CM)
        &&& (speed_ok && !mono_ok) ==> dr_ok
    }
    &&& (frozen || (speed_ok && mono_ok)) ==> {
        &&& dr.in_recovery ==> model::fits_i32(2 * (z - st.s_cm)) && model::fits_i32(
            2 * (gps.speed_cms - st.v_cms),
        )
        &&& model::fits_i32(3 * (gps.speed_cms - dr.filtered_v))
    }
}

/// Inputs on which the whole step does not overflow (the step would panic
/// otherwise): map matching is defined for every segment, the projections
/// taken fit, and each arithmetic update on the branch taken fits its type.
pub open spec fn process_inputs_ok(
    state: KalmanState,
    dr: DrState,
    gps: GpsFix,
    route: &RouteData,
    is_first_fix: bool,
    current_stop_idx: u8,
) -> bool {
    if !gps.has_fix {
        outage_inputs_ok(dr, gps.timestamp)
    } else {
        let relaxed = spec_relaxed(dr, is_first_fix);
        let q = spec_query(gps, relaxed);
        let (seg_idx, match_d2) = search::spec_restricted(route, q, state.last_seg_idx as int);
        let (hs, status) = hysteresis::spec_off_route_update(
            state,
            match_d2,
            gps.timestamp,
            current_stop_idx,
        );
        let dt = spec_dt(dr, gps) as int;
        let z = spec_project(route, gps, seg_idx as int);
        let proj_ok = |i: int|
            projection::progress_inputs_ok(
                gps.x_cm as int,
                gps.y_cm as int,
                projection::spec_projection_node(route, i),
            );
        let blend_ok = model::fits_i32(3 * (spec_clamp_speed(gps.speed_cms) - state.v_cms));
        let (new_seg, _) = search::spec_grid_only(route, q);
        let frozen_s = match hs.frozen_s_cm {
            Some(f) => f,
            None => hs.s_cm,
        };
        let snap = state.frozen_s_cm is Some && spec_project(route, gps, new_seg as int) >= frozen_s;
        &&& route.nodes@.len() > 0
        &&& search::search_inputs_ok(route, q)
        &&& state.last_seg_idx + search::WINDOW_FWD < usize::MAX
        &&& if is_first_fix {
            proj_ok(seg_idx as int) && blend_ok
        } else if status != OffRouteStatus::Normal {
            true
        } else {
            &&& state.frozen_s_cm is Some ==> proj_ok(new_seg as int)
            &&& snap ==> blend_ok
            &&& !snap ==> proj_ok(seg_idx as int) && filter_path_ok(
                hs,
                DrState { in_recovery: dr.in_recovery || state.frozen_s_cm is Some, ..dr },
                gps,
                z,
                dt,
            )
        }
    }
}

/// Result of the normal filtering path (speed and monotonicity filters, then
/// soft re-synchronisation or the Kalman update) for projection `z`.
pub open spec fn spec_filter_path(
    st: KalmanState,
    dr: DrState,
    gps: GpsFix,
    z: DistCm,
    seg_idx: usize,
    dt: i32,
) -> (KalmanState, DrState, ProcessResult) {
    let frozen = st.frozen_s_cm is Some;
    if !frozen && (!(model::abs(z - st.s_cm) <= filters::spec_max_step(dt as int))
        || !(z >= st.s_cm - MONOTONIC_TOLERANCE_CM)) {
        let s = (st.s_cm + st.v_cms * dt) as DistCm;
        (
            KalmanState { s_cm: s, ..st },
            DrState { last_gps_time: Some(gps.timestamp), ..dr },
            ProcessResult::DrOutage { s_cm: s, v_cms: st.v_cms },
        )
    } else {
        let k = if dr.in_recovery {
            let s = filters::spec_soft_resync(st.s_cm as int, z as int) as DistCm;
            let v1 = filters::spec_soft_resync(st.v_cms as int, gps.speed_cms as int);
            let v = (if v1 < 0 { 0 } else { v1 }) as SpeedCms;
            KalmanState { s_cm: s, v_cms: v, last_seg_idx: seg_idx, ..st }
        } else {
            KalmanState {
                s_cm: KalmanState::spec_updated_s(st.s_cm as int, z as int, gps.hdop_x10) as DistCm,
                v_cms: KalmanState::spec_updated_v(st.v_cms as int, gps.speed_cms as int) as SpeedCms,
                last_seg_idx: seg_idx,
                ..st
            }
        };
        let d = DrState {
            last_gps_time: Some(gps.timestamp),
            last_valid_s: k.s_cm,
            filtered_v: filters::spec_ema(dr.filtered_v as int, gps.speed_cms as int) as SpeedCms,
            in_recovery: false,
        };
        (
            k,
            d,
            ProcessResult::Valid {
                signals: PositionSignals { z_gps_cm: z, s_cm: k.s_cm },
                v_cms: k.v_cms,
                seg_idx,
                snapped: false,
            },
        )
    }
}

/// Result of accepting projection `z` on segment `seg` with an EMA-blended
/// speed (first fix, or a re-entry snap when `snapped`).
pub open spec fn spec_accept_blended(
    st: KalmanState,
    dr: DrState,
    gps: GpsFix,
    z: DistCm,
    seg: usize,
    snapped: bool,
) -> (KalmanState, DrState, ProcessResult) {
    let v = filters::spec_ema(st.v_cms as int, spec_clamp_speed(gps.speed_cms)) as SpeedCms;
    let k = if snapped {
        KalmanState {
            s_cm: z,
            frozen_s_cm: None,
            off_route_suspect_ticks: 0,
            v_cms: v,
            last_seg_idx: seg,
            ..st
        }
    } else {
        KalmanState { s_cm: z, v_cms: v, last_seg_idx: seg, ..st }
    };
    let d = DrState {
        last_gps_time: Some(gps.timestamp),
        last_valid_s: z,
        filtered_v: v,
        in_recovery: if snapped { false } else { dr.in_recovery },
    };
    (
        k,
        d,
        ProcessResult::Valid {
            signals: PositionSignals { z_gps_cm: z, s_cm: z },
            v_cms: v,
            seg_idx: seg,
            snapped,
        },
    )
}

/// The full effect of one GPS fix on the Kalman and dead-reckoning state.
pub open spec fn spec_process_gps(
    state: KalmanState,
    dr: DrState,
    gps: GpsFix,
    route: &RouteData,
    is_first_fix: bool,
    current_stop_idx: u8,
) -> (KalmanState, DrState, ProcessResult) {
    if !gps.has_fix {
        spec_handle_outage(state, dr, gps.timestamp)
    } else {
        let relaxed = spec_relaxed(dr, is_first_fix);
        let q = spec_query(gps, relaxed);
        let (seg_idx, match_d2) = search::spec_restricted(route, q, state.last_seg_idx as int);
        let had_frozen = state.frozen_s_cm is Some;
        let dt = spec_dt(dr, gps);
        let z = spec_project(route, gps, seg_idx as int) as DistCm;
        if is_first_fix {
            spec_accept_blended(state, dr, gps, z, seg_idx, false)
        } else {
            let (hs, status) = hysteresis::spec_off_route_update(
                state,
                match_d2,
                gps.timestamp,
                current_stop_idx,
            );
            match status {
                OffRouteStatus::OffRoute => (
                    hs,
                    dr,
                    ProcessResult::OffRoute {
                        last_valid_s: match hs.frozen_s_cm {
                            Some(f) => f,
                            None => hs.s_cm,
                        },
                        last_valid_v: hs.v_cms,
                        freeze_time: match hs.off_route_freeze_time {
                            Some(t) => t,
                            None => gps.timestamp,
                        },
                    },
                ),
                OffRouteStatus::Suspect => (
                    hs,
                    DrState { last_gps_time: Some(gps.timestamp), ..dr },
                    ProcessResult::SuspectOffRoute {
                        s_cm: match hs.frozen_s_cm {
                            Some(f) => f,
                            None => hs.s_cm,
                        },
                        v_cms: hs.v_cms,
                    },
                ),
                OffRouteStatus::Normal => {
                    if had_frozen {
                        let dr1 = DrState { in_recovery: true, ..dr };
                        let frozen_s = match hs.frozen_s_cm {
                            Some(f) => f,
                            None => hs.s_cm,
                        };
                        let (new_seg, _d2) = search::spec_grid_only(route, q);
                        let z_re = spec_project(route, gps, new_seg as int) as DistCm;
                        if z_re >= frozen_s {
                            spec_accept_blended(hs, dr1, gps, z_re, new_seg, true)
                        } else {
                            spec_filter_path(hs, dr1, gps, z, seg_idx, dt)
                        }
                    } else {
                        spec_filter_path(hs, dr, gps, z, seg_idx, dt)
                    }
                },
            }
        }
    }
}

/// Process one GPS fix (already projected to route coordinates).
///
/// A fix without position is handled as an outage (dead reckoning up to
/// 10 s). Otherwise the fix is map-matched (relaxed heading filter on the
/// first fix or during recovery) and, outside warm-up, run through the
/// off-route hysteresis: a suspected or confirmed off-route fix reports the
/// frozen position; on the tick the suspicion clears, the fix is re-matched on
/// the grid and snapped forward if its projection is not behind the frozen
/// position. The first fix is accepted as projected. Later fixes must pass the
/// speed and monotonicity filters (unless the position is frozen), failing
/// which the position is predicted by dead reckoning; accepted fixes update the
/// filter softly during recovery, or with the HDOP-adaptive Kalman gain.
pub fn process_gps_update(
    state: &mut KalmanState,
    dr: &mut DrState,
    gps: &GpsFix,
    route_data: &RouteData,
    _current_time: u64,
    is_first_fix: bool,
    current_stop_idx: u8,
) -> (r: ProcessResult)
    requires
        process_inputs_ok(*old(state), *old(dr), *gps, route_data, is_first_fix, current_stop_idx),
    ensures
        (*final(state), *final(dr), r) == spec_process_gps(
            *old(state),
            *old(dr),
            *gps,
            route_data,
            is_first_fix,
            current_stop_idx,
        ),
{
    if !gps.has_fix {
        return handle_outage(state, dr, gps.timestamp);
    }
    let dt: i32 = match dr.last_gps_time {
        Some(t) => gps.timestamp.saturating_sub(t) as i32,
        None => 1,
    };
    let gps_x = gps.x_cm;
    let gps_y = gps.y_cm;
    let use_relaxed_heading = is_first_fix || dr.in_recovery;
    let had_frozen_position = state.frozen_s_cm.is_some();
    let (seg_idx, match_d2) = find_best_segment_restricted(
        gps_x,
        gps_y,
        gps.heading_cdeg,
        gps.speed_cms,
        route_data,
        state.last_seg_idx,
        use_relaxed_heading,
    );
    proof {
        let (si, _) = search::spec_restricted(
            route_data,
            spec_query(*gps, use_relaxed_heading),
            old(state).last_seg_idx as int,
        );
        assert(si == seg_idx);
    }
    if !is_first_fix {
        let off_route_status = update_off_route_hysteresis(
            state,
            match_d2,
            gps.timestamp,
            current_stop_idx,
        );
        match off_route_status {
            OffRouteStatus::OffRoute => {
                let frozen_s = match state.frozen_s_cm {
                    Some(f) => f,
                    None => state.s_cm,
                };
                let freeze_time = match state.off_route_freeze_time {
                    Some(t) => t,
                    None => gps.timestamp,
                };
                return ProcessResult::OffRoute {
                    last_valid_s: frozen_s,
                    last_valid_v: state.v_cms,
                    freeze_time,
                };
            },
            OffRouteStatus::Suspect => {
                dr.last_gps_time = Some(gps.timestamp);
                let s = match state.frozen_s_cm {
                    Some(f) => f,
                    None => state.s_cm,
                };
                return ProcessResult::SuspectOffRoute { s_cm: s, v_cms: state.v_cms };
            },
            OffRouteStatus::Normal => {
                if had_frozen_position {
                    dr.in_recovery = true;
                    let frozen_s = match state.frozen_s_cm {
                        Some(f) => f,
                        None => state.s_cm,
                    };
                    let (new_seg_idx, _new_match_d2) = find_best_segment_grid_only(
                        gps_x,
                        gps_y,
                        gps.heading_cdeg,
                        gps.speed_cms,
                        route_data,
                        use_relaxed_heading,
                    );
                    assert(projection::progress_inputs_ok(
                        gps_x as int,
                        gps_y as int,
                        projection::spec_projection_node(route_data, new_seg_idx as int),
                    ));
                    let z_reentry = project_to_route(gps_x, gps_y, new_seg_idx, route_data);
                    if z_reentry >= frozen_s {
                        state.s_cm = z_reentry;
                        state.frozen_s_cm = None;
                        state.off_route_suspect_ticks = 0;
                        let v_gps = clamp_speed(gps.speed_cms);
                        state.v_cms = update_dr_ema(state.v_cms, v_gps);
                        state.last_seg_idx = new_seg_idx;
                        dr.last_gps_time = Some(gps.timestamp);
                        dr.last_valid_s = state.s_cm;
                        dr.filtered_v = state.v_cms;
                        dr.in_recovery = false;
                        let signals = PositionSignals { z_gps_cm: z_reentry, s_cm: state.s_cm };
                        return ProcessResult::Valid {
                            signals,
                            v_cms: state.v_cms,
                            seg_idx: new_seg_idx,
                            snapped: true,
                        };
                    }
                }
            },
        }
    }
    assert(projection::progress_inputs_ok(
        gps_x as int,
        gps_y as int,
        projection::spec_projection_node(route_data, seg_idx as int),
    ));
    let z_raw = project_to_route(gps_x, gps_y, seg_idx, route_data);
    if is_first_fix {
        state.s_cm = z_raw;
        let v_gps = clamp_speed(gps.speed_cms);
        state.v_cms = update_dr_ema(state.v_cms, v_gps);
        state.last_seg_idx = seg_idx;
        dr.last_gps_time = Some(gps.timestamp);
        dr.last_valid_s = state.s_cm;
        dr.filtered_v = state.v_cms;
        let signals = PositionSignals { z_gps_cm: z_raw, s_cm: state.s_cm };
        return ProcessResult::Valid { signals, v_cms: state.v_cms, seg_idx, snapped: false };
    }
    if state.frozen_s_cm.is_none() {
        if !check_speed_constraint(z_raw, state.s_cm, dt) {
            state.s_cm = state.s_cm + state.v_cms * dt;
            dr.last_gps_time = Some(gps.timestamp);
            return ProcessResult::DrOutage { s_cm: state.s_cm, v_cms: state.v_cms };
        }
        if !check_monotonic(z_raw, state.s_cm) {
            state.s_cm = state.s_cm + state.v_cms * dt;
            dr.last_gps_time = Some(gps.timestamp);
            return ProcessResult::DrOutage { s_cm: state.s_cm, v_cms: state.v_cms };
        }
    }
    if dr.in_recovery {
        state.s_cm = soft_resync(state.s_cm, z_raw);
        let v = soft_resync(state.v_cms, gps.speed_cms);
        state.v_cms = if v < 0 {
            0
        } else {
            v
        };
        dr.in_recovery = false;
    } else {
        state.update_adaptive(z_raw, gps.speed_cms, gps.hdop_x10);
    }
    state.last_seg_idx = seg_idx;
    let signals = PositionSignals { z_gps_cm: z_raw, s_cm: state.s_cm };
    dr.last_gps_time = Some(gps.timestamp);
    dr.last_valid_s = state.s_cm;
    dr.filtered_v = update_dr_ema(dr.filtered_v, gps.speed_cms);
    ProcessResult::Valid { signals, v_cms: state.v_cms, seg_idx, snapped: false }
}


/// During warm-up (first fix) a fix with a position is always accepted, and
/// off-route detection is not run: the suspect counter is unchanged.
pub proof fn lemma_warmup_never_off_route(
    state: KalmanState,
    dr: DrState,
    gps: GpsFix,
    route: &RouteData,
    idx: u8,
)
    requires
        gps.has_fix,
    ensures
        ({
            let (s1, _, r) = spec_process_gps(state, dr, gps, route, true, idx);
            &&& r is Valid
            &&& s1.off_route_suspect_ticks == state.off_route_suspect_ticks
        }),
{
}

/// While off-route is suspected or confirmed, the position does not move and
/// the reported position is the frozen one (the current position if none was
/// frozen).
pub proof fn lemma_off_route_freezes_position(
    state: KalmanState,
    dr: DrState,
    gps: GpsFix,
    route: &RouteData,
    is_first_fix: bool,
    idx: u8,
)
    ensures
        ({
            let (s1, _, r) = spec_process_gps(state, dr, gps, route, is_first_fix, idx);
            let reported = match s1.frozen_s_cm {
                Some(f) => f,
                None => s1.s_cm,
            };
            &&& (r is OffRoute || r is SuspectOffRoute) ==> s1.s_cm == state.s_cm
            &&& r matches ProcessResult::OffRoute { last_valid_s, .. } ==> last_valid_s == reported
            &&& r matches ProcessResult::SuspectOffRoute { s_cm, .. } ==> s_cm == reported
        }),
{
}

/// A pending off-route suspicion always has a frozen position: the step
/// preserves "suspect ticks > 0 implies a frozen position".
pub proof fn lemma_suspicion_has_frozen_position(
    state: KalmanState,
    dr: DrState,
    gps: GpsFix,
    route: &RouteData,
    is_first_fix: bool,
    idx: u8,
)
    requires
        state.off_route_suspect_ticks > 0 ==> state.frozen_s_cm is Some,
    ensures
        ({
            let (s1, _, _) = spec_process_gps(state, dr, gps, route, is_first_fix, idx);
            s1.off_route_suspect_ticks > 0 ==> s1.frozen_s_cm is Some
        }),
{
}

/// A re-entry snap never moves backward: the snapped position is at or after
/// the position frozen when the bus went off route, and the freeze is lifted.
pub proof fn lemma_snap_is_forward(
    state: KalmanState,
    dr: DrState,
    gps: GpsFix,
    route: &RouteData,
    is_first_fix: bool,
    idx: u8,
)
    ensures
        ({
            let (s1, _, r) = spec_process_gps(state, dr, gps, route, is_first_fix, idx);
            r matches ProcessResult::Valid { snapped: true, signals, .. } ==> {
                &&& state.frozen_s_cm matches Some(f) && signals.s_cm >= f
                &&& s1.frozen_s_cm is None
                &&& s1.s_cm == signals.s_cm
            }
        }),
{
}

/// A bridged outage (at most 10 s after a fix) resets the off-route counters
/// and the frozen position, and marks recovery.
pub proof fn lemma_outage_resets_off_route(
    state: KalmanState,
    dr: DrState,
    gps: GpsFix,
    route: &RouteData,
    is_first_fix: bool,
    idx: u8,
)
    requires
        !gps.has_fix,
        dr.last_gps_time matches Some(t) && spec_sat_sub(gps.timestamp, t) <= MAX_DR_OUTAGE_S,
    ensures
        ({
            let (s1, d1, r) = spec_process_gps(state, dr, gps, route, is_first_fix, idx);
            &&& r is DrOutage
            &&& s1.off_route_suspect_ticks == 0
            &&& s1.off_route_clear_ticks == 0
            &&& s1.frozen_s_cm is None
            &&& s1.off_route_freeze_time is None
            &&& d1.in_recovery
        }),
{
}

/// Every accepted fix reports the filter's new position and records it as the
/// last valid position for dead reckoning.
pub proof fn lemma_valid_result_matches_state(
    state: KalmanState,
    dr: DrState,
    gps: GpsFix,
    route: &RouteData,
    is_first_fix: bool,
    idx: u8,
)
    ensures
        ({
            let (s1, d1, r) = spec_process_gps(state, dr, gps, route, is_first_fix, idx);
            r matches ProcessResult::Valid { signals, v_cms, seg_idx, .. } ==> {
                &&& signals.s_cm == s1.s_cm
                &&& d1.last_valid_s == s1.s_cm
                &&& v_cms == s1.v_cms
                &&& s1.last_seg_idx == seg_idx
                &&& d1.last_gps_time == Some(gps.timestamp)
                &&& !d1.in_recovery || is_first_fix
            }
        }),
{
}

/// Dead-reckoning speed decay factors shrink with the outage length.
pub proof fn lemma_dr_decay_monotone(a: int, b: int)
    requires
        a <= b,
    ensures
        spec_dr_decay(a) >= spec_dr_decay(b),
        spec_dr_decay(a) <= 10000,
{
}

/// GPS speed clamped to `[0, V_MAX_CMS]`.
fn clamp_speed(v: SpeedCms) -> (r: SpeedCms)
    ensures
        r == spec_clamp_speed(v),
{
    if v < 0 {
        0
    } else if v > V_MAX_CMS {
        V_MAX_CMS
    } else {
        v
    }
}

/// Whether an outage fix is handled without overflow (see `outage_inputs_ok`).
pub fn outage_in_range(dr: &DrState, timestamp: u64) -> (b: bool)
    ensures
        b == outage_inputs_ok(*dr, timestamp),
{
    match dr.last_gps_time {
        None => true,
        Some(t) => {
            let dt = timestamp.saturating_sub(t);
            if dt > MAX_DR_OUTAGE_S {
                return true;
            }
            let v = dr.filtered_v as i64;
            let dti = dt as i64;
            assert(-21474836480 <= v * dti <= 21474836480) by (nonlinear_arith)
                requires
                    -2147483648 <= v <= 2147483647,
                    0 <= dti <= 10,
            ;
            let step = v * dti;
            let vu = (dr.filtered_v as u32) as u64;
            let f = dr_decay_numerator(dt) as u64;
            assert(f <= 10000) by {
                assert(spec_dr_decay(dt as int) <= 10000);
            }
            assert(vu * f <= 4294967295 * 10000) by (nonlinear_arith)
                requires
                    vu <= 4294967295,
                    f <= 10000,
            ;
            let decayed = vu * f;
            projection::in_i32(step) && projection::in_i32(dr.last_valid_s as i64 + step) && decayed
                <= u32::MAX as u64
        },
    }
}

/// Whether the filtering path is defined for projection `z` (see `filter_path_ok`).
pub fn filter_path_in_range(st: &KalmanState, dr: &DrState, gps: &GpsFix, z: DistCm, dt: i32) -> (b: bool)
    ensures
        b == filter_path_ok(*st, *dr, *gps, z as int, dt as int),
{
    let frozen = st.frozen_s_cm.is_some();
    let d = z as i64 - st.s_cm as i64;
    let dist_abs: i64 = if d < 0 {
        -d
    } else {
        d
    };
    let dt1: i64 = if dt < 1 {
        1
    } else {
        dt as i64
    };
    assert(1 <= dt1 <= 2147483647);
    let max_step = V_MAX_CMS as i64 * dt1 + SIGMA_GPS_CM as i64;
    let speed_ok = dist_abs <= max_step;
    let mono_ok = z as i64 >= st.s_cm as i64 - MONOTONIC_TOLERANCE_CM as i64;
    let v = st.v_cms as i64;
    let dti = dt as i64;
    assert(-4611686018427387904 <= v * dti <= 4611686018427387904) by (nonlinear_arith)
        requires
            -2147483648 <= v <= 2147483647,
            -2147483648 <= dti <= 2147483647,
    ;
    let step = v * dti;
    let dr_ok = projection::in_i32(step) && projection::in_i32(st.s_cm as i64 + step);
    let unfrozen_ok = projection::in_i32(d) && projection::in_i32(max_step) && (speed_ok || dr_ok) && (!speed_ok
        || projection::in_i32(st.s_cm as i64 - MONOTONIC_TOLERANCE_CM as i64)) && (!(speed_ok && !mono_ok)
        || dr_ok);
    let accept_ok = (!dr.in_recovery || (projection::in_i32(2 * d) && projection::in_i32(
        2 * (gps.speed_cms as i64 - st.v_cms as i64),
    ))) && projection::in_i32(3 * (gps.speed_cms as i64 - dr.filtered_v as i64));
    (frozen || unfrozen_ok) && (!(frozen || (speed_ok && mono_ok)) || accept_ok)
}

/// Whether `process_gps_update` is defined on the inputs (see `process_inputs_ok`).
pub fn process_in_range(
    state: &KalmanState,
    dr: &DrState,
    gps: &GpsFix,
    route_data: &RouteData,
    is_first_fix: bool,
    current_stop_idx: u8,
) -> (b: bool)
    ensures
        b == process_inputs_ok(*state, *dr, *gps, route_data, is_first_fix, current_stop_idx),
{
    if !gps.has_fix {
        return outage_in_range(dr, gps.timestamp);
    }
    if route_data.nodes.len() == 0 {
        return false;
    }
    let relaxed = is_first_fix || dr.in_recovery;
    let q = search::unrestricted_query(gps.x_cm, gps.y_cm, gps.heading_cdeg, gps.speed_cms, relaxed);
    if !search::search_in_range(route_data, &q) {
        return false;
    }
    if state.last_seg_idx >= usize::MAX - search::WINDOW_FWD {
        return false;
    }
    let (seg_idx, match_d2) = find_best_segment_restricted(
        gps.x_cm,
        gps.y_cm,
        gps.heading_cdeg,
        gps.speed_cms,
        route_data,
        state.last_seg_idx,
        relaxed,
    );
    let node = match route_data.get_node(seg_idx) {
        Some(n) => n,
        None => route_data.nodes[0],
    };
    let proj_seg = projection::progress_in_range(gps.x_cm, gps.y_cm, &node);
    let blend_ok = projection::in_i32(3 * (clamp_speed(gps.speed_cms) as i64 - state.v_cms as i64));
    if is_first_fix {
        return proj_seg && blend_ok;
    }
    let mut hs = *state;
    let status = update_off_route_hysteresis(&mut hs, match_d2, gps.timestamp, current_stop_idx);
    match status {
        OffRouteStatus::Normal => {},
        _ => {
            return true;
        },
    }
    let had_frozen = state.frozen_s_cm.is_some();
    let mut snap = false;
    if had_frozen {
        let (new_seg, _d2) = find_best_segment_grid_only(
            gps.x_cm,
            gps.y_cm,
            gps.heading_cdeg,
            gps.speed_cms,
            route_data,
            relaxed,
        );
        let new_node = match route_data.get_node(new_seg) {
            Some(n) => n,
            None => route_data.nodes[0],
        };
        if !projection::progress_in_range(gps.x_cm, gps.y_cm, &new_node) {
            return false;
        }
        let z_re = project_to_route(gps.x_cm, gps.y_cm, new_seg, route_data);
        let frozen_s = match hs.frozen_s_cm {
            Some(f) => f,
            None => hs.s_cm,
        };
        snap = z_re >= frozen_s;
    }
    if snap {
        return blend_ok;
    }
    if !proj_seg {
        return false;
    }
    let z = project_to_route(gps.x_cm, gps.y_cm, seg_idx, route_data);
    let dt: i32 = match dr.last_gps_time {
        Some(t) => gps.timestamp.saturating_sub(t) as i32,
        None => 1,
    };
    let dr1 = DrState { in_recovery: dr.in_recovery || had_frozen, ..*dr };
    filter_path_in_range(&hs, &dr1, gps, z, dt)
}

} // verus!
