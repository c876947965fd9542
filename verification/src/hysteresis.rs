//! Off-route detection with hysteresis: 5 consecutive poor matches confirm
//! off-route, 2 consecutive good matches clear it. The position is frozen on
//! the first poor match.

use vstd::prelude::*;
use crate::model::{FreezeContext, KalmanState};

verus! {

/// Off-route distance threshold: (50 m)² in cm².
pub const OFF_ROUTE_D2_THRESHOLD: i64 = 25_000_000;

/// Poor matches needed to confirm off-route.
pub const OFF_ROUTE_CONFIRM_TICKS: u8 = 5;

/// Good matches needed to clear off-route.
pub const OFF_ROUTE_CLEAR_TICKS: u8 = 2;

/// Result of an off-route hysteresis update.
#[derive(Debug, Clone, Copy, PartialEq, Eq, Structural)]
pub enum OffRouteStatus {
    /// GPS is on route.
    Normal,
    /// Position frozen, awaiting confirmation or clearance.
    Suspect,
    /// Confirmed off-route.
    OffRoute,
}

/// `x + 1`, saturating at `u8::MAX`.
pub open spec fn spec_sat_inc(x: u8) -> u8 {
    if x == u8::MAX {
        u8::MAX
    } else {
        (x + 1) as u8
    }
}

/// New state and status after one hysteresis update.
pub open spec fn spec_off_route_update(
    state: KalmanState,
    match_d2: i64,
    gps_timestamp: u64,
    current_stop_idx: u8,
) -> (KalmanState, OffRouteStatus) {
    if match_d2 > OFF_ROUTE_D2_THRESHOLD {
        let frozen = if state.off_route_suspect_ticks == 0 {
            KalmanState {
                frozen_s_cm: Some(state.s_cm),
                off_route_freeze_time: Some(gps_timestamp),
                freeze_ctx: Some(
                    FreezeContext { frozen_s_cm: state.s_cm, frozen_stop_idx: current_stop_idx },
                ),
                ..state
            }
        } else {
            state
        };
        let ticks = spec_sat_inc(state.off_route_suspect_ticks);
        let s1 = KalmanState {
            off_route_suspect_ticks: ticks,
            off_route_clear_ticks: 0,
            ..frozen
        };
        (s1, if ticks >= OFF_ROUTE_CONFIRM_TICKS { OffRouteStatus::OffRoute } else { OffRouteStatus::Suspect })
    } else {
        let clear = spec_sat_inc(state.off_route_clear_ticks);
        let suspect = state.off_route_suspect_ticks > 0 || state.frozen_s_cm is Some;
        if clear >= OFF_ROUTE_CLEAR_TICKS {
            (
                KalmanState { off_route_clear_ticks: clear, off_route_suspect_ticks: 0, ..state },
                OffRouteStatus::Normal,
            )
        } else {
            (
                KalmanState { off_route_clear_ticks: clear, ..state },
                if suspect { OffRouteStatus::Suspect } else { OffRouteStatus::Normal },
            )
        }
    }
}

/// Update the off-route hysteresis from the squared distance of the best match.
///
/// A match farther than 50 m counts as poor: on the first poor tick the
/// position, time and stop index are frozen; the suspect counter increments
/// (saturating), the clear counter resets, and the status is `OffRoute` once
/// 5 poor ticks accumulated, else `Suspect`. A good match increments the clear
/// counter; after 2 it resets the suspect counter and reports `Normal` (the
/// frozen position is kept), before that it reports `Suspect` if a suspicion is
/// pending and `Normal` otherwise.
pub fn update_off_route_hysteresis(
    state: &mut KalmanState,
    match_d2: i64,
    gps_timestamp: u64,
    current_stop_idx: u8,
) -> (status: OffRouteStatus)
    ensures
        (*final(state), status) == spec_off_route_update(
            *old(state),
            match_d2,
            gps_timestamp,
            current_stop_idx,
        ),
{
    if match_d2 > OFF_ROUTE_D2_THRESHOLD {
        if state.off_route_suspect_ticks == 0 {
            state.frozen_s_cm = Some(state.s_cm);
            state.off_route_freeze_time = Some(gps_timestamp);
            state.freeze_ctx = Some(
                FreezeContext { frozen_s_cm: state.s_cm, frozen_stop_idx: current_stop_idx },
            );
        }
        state.off_route_suspect_ticks = state.off_route_suspect_ticks.saturating_add(1);
        state.off_route_clear_ticks = 0;
        if state.off_route_suspect_ticks >= OFF_ROUTE_CONFIRM_TICKS {
            OffRouteStatus::OffRoute
        } else {
            OffRouteStatus::Suspect
        }
    } else {
        state.off_route_clear_ticks = state.off_route_clear_ticks.saturating_add(1);
        let is_actually_suspect = state.off_route_suspect_ticks > 0 || state.frozen_s_cm.is_some();
        if state.off_route_clear_ticks >= OFF_ROUTE_CLEAR_TICKS {
            state.off_route_suspect_ticks = 0;
            OffRouteStatus::Normal
        } else if is_actually_suspect {
            OffRouteStatus::Suspect
        } else {
            OffRouteStatus::Normal
        }
    }
}

/// State with all off-route bookkeeping cleared (counters, freeze time and
/// frozen position); the freeze context and the rest are kept.
pub open spec fn spec_reset_off_route(state: KalmanState) -> KalmanState {
    KalmanState {
        off_route_suspect_ticks: 0,
        off_route_clear_ticks: 0,
        off_route_freeze_time: None,
        frozen_s_cm: None,
        ..state
    }
}

/// Reset all off-route state (called on GPS outage).
pub fn reset_off_route_state(state: &mut KalmanState)
    ensures
        *final(state) == spec_reset_off_route(*old(state)),
{
    state.off_route_suspect_ticks = 0;
    state.off_route_clear_ticks = 0;
    state.off_route_freeze_time = None;
    state.frozen_s_cm = None;
}

/// State after `n` consecutive poor matches (timestamps `t0, t0 + 1, ...`).
pub open spec fn spec_poor_ticks(state: KalmanState, n: nat, t0: u64, idx: u8) -> KalmanState
    decreases n,
{
    if n == 0 {
        state
    } else {
        spec_off_route_update(spec_poor_ticks(state, (n - 1) as nat, t0, idx), i64::MAX, t0, idx).0
    }
}

/// Starting from no suspicion, the k-th consecutive poor match (k = 1..=5)
/// leaves k suspect ticks, and reports `Suspect` for k < 5 and `OffRoute` at
/// k = 5; the position frozen at the first poor match stays frozen.
pub proof fn lemma_off_route_confirms_after_five(state: KalmanState, t0: u64, idx: u8, k: nat)
    requires
        state.off_route_suspect_ticks == 0,
        1 <= k <= 5,
    ensures
        spec_poor_ticks(state, k, t0, idx).off_route_suspect_ticks == k,
        spec_poor_ticks(state, k, t0, idx).off_route_clear_ticks == 0,
        spec_poor_ticks(state, k, t0, idx).frozen_s_cm == Some(state.s_cm),
        spec_poor_ticks(state, k, t0, idx).s_cm == state.s_cm,
        spec_off_route_update(spec_poor_ticks(state, (k - 1) as nat, t0, idx), i64::MAX, t0, idx).1
            == (if k < 5 { OffRouteStatus::Suspect } else { OffRouteStatus::OffRoute }),
    decreases k,
{
    if k > 1 {
        lemma_off_route_confirms_after_five(state, t0, idx, (k - 1) as nat);
    }
}

/// Two consecutive good matches always return to `Normal` with the suspect
/// counter cleared, whatever the prior state; the frozen position is kept.
pub proof fn lemma_off_route_clears_after_two(state: KalmanState, d1: i64, d2: i64, t: u64, idx: u8)
    requires
        d1 <= OFF_ROUTE_D2_THRESHOLD,
        d2 <= OFF_ROUTE_D2_THRESHOLD,
    ensures
        ({
            let (s1, _) = spec_off_route_update(state, d1, t, idx);
            let (s2, st2) = spec_off_route_update(s1, d2, t, idx);
            &&& st2 == OffRouteStatus::Normal
            &&& s2.off_route_suspect_ticks == 0
            &&& s2.frozen_s_cm == state.frozen_s_cm
            &&& s2.s_cm == state.s_cm
        }),
{
}

/// A poor match never reports `Normal`, and a good match never reports
/// `OffRoute`; neither moves the position.
pub proof fn lemma_off_route_status_consistent(state: KalmanState, d: i64, t: u64, idx: u8)
    ensures
        ({
            let (s1, st) = spec_off_route_update(state, d, t, idx);
            &&& d > OFF_ROUTE_D2_THRESHOLD ==> st != OffRouteStatus::Normal
            &&& d <= OFF_ROUTE_D2_THRESHOLD ==> st != OffRouteStatus::OffRoute
            &&& s1.s_cm == state.s_cm
            &&& s1.v_cms == state.v_cms
        }),
{
}

/// Resetting twice is the same as resetting once.
pub proof fn lemma_reset_idempotent(state: KalmanState)
    ensures
        spec_reset_off_route(spec_reset_off_route(state)) == spec_reset_off_route(state),
{
}

} // verus!
