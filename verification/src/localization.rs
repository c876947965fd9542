//! Localization stage: turns GPS fixes into route-position records.

use vstd::prelude::*;
use crate::detection::{GpsDiagnostics, GpsRecord, RecordStatus};
use crate::kalman;
use crate::kalman::{process_gps_update, process_in_range, ProcessResult};
use crate::model;
use crate::model::{DistCm, DrState, GpsFix, HeadCdeg, KalmanState, RouteData};

verus! {

/// Heading of a fix, if the receiver gave one.
pub open spec fn spec_heading(gps: GpsFix) -> Option<HeadCdeg> {
    if gps.heading_cdeg == i16::MIN {
        None
    } else {
        Some(gps.heading_cdeg)
    }
}

/// HDOP (times ten) of a fix, if known.
pub open spec fn spec_hdop(gps: GpsFix) -> Option<u16> {
    if gps.hdop_x10 > 0 {
        Some(gps.hdop_x10)
    } else {
        None
    }
}

/// Record for the outcome of processing `gps`: none for a rejected fix or a
/// long outage; otherwise the position, speed and status of the outcome. A
/// valid record carries the heading, matched segment, heading check, divergence
/// and HDOP; a dead-reckoned one keeps the heading; off-route ones have none.
/// Every record carries the given accuracy.
pub open spec fn spec_record(res: ProcessResult, gps: GpsFix, accuracy_cm: Option<DistCm>) -> Option<GpsRecord> {
    let base = GpsRecord {
        time: gps.timestamp,
        s_cm: 0,
        v_cms: 0,
        heading_cdeg: None,
        status: RecordStatus::Valid,
        segment_idx: None,
        heading_constraint_met: false,
        divergence_cm: 0,
        hdop_x10: None,
        accuracy_cm,
        num_sats: None,
        fix_type: None,
        variance_cm2: 0,
    };
    match res {
        ProcessResult::Valid { signals, v_cms, seg_idx, snapped: _ } => Some(
            GpsRecord {
                s_cm: signals.s_cm,
                v_cms,
                heading_cdeg: spec_heading(gps),
                segment_idx: Some(seg_idx as u16),
                heading_constraint_met: true,
                divergence_cm: (signals.z_gps_cm - signals.s_cm) as i32,
                hdop_x10: spec_hdop(gps),
                ..base
            },
        ),
        ProcessResult::DrOutage { s_cm, v_cms } => Some(
            GpsRecord { s_cm, v_cms, heading_cdeg: spec_heading(gps), status: RecordStatus::DrOutage, ..base },
        ),
        ProcessResult::OffRoute { last_valid_s, last_valid_v, freeze_time: _ } => Some(
            GpsRecord { s_cm: last_valid_s, v_cms: last_valid_v, status: RecordStatus::OffRoute, ..base },
        ),
        ProcessResult::SuspectOffRoute { s_cm, v_cms } => Some(
            GpsRecord { s_cm, v_cms, status: RecordStatus::SuspectOffRoute, ..base },
        ),
        ProcessResult::Rejected(_) => None,
        ProcessResult::Outage => None,
    }
}

/// Inputs on which `process_gps` does not overflow: the filter step fits and
/// an accepted fix's divergence is representable.
pub open spec fn spec_localize_ok(
    kalman_state: KalmanState,
    dr: DrState,
    is_first_fix: bool,
    gps: GpsFix,
    route: &RouteData,
) -> bool {
    &&& kalman::process_inputs_ok(kalman_state, dr, gps, route, is_first_fix, 0)
    &&& match kalman::spec_process_gps(kalman_state, dr, gps, route, is_first_fix, 0).2 {
        ProcessResult::Valid { signals, .. } => model::diff_fits(signals.z_gps_cm as int, signals.s_cm as int),
        _ => true,
    }
}

/// Localization state: the Kalman filter, dead reckoning, and whether the
/// next fix is the first.
pub struct LocalizationState {
    pub kalman: KalmanState,
    pub dr: DrState,
    pub is_first_fix: bool,
}

impl LocalizationState {
    /// Fresh state: filter at rest at the route start, awaiting the first fix.
    pub fn new(_route_data: &RouteData) -> (r: Self)
        ensures
            r.kalman == (KalmanState {
                s_cm: 0,
                v_cms: 0,
                last_seg_idx: 0,
                off_route_suspect_ticks: 0,
                off_route_clear_ticks: 0,
                frozen_s_cm: None,
                off_route_freeze_time: None,
                freeze_ctx: None,
            }),
            r.dr == (DrState { last_gps_time: None, last_valid_s: 0, filtered_v: 0, in_recovery: false }),
            r.is_first_fix,
    {
        LocalizationState { kalman: KalmanState::new(), dr: DrState::new(), is_first_fix: true }
    }

    /// Whether `process_gps` is defined on `gps` (see `spec_localize_ok`): the
    /// filter step fits and an accepted fix's divergence is representable.
    pub fn fix_in_range(&self, gps: &GpsFix, route_data: &RouteData) -> (b: bool)
        ensures
            b == spec_localize_ok(self.kalman, self.dr, self.is_first_fix, *gps, route_data),
    {
        if !process_in_range(&self.kalman, &self.dr, gps, route_data, self.is_first_fix, 0) {
            return false;
        }
        let mut k = self.kalman;
        let mut d = self.dr;
        match process_gps_update(&mut k, &mut d, gps, route_data, gps.timestamp, self.is_first_fix, 0) {
            ProcessResult::Valid { signals, .. } => {
                let diff = signals.z_gps_cm as i64 - signals.s_cm as i64;
                -(i32::MAX as i64) <= diff && diff <= i32::MAX as i64
            },
            _ => true,
        }
    }

    /// Processes one fix: runs the filter step (see
    /// `kalman::process_gps_update`, with stop index 0), clears the first-fix
    /// flag, and returns the record for the outcome (see `spec_record`).
    pub fn process_gps(
        &mut self,
        gps: &GpsFix,
        route_data: &RouteData,
        accuracy_cm: Option<DistCm>,
    ) -> (r: Option<GpsRecord>)
        requires
            spec_localize_ok(old(self).kalman, old(self).dr, old(self).is_first_fix, *gps, route_data),
        ensures
            ({
                let (k, d, res) = kalman::spec_process_gps(
                    old(self).kalman,
                    old(self).dr,
                    *gps,
                    route_data,
                    old(self).is_first_fix,
                    0,
                );
                &&& final(self).kalman == k
                &&& final(self).dr == d
                &&& !final(self).is_first_fix
                &&& r == spec_record(res, *gps, accuracy_cm)
            }),
    {
        let result = process_gps_update(
            &mut self.kalman,
            &mut self.dr,
            gps,
            route_data,
            gps.timestamp,
            self.is_first_fix,
            0,
        );
        self.is_first_fix = false;
        let heading = if gps.heading_cdeg == i16::MIN {
            None
        } else {
            Some(gps.heading_cdeg)
        };
        match result {
            ProcessResult::Valid { signals, v_cms, seg_idx, snapped: _ } => {
                let divergence_cm = signals.z_gps_cm - signals.s_cm;
                let hdop = if gps.hdop_x10 > 0 {
                    Some(gps.hdop_x10)
                } else {
                    None
                };
                let diag = GpsDiagnostics::new().with_segment_idx(Some(seg_idx as u16)).with_heading_met(
                    true,
                ).with_divergence_cm(divergence_cm).with_hdop(hdop).with_accuracy_cm(accuracy_cm);
                Some(
                    GpsRecord::new(gps.timestamp, signals.s_cm, v_cms, heading, RecordStatus::Valid).with_diagnostics(
                        diag,
                    ),
                )
            },
            ProcessResult::DrOutage { s_cm, v_cms } => {
                let diag = GpsDiagnostics::new().with_accuracy_cm(accuracy_cm);
                Some(
                    GpsRecord::new(gps.timestamp, s_cm, v_cms, heading, RecordStatus::DrOutage).with_diagnostics(
                        diag,
                    ),
                )
            },
            ProcessResult::OffRoute { last_valid_s, last_valid_v, freeze_time: _ } => {
                let diag = GpsDiagnostics::new().with_accuracy_cm(accuracy_cm);
                Some(
                    GpsRecord::new(
                        gps.timestamp,
                        last_valid_s,
                        last_valid_v,
                        None,
                        RecordStatus::OffRoute,
                    ).with_diagnostics(diag),
                )
            },
            ProcessResult::SuspectOffRoute { s_cm, v_cms } => {
                let diag = GpsDiagnostics::new().with_accuracy_cm(accuracy_cm);
                Some(
                    GpsRecord::new(
                        gps.timestamp,
                        s_cm,
                        v_cms,
                        None,
                        RecordStatus::SuspectOffRoute,
                    ).with_diagnostics(diag),
                )
            },
            ProcessResult::Rejected(_) => None,
            ProcessResult::Outage => None,
        }
    }
}

} // verus!
