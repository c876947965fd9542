//! Heading filter for map matching: a segment is eligible only if the bus
//! could plausibly be travelling along it.

use vstd::prelude::*;
use crate::model;
use crate::model::{HeadCdeg, SpeedCms};

verus! {

/// Hard heading gate at full speed (90°).
pub const MAX_HEADING_DIFF_CDEG: u32 = 9_000;

/// Relaxed gate used on a first fix or after an outage (180°).
pub const RELAXED_HEADING_DIFF_CDEG: u32 = 18_000;

/// Heading weight: 0 at standstill, 256 from 83 cm/s (3 km/h) upwards.
pub open spec fn spec_heading_weight(v_cms: int) -> int {
    let w = model::trunc_div(v_cms * 256, 83);
    if w < 256 {
        w
    } else {
        256
    }
}

/// Gate for weight `w`: disabled (`u32::MAX`) at `w == 0`, 90° at `w == 256`,
/// linear in between.
pub open spec fn spec_heading_threshold(w: int) -> int {
    if w == 0 {
        u32::MAX as int
    } else {
        36_000 - (27_000 * w) / 256
    }
}

/// Shortest angular distance between two headings, in 0..=18000.
pub open spec fn spec_heading_diff(a: int, b: int) -> int {
    let d = model::abs(a - b) % 36000;
    if d > 18000 {
        36000 - d
    } else {
        d
    }
}

/// Whether a segment heading is plausible for the GPS heading and speed.
pub open spec fn spec_heading_eligible(
    gps_heading: int,
    gps_speed: int,
    seg_heading: int,
    is_first_fix: bool,
) -> bool {
    if gps_heading == i16::MIN {
        true
    } else {
        let threshold = if is_first_fix {
            RELAXED_HEADING_DIFF_CDEG as int
        } else {
            spec_heading_threshold(spec_heading_weight(gps_speed))
        };
        spec_heading_diff(gps_heading, seg_heading) <= threshold
    }
}

/// Inputs on which the heading filter is defined (it overflows otherwise):
/// a real heading needs `speed * 256` to fit in `i32`, and outside the relaxed
/// mode the speed must not be negative.
pub open spec fn heading_inputs_ok(gps_heading: int, gps_speed: int, is_first_fix: bool) -> bool {
    gps_heading == i16::MIN || (model::fits_i32(gps_speed * 256) && (is_first_fix || gps_speed >= 0))
}

/// Heading filter threshold for a given speed weight.
///
/// The bound on `w` is exact: a negative weight overflows the multiplication,
/// and from 342 on `27_000 * w / 256` exceeds 36 000, so the subtraction would
/// go below zero.
pub fn heading_threshold_cdeg(w: i32) -> (t: u32)
    requires
        0 <= w <= 341,
    ensures
        t == spec_heading_threshold(w as int),
{
    if w == 0 {
        return u32::MAX;
    }
    let range = 36_000u32 - MAX_HEADING_DIFF_CDEG;
    assert(27_000 * (w as int) <= 27_000 * 341) by (nonlinear_arith)
        requires
            0 <= w <= 341,
    ;
    let scaled = range * (w as u32);
    assert(scaled / 256 <= 36_000) by (nonlinear_arith)
        requires
            scaled <= 27_000 * 341,
    ;
    36_000 - scaled / 256
}

/// Heading weight: 0 at v = 0, 256 at v >= 83 cm/s.
pub fn heading_weight(v_cms: SpeedCms) -> (w: i32)
    requires
        model::fits_i32(v_cms * 256),
    ensures
        w == spec_heading_weight(v_cms as int),
        v_cms >= 0 ==> 0 <= w <= 256,
{
    let w = (v_cms * 256) / 83;
    assert(v_cms >= 0 ==> w >= 0) by (nonlinear_arith)
        requires
            w == model::trunc_div(v_cms * 256, 83),
    ;
    if w < 256 {
        w
    } else {
        256
    }
}

/// Shortest heading difference around the circle.
pub fn heading_diff_cdeg(a: HeadCdeg, b: HeadCdeg) -> (d: HeadCdeg)
    ensures
        d == spec_heading_diff(a as int, b as int),
        0 <= d <= 18000,
{
    let x = a as i32 - b as i32;
    let ax: u32 = if x < 0 {
        (-x) as u32
    } else {
        x as u32
    };
    let diff = ax % 36000;
    if diff > 18000 {
        (36000 - diff) as HeadCdeg
    } else {
        diff as HeadCdeg
    }
}

/// Whether this segment is a plausible direction of travel.
///
/// - heading `i16::MIN` (no heading available): always eligible;
/// - first fix / recovery: 180° gate;
/// - otherwise: gate from the speed weight (open at standstill, 90° at speed).
pub fn heading_eligible(
    gps_heading: HeadCdeg,
    gps_speed: SpeedCms,
    seg_heading: HeadCdeg,
    is_first_fix: bool,
) -> (ok: bool)
    requires
        heading_inputs_ok(gps_heading as int, gps_speed as int, is_first_fix),
    ensures
        ok == spec_heading_eligible(
            gps_heading as int,
            gps_speed as int,
            seg_heading as int,
            is_first_fix,
        ),
{
    if gps_heading == i16::MIN {
        return true;
    }
    let w = heading_weight(gps_speed);
    let threshold = if is_first_fix {
        RELAXED_HEADING_DIFF_CDEG
    } else {
        heading_threshold_cdeg(w)
    };
    let diff = heading_diff_cdeg(gps_heading, seg_heading) as u32;
    diff <= threshold
}

/// The heading difference is symmetric, zero on equal headings, and never
/// exceeds 180°.
pub proof fn lemma_heading_diff_laws(a: int, b: int)
    ensures
        spec_heading_diff(a, b) == spec_heading_diff(b, a),
        spec_heading_diff(a, a) == 0,
        0 <= spec_heading_diff(a, b) <= 18000,
{
    assert(model::abs(a - b) == model::abs(b - a));
}

/// A faster bus gets a tighter (or equal) heading gate; at full weight the
/// gate is exactly 90°.
pub proof fn lemma_threshold_monotone(w1: int, w2: int)
    requires
        0 < w1 <= w2 <= 341,
    ensures
        spec_heading_threshold(w1) >= spec_heading_threshold(w2),
        spec_heading_threshold(256) == MAX_HEADING_DIFF_CDEG,
{
    assert((27_000 * w1) / 256 <= (27_000 * w2) / 256) by (nonlinear_arith)
        requires
            0 < w1 <= w2,
    ;
}

/// Every segment passes the heading check when the fix carries no heading,
/// when the bus stands still, and in relaxed mode (first fix or recovery).
pub proof fn lemma_heading_gate_open(
    gps_heading: int,
    gps_speed: int,
    seg_heading: int,
    is_first_fix: bool,
)
    ensures
        spec_heading_eligible(i16::MIN as int, gps_speed, seg_heading, is_first_fix),
        spec_heading_eligible(gps_heading, 0, seg_heading, is_first_fix),
        spec_heading_eligible(gps_heading, gps_speed, seg_heading, true),
{
    lemma_heading_diff_laws(gps_heading, seg_heading);
}

} // verus!
