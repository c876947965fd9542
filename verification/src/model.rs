//! Core value types shared by localization and arrival detection.
//!
//! All quantities are fixed-point integers: distances in centimetres,
//! speeds in centimetres per second, headings in hundredths of a degree.

use vstd::prelude::*;

verus! {

/// Route distance or coordinate in centimetres.
pub type DistCm = i32;

/// Speed in centimetres per second.
pub type SpeedCms = i32;

/// Probability scaled to 0..=255.
pub type Prob8 = u8;

/// Heading in hundredths of a degree (-18000..=18000; `i16::MIN` means "no heading").
pub type HeadCdeg = i16;

/// Squared distance in cm².
pub type Dist2 = i64;

/// Timestamp in milliseconds (or seconds, depending on the source).
pub type TimestampMs = u64;

/// Integer division that truncates toward zero (the semantics of `/` on
/// machine integers), for a positive divisor.
pub open spec fn trunc_div(a: int, b: int) -> int {
    if a >= 0 {
        a / b
    } else {
        -((-a) / b)
    }
}

/// Absolute value on mathematical integers.
pub open spec fn abs(a: int) -> int {
    if a < 0 {
        -a
    } else {
        a
    }
}

/// `a - b` is a valid `i32` whose absolute value is also a valid `i32`.
pub open spec fn diff_fits(a: int, b: int) -> bool {
    -i32::MAX <= a - b <= i32::MAX
}

/// `x` lies in the range of `i32`.
pub open spec fn fits_i32(x: int) -> bool {
    i32::MIN <= x <= i32::MAX
}

/// `x` lies in the range of `i64`.
pub open spec fn fits_i64(x: int) -> bool {
    i64::MIN <= x <= i64::MAX
}

/// `|a - b|` for two `i32` values whose difference does not overflow.
pub fn abs_diff_i32(a: i32, b: i32) -> (r: i32)
    requires
        diff_fits(a as int, b as int),
    ensures
        r == abs(a - b),
        r >= 0,
{
    let d = a - b;
    if d < 0 {
        -d
    } else {
        d
    }
}

/// State of the per-stop arrival state machine.
#[derive(Debug, Clone, Copy, PartialEq, Eq, Structural)]
pub enum FsmState {
    /// Outside the stop's corridor.
    Idle,
    /// Inside the corridor, more than 50 m from the stop.
    Approaching,
    /// Within 50 m of the stop, arrival not yet confirmed.
    Arriving,
    /// Arrival confirmed.
    AtStop,
    /// Left the stop after arriving (or passed it).
    Departed,
    /// Terminal state: the trip is over.
    TripComplete,
}

/// A bus stop: its position along the route and its detection corridor.
#[derive(Debug, Clone, Copy, PartialEq, Eq, Structural)]
pub struct Stop {
    pub progress_cm: DistCm,
    pub corridor_start_cm: DistCm,
    pub corridor_end_cm: DistCm,
}

/// Divergence below which the raw and filtered positions count as converged.
pub const CONVERGED_DIVERGENCE_CM: u32 = 100;

/// Raw GPS projection and Kalman-filtered route position, kept apart so that
/// the distance feature and the progress feature use independent signals.
#[derive(Debug, Clone, Copy, PartialEq, Eq, Structural)]
pub struct PositionSignals {
    /// Raw GPS projection onto the route (cm).
    pub z_gps_cm: DistCm,
    /// Kalman-filtered route position (cm).
    pub s_cm: DistCm,
}

impl PositionSignals {
    pub open spec fn spec_divergence(self) -> int {
        abs(self.z_gps_cm - self.s_cm)
    }

    pub fn new(z_gps_cm: DistCm, s_cm: DistCm) -> (r: Self)
        ensures
            r.z_gps_cm == z_gps_cm,
            r.s_cm == s_cm,
    {
        PositionSignals { z_gps_cm, s_cm }
    }

    /// `|z_gps_cm - s_cm|`.
    pub fn divergence_cm(&self) -> (d: u32)
        ensures
            d == self.spec_divergence(),
    {
        let a = self.z_gps_cm as i64;
        let b = self.s_cm as i64;
        if a >= b {
            (a - b) as u32
        } else {
            (b - a) as u32
        }
    }

    /// Whether the two signals agree to within `CONVERGED_DIVERGENCE_CM`.
    pub fn is_converged(&self) -> (b: bool)
        ensures
            b == (self.spec_divergence() < CONVERGED_DIVERGENCE_CM),
    {
        self.divergence_cm() < CONVERGED_DIVERGENCE_CM
    }
}

/// Position and stop index recorded when an off-route episode froze the position.
#[derive(Debug, Clone, Copy, PartialEq, Eq, Structural)]
pub struct FreezeContext {
    pub frozen_s_cm: DistCm,
    pub frozen_stop_idx: u8,
}

/// One-dimensional Kalman state along the route, with off-route bookkeeping.
#[derive(Debug, Clone, Copy, PartialEq, Eq, Structural)]
pub struct KalmanState {
    pub s_cm: DistCm,
    pub v_cms: SpeedCms,
    pub last_seg_idx: usize,
    pub off_route_suspect_ticks: u8,
    pub off_route_clear_ticks: u8,
    pub frozen_s_cm: Option<DistCm>,
    pub off_route_freeze_time: Option<u64>,
    pub freeze_ctx: Option<FreezeContext>,
}

/// Position gain (out of 256) used by the measurement update for a given HDOP
/// (x10): the better the fix, the larger the gain; an HDOP of 0 gets the
/// largest gain.
pub open spec fn spec_position_gain(hdop_x10: u16) -> int {
    if hdop_x10 <= 10 {
        77
    } else if hdop_x10 <= 20 {
        51
    } else if hdop_x10 <= 50 {
        26
    } else {
        13
    }
}

/// Velocity gain (out of 256) used by the measurement update.
pub open spec fn spec_velocity_gain() -> int {
    77
}

pub fn position_gain(hdop_x10: u16) -> (k: i64)
    ensures
        k == spec_position_gain(hdop_x10),
        13 <= k <= 77,
{
    if hdop_x10 <= 10 {
        77
    } else if hdop_x10 <= 20 {
        51
    } else if hdop_x10 <= 50 {
        26
    } else {
        13
    }
}

impl KalmanState {
    /// Filter state before the first fix: everything zero, nothing frozen.
    pub fn new() -> (r: Self)
        ensures
            r.s_cm == 0,
            r.v_cms == 0,
            r.last_seg_idx == 0,
            r.off_route_suspect_ticks == 0,
            r.off_route_clear_ticks == 0,
            r.frozen_s_cm is None,
            r.off_route_freeze_time is None,
            r.freeze_ctx is None,
    {
        KalmanState {
            s_cm: 0,
            v_cms: 0,
            last_seg_idx: 0,
            off_route_suspect_ticks: 0,
            off_route_clear_ticks: 0,
            frozen_s_cm: None,
            off_route_freeze_time: None,
            freeze_ctx: None,
        }
    }

    /// Position after the measurement update.
    pub open spec fn spec_updated_s(s: int, z: int, hdop_x10: u16) -> int {
        s + trunc_div(spec_position_gain(hdop_x10) * (z - s), 256)
    }

    /// Velocity after the measurement update.
    pub open spec fn spec_updated_v(v: int, v_gps: int) -> int {
        v + trunc_div(spec_velocity_gain() * (v_gps - v), 256)
    }

    /// HDOP-adaptive measurement update of position and velocity.
    pub fn update_adaptive(&mut self, z_cm: DistCm, v_gps: SpeedCms, hdop_x10: u16)
        ensures
            final(self).s_cm == Self::spec_updated_s(old(self).s_cm as int, z_cm as int, hdop_x10),
            final(self).v_cms == Self::spec_updated_v(old(self).v_cms as int, v_gps as int),
            final(self).last_seg_idx == old(self).last_seg_idx,
            final(self).off_route_suspect_ticks == old(self).off_route_suspect_ticks,
            final(self).off_route_clear_ticks == old(self).off_route_clear_ticks,
            final(self).frozen_s_cm == old(self).frozen_s_cm,
            final(self).off_route_freeze_time == old(self).off_route_freeze_time,
            final(self).freeze_ctx == old(self).freeze_ctx,
    {
        let k = position_gain(hdop_x10);
        let s = self.s_cm as i64;
        let z = z_cm as i64;
        let ds = k * (z - s) / 256;
        assert((z - s >= 0 ==> 0 <= ds <= z - s) && (z - s < 0 ==> z - s <= ds <= 0))
            by (nonlinear_arith)
            requires
                13 <= k <= 77,
                ds == trunc_div(k * (z - s), 256),
        ;
        // The new position lies between the old position and the measurement.
        self.s_cm = (s + ds) as i32;
        let v = self.v_cms as i64;
        let g = v_gps as i64;
        let dv = 77 * (g - v) / 256;
        assert((g - v >= 0 ==> 0 <= dv <= g - v) && (g - v < 0 ==> g - v <= dv <= 0))
            by (nonlinear_arith)
            requires
                dv == trunc_div(77 * (g - v), 256),
        ;
        self.v_cms = (v + dv) as i32;
    }
}

/// Dead-reckoning state kept between GPS fixes.
#[derive(Debug, Clone, Copy, PartialEq, Eq, Structural)]
pub struct DrState {
    pub last_gps_time: Option<u64>,
    pub last_valid_s: DistCm,
    pub filtered_v: SpeedCms,
    pub in_recovery: bool,
}

impl DrState {
    pub fn new() -> (r: Self)
        ensures
            r.last_gps_time is None,
            r.last_valid_s == 0,
            r.filtered_v == 0,
            !r.in_recovery,
    {
        DrState { last_gps_time: None, last_valid_s: 0, filtered_v: 0, in_recovery: false }
    }
}

/// A route node: start point of a segment, with precomputed segment data.
#[derive(Debug, Clone, Copy, PartialEq, Eq, Structural)]
pub struct RouteNode {
    pub x_cm: DistCm,
    pub y_cm: DistCm,
    /// Cumulative route distance at this node (cm).
    pub cum_dist_cm: DistCm,
    /// Segment heading (centidegrees).
    pub heading_cdeg: HeadCdeg,
    /// Segment length in millimetres.
    pub seg_len_mm: i32,
    /// Segment vector (cm).
    pub dx_cm: i16,
    pub dy_cm: i16,
}

/// Uniform spatial grid: each cell lists the segments that touch it.
/// Cell `(x, y)` is `cells[y * cols + x]`.
pub struct SpatialGrid {
    pub cells: Vec<Vec<u16>>,
    pub grid_size_cm: i32,
    pub cols: u32,
    pub rows: u32,
    pub x0_cm: DistCm,
    pub y0_cm: DistCm,
}

impl SpatialGrid {
    /// Segment indices listed in cell `(x, y)`; empty outside the grid.
    pub open spec fn spec_cell(&self, x: int, y: int) -> Seq<u16> {
        let i = y * self.cols + x;
        if 0 <= x < self.cols && 0 <= y < self.rows && 0 <= i < self.cells@.len() {
            self.cells@[i]@
        } else {
            Seq::empty()
        }
    }
}

/// Route geometry used by map matching: nodes, stops and the spatial grid.
pub struct RouteData {
    pub nodes: Vec<RouteNode>,
    pub stops: Vec<Stop>,
    pub grid: SpatialGrid,
    /// Origin of the grid (cm).
    pub x0_cm: DistCm,
    pub y0_cm: DistCm,
}

impl RouteData {
    pub fn node_count(&self) -> (n: usize)
        ensures
            n == self.nodes@.len(),
    {
        self.nodes.len()
    }

    /// Node `idx`, if it exists.
    pub fn get_node(&self, idx: usize) -> (r: Option<RouteNode>)
        ensures
            idx < self.nodes@.len() ==> r == Some(self.nodes@[idx as int]),
            idx >= self.nodes@.len() ==> r is None,
    {
        if idx < self.nodes.len() {
            Some(self.nodes[idx])
        } else {
            None
        }
    }

    pub fn stops(&self) -> (r: &[Stop])
        ensures
            r@ == self.stops@,
    {
        self.stops.as_slice()
    }
}

/// Kind of an arrival-related event.
#[derive(Debug, Clone, Copy, PartialEq, Eq, Structural)]
pub enum ArrivalEventType {
    Arrival,
    Departure,
    Announce,
}

/// An arrival (or departure / announcement) event.
#[derive(Debug, Clone, Copy, PartialEq, Eq, Structural)]
pub struct ArrivalEvent {
    pub time: u64,
    pub stop_idx: u8,
    pub s_cm: DistCm,
    pub v_cms: SpeedCms,
    pub probability: Prob8,
    pub event_type: ArrivalEventType,
}

/// A departure event.
#[derive(Debug, Clone, Copy, PartialEq, Eq, Structural)]
pub struct DepartureEvent {
    pub time: u64,
    pub stop_idx: u8,
    pub s_cm: DistCm,
    pub v_cms: SpeedCms,
}

/// Which parts of a GPS fix were observed.
#[derive(Debug, Clone, Copy, PartialEq, Eq, Structural)]
pub enum FixQuality {
    Full,
    PositionOnly,
    MotionOnly,
}

/// A GPS fix already projected to route coordinates (cm).
#[derive(Debug, Clone, Copy, PartialEq, Eq, Structural)]
pub struct GpsFix {
    pub timestamp: u64,
    pub x_cm: DistCm,
    pub y_cm: DistCm,
    /// Heading, or `i16::MIN` when the receiver gave none.
    pub heading_cdeg: HeadCdeg,
    pub speed_cms: SpeedCms,
    /// HDOP times ten; 0 when unknown.
    pub hdop_x10: u16,
    pub has_fix: bool,
}

/// The measurement update moves the position toward the measurement without
/// overshooting it; a worse fix (larger HDOP) never moves it further than a
/// better one, and a gap of 20 cm or more always moves it. With an HDOP of at
/// most 1.0 the step is 77/256 of the gap, rounded toward zero.
pub proof fn lemma_position_update_follows_measurement(s: int, z: int, h1: u16, h2: u16)
    requires
        h1 <= h2,
    ensures
        ({
            let gap = z - s;
            let step1 = KalmanState::spec_updated_s(s, z, h1) - s;
            let step2 = KalmanState::spec_updated_s(s, z, h2) - s;
            &&& gap >= 0 ==> 0 <= step2 <= step1 <= gap
            &&& gap < 0 ==> gap <= step1 <= step2 <= 0
            &&& abs(gap) >= 20 ==> step2 != 0
            &&& (h1 <= 10 && gap >= 0) ==> 256 * step1 <= 77 * gap < 256 * (step1 + 1)
            &&& (h1 <= 10 && gap < 0) ==> 256 * (-step1) <= 77 * (-gap) < 256 * (-step1 + 1)
        }),
{
    let gap = z - s;
    let k1 = spec_position_gain(h1);
    let k2 = spec_position_gain(h2);
    assert(13 <= k2 <= k1 <= 77);
    let a = abs(gap);
    assert((k2 * a) / 256 <= (k1 * a) / 256 <= a) by (nonlinear_arith)
        requires
            13 <= k2 <= k1 <= 77,
            a >= 0,
    ;
    assert(a >= 20 ==> (k2 * a) / 256 >= 1) by (nonlinear_arith)
        requires
            13 <= k2,
            a >= 0,
    ;
    assert(256 * ((k1 * a) / 256) <= k1 * a < 256 * ((k1 * a) / 256 + 1)) by (nonlinear_arith)
        requires
            a >= 0,
            k1 >= 0,
    ;
    if gap < 0 {
        assert(k1 * gap == -(k1 * a)) by (nonlinear_arith)
            requires
                a == -gap,
        ;
        assert(k2 * gap == -(k2 * a)) by (nonlinear_arith)
            requires
                a == -gap,
        ;
    }
}

/// The measurement update moves the velocity toward the GPS speed by 77/256 of
/// the gap, rounded toward zero: the step has the sign of the gap, and
/// `256 * |step| <= 77 * |gap| < 256 * (|step| + 1)`. In particular a gap of
/// 4 cm/s or more always changes the velocity.
pub proof fn lemma_velocity_update_follows_gps(v: int, v_gps: int)
    ensures
        ({
            let step = KalmanState::spec_updated_v(v, v_gps) - v;
            let gap = v_gps - v;
            &&& gap >= 0 ==> 0 <= step && 256 * step <= 77 * gap < 256 * (step + 1)
            &&& gap < 0 ==> step <= 0 && 256 * (-step) <= 77 * (-gap) < 256 * (-step + 1)
            &&& abs(gap) >= 4 ==> step != 0
        }),
{
    let gap = v_gps - v;
    let step = KalmanState::spec_updated_v(v, v_gps) - v;
    if gap >= 0 {
        assert(step == (77 * gap) / 256);
        assert(0 <= step && 256 * step <= 77 * gap < 256 * (step + 1)) by (nonlinear_arith)
            requires
                gap >= 0,
                step == (77 * gap) / 256,
        ;
    } else {
        assert(step == -((-(77 * gap)) / 256));
        assert(step <= 0 && 256 * (-step) <= 77 * (-gap) < 256 * (-step + 1)) by (nonlinear_arith)
            requires
                gap < 0,
                step == -((77 * (-gap)) / 256),
        ;
    }
}

} // verus!
