//! Four-feature arrival probability from lookup tables.
//!
//! - F1: distance likelihood of the raw GPS projection (Gaussian, σ = 27.5 m);
//! - F2: speed likelihood (logistic around 2 m/s);
//! - F3: distance likelihood of the filtered position (Gaussian, σ = 20 m);
//! - F4: dwell-time likelihood (saturating at 10 s).
//!
//! The tables are passed in: entry `i` of the Gaussian table is
//! `exp(-x²/2)` at `x = i / 64` and entry `i` of the logistic table is the
//! speed likelihood at `10 * i` cm/s, both scaled to 0..=255.

use vstd::prelude::*;
use crate::model;
use crate::model::{DistCm, PositionSignals, Prob8, SpeedCms, Stop};

verus! {

/// σ of the raw-GPS distance feature (cm).
pub const SIGMA_D_CM: i64 = 2750;

/// σ of the progress distance feature (cm).
pub const SIGMA_P_CM: i64 = 2000;

/// Largest index of the speed table.
pub const SPEED_LUT_MAX_IDX: i32 = 127;

/// Divergence above which F1 uses the filtered position on valid GPS (cm).
pub const FALLBACK_DIVERGENCE_CM: u32 = 2000;

/// Divergence above which F3 is neutralised when GPS is not valid (cm).
pub const PHANTOM_DIVERGENCE_CM: u32 = 5000;

/// Neutral feature score.
pub const NEUTRAL_SCORE: u32 = 128;

/// Distance between consecutive stops under which the dwell feature is dropped (cm).
pub const CLOSE_STOP_CM: i32 = 12_000;

/// GPS processing status, used to neutralise features on phantom positions.
#[derive(Debug, Clone, Copy, PartialEq, Eq, Structural)]
pub enum GpsStatus {
    /// GPS processed normally.
    Valid,
    /// GPS rejected, position dead-reckoned.
    DrOutage,
    /// GPS off route, position frozen.
    OffRoute,
}

/// Individual feature scores.
#[derive(Debug, Clone, Copy, PartialEq, Eq, Structural)]
pub struct FeatureScores {
    pub p1: u8,
    pub p2: u8,
    pub p3: u8,
    pub p4: u8,
}

/// Gaussian table index for distance `d` with spread `sigma`.
pub open spec fn spec_dist_index(d: int, sigma: int) -> int {
    let i = (d * 64) / sigma;
    if i < 255 {
        i
    } else {
        255
    }
}

/// Speed table index for speed `v`: `v / 10` (truncated), clamped to `0..=127`.
pub open spec fn spec_speed_index(v: int) -> int {
    let i = model::trunc_div(v, 10);
    if i < 0 {
        0
    } else if i > SPEED_LUT_MAX_IDX {
        SPEED_LUT_MAX_IDX as int
    } else {
        i
    }
}

/// Whether F1 falls back to the filtered position.
pub open spec fn spec_use_fallback(signals: PositionSignals, gps_status: GpsStatus) -> bool {
    gps_status == GpsStatus::Valid && signals.spec_divergence() > FALLBACK_DIVERGENCE_CM
}

/// Whether F3 is neutralised.
pub open spec fn spec_neutral_p3(signals: PositionSignals, gps_status: GpsStatus) -> bool {
    gps_status != GpsStatus::Valid && signals.spec_divergence() > PHANTOM_DIVERGENCE_CM
}

/// The four feature scores.
pub open spec fn spec_features(
    signals: PositionSignals,
    v_cms: int,
    stop: Stop,
    dwell_time_s: int,
    gps_status: GpsStatus,
    g: Seq<u8>,
    l: Seq<u8>,
) -> (int, int, int, int) {
    let d1 = if spec_use_fallback(signals, gps_status) {
        model::abs(signals.s_cm - stop.progress_cm)
    } else {
        model::abs(signals.z_gps_cm - stop.progress_cm)
    };
    let p1 = g[spec_dist_index(d1, SIGMA_D_CM as int)] as int;
    let p2 = l[spec_speed_index(v_cms)] as int;
    let p3 = if spec_neutral_p3(signals, gps_status) {
        NEUTRAL_SCORE as int
    } else {
        g[spec_dist_index(model::abs(signals.s_cm - stop.progress_cm), SIGMA_P_CM as int)] as int
    };
    let p4 = if dwell_time_s * 255 / 10 < 255 {
        dwell_time_s * 255 / 10
    } else {
        255
    };
    (p1, p2, p3, p4)
}

/// Weighted combination of the features, out of 32.
pub open spec fn spec_combine(f: (int, int, int, int), w: (int, int, int, int)) -> int {
    (w.0 * f.0 + w.1 * f.1 + w.2 * f.2 + w.3 * f.3) / 32
}

/// Standard weights (13, 6, 10, 3).
pub open spec fn spec_standard_weights() -> (int, int, int, int) {
    (13, 6, 10, 3)
}

/// Weights given the next sequential stop: without dwell (14, 7, 11, 0) when
/// it is closer than 120 m, standard otherwise.
pub open spec fn spec_adaptive_weights(stop: Stop, next_stop: Option<Stop>) -> (int, int, int, int) {
    match next_stop {
        Some(next) => if model::abs(next.progress_cm - stop.progress_cm) < CLOSE_STOP_CM {
            (14, 7, 11, 0)
        } else {
            spec_standard_weights()
        },
        None => spec_standard_weights(),
    }
}

/// Inputs on which the feature computation does not overflow.
pub open spec fn features_inputs_ok(signals: PositionSignals, stop: Stop, gps_status: GpsStatus) -> bool {
    &&& if spec_use_fallback(signals, gps_status) {
        model::diff_fits(signals.s_cm as int, stop.progress_cm as int)
    } else {
        model::diff_fits(signals.z_gps_cm as int, stop.progress_cm as int)
    }
    &&& !spec_neutral_p3(signals, gps_status) ==> model::diff_fits(
        signals.s_cm as int,
        stop.progress_cm as int,
    )
}

/// Gaussian table entry for distance `d` (cm) with spread `sigma`.
fn dist_score(d: i32, sigma: i64, g: &[u8; 256]) -> (p: u32)
    requires
        d >= 0,
        sigma == SIGMA_D_CM || sigma == SIGMA_P_CM,
    ensures
        p == g@[spec_dist_index(d as int, sigma as int)],
{
    let q = (d as i64 * 64) / sigma;
    let idx = if q < 255 {
        q
    } else {
        255
    };
    g[idx as usize] as u32
}

/// Feature scores (p1, p2, p3, p4), each in 0..=255.
pub fn compute_features(
    signals: PositionSignals,
    v_cms: SpeedCms,
    stop: &Stop,
    dwell_time_s: u16,
    gps_status: GpsStatus,
    gaussian_lut: &[u8; 256],
    logistic_lut: &[u8; 128],
) -> (r: (u32, u32, u32, u32))
    requires
        features_inputs_ok(signals, *stop, gps_status),
    ensures
        (r.0 as int, r.1 as int, r.2 as int, r.3 as int) == spec_features(
            signals,
            v_cms as int,
            *stop,
            dwell_time_s as int,
            gps_status,
            gaussian_lut@,
            logistic_lut@,
        ),
        r.0 <= 255 && r.1 <= 255 && r.2 <= 255 && r.3 <= 255,
{
    let divergence = signals.divergence_cm();
    let use_fallback = gps_status == GpsStatus::Valid && divergence > FALLBACK_DIVERGENCE_CM;
    let d1_cm = if use_fallback {
        model::abs_diff_i32(signals.s_cm, stop.progress_cm)
    } else {
        model::abs_diff_i32(signals.z_gps_cm, stop.progress_cm)
    };
    let p1 = dist_score(d1_cm, SIGMA_D_CM, gaussian_lut);
    let q2 = v_cms / 10;
    let idx2: i32 = if q2 < 0 {
        0
    } else if q2 > SPEED_LUT_MAX_IDX {
        SPEED_LUT_MAX_IDX
    } else {
        q2
    };
    let p2 = logistic_lut[idx2 as usize] as u32;
    let p3 = if gps_status != GpsStatus::Valid && divergence > PHANTOM_DIVERGENCE_CM {
        NEUTRAL_SCORE
    } else {
        let d3_cm = model::abs_diff_i32(signals.s_cm, stop.progress_cm);
        dist_score(d3_cm, SIGMA_P_CM, gaussian_lut)
    };
    let w = (dwell_time_s as u32) * 255 / 10;
    let p4 = if w < 255 {
        w
    } else {
        255
    };
    (p1, p2, p3, p4)
}

/// Weighted combination as a probability.
fn combine(f: (u32, u32, u32, u32), w: (u32, u32, u32, u32)) -> (p: Prob8)
    requires
        f.0 <= 255 && f.1 <= 255 && f.2 <= 255 && f.3 <= 255,
        w.0 + w.1 + w.2 + w.3 == 32,
    ensures
        p == spec_combine(
            (f.0 as int, f.1 as int, f.2 as int, f.3 as int),
            (w.0 as int, w.1 as int, w.2 as int, w.3 as int),
        ),
{
    assert(w.0 * f.0 + w.1 * f.1 + w.2 * f.2 + w.3 * f.3 <= 32 * 255) by (nonlinear_arith)
        requires
            f.0 <= 255 && f.1 <= 255 && f.2 <= 255 && f.3 <= 255,
            w.0 + w.1 + w.2 + w.3 == 32,
    ;
    ((w.0 * f.0 + w.1 * f.1 + w.2 * f.2 + w.3 * f.3) / 32) as u8
}

/// Arrival probability (0..=255) with standard weights (13, 6, 10, 3) / 32.
pub fn compute_arrival_probability(
    signals: PositionSignals,
    v_cms: SpeedCms,
    stop: &Stop,
    dwell_time_s: u16,
    gps_status: GpsStatus,
    gaussian_lut: &[u8; 256],
    logistic_lut: &[u8; 128],
) -> (p: Prob8)
    requires
        features_inputs_ok(signals, *stop, gps_status),
    ensures
        p == spec_combine(
            spec_features(
                signals,
                v_cms as int,
                *stop,
                dwell_time_s as int,
                gps_status,
                gaussian_lut@,
                logistic_lut@,
            ),
            spec_standard_weights(),
        ),
{
    let f = compute_features(signals, v_cms, stop, dwell_time_s, gps_status, gaussian_lut, logistic_lut);
    combine(f, (13, 6, 10, 3))
}

/// Arrival probability with weights adapted to the next sequential stop:
/// (14, 7, 11, 0) when it is closer than 120 m, else (13, 6, 10, 3).
pub fn compute_arrival_probability_adaptive(
    signals: PositionSignals,
    v_cms: SpeedCms,
    stop: &Stop,
    dwell_time_s: u16,
    gps_status: GpsStatus,
    gaussian_lut: &[u8; 256],
    logistic_lut: &[u8; 128],
    next_stop: Option<&Stop>,
) -> (p: Prob8)
    requires
        features_inputs_ok(signals, *stop, gps_status),
        next_stop matches Some(n) ==> model::diff_fits(n.progress_cm as int, stop.progress_cm as int),
    ensures
        p == spec_combine(
            spec_features(
                signals,
                v_cms as int,
                *stop,
                dwell_time_s as int,
                gps_status,
                gaussian_lut@,
                logistic_lut@,
            ),
            spec_adaptive_weights(
                *stop,
                match next_stop {
                    Some(n) => Some(*n),
                    None => None,
                },
            ),
        ),
{
    let f = compute_features(signals, v_cms, stop, dwell_time_s, gps_status, gaussian_lut, logistic_lut);
    let w = match next_stop {
        Some(next) => {
            let dist_to_next = model::abs_diff_i32(next.progress_cm, stop.progress_cm);
            if dist_to_next < CLOSE_STOP_CM {
                (14, 7, 11, 0)
            } else {
                (13, 6, 10, 3)
            }
        },
        None => (13, 6, 10, 3),
    };
    combine(f, w)
}

/// Arrival probability using `s_cm` for both position signals, on valid GPS.
pub fn arrival_probability(
    s_cm: DistCm,
    v_cms: SpeedCms,
    stop: &Stop,
    dwell_time_s: u16,
    gaussian_lut: &[u8; 256],
    logistic_lut: &[u8; 128],
) -> (p: Prob8)
    requires
        model::diff_fits(s_cm as int, stop.progress_cm as int),
    ensures
        p == spec_combine(
            spec_features(
                PositionSignals { z_gps_cm: s_cm, s_cm },
                v_cms as int,
                *stop,
                dwell_time_s as int,
                GpsStatus::Valid,
                gaussian_lut@,
                logistic_lut@,
            ),
            spec_standard_weights(),
        ),
{
    let signals = PositionSignals::new(s_cm, s_cm);
    compute_arrival_probability(signals, v_cms, stop, dwell_time_s, GpsStatus::Valid, gaussian_lut, logistic_lut)
}

/// Adaptive arrival probability using `s_cm` for both position signals, on valid GPS.
pub fn arrival_probability_adaptive(
    s_cm: DistCm,
    v_cms: SpeedCms,
    stop: &Stop,
    dwell_time_s: u16,
    gaussian_lut: &[u8; 256],
    logistic_lut: &[u8; 128],
    next_stop: Option<&Stop>,
) -> (p: Prob8)
    requires
        model::diff_fits(s_cm as int, stop.progress_cm as int),
        next_stop matches Some(n) ==> model::diff_fits(n.progress_cm as int, stop.progress_cm as int),
    ensures
        p == spec_combine(
            spec_features(
                PositionSignals { z_gps_cm: s_cm, s_cm },
                v_cms as int,
                *stop,
                dwell_time_s as int,
                GpsStatus::Valid,
                gaussian_lut@,
                logistic_lut@,
            ),
            spec_adaptive_weights(
                *stop,
                match next_stop {
                    Some(n) => Some(*n),
                    None => None,
                },
            ),
        ),
{
    let signals = PositionSignals::new(s_cm, s_cm);
    compute_arrival_probability_adaptive(
        signals,
        v_cms,
        stop,
        dwell_time_s,
        GpsStatus::Valid,
        gaussian_lut,
        logistic_lut,
        next_stop,
    )
}

/// Feature scores on valid GPS, for trace output.
pub fn compute_feature_scores(
    signals: PositionSignals,
    v_cms: SpeedCms,
    stop: &Stop,
    dwell_time_s: u16,
    gaussian_lut: &[u8; 256],
    logistic_lut: &[u8; 128],
) -> (f: FeatureScores)
    requires
        features_inputs_ok(signals, *stop, GpsStatus::Valid),
    ensures
        (f.p1 as int, f.p2 as int, f.p3 as int, f.p4 as int) == spec_features(
            signals,
            v_cms as int,
            *stop,
            dwell_time_s as int,
            GpsStatus::Valid,
            gaussian_lut@,
            logistic_lut@,
        ),
{
    let (p1, p2, p3, p4) = compute_features(
        signals,
        v_cms,
        stop,
        dwell_time_s,
        GpsStatus::Valid,
        gaussian_lut,
        logistic_lut,
    );
    FeatureScores { p1: p1 as u8, p2: p2 as u8, p3: p3 as u8, p4: p4 as u8 }
}

/// Arrival probability for a stop at `stop_progress`, with `s_cm` for both
/// position signals, on valid GPS.
pub fn compute_probability_with_luts(
    s_cm: DistCm,
    v_cms: SpeedCms,
    stop_progress: DistCm,
    dwell_time_s: u16,
    gaussian_lut: &[u8; 256],
    logistic_lut: &[u8; 128],
) -> (p: Prob8)
    requires
        model::diff_fits(s_cm as int, stop_progress as int),
    ensures
        p == spec_combine(
            spec_features(
                PositionSignals { z_gps_cm: s_cm, s_cm },
                v_cms as int,
                Stop { progress_cm: stop_progress, corridor_start_cm: 0, corridor_end_cm: 0 },
                dwell_time_s as int,
                GpsStatus::Valid,
                gaussian_lut@,
                logistic_lut@,
            ),
            spec_standard_weights(),
        ),
{
    let stop = Stop { progress_cm: stop_progress, corridor_start_cm: 0, corridor_end_cm: 0 };
    arrival_probability(s_cm, v_cms, &stop, dwell_time_s, gaussian_lut, logistic_lut)
}

/// Adaptive weighting agrees with the standard weighting unless the next stop
/// is closer than 120 m.
pub proof fn lemma_adaptive_matches_standard_for_far_stops(
    f: (int, int, int, int),
    stop: Stop,
    next_stop: Option<Stop>,
)
    requires
        next_stop matches Some(n) ==> model::abs(n.progress_cm - stop.progress_cm) >= CLOSE_STOP_CM,
    ensures
        spec_combine(f, spec_adaptive_weights(stop, next_stop)) == spec_combine(
            f,
            spec_standard_weights(),
        ),
{
}

/// With a non-increasing Gaussian table, the distance score never increases
/// with distance.
pub proof fn lemma_dist_score_monotone(g: Seq<u8>, d1: int, d2: int, sigma: int)
    requires
        g.len() == 256,
        forall|i: int, j: int| 0 <= i <= j < 256 ==> g[i] >= g[j],
        0 <= d1 <= d2,
        sigma > 0,
    ensures
        g[spec_dist_index(d1, sigma)] >= g[spec_dist_index(d2, sigma)],
{
    assert((d1 * 64) / sigma <= (d2 * 64) / sigma) by (nonlinear_arith)
        requires
            0 <= d1 <= d2,
            sigma > 0,
    ;
    assert(0 <= (d1 * 64) / sigma) by (nonlinear_arith)
        requires
            0 <= d1,
            sigma > 0,
    ;
}

/// Probabilities and individual scores stay within 0..=255, and the standard
/// weights give full probability when every feature is full.
pub proof fn lemma_probability_range(f: (int, int, int, int))
    requires
        0 <= f.0 <= 255 && 0 <= f.1 <= 255 && 0 <= f.2 <= 255 && 0 <= f.3 <= 255,
    ensures
        0 <= spec_combine(f, spec_standard_weights()) <= 255,
        0 <= spec_combine(f, (14, 7, 11, 0)) <= 255,
        spec_combine((255, 255, 255, 255), spec_standard_weights()) == 255,
{
}

/// Cached result of a probability computation.
#[derive(Debug, Clone, Copy, PartialEq, Eq, Structural)]
pub struct ProbabilityResult {
    pub probability: u8,
    pub features: FeatureScores,
}

/// Freshly computed result: the arrival probability under `gps_status`, and
/// the feature scores as seen with a valid fix.
pub open spec fn spec_fresh_result(
    signals: PositionSignals,
    v_cms: int,
    stop: Stop,
    dwell_time_s: int,
    gps_status: GpsStatus,
    g: Seq<u8>,
    l: Seq<u8>,
) -> ProbabilityResult {
    let f = spec_features(signals, v_cms, stop, dwell_time_s, GpsStatus::Valid, g, l);
    ProbabilityResult {
        probability: spec_combine(
            spec_features(signals, v_cms, stop, dwell_time_s, gps_status, g, l),
            spec_standard_weights(),
        ) as u8,
        features: FeatureScores { p1: f.0 as u8, p2: f.1 as u8, p3: f.2 as u8, p4: f.3 as u8 },
    }
}

/// One cached computation: the cache after the call and the result. An entry
/// for `timestamp` is returned as it is, whatever the other inputs; otherwise
/// the fresh result is computed and becomes the cache entry.
pub open spec fn spec_compute(
    cache: Option<(u64, ProbabilityResult)>,
    timestamp: u64,
    signals: PositionSignals,
    v_cms: int,
    stop: Stop,
    dwell_time_s: int,
    gps_status: GpsStatus,
    g: Seq<u8>,
    l: Seq<u8>,
) -> (Option<(u64, ProbabilityResult)>, ProbabilityResult) {
    match cache {
        Some((ts, cached)) if ts == timestamp => (cache, cached),
        _ => {
            let r = spec_fresh_result(signals, v_cms, stop, dwell_time_s, gps_status, g, l);
            (Some((timestamp, r)), r)
        },
    }
}

/// A second computation at the same timestamp returns the first result and
/// leaves the cache as it is, whatever its other inputs.
pub proof fn lemma_compute_cache_hit(
    cache: Option<(u64, ProbabilityResult)>,
    ts: u64,
    sig1: PositionSignals,
    v1: int,
    stop1: Stop,
    dw1: int,
    st1: GpsStatus,
    sig2: PositionSignals,
    v2: int,
    stop2: Stop,
    dw2: int,
    st2: GpsStatus,
    g: Seq<u8>,
    l: Seq<u8>,
)
    ensures
        ({
            let (c1, r1) = spec_compute(cache, ts, sig1, v1, stop1, dw1, st1, g, l);
            let (c2, r2) = spec_compute(c1, ts, sig2, v2, stop2, dw2, st2, g, l);
            &&& r2 == r1
            &&& c2 == c1
        }),
{
}

/// After a clear, or on a new timestamp, the result is freshly computed from
/// the inputs.
pub proof fn lemma_compute_fresh_after_clear_or_new_timestamp(
    cache: Option<(u64, ProbabilityResult)>,
    ts: u64,
    sig: PositionSignals,
    v: int,
    stop: Stop,
    dw: int,
    st: GpsStatus,
    g: Seq<u8>,
    l: Seq<u8>,
)
    requires
        cache matches Some((cached_ts, _)) ==> cached_ts != ts,
    ensures
        spec_compute(cache, ts, sig, v, stop, dw, st, g, l).1 == spec_fresh_result(sig, v, stop, dw, st, g, l),
        spec_compute(None, ts, sig, v, stop, dw, st, g, l).1 == spec_fresh_result(sig, v, stop, dw, st, g, l),
{
}

/// Probability computation with a one-entry cache keyed by timestamp.
pub struct ProbabilityEngine {
    last_result: Option<(u64, ProbabilityResult)>,
}

impl ProbabilityEngine {
    /// The cached entry, if any.
    pub closed spec fn cache(&self) -> Option<(u64, ProbabilityResult)> {
        self.last_result
    }

    /// Engine with an empty cache.
    pub fn new() -> (r: Self)
        ensures
            r.cache() is None,
    {
        ProbabilityEngine { last_result: None }
    }

    /// Arrival probability and feature scores, cached by timestamp: if the
    /// cache holds an entry for `timestamp` it is returned unchanged (whatever
    /// the other inputs); otherwise the result is computed and cached.
    pub fn compute(
        &mut self,
        timestamp: u64,
        signals: PositionSignals,
        v_cms: SpeedCms,
        stop: &Stop,
        dwell_time_s: u16,
        gps_status: GpsStatus,
        gaussian_lut: &[u8; 256],
        logistic_lut: &[u8; 128],
    ) -> (r: ProbabilityResult)
        requires
            !(old(self).cache() matches Some((ts, _)) && ts == timestamp) ==> features_inputs_ok(
                signals,
                *stop,
                gps_status,
            ) && features_inputs_ok(signals, *stop, GpsStatus::Valid),
        ensures
            (final(self).cache(), r) == spec_compute(
                old(self).cache(),
                timestamp,
                signals,
                v_cms as int,
                *stop,
                dwell_time_s as int,
                gps_status,
                gaussian_lut@,
                logistic_lut@,
            ),
    {
        if let Some((cached_ts, cached)) = self.last_result {
            if cached_ts == timestamp {
                return cached;
            }
        }
        let features = compute_feature_scores(
            signals,
            v_cms,
            stop,
            dwell_time_s,
            gaussian_lut,
            logistic_lut,
        );
        let probability = compute_arrival_probability(
            signals,
            v_cms,
            stop,
            dwell_time_s,
            gps_status,
            gaussian_lut,
            logistic_lut,
        );
        let result = ProbabilityResult { probability, features };
        self.last_result = Some((timestamp, result));
        result
    }

    /// Clear the cache.
    pub fn clear(&mut self)
        ensures
            final(self).cache() is None,
    {
        self.last_result = None;
    }
}

/// On valid GPS whose raw projection diverges from the filtered position by
/// more than 20 m, the features do not depend on the raw projection: they are
/// those of a fix whose raw projection equals the filtered position, and the
/// distance feature is the Gaussian score of `|s_cm - stop|` with σ = 27.5 m.
pub proof fn lemma_divergent_valid_fix_scores_filtered_position(
    signals: PositionSignals,
    v_cms: int,
    stop: Stop,
    dwell_time_s: int,
    g: Seq<u8>,
    l: Seq<u8>,
)
    requires
        model::abs(signals.z_gps_cm - signals.s_cm) > 2000,
    ensures
        spec_features(signals, v_cms, stop, dwell_time_s, GpsStatus::Valid, g, l) == spec_features(
            PositionSignals { z_gps_cm: signals.s_cm, s_cm: signals.s_cm },
            v_cms,
            stop,
            dwell_time_s,
            GpsStatus::Valid,
            g,
            l,
        ),
        ({
            let q = (model::abs(signals.s_cm - stop.progress_cm) * 64) / 2750;
            spec_features(signals, v_cms, stop, dwell_time_s, GpsStatus::Valid, g, l).0 == g[if q < 255 {
                q
            } else {
                255
            }] as int
        }),
{
}

} // verus!
