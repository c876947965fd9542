use pipeline::model::{PositionSignals, Stop};
use pipeline::probability::{
    arrival_probability, arrival_probability_adaptive, compute_arrival_probability,
    compute_arrival_probability_adaptive, compute_feature_scores, compute_features, compute_probability_with_luts,
    GpsStatus, ProbabilityEngine,
};

fn build_gaussian_lut() -> [u8; 256] {
    let mut lut = [0u8; 256];
    for i in 0..256 {
        let x = (i as f64) / 64.0;
        let g = (-0.5 * x * x).exp();
        lut[i] = (g * 255.0).min(255.0).round() as u8;
    }
    lut
}

fn build_logistic_lut() -> [u8; 128] {
    let mut lut = [0u8; 128];
    for i in 0..128 {
        let v = (i as f64) * 10.0;
        let l = 1.0 / (1.0 + (0.01 * (v - 200.0)).exp());
        lut[i] = (l * 255.0).min(255.0).round() as u8;
    }
    lut
}

fn stop(p: i32, a: i32, b: i32) -> Stop {
    Stop { progress_cm: p, corridor_start_cm: a, corridor_end_cm: b }
}

#[test]
fn test_probability_range() {
    let g_lut = build_gaussian_lut();
    let l_lut = build_logistic_lut();
    let stop = stop(10000, 2000, 14000);
    let p_high = arrival_probability(10000, 0, &stop, 10, &g_lut, &l_lut);
    assert!(p_high > 200, "At stop with 0 speed and 10s dwell should be high probability");
    let p_low = arrival_probability(50000, 1000, &stop, 0, &g_lut, &l_lut);
    assert!(p_low < 100, "Far from stop with high speed should be low probability");
}

#[test]
fn test_adaptive_probability_close_stop() {
    let g_lut = build_gaussian_lut();
    let l_lut = build_logistic_lut();
    let stop_current = stop(100_000, 90_000, 110_000);
    let stop_next = stop(108_000, 98_000, 118_000);
    let prob = arrival_probability_adaptive(100_000, 600, &stop_current, 5, &g_lut, &l_lut, Some(&stop_next));
    assert!(prob > 190, "Expected probability > 190 for close stop, got {}", prob);
}

#[test]
fn test_adaptive_probability_normal_stop() {
    let g_lut = build_gaussian_lut();
    let l_lut = build_logistic_lut();
    let stop_current = stop(100_000, 90_000, 110_000);
    let stop_next = stop(125_000, 115_000, 135_000);
    let prob_adaptive = arrival_probability_adaptive(100_000, 600, &stop_current, 5, &g_lut, &l_lut, Some(&stop_next));
    let prob_standard = arrival_probability(100_000, 600, &stop_current, 5, &g_lut, &l_lut);
    assert_eq!(prob_adaptive, prob_standard, "Normal stop should use standard weights (13, 6, 10, 3)");
}

#[test]
fn test_adaptive_probability_last_stop() {
    let g_lut = build_gaussian_lut();
    let l_lut = build_logistic_lut();
    let stop = stop(100_000, 90_000, 110_000);
    let prob = arrival_probability_adaptive(100_000, 0, &stop, 10, &g_lut, &l_lut, None);
    assert!(prob > 150);
}

#[test]
fn test_position_signals_f1_uses_z_gps() {
    let g_lut = build_gaussian_lut();
    let l_lut = build_logistic_lut();
    let stop = stop(10000, 2000, 14000);
    let prob_aligned =
        compute_arrival_probability(PositionSignals::new(10000, 10000), 0, &stop, 10, GpsStatus::Valid, &g_lut, &l_lut);
    let prob_divergent =
        compute_arrival_probability(PositionSignals::new(11500, 10000), 0, &stop, 10, GpsStatus::Valid, &g_lut, &l_lut);
    assert!(prob_divergent < prob_aligned, "Divergent signals should have lower probability than aligned signals");
    let prob_lag =
        compute_arrival_probability(PositionSignals::new(10000, 11500), 0, &stop, 10, GpsStatus::Valid, &g_lut, &l_lut);
    assert!(prob_lag < prob_aligned, "Lag scenario should have lower probability than aligned signals");
}

#[test]
fn test_position_signals_independence() {
    let g_lut = build_gaussian_lut();
    let l_lut = build_logistic_lut();
    let stop = stop(10000, 2000, 14000);
    let distance_deviation = 1500;
    let (p1_only, _, p3_only, _) = compute_features(
        PositionSignals::new(10000 + distance_deviation, 10000),
        0,
        &stop,
        10,
        GpsStatus::Valid,
        &g_lut,
        &l_lut,
    );
    let (p1_alt, _, p3_alt, _) = compute_features(
        PositionSignals::new(10000, 10000 + distance_deviation),
        0,
        &stop,
        10,
        GpsStatus::Valid,
        &g_lut,
        &l_lut,
    );
    assert_eq!(p1_alt, 255, "F1 should be max when z_gps_cm is at stop");
    assert!(p3_alt < 255, "F3 should be lower when s_cm deviates from stop");
    assert_eq!(p3_only, 255, "F3 should be max when s_cm is at stop");
    assert!(p1_only < 255, "F1 should be lower when z_gps_cm deviates from stop");
}

#[test]
fn test_compute_arrival_probability_adaptive_with_signals() {
    let g_lut = build_gaussian_lut();
    let l_lut = build_logistic_lut();
    let stop_current = stop(100_000, 90_000, 110_000);
    let stop_next_close = stop(108_000, 98_000, 118_000);
    let stop_next_far = stop(125_000, 115_000, 135_000);
    let signals = PositionSignals::new(105_000, 100_000);
    let prob_close = compute_arrival_probability_adaptive(
        signals, 0, &stop_current, 5, GpsStatus::Valid, &g_lut, &l_lut, Some(&stop_next_close),
    );
    let prob_far = compute_arrival_probability_adaptive(
        signals, 0, &stop_current, 5, GpsStatus::Valid, &g_lut, &l_lut, Some(&stop_next_far),
    );
    assert!(prob_close >= prob_far, "Close stop should have equal or higher probability than far stop");
}

#[test]
fn test_backward_compatibility() {
    let g_lut = build_gaussian_lut();
    let l_lut = build_logistic_lut();
    let stop = stop(10000, 2000, 14000);
    let prob_old = arrival_probability(10000, 0, &stop, 10, &g_lut, &l_lut);
    let signals = PositionSignals::new(10000, 10000);
    let prob_new = compute_arrival_probability(signals, 0, &stop, 10, GpsStatus::Valid, &g_lut, &l_lut);
    assert_eq!(prob_old, prob_new, "position-only and signal-based forms agree when signals are aligned");
    let prob_old_adaptive = arrival_probability_adaptive(10000, 0, &stop, 5, &g_lut, &l_lut, None);
    let prob_new_adaptive =
        compute_arrival_probability_adaptive(signals, 0, &stop, 5, GpsStatus::Valid, &g_lut, &l_lut, None);
    assert_eq!(prob_old_adaptive, prob_new_adaptive);
}

#[test]
fn test_f1_uses_raw_gps() {
    let g_lut = build_gaussian_lut();
    let l_lut = build_logistic_lut();
    let stop = stop(10_000, 0, 20_000);
    let signals = PositionSignals { z_gps_cm: 10_500, s_cm: 10_000 };
    let scores = compute_feature_scores(signals, 0, &stop, 10, &g_lut, &l_lut);
    assert!(scores.p1 < scores.p3, "F1 should reflect raw GPS distance");
}

#[test]
fn test_f3_uses_kalman() {
    let g_lut = build_gaussian_lut();
    let l_lut = build_logistic_lut();
    let stop = stop(10_000, 0, 20_000);
    let signals = PositionSignals { z_gps_cm: 12_000, s_cm: 10_200 };
    let scores = compute_feature_scores(signals, 0, &stop, 10, &g_lut, &l_lut);
    assert!(scores.p3 > scores.p1, "F3 should reflect Kalman smoothing");
}

#[test]
fn test_signals_independent() {
    let signals = PositionSignals { z_gps_cm: 10_000, s_cm: 10_200 };
    assert_eq!(signals.divergence_cm(), 200);
    assert!(!signals.is_converged());
}

#[test]
fn test_signals_converged() {
    let signals = PositionSignals { z_gps_cm: 10_000, s_cm: 10_000 };
    assert_eq!(signals.divergence_cm(), 0);
    assert!(signals.is_converged());
}

#[test]
fn test_gps_noise_f1_drops_f3_stable() {
    let g_lut = build_gaussian_lut();
    let l_lut = build_logistic_lut();
    let stop = stop(10_000, 0, 20_000);
    let scores_normal =
        compute_feature_scores(PositionSignals { z_gps_cm: 10_100, s_cm: 10_050 }, 0, &stop, 5, &g_lut, &l_lut);
    let scores_noise =
        compute_feature_scores(PositionSignals { z_gps_cm: 12_000, s_cm: 10_500 }, 0, &stop, 6, &g_lut, &l_lut);
    assert!(scores_noise.p1 < scores_normal.p1 - 50, "F1 should drop on GPS noise");
    assert!(scores_noise.p3 > scores_normal.p3 - 30, "F3 should remain stable");
}

#[test]
fn probability_exact_values() {
    let g_lut = build_gaussian_lut();
    let l_lut = build_logistic_lut();
    let stop = stop(10000, 2000, 14000);
    // At the stop, standing, 10 s dwell: features (255, l[0], 255, 255).
    let p = arrival_probability(10000, 0, &stop, 10, &g_lut, &l_lut);
    let expected = (13 * 255 + 6 * l_lut[0] as u32 + 10 * 255 + 3 * 255) / 32;
    assert_eq!(p as u32, expected);
    assert_eq!(compute_probability_with_luts(10000, 0, 10000, 10, &g_lut, &l_lut), p);
}

#[test]
fn phantom_position_gets_neutral_progress_score() {
    let g_lut = build_gaussian_lut();
    let l_lut = build_logistic_lut();
    let stop = stop(10000, 2000, 14000);
    let signals = PositionSignals::new(30000, 10000);
    let (_, _, p3, _) = compute_features(signals, 0, &stop, 0, GpsStatus::DrOutage, &g_lut, &l_lut);
    assert_eq!(p3, 128);
    let (_, _, p3_valid, _) = compute_features(signals, 0, &stop, 0, GpsStatus::Valid, &g_lut, &l_lut);
    assert_eq!(p3_valid, 255);
}

fn mock_stop() -> Stop {
    stop(1000, 900, 1100)
}

#[test]
fn test_probability_caching() {
    let g = build_gaussian_lut();
    let l = build_logistic_lut();
    let mut engine = ProbabilityEngine::new();
    let signals = PositionSignals::new(100, 100);
    let stop = mock_stop();
    let r1 = engine.compute(0, signals, 50, &stop, 0, GpsStatus::Valid, &g, &l);
    let r2 = engine.compute(0, signals, 50, &stop, 0, GpsStatus::Valid, &g, &l);
    assert_eq!(r1, r2);
    // A hit returns the cached entry whatever the other inputs are.
    let r3 = engine.compute(0, PositionSignals::new(1000, 1000), 0, &stop, 10, GpsStatus::Valid, &g, &l);
    assert_eq!(r3, r1);
}

#[test]
fn test_probability_cache_miss() {
    let g = build_gaussian_lut();
    let l = build_logistic_lut();
    let mut engine = ProbabilityEngine::new();
    let signals = PositionSignals::new(100, 100);
    let stop = mock_stop();
    let r1 = engine.compute(0, signals, 50, &stop, 0, GpsStatus::Valid, &g, &l);
    let at_stop = PositionSignals::new(1000, 1000);
    let r2 = engine.compute(1, at_stop, 50, &stop, 0, GpsStatus::Valid, &g, &l);
    assert_ne!(r1, r2);
    let r3 = engine.compute(1, signals, 50, &stop, 0, GpsStatus::Valid, &g, &l);
    assert_eq!(r2, r3);
}

#[test]
fn test_probability_clear() {
    let g = build_gaussian_lut();
    let l = build_logistic_lut();
    let mut engine = ProbabilityEngine::new();
    let signals = PositionSignals::new(100, 100);
    let stop = mock_stop();
    let r1 = engine.compute(0, signals, 50, &stop, 0, GpsStatus::Valid, &g, &l);
    engine.clear();
    let at_stop = PositionSignals::new(1000, 1000);
    let r2 = engine.compute(0, at_stop, 50, &stop, 0, GpsStatus::Valid, &g, &l);
    assert_ne!(r1, r2);
    let r3 = engine.compute(0, signals, 50, &stop, 0, GpsStatus::Valid, &g, &l);
    assert_eq!(r2, r3);
}
