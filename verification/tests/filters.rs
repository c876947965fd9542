use pipeline::filters::{
    check_monotonic, check_speed_constraint, soft_resync, update_dr_ema, SIGMA_GPS_CM, V_MAX_CMS,
};
use pipeline::kalman::dr_decay_numerator;
use pipeline::model::{DistCm, DrState, SpeedCms};

const TEST_Z_PREV: DistCm = 100_000;
const NORMAL_MOVE: DistCm = 1000;
const MONOTONIC_THRESHOLD: DistCm = 5000;

#[test]
fn test_dr_decay_normalization() {
    let expected_factors = [10000, 9000, 8100, 7290, 6561, 5905, 5314, 4783, 4305, 3874, 3487];
    for (i, &expected) in expected_factors.iter().enumerate() {
        assert_eq!(dr_decay_numerator(i as u64), expected, "DR decay factor for dt={}", i);
    }
    let v_initial = 1000;
    let v_dt1 = (v_initial as u32 * dr_decay_numerator(1) / 10000) as SpeedCms;
    assert_eq!(v_dt1, 900);
    let v_dt2 = (v_initial as u32 * dr_decay_numerator(2) / 10000) as SpeedCms;
    assert_eq!(v_dt2, 810);
    let v_dt5 = (v_initial as u32 * dr_decay_numerator(5) / 10000) as SpeedCms;
    assert_eq!(v_dt5, 590);
    assert!(v_dt1 > v_dt2 && v_dt2 > v_dt5, "DR decay should decrease monotonically with dt");
}

#[test]
fn kalman_test_monotonicity_accepts_small_backward() {
    assert!(check_monotonic(100_000, 101_000));
}

#[test]
fn kalman_test_monotonicity_accepts_threshold() {
    assert!(check_monotonic(100_000, 105_000));
}

#[test]
fn kalman_test_monotonicity_rejects_large_backward() {
    assert!(!check_monotonic(100_000, 105_100));
}

#[test]
fn kalman_test_monotonicity_allows_forward() {
    assert!(check_monotonic(105_000, 100_000));
}

#[test]
fn kalman_test_ema_velocity_filter_initial_value() {
    let v_gps = 500;
    let v_filtered_initial = 0;
    let expected = v_filtered_initial + 3 * (v_gps - v_filtered_initial) / 10;
    assert_eq!(expected, 150);
    assert_eq!(update_dr_ema(v_filtered_initial, v_gps), expected);
}

#[test]
fn kalman_test_ema_velocity_filter_convergence() {
    let v_filtered = 300;
    let v_gps = 500;
    let expected = v_filtered + 3 * (v_gps - v_filtered) / 10;
    assert_eq!(expected, 360);
    let v_filtered = expected;
    let expected = v_filtered + 3 * (v_gps - v_filtered) / 10;
    assert_eq!(expected, 402);
    assert_eq!(update_dr_ema(update_dr_ema(300, 500), 500), 402);
}

#[test]
fn kalman_test_ema_velocity_filter_smoothing() {
    let v_filtered = 400;
    let v_gps_noisy = 700;
    let expected = v_filtered + 3 * (v_gps_noisy - v_filtered) / 10;
    assert_eq!(expected, 490);
    assert!(expected < v_gps_noisy, "EMA should smooth out sudden jumps");
    assert_eq!(update_dr_ema(v_filtered, v_gps_noisy), 490);
}

#[test]
fn kalman_test_ema_velocity_filter_integer_arithmetic() {
    let v_filtered = 433;
    let v_gps = 567;
    let delta = v_gps - v_filtered;
    let adjustment = (3 * delta) / 10;
    let expected = v_filtered + adjustment;
    assert_eq!(adjustment, 40);
    assert_eq!(expected, 473);
    assert_eq!(update_dr_ema(v_filtered, v_gps), 473);
}

#[test]
fn filters_test_monotonicity_accepts_small_backward() {
    assert!(check_monotonic(TEST_Z_PREV, TEST_Z_PREV + 1000));
}

#[test]
fn filters_test_monotonicity_accepts_threshold() {
    assert!(check_monotonic(TEST_Z_PREV, TEST_Z_PREV + MONOTONIC_THRESHOLD));
}

#[test]
fn filters_test_monotonicity_rejects_large_backward() {
    assert!(!check_monotonic(TEST_Z_PREV, TEST_Z_PREV + MONOTONIC_THRESHOLD + 100));
}

#[test]
fn filters_test_monotonicity_allows_forward() {
    assert!(check_monotonic(TEST_Z_PREV + 5000, TEST_Z_PREV));
}

#[test]
fn test_speed_constraint_accepts_normal_movement() {
    assert!(check_speed_constraint(TEST_Z_PREV + NORMAL_MOVE, TEST_Z_PREV, 1));
}

#[test]
fn test_speed_constraint_accepts_max_speed() {
    assert!(check_speed_constraint(TEST_Z_PREV + V_MAX_CMS, TEST_Z_PREV, 1));
}

#[test]
fn test_speed_constraint_accepts_with_noise_margin() {
    assert!(check_speed_constraint(TEST_Z_PREV + V_MAX_CMS + SIGMA_GPS_CM, TEST_Z_PREV, 1));
}

#[test]
fn test_speed_constraint_rejects_excessive_speed() {
    assert!(!check_speed_constraint(TEST_Z_PREV + V_MAX_CMS + SIGMA_GPS_CM + 1, TEST_Z_PREV, 1));
}

#[test]
fn test_speed_constraint_scales_with_dt() {
    assert!(check_speed_constraint(TEST_Z_PREV + V_MAX_CMS * 2, TEST_Z_PREV, 2));
}

#[test]
fn test_speed_constraint_backward_movement() {
    assert!(check_speed_constraint(TEST_Z_PREV - 1000, TEST_Z_PREV, 1));
}

#[test]
fn test_speed_constraint_dt_zero() {
    assert!(check_speed_constraint(TEST_Z_PREV + SIGMA_GPS_CM, TEST_Z_PREV, 0));
}

#[test]
fn test_speed_constraint_large_dt() {
    assert!(check_speed_constraint(TEST_Z_PREV + V_MAX_CMS * 10, TEST_Z_PREV, 10));
}

#[test]
fn test_speed_constraint_exceeds_large_dt() {
    assert!(!check_speed_constraint(TEST_Z_PREV + V_MAX_CMS * 10 + SIGMA_GPS_CM + 1, TEST_Z_PREV, 10));
}

#[test]
fn filters_test_ema_velocity_filter_initial_value() {
    const V_GPS: SpeedCms = 500;
    const V_FILTERED_INITIAL: SpeedCms = 0;
    let expected = V_FILTERED_INITIAL + 3 * (V_GPS - V_FILTERED_INITIAL) / 10;
    assert_eq!(expected, 150);
    assert_eq!(update_dr_ema(V_FILTERED_INITIAL, V_GPS), 150);
}

#[test]
fn filters_test_ema_velocity_filter_convergence() {
    const V_FILTERED: SpeedCms = 300;
    const V_GPS: SpeedCms = 500;
    let expected = V_FILTERED + 3 * (V_GPS - V_FILTERED) / 10;
    assert_eq!(expected, 360);
    let expected = expected + 3 * (V_GPS - expected) / 10;
    assert_eq!(expected, 402);
}

#[test]
fn filters_test_ema_velocity_filter_smoothing() {
    const V_FILTERED: SpeedCms = 400;
    const V_GPS_NOISY: SpeedCms = 700;
    let expected = V_FILTERED + 3 * (V_GPS_NOISY - V_FILTERED) / 10;
    assert_eq!(expected, 490);
    assert!(expected < V_GPS_NOISY, "EMA should smooth out sudden jumps");
}

#[test]
fn filters_test_ema_velocity_filter_integer_arithmetic() {
    const V_FILTERED: SpeedCms = 433;
    const V_GPS: SpeedCms = 567;
    let delta = V_GPS - V_FILTERED;
    let adjustment = (3 * delta) / 10;
    let expected = V_FILTERED + adjustment;
    assert_eq!(adjustment, 40);
    assert_eq!(expected, 473);
}

#[test]
fn test_dr_decay_placeholder() {
    assert!(true, "decay factors are checked in test_dr_decay_normalization");
}

#[test]
fn test_dr_soft_resync_formula() {
    let s_dr = 100000;
    let z_gps = 102000;
    let expected = s_dr + 2 * (z_gps - s_dr) / 10;
    assert_eq!(expected, 100400, "Soft resync should use 2/10 gain");
    assert_eq!(soft_resync(s_dr, z_gps), 100400);
}

#[test]
fn test_dr_soft_resync_reduces_gps_error_impact() {
    let s_dr = 100000;
    let z_gps_noisy = 105000;
    let s_soft = s_dr + 2 * (z_gps_noisy - s_dr) / 10;
    let s_full = s_dr + 77 * (z_gps_noisy - s_dr) / 256;
    assert!(s_soft < s_full, "Soft resync should be more conservative");
    assert_eq!(s_soft, 101000, "Soft resync moves only 10 m toward 50 m jump");
    assert!(s_full > 101000, "Full Kalman moves more aggressively");
    assert_eq!(soft_resync(s_dr, z_gps_noisy), 101000);
}

#[test]
fn test_dr_soft_resync_multiple_outages() {
    let mut s_dr = 100000;
    let z_gps1 = 102000;
    s_dr = s_dr + 2 * (z_gps1 - s_dr) / 10;
    assert_eq!(s_dr, 100400, "First soft resync");
    let z_gps2 = 103000;
    s_dr = s_dr + 2 * (z_gps2 - s_dr) / 10;
    assert_eq!(s_dr, 100920, "Second soft resync");
    assert_eq!(soft_resync(soft_resync(100000, 102000), 103000), 100920);
}

#[test]
fn test_ema_velocity_filter_formula() {
    let v_prev = 0;
    let v_gps = 500;
    let expected = v_prev + 3 * (v_gps - v_prev) / 10;
    assert_eq!(expected, 150, "EMA from 0 to 500");
    let v_prev = 400;
    let v_gps = 600;
    let expected = v_prev + 3 * (v_gps - v_prev) / 10;
    assert_eq!(expected, 460, "EMA convergence from 400 to 600");
    let v_prev = 500;
    let v_gps = 900;
    let expected = v_prev + 3 * (v_gps - v_prev) / 10;
    assert_eq!(expected, 620, "EMA smoothing: 500 -> 620 (not 900)");
    let mut v_filtered = 300;
    for _ in 0..10 {
        v_filtered = v_filtered + 3 * (600 - v_filtered) / 10;
    }
    assert!(v_filtered >= 580 && v_filtered <= 600, "EMA should converge: got {}", v_filtered);
}

#[test]
fn test_ema_update_function() {
    let v_filtered_prev = 400;
    let v_gps = 600;
    let result = update_dr_ema(v_filtered_prev, v_gps);
    let expected = 400 + 3 * (600 - 400) / 10;
    assert_eq!(result, expected, "update_dr_ema should apply EMA formula");
}

#[test]
fn test_speed_constraint_rejects_37m_jump() {
    assert!(!check_speed_constraint(10000 + 3700, 10000, 1));
}

#[test]
fn test_speed_constraint_allows_36m_jump() {
    assert!(check_speed_constraint(10000 + 3600, 10000, 1));
}

#[test]
fn test_speed_constraint_dt_scaling() {
    assert!(check_speed_constraint(10000 + 5300, 10000, 2));
}

#[test]
fn test_speed_constraint_current_value_too_permissive() {
    assert!(!check_speed_constraint(10000 + 8000, 10000, 1), "80 m jump should be rejected but currently passes");
}

#[test]
fn test_soft_resync_formula_verification() {
    let s_dr = 100000;
    let z_gps = 102000;
    let expected = s_dr + 2 * (z_gps - s_dr) / 10;
    assert_eq!(expected, 100400, "Soft resync should use 2/10 gain");
}

#[test]
fn test_velocity_soft_resync_formula_verification() {
    let v_dr = 500;
    let v_gps = 600;
    let expected = v_dr + 2 * (v_gps - v_dr) / 10;
    assert_eq!(expected, 520, "Velocity soft resync should use 2/10 gain");
    let v_full_kalman = v_dr + 77 * (v_gps - v_dr) / 256;
    assert!(v_full_kalman > expected, "Full Kalman gain is more aggressive");
    assert_eq!(soft_resync(v_dr, v_gps), 520);
}

#[test]
fn test_recovery_flag_state_transitions() {
    let dr_normal = DrState { last_gps_time: Some(0), last_valid_s: 100000, filtered_v: 500, in_recovery: false };
    assert!(!dr_normal.in_recovery, "Initial state should not be in recovery");
    let dr_outage = DrState { last_gps_time: Some(0), last_valid_s: 100000, filtered_v: 500, in_recovery: true };
    assert!(dr_outage.in_recovery, "Should be in recovery during outage");
    let dr_recovered = DrState { last_gps_time: Some(1), last_valid_s: 100400, filtered_v: 520, in_recovery: false };
    assert!(!dr_recovered.in_recovery, "Recovery flag cleared after soft-resync");
}

#[test]
fn test_conservative_vs_full_kalman_comparison() {
    let s_dr = 100000;
    let z_gps = 102000;
    let s_conservative = s_dr + 2 * (z_gps - s_dr) / 10;
    assert_eq!(s_conservative, 100400);
    let s_kalman_min = s_dr + 13 * (z_gps - s_dr) / 256;
    let s_kalman_default = s_dr + 51 * (z_gps - s_dr) / 256;
    let s_kalman_max = s_dr + 77 * (z_gps - s_dr) / 256;
    assert!(s_conservative > s_kalman_min, "Conservative > Kalman min");
    assert!(s_conservative >= s_kalman_default, "Conservative ≈ Kalman default");
    assert!(s_conservative < s_kalman_max, "Conservative < Kalman max");
    println!(
        "Conservative: {}, Kalman min: {}, default: {}, max: {}",
        s_conservative, s_kalman_min, s_kalman_default, s_kalman_max
    );
}

#[test]
fn test_multiple_recovery_cycles() {
    let mut s = 100000;
    let mut v = 500;
    s = s + 2 * (102000 - s) / 10;
    v = v + 2 * (600 - v) / 10;
    assert_eq!(s, 100400, "First recovery position");
    assert_eq!(v, 520, "First recovery velocity");
    s = s + 2 * (103000 - s) / 10;
    v = v + 2 * (650 - v) / 10;
    assert_eq!(s, 100920, "Second recovery position");
    assert_eq!(v, 546, "Second recovery velocity");
    s = s + 2 * (104000 - s) / 10;
    v = v + 2 * (700 - v) / 10;
    assert_eq!(s, 101536, "Third recovery position");
    assert_eq!(v, 576, "Third recovery velocity");
    assert_eq!(soft_resync(soft_resync(soft_resync(100000, 102000), 103000), 104000), 101536);
}

#[test]
fn test_u32_wrap_behavior() {
    let gps_x = 50000i32;
    let x0_cm = 100000i32;
    let grid_size_cm = 10000i32;
    let diff = gps_x - x0_cm;
    let divided = diff / grid_size_cm;
    let wrapped = divided as u32;
    let back_to_i32 = wrapped as i32;
    assert_eq!(diff, -50000);
    assert_eq!(divided, -5);
    assert!(wrapped > 4000000000, "Should wrap to ~4 billion, got {}", wrapped);
    assert_eq!(back_to_i32, -5, "Casting back to i32 should give us -5");
}

#[test]
fn test_grid_lookup_with_wrapped_coordinates() {
    let gx = 4294967291u32;
    let gy = 5u32;
    let ny = gy as i32 + 0i32 - 1;
    let nx = gx as i32 + 0i32 - 1;
    assert!(nx < 0, "nx should be negative");
    assert!(ny >= 0, "ny should be non-negative");
}

#[test]
fn soft_resync_moves_a_fifth_of_the_gap_toward_target() {
    assert_eq!(soft_resync(0, 1000), 200);
    assert_eq!(soft_resync(1000, 0), 800);
    assert_eq!(soft_resync(-100, -100), -100);
}

#[test]
fn ema_stays_between_previous_and_target() {
    for &(prev, target) in &[(0, 1000), (1000, 0), (-500, 500), (777, 778)] {
        let v = update_dr_ema(prev, target);
        assert!(v >= prev.min(target) && v <= prev.max(target));
    }
}

#[test]
fn speed_constraint_rejects_the_largest_backward_jump() {
    assert!(!check_speed_constraint(i32::MIN, 0, 1));
    assert!(!check_speed_constraint(-1, i32::MAX, 1_000_000));
    assert!(check_speed_constraint(12000, 10000, 0));
    assert!(check_speed_constraint(15300, 10000, 2));
    assert!(!check_speed_constraint(18000, 10000, 1));
}
