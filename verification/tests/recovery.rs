use pipeline::model::{DistCm, FreezeContext, SpeedCms, Stop};
use pipeline::recovery::find_stop_index;

fn stop(p: i32, a: i32, b: i32) -> Stop {
    Stop { progress_cm: p, corridor_start_cm: a, corridor_end_cm: b }
}

#[test]
fn test_recovery_scoring() {
    let stops = vec![stop(1000, 0, 2000), stop(5000, 4000, 6000), stop(9000, 8000, 10000)];
    assert_eq!(find_stop_index(5100, 1000, 1, &stops, 0, &None), Some(1));
    assert_eq!(find_stop_index(1100, 1000, 1, &stops, 2, &None), None);
    assert_eq!(find_stop_index(4500, 1000, 1, &stops, 2, &None), Some(1));
    assert_eq!(find_stop_index(1000, 1000, 1, &stops, 1, &None), Some(0));
}

#[test]
fn test_recovery_with_80m_gaps() {
    let stops = vec![stop(1000, 0, 2000), stop(9000, 8000, 10000)];
    assert_eq!(find_stop_index(1000, 1000, 1, &stops, 1, &None), Some(0));
}

#[test]
fn recovery_test_gps_recovery_with_realistic_elapsed_time() {
    let stops = vec![stop(1000, 0, 2000), stop(5000, 4000, 6000), stop(9000, 8000, 10000)];
    assert_eq!(find_stop_index(2000, 1000, 5, &stops, 1, &None), Some(1));
    assert_eq!(find_stop_index(3000, 1000, 10, &stops, 0, &None), Some(0));
    assert_eq!(find_stop_index(6000, 1000, 10, &stops, 0, &None), Some(1));
    assert_eq!(find_stop_index(2000, 1000, 0, &stops, 0, &None), Some(0));
    assert_eq!(find_stop_index(1100, 1000, 5, &stops, 2, &None), Some(1));
}

#[test]
fn test_velocity_exclusion_when_dist_exceeds_vmax() {
    let stops = vec![stop(1000, 0, 2000), stop(10000, 9000, 11000), stop(12000, 11000, 13000)];
    let result = find_stop_index(5000, 1000, 1, &stops, 0, &None);
    assert_eq!(result, Some(0), "Stop 0 should be selected (stops 1 and 2 excluded by velocity constraint)");
}

#[test]
fn test_velocity_inclusion_when_dist_within_vmax() {
    let stops = vec![stop(1000, 0, 2000), stop(6000, 5000, 7000), stop(12000, 11000, 13000)];
    let s_cm: DistCm = 5000;
    let v_filtered: SpeedCms = 1000;
    let result = find_stop_index(s_cm, v_filtered, 1, &stops, 0, &None);
    assert_eq!(result, Some(1), "Stop at 6000cm should be selected (dist=1000 < V_MAX_CMS)");
}

#[test]
fn test_recovery_velocity_test_gps_recovery_with_realistic_elapsed_time() {
    let stops = vec![stop(1000, 0, 2000), stop(11000, 10000, 12000)];
    let s_cm: DistCm = 10000;
    let v_filtered: SpeedCms = 1000;
    let result = find_stop_index(s_cm, v_filtered, 10, &stops, 0, &None);
    assert_eq!(result, Some(1), "GPS recovery should succeed with realistic elapsed time");
    let result_quick = find_stop_index(s_cm, v_filtered, 1, &stops, 0, &None);
    assert_eq!(result_quick, Some(1), "Should still work for 1-second intervals");
}

#[test]
fn recovery_without_stops_finds_nothing() {
    assert_eq!(find_stop_index(1000, 500, 1, &[], 0, &None), None);
}

#[test]
fn recovery_result_is_always_a_stop_index() {
    let stops = vec![stop(1000, 0, 2000), stop(5000, 4000, 6000), stop(9000, 8000, 10000)];
    let ctx = Some(FreezeContext { frozen_s_cm: 4000, frozen_stop_idx: 1 });
    for s in [0, 1000, 3000, 5000, 8000, 12000] {
        if let Some(i) = find_stop_index(s, 1000, 3, &stops, 1, &ctx) {
            assert!(i < stops.len());
        }
    }
}
