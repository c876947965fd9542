use pipeline::corridor::{active_stops, find_active_stops};
use pipeline::model::Stop;

fn stop(p: i32, a: i32, b: i32) -> Stop {
    Stop { progress_cm: p, corridor_start_cm: a, corridor_end_cm: b }
}

#[test]
fn test_no_active_stops() {
    let stops = vec![stop(10000, 2000, 14000)];
    assert!(find_active_stops(0, &stops).is_empty());
}

#[test]
fn test_one_active_stop() {
    let stops = vec![stop(10000, 2000, 14000)];
    assert_eq!(find_active_stops(10000, &stops), vec![0]);
}

#[test]
fn test_snap_from_before_to_inside_corridor() {
    let stops = vec![stop(10000, 2000, 14000)];
    assert_eq!(find_active_stops(1000, &stops).len(), 0, "Should not be active before snap");
    assert_eq!(find_active_stops(5000, &stops), vec![0], "Should be active after snap");
}

#[test]
fn test_snap_over_corridor_entirely() {
    let stops = vec![stop(10000, 2000, 14000)];
    assert_eq!(find_active_stops(1000, &stops).len(), 0, "Should not be active before snap");
    assert_eq!(find_active_stops(15000, &stops).len(), 0, "Should miss corridor when snap jumps over it");
}

#[test]
fn test_snap_between_corridors() {
    let stops = vec![stop(3000, 0, 4000), stop(8000, 6000, 10000)];
    assert_eq!(find_active_stops(2000, &stops), vec![0], "Should be in Stop A corridor before snap");
    assert_eq!(find_active_stops(7000, &stops), vec![1], "Should be in Stop B corridor after snap");
}

#[test]
fn test_snap_to_corridor_boundary() {
    let stops = vec![stop(10000, 2000, 14000)];
    assert_eq!(find_active_stops(2000, &stops), vec![0], "Should be active at exact start boundary");
    assert_eq!(find_active_stops(14000, &stops), vec![0], "Should be active at exact end boundary");
}

#[test]
fn test_snap_during_ongoing_trip() {
    let stops = vec![stop(0, 0, 20000), stop(50000, 30000, 70000), stop(100000, 80000, 120000)];
    assert_eq!(find_active_stops(30000, &stops), vec![1], "Should be in Stop1 corridor before snap");
    assert_eq!(find_active_stops(90000, &stops), vec![2], "Should be in Stop2 corridor after snap");
}

#[test]
fn test_snap_does_not_create_duplicate_active_stops() {
    let stops = vec![stop(0, 0, 10000), stop(20000, 15000, 25000), stop(40000, 35000, 45000)];
    for snap_position in [0, 5000, 15000, 20000, 35000, 40000, 50000] {
        let active = find_active_stops(snap_position, &stops);
        assert!(active.len() <= 1, "Snap position {} should not create duplicate active stops, got {:?}", snap_position, active);
    }
}

fn mock_stops() -> Vec<Stop> {
    vec![stop(0, 0, 100), stop(200, 150, 250), stop(400, 350, 450)]
}

#[test]
fn test_active_stops_single() {
    let stops = mock_stops();
    let skip = vec![false; stops.len()];
    assert_eq!(active_stops(50, &stops, &skip), vec![0]);
}

#[test]
fn test_active_stops_multiple() {
    let stops = mock_stops();
    let skip = vec![false; stops.len()];
    assert_eq!(active_stops(200, &stops, &skip), vec![1]);
}

#[test]
fn test_active_stops_empty() {
    let stops = mock_stops();
    let skip = vec![false; stops.len()];
    assert_eq!(active_stops(500, &stops, &skip), vec![] as Vec<usize>);
}

#[test]
fn test_active_stops_skip_flag() {
    let stops = mock_stops();
    let skip = vec![true, false, false];
    assert_eq!(active_stops(50, &stops, &skip), vec![] as Vec<usize>);
}

#[test]
fn test_active_stops_corridor_boundary() {
    let stops = mock_stops();
    let skip = vec![false; stops.len()];
    assert_eq!(active_stops(100, &stops, &skip), vec![0]);
}

#[test]
fn overlapping_corridors_report_every_stop_in_order() {
    let stops = vec![stop(100, 0, 500), stop(300, 200, 800), stop(600, 250, 900)];
    assert_eq!(find_active_stops(300, &stops), vec![0, 1, 2]);
    assert_eq!(active_stops(300, &stops, &[false, true, false]), vec![0, 2]);
}
