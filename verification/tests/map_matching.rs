use pipeline::heading::{heading_diff_cdeg, heading_eligible, heading_threshold_cdeg, heading_weight};
use pipeline::model::{HeadCdeg, RouteData, RouteNode, SpatialGrid, SpeedCms, Stop};
use pipeline::projection::{distance_to_segment_squared, project_to_route, segment_score};
use pipeline::search::{
    find_best_segment_grid_only, find_best_segment_grid_only_with_min_max_s,
    find_best_segment_grid_only_with_min_s, find_best_segment_restricted,
};

fn node(x: i32, y: i32, cum: i32, heading: i16, len_mm: i32, dx: i16, dy: i16) -> RouteNode {
    RouteNode { x_cm: x, y_cm: y, cum_dist_cm: cum, heading_cdeg: heading, seg_len_mm: len_mm, dx_cm: dx, dy_cm: dy }
}

fn route(nodes: Vec<RouteNode>, grid: SpatialGrid) -> RouteData {
    let (x0, y0) = (grid.x0_cm, grid.y0_cm);
    RouteData { nodes, stops: Vec::<Stop>::new(), grid, x0_cm: x0, y0_cm: y0 }
}

fn create_test_route_data(segments: &[(i32, i32, i16, i32)]) -> RouteData {
    let mut nodes: Vec<RouteNode> = Vec::new();
    let mut cum_dist = 0;
    for &(x, y, heading, len_mm) in segments.iter() {
        let dx_cm = len_mm / 10;
        nodes.push(node(x, y, cum_dist, heading, len_mm, dx_cm as i16, 0));
        cum_dist += dx_cm;
    }
    let grid_size_cm = 1000;
    let max_x = segments.iter().map(|(x, _, _, _)| *x).max().unwrap_or(0);
    let max_y = segments.iter().map(|(_, y, _, _)| *y).max().unwrap_or(0);
    let min_x = segments.iter().map(|(x, _, _, _)| *x).min().unwrap_or(0);
    let min_y = segments.iter().map(|(_, y, _, _)| *y).min().unwrap_or(0);
    let cols = ((max_x - min_x) / grid_size_cm + 1) as u32;
    let rows = ((max_y - min_y) / grid_size_cm + 1) as u32;
    let mut cells: Vec<Vec<u16>> = vec![vec![]; (cols * rows) as usize];
    for (i, &(x, y, _, _)) in segments.iter().enumerate() {
        let gx = ((x - min_x) / grid_size_cm) as usize;
        let gy = ((y - min_y) / grid_size_cm) as usize;
        let cell_idx = gy * cols as usize + gx;
        if cell_idx < cells.len() {
            cells[cell_idx].push(i as u16);
        }
    }
    route(nodes, SpatialGrid { cells, grid_size_cm, cols, rows, x0_cm: min_x, y0_cm: min_y })
}

fn seg_x1000() -> RouteNode {
    node(0, 0, 0, 0, 10_000, 1000, 0)
}

// ---- heading ----

fn check_heading_eligible_sentinel() {
    let seg_heading: HeadCdeg = 9000;
    assert!(heading_eligible(i16::MIN, 500, seg_heading, false));
    assert!(heading_eligible(i16::MIN, 0, seg_heading, false));
}

fn check_heading_eligible_stopped() {
    assert!(heading_eligible(0, 0, 9000, false));
    assert!(heading_eligible(0, 0, 18000, false));
}

fn check_heading_eligible_moving() {
    let speed: SpeedCms = 500;
    assert!(heading_eligible(9000, speed, 9000, false));
    assert!(heading_eligible(0, speed, 8999, false));
    assert!(!heading_eligible(0, speed, 9001, false));
    assert!(!heading_eligible(0, speed, 18000, false));
}

fn check_heading_threshold_cdeg() {
    assert_eq!(heading_threshold_cdeg(0), u32::MAX);
    assert_eq!(heading_threshold_cdeg(256), 9_000);
    let threshold = heading_threshold_cdeg(128);
    assert!(threshold > 9_000 && threshold < 36_000);
    assert!(heading_threshold_cdeg(64) > heading_threshold_cdeg(128));
    assert!(heading_threshold_cdeg(128) > heading_threshold_cdeg(256));
}

#[test]
fn heading_test_heading_eligible_sentinel() {
    check_heading_eligible_sentinel();
}

#[test]
fn map_match_test_heading_eligible_sentinel() {
    check_heading_eligible_sentinel();
}

#[test]
fn heading_test_heading_eligible_stopped() {
    check_heading_eligible_stopped();
}

#[test]
fn map_match_test_heading_eligible_stopped() {
    check_heading_eligible_stopped();
}

#[test]
fn heading_test_heading_eligible_moving() {
    check_heading_eligible_moving();
}

#[test]
fn map_match_test_heading_eligible_moving() {
    check_heading_eligible_moving();
}

#[test]
fn heading_test_heading_threshold_cdeg() {
    check_heading_threshold_cdeg();
}

#[test]
fn map_match_test_heading_threshold_cdeg() {
    check_heading_threshold_cdeg();
}

#[test]
fn test_heading_eligible_first_fix() {
    let speed: SpeedCms = 500;
    assert!(heading_eligible(0, speed, 18000, true));
    assert!(heading_eligible(0, speed, 9001, true));
}

#[test]
fn test_heading_weight() {
    assert_eq!(heading_weight(0), 0);
    assert_eq!(heading_weight(83), 256);
    assert_eq!(heading_weight(500), 256);
    assert_eq!(heading_weight(41), 126);
}

#[test]
fn heading_diff_is_symmetric_and_bounded() {
    for &a in &[-18000i16, -9000, -1, 0, 1, 4500, 17999] {
        for &b in &[-17999i16, -4500, 0, 9000, 17999] {
            assert_eq!(heading_diff_cdeg(a, b), heading_diff_cdeg(b, a));
            assert!(heading_diff_cdeg(a, b) <= 18000);
        }
        assert_eq!(heading_diff_cdeg(a, a), 0);
    }
    assert_eq!(heading_diff_cdeg(17000, -17000), 2000);
    assert_eq!(heading_diff_cdeg(0, 9000), 9000);
}

// ---- projection ----

fn check_segment_score_is_pure_distance() {
    let seg = node(100000, 100000, 0, 9000, 20000, 200, 0);
    assert_eq!(segment_score(100000, 100000, &seg), 0);
    assert_eq!(segment_score(100500, 100000, &seg), 245_025);
}

fn check_distance_on_segment() {
    let seg = seg_x1000();
    assert_eq!(distance_to_segment_squared(500, 0, &seg), 0);
    assert_eq!(distance_to_segment_squared(0, 0, &seg), 0);
}

fn check_distance_perpendicular() {
    assert_eq!(distance_to_segment_squared(500, 300, &seg_x1000()), 90_000);
}

fn check_distance_clamped_before() {
    let seg = node(1000, 0, 0, 0, 10_000, 1000, 0);
    assert_eq!(distance_to_segment_squared(0, 0, &seg), 1_000_000);
}

fn check_distance_zero_length() {
    let seg = node(1000, 1000, 0, 0, 0, 0, 0);
    assert_eq!(distance_to_segment_squared(1200, 1300, &seg), 200 * 200 + 300 * 300);
}

fn check_project_on_segment() {
    let route_data = create_test_route_data(&[(0, 0, 0, 100_000), (10000, 0, 0, 100_000)]);
    assert_eq!(project_to_route(0, 0, 0, &route_data), 0);
    assert_eq!(project_to_route(10000, 0, 0, &route_data), 10_000);
}

fn check_project_mid_segment() {
    let route_data = create_test_route_data(&[(0, 0, 0, 100_000)]);
    assert_eq!(project_to_route(5000, 0, 0, &route_data), 5_000);
}

#[test]
fn projection_test_segment_score_is_pure_distance() {
    check_segment_score_is_pure_distance();
}

#[test]
fn mod_test_segment_score_is_pure_distance() {
    check_segment_score_is_pure_distance();
}

#[test]
fn map_match_test_segment_score_is_pure_distance() {
    check_segment_score_is_pure_distance();
}

#[test]
fn projection_test_distance_to_segment_squared_on_segment() {
    check_distance_on_segment();
}

#[test]
fn mod_test_distance_to_segment_squared_on_segment() {
    check_distance_on_segment();
}

#[test]
fn map_match_test_distance_to_segment_squared_on_segment() {
    check_distance_on_segment();
}

#[test]
fn projection_test_distance_to_segment_squared_perpendicular() {
    check_distance_perpendicular();
}

#[test]
fn mod_test_distance_to_segment_squared_perpendicular() {
    check_distance_perpendicular();
}

#[test]
fn map_match_test_distance_to_segment_squared_perpendicular() {
    check_distance_perpendicular();
}

#[test]
fn projection_test_distance_to_segment_squared_clamped_before() {
    check_distance_clamped_before();
}

#[test]
fn mod_test_distance_to_segment_squared_clamped_before() {
    check_distance_clamped_before();
}

#[test]
fn map_match_test_distance_to_segment_squared_clamped_before() {
    check_distance_clamped_before();
}

#[test]
fn projection_test_distance_to_segment_squared_zero_length() {
    check_distance_zero_length();
}

#[test]
fn mod_test_distance_to_segment_squared_zero_length() {
    check_distance_zero_length();
}

#[test]
fn map_match_test_distance_to_segment_squared_zero_length() {
    check_distance_zero_length();
}

#[test]
fn projection_test_project_to_route_on_segment() {
    check_project_on_segment();
}

#[test]
fn mod_test_project_to_route_on_segment() {
    check_project_on_segment();
}

#[test]
fn map_match_test_project_to_route_on_segment() {
    check_project_on_segment();
}

#[test]
fn projection_test_project_to_route_mid_segment() {
    check_project_mid_segment();
}

#[test]
fn mod_test_project_to_route_mid_segment() {
    check_project_mid_segment();
}

#[test]
fn map_match_test_project_to_route_mid_segment() {
    check_project_mid_segment();
}

#[test]
fn distance_is_never_negative_and_zero_on_segment() {
    let seg = seg_x1000();
    for x in (-10000..10000).step_by(997) {
        for y in (-10000..10000).step_by(1013) {
            assert!(distance_to_segment_squared(x, y, &seg) >= 0);
        }
    }
    for t in (0..1000).step_by(37) {
        assert_eq!(distance_to_segment_squared(t, 0, &seg), 0);
    }
}

#[test]
fn project_to_route_out_of_range_uses_first_node() {
    let route_data = create_test_route_data(&[(0, 0, 0, 100_000)]);
    assert_eq!(project_to_route(5000, 0, 7, &route_data), 5_000);
}

// ---- search ----

#[test]
fn test_find_best_segment_restricted_window_early_exit() {
    let segments: Vec<(i32, i32, i16, i32)> = (0..20).map(|i| (i * 1000, 0, 0, 20_000)).collect();
    let route_data = create_test_route_data(&segments);
    let (idx, dist2) = find_best_segment_restricted(11_500, 0, 0, 500, &route_data, 10, false);
    assert_eq!(idx, 10);
    assert!(dist2 < 4_000_000);
}

#[test]
fn test_find_best_segment_restricted_grid_fallback() {
    let segments: Vec<(i32, i32, i16, i32)> = (0..20).map(|i| (i * 1000, 0, 0, 20_000)).collect();
    let route_data = create_test_route_data(&segments);
    let (idx, _dist2) = find_best_segment_restricted(16_500, 0, 0, 500, &route_data, 5, false);
    assert_eq!(idx, 15);
}

#[test]
fn test_find_best_segment_grid_only() {
    let route_data = create_test_route_data(&[(0, 0, 0, 20_000), (2000, 0, 0, 20_000), (4000, 0, 0, 20_000)]);
    let (idx, _dist2) = find_best_segment_grid_only(3000, 0, 0, 500, &route_data, false);
    assert_eq!(idx, 1);
}

#[test]
fn test_find_best_segment_grid_only_outside_bounds() {
    let route_data = create_test_route_data(&[(0, 0, 0, 20_000)]);
    let (idx, dist2) = find_best_segment_grid_only(-50_000, -50_000, 0, 500, &route_data, false);
    assert_eq!(idx, 0);
    assert_eq!(dist2, i64::MAX);
}

#[test]
fn test_find_best_segment_grid_only_with_min_s_constraint() {
    let segments: Vec<(i32, i32, i16, i32)> = (0..10).map(|i| (i * 1000, 0, 0, 1000 * 1000)).collect();
    let route_data = create_test_route_data(&segments);
    let (idx, _dist2) = find_best_segment_grid_only_with_min_s(3000, 0, 0, 500, &route_data, false, 250_000);
    assert!(idx >= 3);
}

#[test]
fn test_find_best_segment_grid_only_with_min_s_no_filter() {
    let route_data = create_test_route_data(&[(0, 0, 0, 1000 * 1000), (1000, 0, 0, 1000 * 1000)]);
    let (idx, _dist2) = find_best_segment_grid_only_with_min_s(1000, 0, 0, 500, &route_data, false, 0);
    assert_eq!(idx, 1);
}

#[test]
fn test_sentinel_heading_always_eligible() {
    let route_data = create_test_route_data(&[(0, 0, 18000, 20_000)]);
    let (idx, _dist2) = find_best_segment_grid_only(0, 0, i16::MIN, 500, &route_data, false);
    assert_eq!(idx, 0);
}

#[test]
fn test_first_fix_relaxed_heading() {
    let route_data = create_test_route_data(&[(0, 0, 18000, 20_000)]);
    let (idx, _dist2) = find_best_segment_grid_only(0, 0, 0, 500, &route_data, true);
    assert_eq!(idx, 0);
}

#[test]
fn test_zero_speed_heading_gate_disabled() {
    let route_data = create_test_route_data(&[(0, 0, 9001, 20_000)]);
    let (idx, _dist2) = find_best_segment_grid_only(0, 0, 0, 0, &route_data, false);
    assert_eq!(idx, 0);
}

#[test]
fn grid_only_with_min_max_s_excludes_segments_outside_range() {
    let route_data = create_test_route_data(&[(0, 0, 0, 20_000), (2000, 0, 0, 20_000), (4000, 0, 0, 20_000)]);
    let (idx, _d2) = find_best_segment_grid_only_with_min_max_s(3000, 0, 0, 500, &route_data, false, 3000, 5000);
    assert_eq!(idx, 2);
    let (idx, d2) = find_best_segment_grid_only_with_min_max_s(3000, 0, 0, 500, &route_data, false, 9000, 9999);
    assert_eq!((idx, d2), (0, i64::MAX));
}

fn three_segment_line() -> RouteData {
    let nodes = vec![
        node(0, 0, 0, 0, 10000, 1000, 0),
        node(1000, 0, 1000, 0, 10000, 1000, 0),
        node(2000, 0, 2000, 0, 10000, 1000, 0),
    ];
    route(nodes, SpatialGrid { cells: vec![vec![0, 1, 2]], grid_size_cm: 1000, cols: 3, rows: 1, x0_cm: 0, y0_cm: 0 })
}

#[test]
fn test_find_best_segment_returns_distance_squared() {
    let route_data = three_segment_line();
    let (seg_idx, dist2) = find_best_segment_restricted(1500, 0, 0, 500, &route_data, 1, false);
    assert_eq!(seg_idx, 1, "Should select segment 1 when GPS is on it");
    assert_eq!(dist2, 0, "Distance squared should be 0 when GPS is exactly on segment");
    let (seg_idx, dist2) = find_best_segment_restricted(1500, 500, 0, 500, &route_data, 1, false);
    assert_eq!(seg_idx, 1, "Should select segment 1 as closest");
    assert_eq!(dist2, 250000, "Distance squared should be 500² = 250000");
    let (seg_idx, dist2) = find_best_segment_restricted(1500, 0, 9000, 500, &route_data, 1, false);
    assert!(dist2 >= 0, "Distance squared should always be non-negative");
    assert!(seg_idx < 3, "Segment index should be valid");
    let (seg_idx, dist2) = find_best_segment_restricted(1500, 200, 9000, 500, &route_data, 1, true);
    assert_eq!(seg_idx, 1, "Should select segment 1");
    assert_eq!(dist2, 40000, "Distance squared should be 200² = 40000");
}

#[test]
fn test_find_best_segment_distance_squared_properties() {
    let nodes = vec![node(1000, 1000, 0, 0, 10000, 1000, 0)];
    let route_data =
        route(nodes, SpatialGrid { cells: vec![vec![0]], grid_size_cm: 1000, cols: 1, rows: 1, x0_cm: 0, y0_cm: 0 });
    let (seg_idx, dist2) = find_best_segment_restricted(1500, 1200, 0, 100, &route_data, 0, false);
    assert!(dist2 >= 0, "Distance squared must be non-negative");
    assert!(seg_idx < route_data.node_count(), "Segment index must be valid");
}

fn vertical_route() -> RouteData {
    let nodes = vec![node(100000, 100000, 0, 0, 100000, 0, 10000), node(100000, 110000, 10000, 0, 0, 0, 0)];
    route(
        nodes,
        SpatialGrid { cells: vec![vec![0]], grid_size_cm: 10000, cols: 1, rows: 1, x0_cm: 100000, y0_cm: 100000 },
    )
}

#[test]
fn test_gps_outside_bounds_returns_last_idx() {
    let route_data = vertical_route();
    let last_idx = 0;
    let result = find_best_segment_restricted(50000, 105000, 0, 0, &route_data, last_idx, false);
    assert_eq!(result.0, last_idx, "GPS outside bounds should return last_idx conservatively, but got {:?}", result);
}

#[test]
fn test_gps_outside_y_bounds_returns_last_idx() {
    let route_data = vertical_route();
    let last_idx = 0;
    let result = find_best_segment_restricted(105000, 50000, 0, 0, &route_data, last_idx, false);
    assert_eq!(result.0, last_idx, "GPS outside y bounds should return last_idx conservatively, but got {:?}", result);
}

#[test]
fn test_gps_inside_bounds_works_normally() {
    let route_data = vertical_route();
    let result = find_best_segment_restricted(100000, 105000, 0, 0, &route_data, 0, false);
    assert!(result.0 <= 1, "GPS inside bounds should find valid segment, but got {:?}", result);
}
