use pipeline::detection::{DetectionState, GpsDiagnostics, GpsRecord, PipelineResult, RecordStatus};
use pipeline::model::{FsmState, RouteData, SpatialGrid, Stop};

fn build_gaussian_lut() -> [u8; 256] {
    let mut lut = [0u8; 256];
    for i in 0..256 {
        let x = (i as f64) / 64.0;
        lut[i] = ((-0.5 * x * x).exp() * 255.0).min(255.0).round() as u8;
    }
    lut
}

fn build_logistic_lut() -> [u8; 128] {
    let mut lut = [0u8; 128];
    for i in 0..128 {
        let v = (i as f64) * 10.0;
        lut[i] = ((1.0 / (1.0 + (0.01 * (v - 200.0)).exp())) * 255.0).min(255.0).round() as u8;
    }
    lut
}

fn route_data() -> RouteData {
    RouteData {
        nodes: vec![],
        stops: vec![
            Stop { progress_cm: 10000, corridor_start_cm: 2000, corridor_end_cm: 16000 },
            Stop { progress_cm: 30000, corridor_start_cm: 22000, corridor_end_cm: 34000 },
            Stop { progress_cm: 50000, corridor_start_cm: 42000, corridor_end_cm: 54000 },
            Stop { progress_cm: 70000, corridor_start_cm: 62000, corridor_end_cm: 74000 },
        ],
        grid: SpatialGrid { cells: vec![], grid_size_cm: 1000, cols: 0, rows: 0, x0_cm: 0, y0_cm: 0 },
        x0_cm: 0,
        y0_cm: 0,
    }
}

fn gps_record(status: RecordStatus, s_cm: i32) -> GpsRecord {
    GpsRecord::new(1_234_567, s_cm, 250, Some(9000), status)
}

#[test]
fn test_diagnostics_builder() {
    let diag = GpsDiagnostics::new()
        .with_segment_idx(Some(5))
        .with_heading_met(true)
        .with_divergence_cm(100)
        .with_hdop(Some(15))
        .with_accuracy_cm(Some(150))
        .with_num_sats(Some(12))
        .with_fix_type(Some("3D".to_string()))
        .with_variance_cm2(50);
    assert_eq!(diag.segment_idx, Some(5));
    assert_eq!(diag.heading_met, true);
    assert_eq!(diag.divergence_cm, 100);
    assert_eq!(diag.hdop_x10, Some(15));
    assert_eq!(diag.accuracy_cm, Some(150));
    assert_eq!(diag.num_sats, Some(12));
    assert_eq!(diag.fix_type, Some("3D".to_string()));
    assert_eq!(diag.variance_cm2, 50);
}

#[test]
fn test_diagnostics_default() {
    let diag = GpsDiagnostics::new();
    assert_eq!(diag.segment_idx, None);
    assert_eq!(diag.heading_met, false);
    assert_eq!(diag.divergence_cm, 0);
    assert_eq!(diag.hdop_x10, None);
    assert_eq!(diag.accuracy_cm, None);
    assert_eq!(diag.num_sats, None);
    assert_eq!(diag.fix_type, None);
    assert_eq!(diag.variance_cm2, 0);
}

#[test]
fn record_with_diagnostics_copies_every_field() {
    let r = gps_record(RecordStatus::Valid, 100).with_diagnostics(
        GpsDiagnostics::new()
            .with_segment_idx(Some(7))
            .with_heading_met(true)
            .with_divergence_cm(33)
            .with_hdop(Some(15))
            .with_accuracy_cm(Some(250))
            .with_num_sats(Some(9))
            .with_fix_type(Some("3d".to_string()))
            .with_variance_cm2(144),
    );
    assert_eq!((r.time, r.s_cm, r.v_cms, r.heading_cdeg), (1_234_567, 100, 250, Some(9000)));
    assert_eq!((r.segment_idx, r.heading_constraint_met, r.divergence_cm), (Some(7), true, 33));
    assert_eq!((r.hdop_x10, r.accuracy_cm, r.num_sats, r.variance_cm2), (Some(15), Some(250), Some(9), 144));
    assert_eq!(r.fix_type.as_deref(), Some("3d"));
    assert_eq!(r.status.as_str(), "valid");
    assert_eq!(RecordStatus::SuspectOffRoute.as_str(), "suspect_off_route");
    assert_eq!(RecordStatus::DrOutage.as_str(), "dr_outage");
    assert_eq!(RecordStatus::OffRoute.as_str(), "off_route");
}

#[test]
fn get_trace_info_includes_active_announced_and_skipped_stop_states() {
    let route_data = route_data();
    let (g, l) = (build_gaussian_lut(), build_logistic_lut());
    let mut state = DetectionState::new(&route_data);
    let stops = route_data.stops();

    state.active_indices = vec![0];
    state.arrived_this_frame.push(0);

    state.stop_states[0].last_probability = 64;
    state.stop_states[0].announced = false;
    state.stop_states[0].skip_on_reentry = false;
    state.stop_states[0].previous_distance_cm = Some(321);

    state.stop_states[1].last_probability = 128;
    state.stop_states[1].announced = true;
    state.stop_states[1].skip_on_reentry = false;
    state.stop_states[1].previous_distance_cm = Some(-456);

    state.stop_states[2].last_probability = 192;
    state.stop_states[2].announced = false;
    state.stop_states[2].skip_on_reentry = true;
    state.stop_states[2].previous_distance_cm = Some(-789);

    let mut record = gps_record(RecordStatus::Valid, stops[0].corridor_start_cm + 100);
    record.divergence_cm = 25;

    let (active_stops, stop_states) = state.get_trace_info(&record, &route_data, &g, &l);
    assert_eq!(active_stops, vec![0]);

    let mut emitted_indices: Vec<u8> = stop_states.iter().map(|stop| stop.stop_idx).collect();
    emitted_indices.sort_unstable();
    assert_eq!(emitted_indices, vec![0, 1, 2]);

    let announced = stop_states.iter().find(|stop| stop.stop_idx == 1).expect("announced stop should be included");
    assert!(announced.announced);
    assert!(!announced.skip_on_reentry);
    assert_eq!(announced.previous_distance_cm, Some(-456));

    let skipped = stop_states.iter().find(|stop| stop.stop_idx == 2).expect("skipped stop should be included");
    assert!(!skipped.announced);
    assert!(skipped.skip_on_reentry);
    assert_eq!(skipped.previous_distance_cm, Some(-789));

    let first = &stop_states[0];
    assert_eq!(first.stop_idx, 0);
    assert!(first.just_arrived);
    assert_eq!(first.progress_distance_cm, 2100 - 10000);
    assert_eq!(first.gps_distance_cm, 2100 + 25 - 10000);
}

#[test]
fn get_trace_info_reports_probability_from_before_latest_update() {
    let route_data = route_data();
    let (g, l) = (build_gaussian_lut(), build_logistic_lut());
    let mut state = DetectionState::new(&route_data);
    let mut result = PipelineResult::new();
    let stop = route_data.stops()[0];

    let first = gps_record(RecordStatus::Valid, stop.corridor_start_cm);
    state.process_gps_record(&first, &route_data, &mut result, &g, &l);
    let expected_previous_probability = state.stop_states[0].last_probability;

    let second = gps_record(RecordStatus::Valid, stop.progress_cm - 1000);
    state.process_gps_record(&second, &route_data, &mut result, &g, &l);

    let (_, stop_states) = state.get_trace_info(&second, &route_data, &g, &l);
    let trace_state =
        stop_states.iter().find(|trace_state| trace_state.stop_idx == 0).expect("active stop should be present");

    assert_ne!(
        state.stop_states[0].last_probability, expected_previous_probability,
        "test requires the second update to change probability"
    );
    assert_eq!(trace_state.previous_probability, expected_previous_probability);
}

#[test]
fn add_trace_record_uses_grouped_trace_v2_fields() {
    let route_data = route_data();
    let (g, l) = (build_gaussian_lut(), build_logistic_lut());
    let stop = route_data.stops()[0];
    let mut det_state = DetectionState::new(&route_data);
    let mut result = PipelineResult::new();
    let record = GpsRecord::new(1_234_567, stop.corridor_start_cm, 250, Some(9000), RecordStatus::Valid)
        .with_diagnostics(
            GpsDiagnostics::new()
                .with_segment_idx(Some(7))
                .with_heading_met(true)
                .with_divergence_cm(33)
                .with_hdop(Some(15))
                .with_accuracy_cm(Some(250))
                .with_num_sats(Some(9))
                .with_fix_type(Some("3d".to_string()))
                .with_variance_cm2(144),
        );
    det_state.process_gps_record(&record, &route_data, &mut result, &g, &l);
    let (active_stops, stop_states) = det_state.get_trace_info(&record, &route_data, &g, &l);
    let summary = det_state.trace_summary(&record, &route_data, &stop_states);
    assert_eq!(record.time, 1_234_567);
    assert_eq!(record.heading_cdeg, Some(9000));
    assert_eq!(record.hdop_x10, Some(15));
    assert_eq!(record.s_cm, stop.corridor_start_cm);
    assert_eq!(record.divergence_cm, 33);
    assert_eq!(record.segment_idx, Some(7));
    assert!(record.heading_constraint_met);
    assert_eq!(record.status.as_str(), "valid");
    assert!(!summary.off_route);
    assert_eq!(active_stops, vec![0]);
    assert!(!stop_states.is_empty());
    assert_eq!(summary.corridor_start_cm, Some(stop.corridor_start_cm));
    assert_eq!(summary.corridor_end_cm, Some(stop.corridor_end_cm));
    assert_eq!(summary.next_stop, Some((1, 0)));
}

#[test]
fn add_trace_record_only_marks_exact_off_route_status_as_off_route() {
    let route_data = route_data();
    let (g, l) = (build_gaussian_lut(), build_logistic_lut());
    let mut det_state = DetectionState::new(&route_data);
    let mut result = PipelineResult::new();

    let suspect_record = GpsRecord::new(10, 1000, 0, None, RecordStatus::SuspectOffRoute);
    det_state.process_gps_record(&suspect_record, &route_data, &mut result, &g, &l);
    let (_, states) = det_state.get_trace_info(&suspect_record, &route_data, &g, &l);
    let suspect_trace = det_state.trace_summary(&suspect_record, &route_data, &states);

    let off_route_record = GpsRecord::new(11, 2000, 0, None, RecordStatus::OffRoute);
    det_state.process_gps_record(&off_route_record, &route_data, &mut result, &g, &l);
    let (_, states) = det_state.get_trace_info(&off_route_record, &route_data, &g, &l);
    let off_route_trace = det_state.trace_summary(&off_route_record, &route_data, &states);

    assert_eq!(suspect_record.status.as_str(), "suspect_off_route");
    assert!(!suspect_trace.off_route);
    assert_eq!(off_route_record.status.as_str(), "off_route");
    assert!(off_route_trace.off_route);
    assert_eq!(off_route_trace.off_route_last_s_cm, Some(2000));
}

#[test]
fn detour_reentry_skips_stops_behind_the_jump() {
    let route_data = route_data();
    let (g, l) = (build_gaussian_lut(), build_logistic_lut());
    let mut det = DetectionState::new(&route_data);
    let mut result = PipelineResult::new();
    det.process_gps_record(&GpsRecord::new(1, 5000, 0, None, RecordStatus::OffRoute), &route_data, &mut result, &g, &l);
    assert!(det.is_off_route());
    assert_eq!(det.off_route_last_s_cm(), Some(5000));
    // Re-enter far ahead of the last off-route position: stops behind are skipped.
    det.process_gps_record(&GpsRecord::new(2, 44000, 100, None, RecordStatus::Valid), &route_data, &mut result, &g, &l);
    assert!(!det.is_off_route());
    assert_eq!(det.off_route_last_s_cm(), None);
    assert!(det.stop_states[0].skip_on_reentry);
    assert!(det.stop_states[1].skip_on_reentry);
    assert!(!det.stop_states[2].skip_on_reentry);
    assert_eq!(det.active_indices(), &[2]);
    // A skipped stop is never active again.
    det.process_gps_record(&GpsRecord::new(3, 10000, 0, None, RecordStatus::Valid), &route_data, &mut result, &g, &l);
    assert!(det.active_indices().is_empty());
    assert!(result.arrivals.iter().all(|e| e.stop_idx >= 2));
    assert!(result.departures.iter().all(|e| e.stop_idx >= 2));
}

#[test]
fn small_reentry_jump_skips_nothing() {
    let route_data = route_data();
    let (g, l) = (build_gaussian_lut(), build_logistic_lut());
    let mut det = DetectionState::new(&route_data);
    let mut result = PipelineResult::new();
    det.process_gps_record(&GpsRecord::new(1, 5000, 0, None, RecordStatus::OffRoute), &route_data, &mut result, &g, &l);
    det.process_gps_record(&GpsRecord::new(2, 15000, 0, None, RecordStatus::Valid), &route_data, &mut result, &g, &l);
    assert!(det.stop_states.iter().all(|s| !s.skip_on_reentry));
}

#[test]
fn bus_stopping_at_a_stop_arrives_once_then_departs() {
    let route_data = route_data();
    let (g, l) = (build_gaussian_lut(), build_logistic_lut());
    let mut det = DetectionState::new(&route_data);
    let mut result = PipelineResult::new();
    let mut t = 0;
    let mut step = |det: &mut DetectionState, result: &mut PipelineResult, s: i32, v: i32| {
        t += 1;
        det.process_gps_record(&GpsRecord::new(t, s, v, None, RecordStatus::Valid), &route_data, result, &g, &l);
    };
    step(&mut det, &mut result, 3000, 500);
    step(&mut det, &mut result, 8000, 300);
    for _ in 0..10 {
        step(&mut det, &mut result, 10000, 0);
    }
    assert_eq!(result.arrivals.len(), 1);
    assert_eq!(result.arrivals[0].stop_idx, 0);
    assert!(det.stop_states[0].announced);
    assert_eq!(det.stop_states[0].fsm_state, FsmState::AtStop);
    step(&mut det, &mut result, 14100, 800);
    assert_eq!(result.departures.len(), 1);
    assert_eq!(result.departures[0].stop_idx, 0);
    for _ in 0..5 {
        step(&mut det, &mut result, 10000, 0);
    }
    assert_eq!(result.arrivals.len(), 1);
}

#[test]
fn tick_advances_the_clock() {
    let route_data = route_data();
    let mut det = DetectionState::new(&route_data);
    det.tick();
    det.tick();
    assert_eq!(det.current_timestamp, 2);
}

#[test]
fn range_checks_reject_unrepresentable_distances() {
    let (g, l) = (build_gaussian_lut(), build_logistic_lut());
    let route = route_data();
    let det = DetectionState::new(&route);
    let ok = GpsRecord::new(1, 3000, 100, None, RecordStatus::Valid);
    assert!(det.record_in_range(&ok, &route, &g, &l));
    assert!(det.trace_in_range(&ok, &route));

    let far = RouteData {
        stops: vec![Stop { progress_cm: -2_000_000_000, corridor_start_cm: -2_000_000_000, corridor_end_cm: 2_000_000_000 }],
        ..route_data()
    };
    let det = DetectionState::new(&far);
    let rec = GpsRecord::new(1, 1_000_000_000, 100, None, RecordStatus::Valid);
    assert!(!det.record_in_range(&rec, &far, &g, &l));
    let mut det2 = DetectionState::new(&far);
    det2.active_indices = vec![0];
    assert!(!det2.trace_in_range(&rec, &far));

    let mut full = DetectionState::new(&route);
    full.stop_states[0].fsm_state = FsmState::Approaching;
    full.stop_states[0].dwell_time_s = u16::MAX;
    assert!(!full.record_in_range(&GpsRecord::new(1, 3000, 100, None, RecordStatus::Valid), &route, &g, &l));
    assert!(full.record_in_range(&GpsRecord::new(1, 20000, 100, None, RecordStatus::Valid), &route, &g, &l));
}
