use pipeline::paths::{generate_trace_path, normalize_sample, InputFormat, JsonReader};

fn trace(p: &str) -> String {
    String::from_utf8(generate_trace_path(p)).unwrap()
}

#[test]
fn trace_path_from_nmea_name() {
    assert_eq!(trace("test_data/ty225_normal_nmea.txt"), "test_data/ty225_normal_trace_v2.jsonl");
    assert_eq!(trace("gps.nmea"), "gps_trace_v2.jsonl");
    assert_eq!(trace("/data/run.jsonl"), "/data/run_trace_v2.jsonl");
    assert_eq!(trace("/run_nmea"), "/run_trace_v2.jsonl");
}

#[test]
fn trace_path_edge_cases() {
    assert_eq!(trace(""), "_trace_v2.jsonl");
    assert_eq!(trace("/"), "_trace_v2.jsonl");
    assert_eq!(trace("./a.nmea"), "./a_trace_v2.jsonl");
    assert_eq!(trace("a//b.txt"), "a/b_trace_v2.jsonl");
    assert_eq!(trace("dir/.hidden"), "dir/.hidden_trace_v2.jsonl");
    assert_eq!(trace("dir/"), "dir_trace_v2.jsonl");
    assert_eq!(trace("a/.."), "a/_trace_v2.jsonl");
    assert_eq!(trace("a.b.c"), "a.b_trace_v2.jsonl");
}

#[test]
fn input_format_by_extension() {
    assert_eq!(InputFormat::from_path("gps.jsonl"), InputFormat::Jsonl);
    assert_eq!(InputFormat::from_path("dir/run.jsonl"), InputFormat::Jsonl);
    assert_eq!(InputFormat::from_path("gps.nmea"), InputFormat::Nmea);
    assert_eq!(InputFormat::from_path("gps.txt"), InputFormat::Nmea);
    assert_eq!(InputFormat::from_path(".jsonl"), InputFormat::Nmea);
    assert_eq!(InputFormat::from_path("jsonl"), InputFormat::Nmea);
    assert_eq!(InputFormat::from_path("a.jsonl/"), InputFormat::Jsonl);
    assert_eq!(InputFormat::from_path("a.JSONL"), InputFormat::Nmea);
}

#[test]
fn json_reader_counts_skips() {
    let mut r = JsonReader::new();
    assert_eq!(r.skipped_count(), 0);
    r.record_skip();
    r.record_skip();
    assert_eq!(r.skipped_count(), 2);
}

#[test]
fn sample_normalisation() {
    let f = normalize_sample(1_700_000_123_456, Some(27_000), Some(432), Some(6));
    assert_eq!(f.timestamp_ms, 1_700_000_123_456);
    assert_eq!(f.timestamp_s, 1_700_000_123);
    assert_eq!(f.heading_cdeg, Some(-9000));
    assert_eq!(f.speed_cms, Some(432));
    assert_eq!(f.hdop_x10, Some(6));
    let g = normalize_sample(999, None, None, None);
    assert_eq!((g.timestamp_s, g.heading_cdeg), (0, None));
}

fn std_trace(p: &str) -> String {
    let path = std::path::Path::new(p);
    let stem = path.file_stem().unwrap_or_default().to_string_lossy().to_string();
    let base = stem.strip_suffix("_nmea").unwrap_or(&stem);
    let name = format!("{}_trace_v2.jsonl", base);
    match path.parent() {
        Some(parent) => parent.join(name).to_string_lossy().to_string(),
        None => name,
    }
}

#[test]
fn path_handling_agrees_with_std_path() {
    let inputs = [
        "", "/", ".", "..", "a", "a.b", ".jsonl", "x.jsonl", "dir/", "dir//", "a/b/c.d.e", "a/.hidden",
        "a/b.jsonl/", "./run_nmea.txt", "/abs/x_nmea", "a/..", "a/./b.nmea", "..jsonl", "a.b.",
    ];
    for p in inputs {
        let std_jsonl = std::path::Path::new(p).extension().and_then(|e| e.to_str()) == Some("jsonl");
        assert_eq!(InputFormat::from_path(p) == InputFormat::Jsonl, std_jsonl, "format of {:?}", p);
        assert_eq!(trace(p), std_trace(p), "trace path of {:?}", p);
    }
}
