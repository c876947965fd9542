use pipeline::model::FixQuality;
use pipeline::nmea::{
    check_time_field, prepare_sentence, split_fields, verify_checksum, wrap_heading, FixAccumulator, NmeaSentence,
};

fn text(b: &[u8]) -> &str {
    std::str::from_utf8(b).unwrap()
}

fn parse_coord(deg_min: &[u8], hemi: &[u8], positive: &str) -> Option<f64> {
    let dm: f64 = text(deg_min).parse().ok()?;
    let degrees = (dm / 100.0).trunc() + (dm % 100.0) / 60.0;
    Some(if text(hemi) == positive { degrees } else { -degrees })
}

/// The sentence handling of the pipeline: checksum and field checks in the
/// library, decimal numbers read here.
fn update(acc: &mut FixAccumulator<f64>, sentence: &str) -> bool {
    match prepare_sentence(sentence) {
        None => false,
        Some(NmeaSentence::Rmc { time, lat, ns, lon, ew, speed, course }) => {
            let lat = match parse_coord(&lat, &ns, "N") {
                Some(v) => v,
                None => return false,
            };
            let lon = match parse_coord(&lon, &ew, "E") {
                Some(v) => v,
                None => return false,
            };
            let knots: f64 = text(&speed).parse().unwrap_or(0.0);
            let deg: f64 = text(&course).parse().unwrap_or(0.0);
            assert!(check_time_field(&time));
            acc.record_rmc(&time, lat, lon, (knots * 51.44) as i32, (deg * 100.0) as i32)
        }
        Some(NmeaSentence::Gsa { hdop }) => {
            let h: f64 = text(&hdop).parse().unwrap_or(99.0);
            acc.record_gsa((h * 10.0) as u16)
        }
        Some(NmeaSentence::Gga { time, lat, ns, lon, ew, hdop }) => {
            let lat = match parse_coord(&lat, &ns, "N") {
                Some(v) => v,
                None => return false,
            };
            let lon = match parse_coord(&lon, &ew, "E") {
                Some(v) => v,
                None => return false,
            };
            let h: f64 = text(&hdop).parse().unwrap_or(99.0);
            assert!(check_time_field(&time));
            acc.record_gga(&time, lat, lon, (h * 10.0) as u16)
        }
    }
}

const RMC_20: &str = "$GPRMC,221320,A,2500.2582,N,12117.1898,E,8.4,80.5,141123,,*2E";
const RMC_21: &str = "$GPRMC,221321,A,2500.2583,N,12117.1899,E,8.5,81.5,141123,,*2F";
const GGA_20: &str = "$GPGGA,221320,2500.2582,N,12117.1898,E,1,08,3.5,10.0,M,0.0,M,,*4B";

#[test]
fn test_new_accumulator_is_empty() {
    let mut acc = FixAccumulator::<f64>::new();
    assert!(!acc.should_emit());
    assert!(acc.build().is_none());
}

#[test]
fn test_rmc_only_creates_motion_only_fix() {
    let mut acc = FixAccumulator::new();
    update(&mut acc, RMC_20);
    assert!(!acc.should_emit());
    assert!(acc.build().is_some());
    let (gps, quality) = acc.build().unwrap();
    assert_eq!(quality, FixQuality::MotionOnly);
    assert!(gps.speed_cms.is_some());
    assert!(gps.heading_cdeg.is_some());
    assert!(gps.hdop_x10.is_none());
}

#[test]
fn test_gga_only_creates_position_only_fix() {
    let mut acc = FixAccumulator::new();
    update(&mut acc, GGA_20);
    assert!(!acc.should_emit());
    let (gps, quality) = acc.build().unwrap();
    assert_eq!(quality, FixQuality::PositionOnly);
    assert!(gps.speed_cms.is_none());
    assert!(gps.heading_cdeg.is_none());
    assert!(gps.hdop_x10.is_some());
}

#[test]
fn test_rmc_then_gga_creates_full_fix() {
    let mut acc = FixAccumulator::new();
    update(&mut acc, RMC_20);
    update(&mut acc, GGA_20);
    let (gps, quality) = acc.build().unwrap();
    assert_eq!(quality, FixQuality::Full);
    assert!(gps.speed_cms.is_some());
    assert!(gps.heading_cdeg.is_some());
    assert!(gps.hdop_x10.is_some());
}

#[test]
fn test_emit_on_second_timestamp() {
    let mut acc = FixAccumulator::new();
    update(&mut acc, RMC_20);
    assert!(!acc.should_emit());
    update(&mut acc, RMC_21);
    assert!(acc.should_emit());
    let (gps, _) = acc.build().unwrap();
    assert_eq!(gps.timestamp, (22 * 3600 + 13 * 60 + 21) * 1000);
}

#[test]
fn test_out_of_order_sentences() {
    let mut acc = FixAccumulator::new();
    update(&mut acc, GGA_20);
    update(&mut acc, RMC_20);
    let (_gps, quality) = acc.build().unwrap();
    assert_eq!(quality, FixQuality::Full);
}

#[test]
fn test_reset_clears_state() {
    let mut acc = FixAccumulator::new();
    update(&mut acc, RMC_20);
    acc.reset();
    assert!(acc.build().is_none());
    assert!(!acc.should_emit());
}

#[test]
fn test_invalid_checksum_rejected() {
    let mut acc = FixAccumulator::<f64>::new();
    let result = update(&mut acc, "$GPRMC,221320,A,2500.2582,N,12117.1898,E,8.4,80.5,141123,,*00");
    assert!(!result);
    assert!(acc.build().is_none());
}

#[test]
fn test_gga_sets_heading_sentinel() {
    let mut acc = FixAccumulator::new();
    let result = update(&mut acc, GGA_20);
    assert!(result);
    assert!(!acc.should_emit());
}

#[test]
fn checksum_examples() {
    assert!(verify_checksum(RMC_20));
    assert!(verify_checksum(GGA_20));
    assert!(!verify_checksum("$GPGGA,221320,2500.2582,N,12117.1898,E,1,08,3.5,10.0,M,0.0,M,,*4C"));
    assert!(!verify_checksum("$GPGGA no star"));
    assert!(verify_checksum("$A*41"));
    assert!(verify_checksum("$A*+0") == false);
    assert!(verify_checksum("$*00"));
    assert!(verify_checksum("$@*+0") == false);
    assert!(!verify_checksum("$0*+0"));
    assert!(verify_checksum("$AN*+F"));
    assert!(verify_checksum("$a*61"));
    assert!(!verify_checksum("$a*6g"));
}

#[test]
fn rmc_fields_are_recorded() {
    let mut acc = FixAccumulator::new();
    assert!(update(&mut acc, RMC_20));
    let (gps, _) = acc.build().unwrap();
    assert_eq!(gps.timestamp, (22 * 3600 + 13 * 60 + 20) * 1000);
    assert_eq!(gps.speed_cms, Some((8.4f64 * 51.44) as i32));
    assert_eq!(gps.heading_cdeg, Some(8050));
    assert!((gps.lat - 25.00430333).abs() < 1e-6);
}

#[test]
fn rejected_sentences_change_nothing() {
    let mut acc = FixAccumulator::<f64>::new();
    // Void status.
    assert!(!update(&mut acc, "$GPRMC,221320,V,2500.2582,N,12117.1898,E,8.4,80.5,141123,,*39"));
    // No fix quality.
    assert!(!update(&mut acc, "$GPGGA,221320,2500.2582,N,12117.1898,E,0,08,3.5,10.0,M,0.0,M,,*4A"));
    // Unknown sentence.
    assert!(!update(&mut acc, "$GPVTG,80.5,T,,M,8.4,N,15.6,K*63"));
    assert!(acc.build().is_none());
    assert!(acc.timestamp.is_none());
}

#[test]
fn gsa_sets_hdop_from_second_to_last_field() {
    let mut acc = FixAccumulator::<f64>::new();
    let s = "$GPGSA,A,3,04,05,,09,12,,,24,,,,,2.5,1.3,2.1*39";
    assert!(verify_checksum(s));
    assert!(update(&mut acc, s));
    assert_eq!(acc.hdop, Some(13));
}

#[test]
fn split_keeps_empty_fields() {
    let f = split_fields(b"a,,b,");
    assert_eq!(f, vec![b"a".to_vec(), vec![], b"b".to_vec(), vec![]]);
    assert_eq!(split_fields(b""), vec![Vec::<u8>::new()]);
}

#[test]
fn course_wraps_into_signed_heading() {
    assert_eq!(wrap_heading(18000), 18000);
    assert_eq!(wrap_heading(18001), -17999);
    assert_eq!(wrap_heading(35999), -1);
    assert_eq!(wrap_heading(0), 0);
}

#[test]
fn emission_happens_once_per_new_timestamp() {
    let mut acc = FixAccumulator::new();
    update(&mut acc, RMC_20);
    assert!(!acc.should_emit());
    update(&mut acc, RMC_21);
    assert!(acc.should_emit());
    assert!(!acc.should_emit());
    update(&mut acc, GGA_20);
    assert!(acc.should_emit());
}

#[test]
fn default_accumulator_is_empty() {
    let mut acc = FixAccumulator::<f64>::default();
    assert!(acc.build().is_none());
    assert!(!acc.should_emit());
    acc.mark_emitted();
    assert!(acc.last_emitted_timestamp.is_none());
}
