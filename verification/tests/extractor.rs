use zephyr_telemetry::deputy_interpreter::{parse_zephyr_line, parse_zephyr_line_at, ParseError};
use zephyr_telemetry::telemetry::FixStatus;

#[test]
fn node_header_line() {
    let p = parse_zephyr_line_at("Node 3: (20 bytes | -72 dBm | 9 dB):", 7).unwrap();
    assert_eq!(p.node_id, Some(3));
    assert_eq!(p.receiver_rssi, Some(-72));
    assert_eq!(p.receiver_snr, Some(9));
    assert_eq!(p.callsign, None);
    assert_eq!(p.latitude_udeg, None);
    assert_eq!(p.longitude_udeg, None);
    assert_eq!(p.satellites_count, None);
    assert_eq!(p.fix_status, FixStatus::Unknown);
    assert_eq!(p.timestamp_ms, 7);
    assert_eq!(p.raw_lines, vec!["Node 3: (20 bytes | -72 dBm | 9 dB):".to_string()]);
}

#[test]
fn licensed_header_line() {
    let p = parse_zephyr_line_at("KD2YIE-1: (13 bytes | -80 dBm | 7 dB):", 0).unwrap();
    assert_eq!(p.callsign.as_deref(), Some("KD2YIE"));
    assert_eq!(p.node_id, Some(1));
    assert_eq!(p.receiver_rssi, Some(-80));
    assert_eq!(p.receiver_snr, Some(7));
    assert_eq!(p.fix_status, FixStatus::Unknown);
}

#[test]
fn latitude_line() {
    let p = parse_zephyr_line_at("Latitude: 37.1234", 0).unwrap();
    assert_eq!(p.latitude_udeg, Some(37_123_400));
    assert_eq!(p.longitude_udeg, None);
    assert_eq!(p.node_id, None);
}

#[test]
fn longitude_line_negative() {
    let p = parse_zephyr_line_at("Longitude: -122.5678", 0).unwrap();
    assert_eq!(p.longitude_udeg, Some(-122_567_800));
    assert_eq!(p.latitude_udeg, None);
}

#[test]
fn short_labels_and_case() {
    let p = parse_zephyr_line_at("LAT=0.5 lon 1.25", 0).unwrap();
    assert_eq!(p.latitude_udeg, Some(500_000));
    assert_eq!(p.longitude_udeg, Some(1_250_000));
}

#[test]
fn fraction_digits_truncated_to_micro() {
    let p = parse_zephyr_line_at("lat: 0.1234567", 0).unwrap();
    assert_eq!(p.latitude_udeg, Some(123_456));
}

#[test]
fn satellites_count_line() {
    let p = parse_zephyr_line_at("Satellites count: 8", 0).unwrap();
    assert_eq!(p.satellites_count, Some(8));
}

#[test]
fn sats_short_label() {
    let p = parse_zephyr_line_at("sats: 12", 0).unwrap();
    assert_eq!(p.satellites_count, Some(12));
}

#[test]
fn fix_status_tokens() {
    assert_eq!(
        parse_zephyr_line_at("Fix status: FIX", 0).unwrap().fix_status,
        FixStatus::Fix
    );
    assert_eq!(
        parse_zephyr_line_at("fix status: DIFF", 0).unwrap().fix_status,
        FixStatus::Differential
    );
    assert_eq!(
        parse_zephyr_line_at("Fix Status: EST", 0).unwrap().fix_status,
        FixStatus::Estimated
    );
    assert_eq!(
        parse_zephyr_line_at("Fix status: NOFIX", 0).unwrap().fix_status,
        FixStatus::NoFix
    );
}

#[test]
fn no_fix_phrase_fallback() {
    let p = parse_zephyr_line_at("No fix acquired", 0).unwrap();
    assert_eq!(p.fix_status, FixStatus::NoFix);
    assert_eq!(p.node_id, None);
}

#[test]
fn standalone_callsign_label() {
    let p = parse_zephyr_line_at("Callsign: KD2YIE", 0).unwrap();
    assert_eq!(p.callsign.as_deref(), Some("KD2YIE"));
    assert_eq!(p.node_id, None);
}

#[test]
fn unrecognized_line_is_no_match() {
    let r = parse_zephyr_line_at("garbage line", 0);
    assert!(matches!(r, Err(ParseError::NoMatch)));
}

#[test]
fn empty_line_is_no_match() {
    assert!(matches!(parse_zephyr_line_at("", 0), Err(ParseError::NoMatch)));
}

#[test]
fn node_number_coercion_failure_leaves_field_absent() {
    let p = parse_zephyr_line_at("Node 999: (20 bytes | -72 dBm | 9 dB):", 0).unwrap();
    assert_eq!(p.node_id, None);
    assert_eq!(p.receiver_rssi, Some(-72));
    assert_eq!(p.receiver_snr, Some(9));
}

#[test]
fn satellite_coercion_failure_alone_is_no_match() {
    let r = parse_zephyr_line_at("Satellites count: 300", 0);
    assert!(matches!(r, Err(ParseError::NoMatch)));
}

#[test]
fn header_without_triple_is_not_header() {
    let p = parse_zephyr_line_at("Node 3: hello", 0);
    assert!(matches!(p, Err(ParseError::NoMatch)));
}

#[test]
fn reparse_is_field_for_field_identical_except_timestamp() {
    let line = "KD2YIE-1: (13 bytes | -80 dBm | 7 dB): lat 1.5 Fix status: FIX";
    let a = parse_zephyr_line_at(line, 1).unwrap();
    let b = parse_zephyr_line_at(line, 2).unwrap();
    assert_eq!(a.node_id, b.node_id);
    assert_eq!(a.callsign, b.callsign);
    assert_eq!(a.latitude_udeg, b.latitude_udeg);
    assert_eq!(a.longitude_udeg, b.longitude_udeg);
    assert_eq!(a.satellites_count, b.satellites_count);
    assert_eq!(a.receiver_rssi, b.receiver_rssi);
    assert_eq!(a.receiver_snr, b.receiver_snr);
    assert_eq!(a.fix_status, b.fix_status);
    assert_eq!(a.raw_lines, b.raw_lines);
    assert_eq!(a.timestamp_ms, 1);
    assert_eq!(b.timestamp_ms, 2);
}

#[test]
fn clocked_parse_matches_pure_parse() {
    let line = "Latitude: 37.1234";
    let a = parse_zephyr_line(line).unwrap();
    let b = parse_zephyr_line_at(line, 0).unwrap();
    assert_eq!(a.latitude_udeg, b.latitude_udeg);
    assert_eq!(a.fix_status, b.fix_status);
    assert!(a.timestamp_ms >= 0);
}

#[test]
fn rssi_out_of_range_is_absent() {
    let p = parse_zephyr_line_at("Node 3: (20 bytes | -99999 dBm | 9 dB):", 0).unwrap();
    assert_eq!(p.node_id, Some(3));
    assert_eq!(p.receiver_rssi, None);
    assert_eq!(p.receiver_snr, Some(9));
}

#[test]
fn snr_out_of_range_is_absent() {
    let p = parse_zephyr_line_at("Node 3: (20 bytes | -72 dBm | 400 dB):", 0).unwrap();
    assert_eq!(p.receiver_rssi, Some(-72));
    assert_eq!(p.receiver_snr, None);
}
