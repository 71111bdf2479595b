use zephyr_telemetry::assembler::Assembler;
use zephyr_telemetry::deputy_interpreter::ParseError;
use zephyr_telemetry::telemetry::FixStatus;

#[test]
fn full_packet_emits_exactly_once() {
    let mut worker = Assembler::new();
    let lines = [
        "Node 3: (20 bytes | -72 dBm | 9 dB):",
        "Latitude: 37.1234",
        "Longitude: -122.5678",
    ];
    for (k, line) in lines.iter().enumerate() {
        let out = worker.process_line(line, k as i64);
        assert!(out.flushed.is_none());
        assert!(out.completed.is_none());
        assert!(out.error.is_none());
    }
    let out = worker.process_line("Fix status: FIX", 3);
    assert!(out.flushed.is_none());
    assert!(out.error.is_none());
    let p = out.completed.expect("the fix line completes the packet");
    assert_eq!(p.node_id, Some(3));
    assert_eq!(p.receiver_rssi, Some(-72));
    assert_eq!(p.receiver_snr, Some(9));
    assert_eq!(p.latitude_udeg, Some(37_123_400));
    assert_eq!(p.longitude_udeg, Some(-122_567_800));
    assert_eq!(p.fix_status, FixStatus::Fix);
    assert_eq!(p.timestamp_ms, 3);
    assert_eq!(p.raw_lines.len(), 4);
    assert!(worker.finish().is_none());
}

#[test]
fn licensed_header_then_no_fix() {
    let mut worker = Assembler::new();
    let out = worker.process_line("KD2YIE-1: (13 bytes | -80 dBm | 7 dB):", 0);
    assert!(out.completed.is_none());
    let out = worker.process_line("No fix acquired", 1);
    let p = out.completed.expect("the no-fix line completes the packet");
    assert_eq!(p.callsign.as_deref(), Some("KD2YIE"));
    assert_eq!(p.node_id, Some(1));
    assert_eq!(p.receiver_rssi, Some(-80));
    assert_eq!(p.receiver_snr, Some(7));
    assert_eq!(p.fix_status, FixStatus::NoFix);
    assert_eq!(p.latitude_udeg, None);
    assert_eq!(p.longitude_udeg, None);
    assert!(worker.finish().is_none());
}

#[test]
fn garbage_then_header_then_field_flushes_on_stream_end() {
    let mut worker = Assembler::new();
    let out = worker.process_line("garbage line", 0);
    assert!(matches!(out.error, Some(ParseError::NoMatch)));
    assert!(out.flushed.is_none());
    assert!(out.completed.is_none());

    let out = worker.process_line("Node 5: (10 bytes | -60 dBm | 5 dB):", 1);
    assert!(out.error.is_none());
    assert!(out.flushed.is_none());
    assert!(out.completed.is_none());

    let out = worker.process_line("Satellites count: 8", 2);
    assert!(out.error.is_none());
    assert!(out.completed.is_none());

    let p = worker.finish().expect("stream end flushes the record in progress");
    assert_eq!(p.node_id, Some(5));
    assert_eq!(p.satellites_count, Some(8));
    assert_eq!(p.receiver_rssi, Some(-60));
    assert_eq!(p.receiver_snr, Some(5));
    assert_eq!(p.fix_status, FixStatus::Unknown);
    assert!(worker.finish().is_none());
}

#[test]
fn back_to_back_headers_flush_the_first() {
    let mut worker = Assembler::new();
    let out = worker.process_line("Node 3: (20 bytes | -72 dBm | 9 dB):", 0);
    assert!(out.flushed.is_none());
    let out = worker.process_line("Node 4: (21 bytes | -70 dBm | 8 dB):", 1);
    let first = out.flushed.expect("the second header flushes the first record");
    assert_eq!(first.node_id, Some(3));
    assert_eq!(first.receiver_rssi, Some(-72));
    assert!(out.completed.is_none());
    let second = worker.finish().expect("the second record is still in progress");
    assert_eq!(second.node_id, Some(4));
    assert_eq!(second.receiver_rssi, Some(-70));
}

#[test]
fn malformed_lines_never_corrupt_the_record() {
    let mut worker = Assembler::new();
    worker.process_line("Node 9: (20 bytes | -72 dBm | 9 dB):", 0);
    let out = worker.process_line("::::@@@@ unparsable ::::", 1);
    assert!(matches!(out.error, Some(ParseError::NoMatch)));
    let p = worker.finish().expect("the record survives malformed lines");
    assert_eq!(p.node_id, Some(9));
    assert_eq!(p.timestamp_ms, 0);
}

#[test]
fn later_value_overwrites_earlier_value() {
    let mut worker = Assembler::new();
    worker.process_line("Node 2: (9 bytes | -50 dBm | 3 dB):", 0);
    worker.process_line("Latitude: 1.0", 1);
    worker.process_line("Latitude: 2.5", 2);
    let p = worker.finish().unwrap();
    assert_eq!(p.latitude_udeg, Some(2_500_000));
    assert_eq!(p.node_id, Some(2));
    assert_eq!(p.timestamp_ms, 2);
}

#[test]
fn field_line_without_header_starts_a_record() {
    let mut worker = Assembler::new();
    let out = worker.process_line("Latitude: 5.5", 0);
    assert!(out.flushed.is_none());
    assert!(out.completed.is_none());
    let p = worker.finish().expect("a recognized field opens a record");
    assert_eq!(p.latitude_udeg, Some(5_500_000));
    assert_eq!(p.node_id, None);
}

#[test]
fn fix_line_with_nothing_in_progress_completes_just_itself() {
    let mut worker = Assembler::new();
    let out = worker.process_line("Fix status: FIX", 0);
    let p = out.completed.expect("the fix line alone is a one-line packet");
    assert_eq!(p.fix_status, FixStatus::Fix);
    assert!(worker.finish().is_none());
}

#[test]
fn unknown_status_never_erases_a_known_one() {
    let mut worker = Assembler::new();
    worker.process_line("Node 1: (9 bytes | -50 dBm | 3 dB):", 0);
    let out = worker.process_line("No fix acquired", 1);
    let p = out.completed.expect("no-fix completes the packet");
    assert_eq!(p.fix_status, FixStatus::NoFix);
    // a later plain field line opens a fresh record with Unknown again
    let out = worker.process_line("Latitude: 1.0", 2);
    assert!(out.completed.is_none());
    let q = worker.finish().unwrap();
    assert_eq!(q.fix_status, FixStatus::Unknown);
    assert_eq!(q.latitude_udeg, Some(1_000_000));
}

#[test]
fn classification_is_independent_of_extraction_success() {
    // Header-shaped line whose every number fails coercion: extraction
    // yields nothing, yet the line still counts as a packet start.
    let degenerate = "Node 999: (20 bytes | 99999 dBm | 999 dB):";
    let chars: Vec<char> = degenerate.chars().collect();
    let (is_start, is_end) = zephyr_telemetry::deputy_interpreter::classify_line(&chars);
    assert!(is_start);
    assert!(!is_end);

    let mut worker = Assembler::new();
    worker.process_line("Node 1: (9 bytes | -50 dBm | 3 dB):", 0);
    let out = worker.process_line(degenerate, 1);
    assert!(matches!(out.error, Some(ParseError::NoMatch)));
    let flushed = out.flushed.expect("the header shape flushes even though extraction failed");
    assert_eq!(flushed.node_id, Some(1));
    assert!(worker.finish().is_none());
}

#[test]
fn fix_label_line_classifies_as_packet_end() {
    let chars: Vec<char> = "Fix status: FIX".chars().collect();
    let (is_start, is_end) = zephyr_telemetry::deputy_interpreter::classify_line(&chars);
    assert!(!is_start);
    assert!(is_end);
    let chars: Vec<char> = "No fix acquired".chars().collect();
    let (is_start, is_end) = zephyr_telemetry::deputy_interpreter::classify_line(&chars);
    assert!(!is_start);
    assert!(is_end);
}
