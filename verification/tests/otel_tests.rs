use stream_stats::otel::decode_hex;
use stream_stats::otel::IngestEvent;
use stream_stats::otel::LogRecord;
use stream_stats::otel::LogRecordFlags;
use stream_stats::otel::SeverityNumber;
use stream_stats::otel::normalize_span_id;
use stream_stats::otel::normalize_trace_id;
use stream_stats::otel::parse_timestamp;
use stream_stats::otel::resolve_timestamp;
use stream_stats::otel::trace_flags;
use stream_stats::otel::validate_span_id;
use stream_stats::otel::validate_trace_id;

fn record_with(
    time: Option<String>,
    observed: Option<String>,
    severity: Option<i32>,
    flags: Option<u32>,
) -> LogRecord {
    LogRecord {
        time_unix_nano: time,
        observed_time_unix_nano: observed,
        severity_number: severity,
        severity_text: None,
        name: None,
        body: None,
        attributes: None,
        dropped_attributes_count: None,
        flags,
        trace_id: None,
        span_id: None,
    }
}

#[test]
fn severity_zero_and_out_of_range_normalize_to_unspecified() {
    assert_eq!(SeverityNumber::from_number(0), SeverityNumber::Unspecified);
    assert_eq!(SeverityNumber::from_number(25), SeverityNumber::Unspecified);
    assert_eq!(SeverityNumber::from_number(-3), SeverityNumber::Unspecified);
}

#[test]
fn severity_nine_normalizes_to_info() {
    assert_eq!(SeverityNumber::from_number(9), SeverityNumber::Info);
}

#[test]
fn severity_scale_endpoints() {
    assert_eq!(SeverityNumber::from_number(1), SeverityNumber::Trace);
    assert_eq!(SeverityNumber::from_number(24), SeverityNumber::Fatal4);
}

#[test]
fn severity_str_names() {
    assert_eq!(SeverityNumber::as_str_name(0), "SEVERITY_NUMBER_UNSPECIFIED");
    assert_eq!(SeverityNumber::as_str_name(9), "SEVERITY_NUMBER_INFO");
    assert_eq!(SeverityNumber::as_str_name(24), "SEVERITY_NUMBER_FATAL4");
    assert_eq!(SeverityNumber::as_str_name(25), "Invalid severity number");
    assert_eq!(SeverityNumber::as_str_name(-1), "Invalid severity number");
}

#[test]
fn severity_from_str_names() {
    assert_eq!(
        SeverityNumber::from_str_name("SEVERITY_NUMBER_INFO"),
        Some(SeverityNumber::Info)
    );
    assert_eq!(
        SeverityNumber::from_str_name("SEVERITY_NUMBER_UNSPECIFIED"),
        Some(SeverityNumber::Unspecified)
    );
    assert_eq!(
        SeverityNumber::from_str_name("SEVERITY_NUMBER_FATAL4"),
        Some(SeverityNumber::Fatal4)
    );
    assert_eq!(SeverityNumber::from_str_name("SEVERITY_NUMBER_NOPE"), None);
    assert_eq!(SeverityNumber::from_str_name(""), None);
}

#[test]
fn severity_names_round_trip_for_the_whole_scale() {
    for n in 0..=24 {
        let name = SeverityNumber::as_str_name(n);
        assert_eq!(SeverityNumber::from_str_name(name), Some(SeverityNumber::from_number(n)));
    }
    assert_eq!(SeverityNumber::from_str_name(SeverityNumber::as_str_name(25)), None);
}

#[test]
fn flag_str_names() {
    assert_eq!(LogRecordFlags::as_str_name(0), "LOG_RECORD_FLAGS_DO_NOT_USE");
    assert_eq!(
        LogRecordFlags::as_str_name(255),
        "LOG_RECORD_FLAGS_TRACE_FLAGS_MASK"
    );
    assert_eq!(LogRecordFlags::as_str_name(7), "Invalid flag");
    assert_eq!(
        LogRecordFlags::from_str_name("LOG_RECORD_FLAGS_DO_NOT_USE"),
        Some(LogRecordFlags::DoNotUse)
    );
    assert_eq!(
        LogRecordFlags::from_str_name("LOG_RECORD_FLAGS_TRACE_FLAGS_MASK"),
        Some(LogRecordFlags::TraceFlagsMask)
    );
    assert_eq!(LogRecordFlags::from_str_name("other"), None);
}

#[test]
fn reserved_flag_bits_are_masked_off() {
    assert_eq!(trace_flags(0x0000_01FF), 0xFF);
    assert_eq!(trace_flags(0xFFFF_FF00), 0x00);
    assert_eq!(trace_flags(0x12), 0x12);
}

#[test]
fn trace_id_of_sixteen_nonzero_bytes_round_trips() {
    let id: Vec<u8> = (1u8..=16u8).collect();
    assert!(validate_trace_id(&id));
    let once = normalize_trace_id(id.clone()).expect("valid id survives");
    assert_eq!(once, id);
    let twice = normalize_trace_id(once).expect("still valid after one pass");
    assert_eq!(twice, id);
}

#[test]
fn trace_id_of_wrong_length_or_all_zero_is_absent() {
    assert_eq!(normalize_trace_id(vec![1u8; 15]), None);
    assert_eq!(normalize_trace_id(vec![1u8; 17]), None);
    assert_eq!(normalize_trace_id(vec![0u8; 16]), None);
    assert_eq!(normalize_trace_id(Vec::new()), None);
}

#[test]
fn span_id_validity_uses_eight_bytes() {
    let id = vec![0u8, 0, 0, 0, 0, 0, 0, 9];
    assert!(validate_span_id(&id));
    assert_eq!(normalize_span_id(id.clone()), Some(id));
    assert_eq!(normalize_span_id(vec![0u8; 8]), None);
    assert_eq!(normalize_span_id(vec![1u8; 7]), None);
    assert_eq!(normalize_span_id(vec![1u8; 9]), None);
}

#[test]
fn timestamps_parse_from_decimal_strings() {
    assert_eq!(parse_timestamp("0"), Some(0));
    assert_eq!(parse_timestamp("1700000000000000000"), Some(1_700_000_000_000_000_000));
    assert_eq!(parse_timestamp("18446744073709551615"), Some(u64::MAX));
    assert_eq!(parse_timestamp("18446744073709551616"), None);
    assert_eq!(parse_timestamp(""), None);
    assert_eq!(parse_timestamp("12a4"), None);
    assert_eq!(parse_timestamp("-5"), None);
    assert_eq!(parse_timestamp("007"), Some(7));
}

#[test]
fn timestamp_resolution_prefers_nonzero_event_time() {
    assert_eq!(
        resolve_timestamp(&Some("100".to_string()), &Some("200".to_string())),
        100
    );
    assert_eq!(
        resolve_timestamp(&Some("0".to_string()), &Some("200".to_string())),
        200
    );
    assert_eq!(resolve_timestamp(&None, &Some("200".to_string())), 200);
    assert_eq!(resolve_timestamp(&Some("garbage".to_string()), &Some("200".to_string())), 200);
    assert_eq!(resolve_timestamp(&None, &None), 0);
}

#[test]
fn validator_emits_normalized_event() {
    let record = record_with(
        Some("0".to_string()),
        Some("1700000000000000123".to_string()),
        Some(9),
        Some(0x0000_01FF),
    );
    let trace = (1u8..=16u8).collect::<Vec<u8>>();
    let event = IngestEvent::from_record(
        &record,
        "app-logs",
        "json",
        421,
        Some(trace.clone()),
        Some(vec![0u8; 8]),
    );
    assert_eq!(event.stream, "app-logs");
    assert_eq!(event.format, "json");
    assert_eq!(event.size_bytes, 421);
    assert_eq!(event.timestamp_unix_nano, 1_700_000_000_000_000_123);
    assert_eq!(event.severity, SeverityNumber::Info);
    assert_eq!(event.trace_flags, 0xFF);
    assert_eq!(event.trace_id, Some(trace));
    assert_eq!(event.span_id, None);
}

#[test]
fn validator_degrades_missing_fields_to_defaults() {
    let record = record_with(None, None, None, None);
    let event = IngestEvent::from_record(&record, "s", "json", 0, None, None);
    assert_eq!(event.timestamp_unix_nano, 0);
    assert_eq!(event.severity, SeverityNumber::Unspecified);
    assert_eq!(event.trace_flags, 0);
    assert_eq!(event.trace_id, None);
    assert_eq!(event.span_id, None);
}

#[test]
fn hex_identifiers_decode_or_count_as_absent() {
    assert_eq!(
        decode_hex("0102030405060708090a0b0c0d0e0f10"),
        Some((1u8..=16u8).collect::<Vec<u8>>())
    );
    assert_eq!(decode_hex("FF00"), Some(vec![255u8, 0u8]));
    assert_eq!(decode_hex(""), Some(Vec::new()));
    assert_eq!(decode_hex("abc"), None);
    assert_eq!(decode_hex("zz"), None);
}
