use minink::entry::AgentError;
use minink::entry::Timestamp;
use minink::journald::parse_i64;
use minink::journald::parse_log_entry;
use minink::journald::since_expression;
use minink::journald::u64_to_string;
use minink::journald::JournaldMessage;
use minink::journald::JournaldRawEntry;

fn raw(message: JournaldMessage, timestamp: &str) -> JournaldRawEntry {
    JournaldRawEntry {
        message,
        hostname: "host1".to_string(),
        systemd_unit: Some("nginx.service".to_string()),
        timestamp: timestamp.to_string(),
        syslog_identifier: None,
        exe: Some("/usr/sbin/nginx".to_string()),
    }
}

#[test]
fn parses_a_plain_text_record() {
    let e = parse_log_entry(raw(JournaldMessage::Text("hello".to_string()), "1680000000000000"))
        .unwrap();
    assert_eq!(e.message, "hello");
    assert_eq!(e.hostname, "host1");
    assert_eq!(e.service, "nginx.service");
    assert_eq!(e.timestamp, Timestamp { micros: 1_680_000_000_000_000 });
}

#[test]
fn message_bytes_decode_best_effort() {
    let e = parse_log_entry(raw(JournaldMessage::Bytes(vec![0x61, 0xff, 0x62]), "0")).unwrap();
    assert_eq!(e.message, "a\u{FFFD}b");
}

#[test]
fn message_list_joins_with_semicolons() {
    let m = JournaldMessage::Multiple(vec![
        JournaldMessage::Text("one".to_string()),
        JournaldMessage::Bytes(vec![0x32]),
        JournaldMessage::Multiple(vec![JournaldMessage::Text("three".to_string())]),
    ]);
    let e = parse_log_entry(raw(m, "0")).unwrap();
    assert_eq!(e.message, "one;2;three;;");
}

#[test]
fn service_resolution_follows_the_priority_chain() {
    let mut r = raw(JournaldMessage::Text("m".to_string()), "0");
    r.syslog_identifier = Some("app".to_string());
    assert_eq!(parse_log_entry(r).unwrap().service, "app");

    let r = raw(JournaldMessage::Text("m".to_string()), "0");
    assert_eq!(parse_log_entry(r).unwrap().service, "nginx.service");

    let mut r = raw(JournaldMessage::Text("m".to_string()), "0");
    r.systemd_unit = None;
    assert_eq!(parse_log_entry(r).unwrap().service, "/usr/sbin/nginx");

    let mut r = raw(JournaldMessage::Text("m".to_string()), "0");
    r.systemd_unit = None;
    r.exe = None;
    assert_eq!(parse_log_entry(r).unwrap().service, "");
}

#[test]
fn a_bad_timestamp_is_a_malformed_record() {
    let r = parse_log_entry(raw(JournaldMessage::Text("m".to_string()), "12x"));
    assert_eq!(r.unwrap_err(), AgentError::MalformedRecord);
    let r = parse_log_entry(raw(JournaldMessage::Text("m".to_string()), ""));
    assert_eq!(r.unwrap_err(), AgentError::MalformedRecord);
    let r = parse_log_entry(raw(JournaldMessage::Text("m".to_string()), "9223372036854775808"));
    assert_eq!(r.unwrap_err(), AgentError::MalformedRecord);
}

#[test]
fn decimal_parsing_matches_the_integer_grammar() {
    assert_eq!(parse_i64("123"), Some(123));
    assert_eq!(parse_i64("+7"), Some(7));
    assert_eq!(parse_i64("-0"), Some(0));
    assert_eq!(parse_i64("00042"), Some(42));
    assert_eq!(parse_i64("9223372036854775807"), Some(i64::MAX));
    assert_eq!(parse_i64("-9223372036854775808"), Some(i64::MIN));
    assert_eq!(parse_i64("9223372036854775808"), None);
    assert_eq!(parse_i64("-9223372036854775809"), None);
    assert_eq!(parse_i64("99999999999999999999999"), None);
    assert_eq!(parse_i64(""), None);
    assert_eq!(parse_i64("+"), None);
    assert_eq!(parse_i64("-"), None);
    assert_eq!(parse_i64(" 1"), None);
    assert_eq!(parse_i64("1 "), None);
    assert_eq!(parse_i64("12x"), None);
}

#[test]
fn decimal_rendering_is_exact() {
    assert_eq!(u64_to_string(0), "0");
    assert_eq!(u64_to_string(9), "9");
    assert_eq!(u64_to_string(10), "10");
    assert_eq!(u64_to_string(1234567890), "1234567890");
}

#[test]
fn resume_window_is_the_elapsed_time() {
    let now = Timestamp { micros: 5_500_000 };
    let since = Timestamp { micros: 1_000_000 };
    assert_eq!(since_expression(now, Some(since)), "-4s500ms");
    assert_eq!(since_expression(now, Some(Timestamp { micros: 5_500_000 })), "-0s0ms");
}

#[test]
fn resume_window_never_reaches_back_before_the_last_entry() {
    let now = Timestamp { micros: 1_000_000 };
    let since = Timestamp { micros: 9_000_000 };
    assert_eq!(since_expression(now, Some(since)), "-0s0ms");
}

#[test]
fn without_a_resume_point_a_fixed_lookback_is_used() {
    assert_eq!(since_expression(Timestamp { micros: 0 }, None), "1 day ago");
}
