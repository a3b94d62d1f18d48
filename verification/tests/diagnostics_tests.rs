use autoflow::diagnostics::{
    take_chars, trim_diagnostic_log, DiagnosticValue, SafetyDiagnostics, MAX_DIAGNOSTIC_BYTES,
    MAX_DIAGNOSTIC_EVENTS,
};
use std::collections::BTreeMap;

fn as_object(entries: Vec<(String, DiagnosticValue)>) -> BTreeMap<String, DiagnosticValue> {
    entries.into_iter().collect()
}

#[test]
fn records_are_numbered_and_keep_reserved_metadata() {
    let mut log = SafetyDiagnostics::at("safety.jsonl".to_string());
    assert_eq!(log.path(), "safety.jsonl");
    let first = as_object(log.record(
        "input_cleanup_completed",
        &[
            ("scope".to_string(), "emergency".to_string()),
            ("sequence".to_string(), "forged".to_string()),
            ("event".to_string(), "forged".to_string()),
        ],
        1234,
    ));
    assert_eq!(first["scope"], DiagnosticValue::Text("emergency".into()));
    assert_eq!(first["sequence"], DiagnosticValue::Number(0));
    assert_eq!(
        first["event"],
        DiagnosticValue::Text("input_cleanup_completed".into())
    );
    assert_eq!(first["timestamp_ms"], DiagnosticValue::Number(1234));
    assert_eq!(first["lost_events"], DiagnosticValue::Number(0));
    log.note_lost();
    let second = as_object(log.record("next", &[], 1300));
    assert_eq!(second["sequence"], DiagnosticValue::Number(1));
    assert_eq!(second["lost_events"], DiagnosticValue::Number(1));
    assert_eq!(log.lost_events(), 1);
}

#[test]
fn records_bound_field_count_and_lengths() {
    let mut log = SafetyDiagnostics::at("bounded.jsonl".to_string());
    let fields: Vec<(String, String)> = (0..20)
        .map(|i| (format!("k{i:02}{}", "n".repeat(100)), "v".repeat(600)))
        .collect();
    let entries = log.record_async(&"e".repeat(200), fields, 7);
    assert_eq!(entries.len(), 16 + 4);
    for (name, value) in &entries[..16] {
        assert_eq!(name.chars().count(), 64);
        assert_eq!(value, &DiagnosticValue::Text("v".repeat(512)));
    }
    assert_eq!(entries[16].0, "timestamp_ms");
    assert_eq!(entries[17], ("event".to_string(), DiagnosticValue::Text("e".repeat(128))));
    assert_eq!(take_chars("密码abc", 2), "密码");
    assert_eq!(take_chars("ab", 5), "ab");
}

#[test]
fn small_logs_are_left_alone() {
    assert_eq!(trim_diagnostic_log(""), None);
    assert_eq!(trim_diagnostic_log("a\nb\n"), None);
    let full: String = (0..MAX_DIAGNOSTIC_EVENTS).map(|i| format!("{i}\n")).collect();
    assert_eq!(trim_diagnostic_log(&full), None);
}

#[test]
fn long_logs_keep_their_last_lines() {
    let contents: String = (0..300).map(|i| format!("{i}\r\n")).collect();
    let trimmed = trim_diagnostic_log(&contents).expect("too many lines");
    let expected: String = (44..300).map(|i| format!("{i}\n")).collect();
    assert_eq!(trimmed, expected);
}

#[test]
fn large_logs_drop_leading_lines_until_they_fit() {
    let line = "x".repeat(1000);
    let contents: String = (0..100).map(|i| format!("{i:03}{line}\n")).collect();
    let trimmed = trim_diagnostic_log(&contents).expect("too many bytes");
    assert!(trimmed.len() <= MAX_DIAGNOSTIC_BYTES);
    let kept: Vec<&str> = trimmed.lines().collect();
    assert_eq!(kept.len(), 65);
    assert!(kept[0].starts_with("035"));
    assert!(kept[64].starts_with("099"));
    let huge = "y".repeat(MAX_DIAGNOSTIC_BYTES + 1);
    assert_eq!(trim_diagnostic_log(&huge), Some(String::new()));
    let unterminated = format!("{}\nlast", "z".repeat(MAX_DIAGNOSTIC_BYTES));
    assert_eq!(trim_diagnostic_log(&unterminated), Some("last\n".to_string()));
}
