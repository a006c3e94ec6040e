use realconsole::log_analyzer::{
    detect_level, extract_message, extract_timestamp, is_stacktrace_line, tail_lines, LogAnalysis, LogAnalyzer,
    LogEntry, LogLevel,
};

#[test]
fn test_log_level_from_str() {
    assert_eq!(LogLevel::from_str("ERROR"), LogLevel::Error);
    assert_eq!(LogLevel::from_str("warn"), LogLevel::Warn);
    assert_eq!(LogLevel::from_str("INFO"), LogLevel::Info);
    assert_eq!(LogLevel::from_str("unknown"), LogLevel::Unknown);
}

#[test]
fn test_log_level_priority() {
    assert!(LogLevel::Error.priority() > LogLevel::Warn.priority());
    assert!(LogLevel::Warn.priority() > LogLevel::Info.priority());
}

#[test]
fn test_extract_error_pattern() {
    let analyzer = LogAnalyzer::new();

    let pattern1 = analyzer.extract_error_pattern("Error at line 123 in /path/to/file.rs");
    assert_eq!(pattern1, "Error at line N in /PATH");

    let pattern2 = analyzer.extract_error_pattern("Failed to parse \"hello world\"");
    assert_eq!(pattern2, "Failed to parse \"...\"");

    let pattern3 = analyzer.extract_error_pattern("Null pointer at 0x7fff5fbff710");
    assert_eq!(pattern3, "Null pointer at 0xADDR");
}

#[test]
fn test_detect_level() {
    let entry1 = LogEntry::new(1, "[ERROR] Something went wrong".to_string());
    assert_eq!(entry1.level, LogLevel::Error);

    let entry2 = LogEntry::new(2, "INFO: Application started".to_string());
    assert_eq!(entry2.level, LogLevel::Info);

    let entry3 = LogEntry::new(3, "Exception occurred in module".to_string());
    assert_eq!(entry3.level, LogLevel::Error);
}

#[test]
fn test_extract_timestamp() {
    let content = "[2025-10-16 10:30:45] ERROR: Test error";
    let entry = LogEntry::new(1, content.to_string());
    assert!(entry.timestamp_ms.is_some());
}

#[test]
fn timestamp_value() {
    assert_eq!(extract_timestamp("2025-10-16T10:30:45Z start"), Some(1760610645000));
    assert_eq!(extract_timestamp("no time here"), None);
}

#[test]
fn test_is_stacktrace() {
    assert!(is_stacktrace_line("  at main.rs:123"));
    assert!(is_stacktrace_line("Stack trace:"));
    assert!(is_stacktrace_line("  File \"/path/to/file.py\", line 42"));
    assert!(!is_stacktrace_line("Regular log message"));
}

#[test]
fn level_markers_and_messages() {
    assert_eq!(detect_level("[WARN] disk"), LogLevel::Warn);
    assert_eq!(detect_level("something fatal"), LogLevel::Error);
    assert_eq!(detect_level("plain"), LogLevel::Unknown);
    assert_eq!(extract_message("[2025-10-16 10:30:45] ERROR: Test error"), "Test error");
    assert_eq!(LogLevel::Warn.as_str(), "WARN");
}

#[test]
fn test_log_analysis_top_patterns() {
    let mut analysis = LogAnalysis::new();
    analysis.error_patterns.push(("Error A".to_string(), 10));
    analysis.error_patterns.push(("Error B".to_string(), 5));
    analysis.error_patterns.push(("Error C".to_string(), 15));

    let top = analysis.top_error_patterns(2);
    assert_eq!(top.len(), 2);
    assert_eq!(top[0].0, "Error C");
    assert_eq!(top[0].1, 15);
    assert_eq!(top[1].0, "Error A");
    assert_eq!(top[1].1, 10);
}

fn lines(v: &[&str]) -> Vec<String> {
    v.iter().map(|s| s.to_string()).collect()
}

#[test]
fn analyze_file_lines_counts() {
    let ls = lines(&[
        "[2025-10-16 10:30:45] ERROR: failed at line 12",
        "",
        "[2025-10-16 10:30:40] WARN: slow",
        "INFO: ok",
        "[2025-10-16 10:31:00] ERROR: failed at line 99",
    ]);
    let a = LogAnalyzer::new().analyze_file_lines(&ls);
    assert_eq!(a.total_lines, 4);
    assert_eq!(a.error_count(), 2);
    assert_eq!(a.warning_count(), 1);
    assert_eq!(a.info_count(), 1);
    assert_eq!(a.errors.len(), 2);
    assert_eq!(a.errors[1].line_number, 5);
    assert_eq!(a.warnings.len(), 1);
    assert_eq!(a.error_patterns, vec![("failed at line N".to_string(), 2)]);
    assert_eq!(a.time_range, Some((1760610640000, 1760610660000)));
}

#[test]
fn analyzer_limits() {
    let ls = lines(&["ERROR: a", "ERROR: b", "WARN: c", "ERROR: d"]);
    let a = LogAnalyzer::new().with_max_errors(1).analyze_file_lines(&ls);
    assert_eq!(a.error_count(), 3);
    assert_eq!(a.errors.len(), 1);
    let a = LogAnalyzer::new().with_max_lines(2).analyze_file_lines(&ls);
    assert_eq!(a.total_lines, 2);
    let a = LogAnalyzer::new().errors_only().analyze_file_lines(&ls);
    assert_eq!(a.total_lines, 4);
    assert_eq!(a.warning_count(), 0);
    assert_eq!(a.warnings.len(), 0);
    let t = LogAnalyzer::new().analyze_tail_lines(&ls);
    assert_eq!(t.time_range, None);
    assert_eq!(t.warning_count(), 1);
}

#[test]
fn tail_keeps_last_lines() {
    let ls = lines(&["a", "b", "c"]);
    assert_eq!(tail_lines(ls.clone(), 2), lines(&["b", "c"]));
    assert_eq!(tail_lines(ls.clone(), 5), ls);
    assert_eq!(tail_lines(ls, 0), lines(&["c"]));
    assert!(tail_lines(Vec::new(), 3).is_empty());
}

#[test]
fn level_names_read_back() {
    for l in [LogLevel::Error, LogLevel::Warn, LogLevel::Info, LogLevel::Debug, LogLevel::Trace, LogLevel::Unknown] {
        assert_eq!(LogLevel::from_str(l.as_str()), l);
    }
}
