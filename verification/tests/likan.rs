use realconsole::likan::{format_duration, format_message, FurnaceStatus, NotificationMode};
use std::time::Instant;

#[test]
fn test_format_duration() {
    assert_eq!(format_duration(30), "30s");
    assert_eq!(format_duration(90), "1m");
    assert_eq!(format_duration(300), "5m");
    assert_eq!(format_duration(3600), "1h");
    assert_eq!(format_duration(7200), "2h");
}

#[test]
fn format_duration_boundaries() {
    assert_eq!(format_duration(0), "0s");
    assert_eq!(format_duration(59), "59s");
    assert_eq!(format_duration(60), "1m");
    assert_eq!(format_duration(3599), "59m");
}

#[test]
fn status_line_before_first_cycle() {
    let s = FurnaceStatus::default();
    assert_eq!(format_message(&s, 0), "🌊🔥 [waiting] 0 patterns | next: 5m");
}

#[test]
fn status_line_after_cycle() {
    let mut s = FurnaceStatus::default();
    s.pattern_count = 10;
    s.high_confidence_count = 3;
    s.last_cycle = Some(Instant::now());
    let msg = format_message(&s, 0);
    assert!(msg.contains("10"));
    assert!(msg.contains("3 ⭐"));
    assert_eq!(msg, "🌊🔥 [0s] 10 (3 ⭐) patterns | next: 5m");
    assert_eq!(format_message(&s, 400), "🌊🔥 [6m] 10 (3 ⭐) patterns | next: soon");
}

#[test]
fn notification_mode_names_round_trip() {
    for m in [NotificationMode::Minimal, NotificationMode::Prompt, NotificationMode::Silent] {
        assert_eq!(NotificationMode::from_str(m.as_str()), Some(m));
    }
    assert_eq!(NotificationMode::from_str("NONE"), Some(NotificationMode::Silent));
    assert_eq!(NotificationMode::from_str("loud"), None);
    assert_eq!(NotificationMode::default(), NotificationMode::Minimal);
}
