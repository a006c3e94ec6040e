use realconsole::log_files::{sort_files, SizeCleanup};
use realconsole::logger::{LlmInteractionLog, LlmLogger, LlmLoggerConfig, LlmMetadata, LlmRequest};

fn log(id: &str, ts: i64) -> LlmInteractionLog {
    LlmInteractionLog {
        session_id: id.to_string(),
        timestamp_ms: ts,
        model: "m".to_string(),
        request: LlmRequest { message_count: 1, summary: format!("ask {}", ts), messages: None, max_tokens: None },
        response: None,
        meta: LlmMetadata {
            latency_ms: 1,
            status: "success".to_string(),
            error: None,
            is_streaming: false,
            started_at_ms: None,
            completed_at_ms: None,
            context: None,
        },
    }
}

fn logger() -> LlmLogger {
    LlmLogger::new(LlmLoggerConfig::default())
}

#[test]
fn files_sort_newest_and_oldest_first_stably() {
    let times = [Some(5), None, Some(9), Some(5), Some(1)];
    assert_eq!(sort_files(&times, true), vec![2, 0, 3, 4, 1]);
    assert_eq!(sort_files(&times, false), vec![4, 0, 3, 2, 1]);
    assert!(sort_files(&[], true).is_empty());
}

#[test]
fn old_logs_are_those_past_the_days() {
    let day = 86_400;
    let ages = [0, 3 * day, 31 * day, 30 * day + day - 1, 40 * day];
    assert_eq!(logger().clean_old_logs(&ages, 30), vec![2, 4]);
    assert!(logger().clean_old_logs(&[], 30).is_empty());
}

#[test]
fn size_cleanup_removes_oldest_until_within_limit() {
    let mb = 1024 * 1024;
    let mut plan: SizeCleanup = logger().clean_by_size(vec![mb, 2 * mb, mb], vec![Some(30), Some(10), Some(20)], 2);
    assert_eq!(plan.next_file(), Some(1));
    plan.file_deleted();
    assert_eq!(plan.next_file(), None);
    assert_eq!(plan.outcome(), (1, 2 * mb));
}

#[test]
fn size_cleanup_goes_on_past_a_failed_deletion() {
    let mb = 1024 * 1024;
    let mut plan = logger().clean_by_size(vec![mb, mb, mb], vec![Some(1), Some(2), Some(3)], 1);
    assert_eq!(plan.next_file(), Some(0));
    assert_eq!(plan.next_file(), Some(1));
    plan.file_deleted();
    assert_eq!(plan.next_file(), Some(2));
    plan.file_deleted();
    assert_eq!(plan.next_file(), None);
    assert_eq!(plan.outcome(), (2, 2 * mb));
}

#[test]
fn size_cleanup_within_limit_does_nothing() {
    let mut plan = logger().clean_by_size(vec![10, 20], vec![Some(1), Some(2)], 1);
    assert_eq!(plan.next_file(), None);
    assert_eq!(plan.outcome(), (0, 0));
}

#[test]
fn session_lookup_takes_newest_file_and_last_line_first() {
    let files = vec![vec![log("a", 1), log("b", 2), log("a", 3)], vec![log("a", 0)]];
    let found = logger().get_log_by_session_id(&files, "a").unwrap();
    assert_eq!(found.timestamp_ms, 3);
    assert!(logger().get_log_by_session_id(&files, "zzz").is_none());
}

#[test]
fn recent_sessions_are_distinct_and_limited() {
    let files = vec![vec![log("a", 1), log("b", 2), log("a", 3)], vec![log("c", 0), log("b", -1)]];
    let all = logger().list_recent_sessions(&files, 10);
    let ids: Vec<&str> = all.iter().map(|r| r.0.as_str()).collect();
    assert_eq!(ids, vec!["a", "b", "c"]);
    assert_eq!(all[0].1, 3);
    assert_eq!(all[1].1, 2);
    assert_eq!(all[2].3, "ask 0");
    assert_eq!(logger().list_recent_sessions(&files, 2).len(), 2);
    assert!(logger().list_recent_sessions(&files, 0).is_empty());
}

#[test]
fn test_clean_old_logs_no_files() {
    let deleted = logger().clean_old_logs(&[], 30);
    assert_eq!(deleted.len(), 0);
}

#[test]
fn test_clean_by_size_no_files() {
    let mut plan = logger().clean_by_size(vec![], vec![], 100);
    assert_eq!(plan.next_file(), None);
    let (deleted, freed) = plan.outcome();
    assert_eq!(deleted, 0);
    assert_eq!(freed, 0);
}

#[test]
fn test_get_total_size_empty() {
    assert_eq!(logger().get_total_size(&[]), 0);
    assert_eq!(logger().get_total_size(&[10, 20, 5]), 35);
}

#[test]
fn test_get_log_by_session_id_not_found() {
    let files: Vec<Vec<LlmInteractionLog>> = Vec::new();
    assert!(logger().get_log_by_session_id(&files, "non-existent-id").is_none());
}

#[test]
fn test_list_recent_sessions_empty() {
    let files: Vec<Vec<LlmInteractionLog>> = Vec::new();
    assert!(logger().list_recent_sessions(&files, 10).is_empty());
}
