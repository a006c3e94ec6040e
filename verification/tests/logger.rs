use realconsole::llm::Message;
use realconsole::logger::{
    compute_statistics, CallContext, LlmInteractionLog, LlmLogger, LlmLoggerConfig, LlmMetadata, LlmRequest,
    LlmResponse, LogInteractionParams, LogStatistics, TokenUsage,
};
use std::time::Instant;

fn record(ts: i64, model: &str, status: &str, latency: u64, usage: Option<(u32, u32, u32)>, streaming: bool) -> LlmInteractionLog {
    LlmInteractionLog {
        session_id: format!("s{}", ts),
        timestamp_ms: ts,
        model: model.to_string(),
        request: LlmRequest { message_count: 1, summary: format!("ask {}", ts), messages: None, max_tokens: None },
        response: Some(LlmResponse {
            content_length: 1,
            summary: "answer".to_string(),
            content: None,
            usage: usage.map(|(p, c, t)| TokenUsage { prompt_tokens: p, completion_tokens: c, total_tokens: t }),
            finish_reason: "stop".to_string(),
        }),
        meta: LlmMetadata {
            latency_ms: latency,
            status: status.to_string(),
            error: None,
            is_streaming: streaming,
            started_at_ms: None,
            completed_at_ms: None,
            context: None,
        },
    }
}

#[test]
fn test_logger_config_default() {
    let config = LlmLoggerConfig::default();
    assert!(!config.enabled);
    assert_eq!(config.retention_days, 30);
    assert_eq!(config.max_size_mb, 100);
    assert!(config.include_content);
}

#[test]
fn logger_config_for_home() {
    let config = LlmLoggerConfig::for_home(Some("/home/u".to_string()));
    assert_eq!(config.log_dir, "/home/u/.realconsole/llm_logs");
    let config = LlmLoggerConfig::for_home(Some("/home/u/".to_string()));
    assert_eq!(config.log_dir, "/home/u/.realconsole/llm_logs");
    let config = LlmLoggerConfig::for_home(None);
    assert_eq!(config.log_dir, "./.realconsole/llm_logs");
    assert_eq!(config.sensitive_patterns, vec!["api[_-]?key", "password", "token"]);
}

#[test]
fn test_logger_creation() {
    let logger = LlmLogger::with_defaults();
    assert!(!logger.is_enabled());
}

#[test]
fn test_start_logging() {
    let logger = LlmLogger::with_defaults();
    let (session_id, start_time) = logger.start_logging("test-model");
    assert!(!session_id.is_empty());
    assert!(start_time.elapsed().as_millis() < 10);
}

#[test]
fn test_build_request() {
    let logger = LlmLogger::with_defaults();
    let messages = vec![Message::user("What is Rust?"), Message::assistant("Rust is a systems programming language.")];
    let request = logger.build_request(&messages);
    assert_eq!(request.message_count, 2);
    assert!(request.summary.contains("What is Rust?"));
    assert_eq!(request.messages.map(|m| m.len()), Some(2));
}

#[test]
fn build_request_without_user_message() {
    let logger = LlmLogger::with_defaults();
    let request = logger.build_request(&[Message::system("s")]);
    assert_eq!(request.summary, "[无内容]");
    let long = "x".repeat(60);
    let request = logger.build_request(&[Message::user(&long)]);
    assert_eq!(request.summary, format!("{}...", "x".repeat(50)));
}

#[test]
fn test_build_response() {
    let logger = LlmLogger::with_defaults();
    let content = "This is a test response";
    let response = logger.build_response(content);
    assert_eq!(response.content_length, 23);
    assert_eq!(response.summary, content);
    assert!(response.content.is_some());
}

#[test]
fn test_build_response_long_content() {
    let logger = LlmLogger::with_defaults();
    let content = "a".repeat(200);
    let response = logger.build_response(&content);
    assert_eq!(response.content_length, 200);
    assert!(response.summary.ends_with("..."));
    assert_eq!(response.summary.chars().count(), 103);
}

#[test]
fn build_response_without_content() {
    let mut config = LlmLoggerConfig::default();
    config.include_content = false;
    let logger = LlmLogger::new(config);
    let r = logger.build_response("hello");
    assert!(r.content.is_none());
    assert_eq!(r.finish_reason, "stop");
}

#[test]
fn test_log_statistics_default() {
    let stats = LogStatistics::default();
    assert_eq!(stats.total_requests, 0);
    assert_eq!(stats.total_tokens, 0);
    assert_eq!(stats.avg_latency_ms, 0);
    assert!(stats.model_usage.is_empty());
}

#[test]
fn test_get_statistics_empty() {
    let logger = LlmLogger::with_defaults();
    let stats = logger.statistics(&[], None);
    assert_eq!(stats.total_requests, 0);
    assert_eq!(stats.successful_requests, 0);
    assert_eq!(stats.failed_requests, 0);
}

#[test]
fn statistics_over_records() {
    let logs = vec![
        record(1, "a", "success", 30, Some((1, 2, 3)), false),
        record(2, "b", "error", 10, None, true),
        record(3, "a", "success", 20, Some((4, 5, 9)), false),
        record(4, "a", "timeout", 40, None, false),
    ];
    let s = compute_statistics(&logs, None);
    assert_eq!(s.total_requests, 4);
    assert_eq!(s.successful_requests, 2);
    assert_eq!(s.failed_requests, 1);
    assert_eq!(s.streaming_requests, 1);
    assert_eq!(s.model_usage, vec![("a".to_string(), 3), ("b".to_string(), 1)]);
    assert_eq!(s.avg_latency_ms, 25);
    assert_eq!(s.min_latency_ms, 10);
    assert_eq!(s.max_latency_ms, 40);
    assert_eq!(s.p50_latency_ms, 30);
    assert_eq!(s.p95_latency_ms, 40);
    assert_eq!(s.p99_latency_ms, 40);
    assert_eq!(s.total_prompt_tokens, 5);
    assert_eq!(s.total_completion_tokens, 7);
    assert_eq!(s.total_tokens, 12);
    let recent = compute_statistics(&logs, Some(3));
    assert_eq!(recent.total_requests, 2);
    assert_eq!(recent.min_latency_ms, 20);
}

#[test]
fn test_search_logs_empty() {
    let logger = LlmLogger::with_defaults();
    let results = logger.search(Vec::new(), "test", None);
    assert!(results.is_empty());
}

#[test]
fn search_finds_case_insensitively_newest_first() {
    let logger = LlmLogger::with_defaults();
    let logs = vec![record(1, "Alpha", "success", 1, None, false), record(5, "beta", "success", 1, None, false), record(3, "ALPHA-2", "success", 1, None, false)];
    let r = logger.search(logs, "alpha", None);
    let ts: Vec<i64> = r.iter().map(|l| l.timestamp_ms).collect();
    assert_eq!(ts, vec![3, 1]);
}

#[test]
fn interaction_log_only_when_enabled() {
    let logger = LlmLogger::with_defaults();
    let messages = vec![Message::user("Hello, world!")];
    let params = LogInteractionParams {
        session_id: "s".to_string(),
        model: "m".to_string(),
        messages: &messages,
        response_content: Some("Hi there!".to_string()),
        start_time: Instant::now(),
        is_streaming: false,
        error: None,
        context: None,
    };
    assert!(logger.interaction_log(params).is_none());

    let mut config = LlmLoggerConfig::default();
    config.enabled = true;
    let logger = LlmLogger::new(config);
    let ctx = CallContext { user_input: Some("u".to_string()), intent: None, tools_used: vec![], tool_results_summary: None };
    let params = LogInteractionParams {
        session_id: "s".to_string(),
        model: "m".to_string(),
        messages: &messages,
        response_content: Some("Hi there!".to_string()),
        start_time: Instant::now(),
        is_streaming: true,
        error: None,
        context: Some(ctx),
    };
    let log = logger.interaction_log(params).unwrap();
    assert_eq!(log.meta.status, "success");
    assert_eq!(log.request.summary, "Hello, world!");
    assert_eq!(log.response.unwrap().summary, "Hi there!");
    assert!(log.meta.is_streaming);
    assert_eq!(log.meta.completed_at_ms, Some(log.timestamp_ms));

    let params = LogInteractionParams {
        session_id: "s".to_string(),
        model: "m".to_string(),
        messages: &messages,
        response_content: None,
        start_time: Instant::now(),
        is_streaming: false,
        error: Some("boom".to_string()),
        context: None,
    };
    assert_eq!(logger.interaction_log(params).unwrap().meta.status, "error");
    let params = LogInteractionParams {
        session_id: "s".to_string(),
        model: "m".to_string(),
        messages: &messages,
        response_content: None,
        start_time: Instant::now(),
        is_streaming: false,
        error: None,
        context: None,
    };
    assert_eq!(logger.interaction_log(params).unwrap().meta.status, "timeout");
}

#[test]
fn log_file_names() {
    let mut config = LlmLoggerConfig::default();
    config.log_dir = "/tmp/logs".to_string();
    let mut logger = LlmLogger::new(config);
    assert_eq!(logger.log_file_for("2025-01-02"), "/tmp/logs/llm_2025-01-02.jsonl");
    assert!(logger.get_current_log_file().is_none());
    logger.set_current_log_file("/tmp/logs/x.jsonl".to_string());
    assert_eq!(logger.get_current_log_file().as_deref(), Some("/tmp/logs/x.jsonl"));
}

#[test]
fn session_ids_are_random_uuids() {
    let logger = realconsole::logger::LlmLogger::with_defaults();
    let (a, _) = logger.start_logging("m");
    let (b, _) = logger.start_logging("m");
    assert_ne!(a, b);
    for id in [a, b] {
        let c: Vec<char> = id.chars().collect();
        assert_eq!(c.len(), 36);
        for (i, ch) in c.iter().enumerate() {
            if [8, 13, 18, 23].contains(&i) {
                assert_eq!(*ch, '-');
            } else {
                assert!(ch.is_ascii_hexdigit() && !ch.is_ascii_uppercase());
            }
        }
        assert_eq!(c[14], '4');
        assert!(['8', '9', 'a', 'b'].contains(&c[19]));
    }
}
