use realconsole::llm::{
    copy_message, is_retryable_error, role_name_of, ChatResponse, ClientStats, FunctionCall, LlmError, Message,
    MessageRole, ToolCall,
};

#[test]
fn test_message_creation() {
    let msg = Message::user("Hello");
    assert_eq!(msg.role, MessageRole::User);
    assert_eq!(msg.content, Some("Hello".to_string()));
    assert!(msg.tool_calls.is_none());

    let sys_msg = Message::system("You are a helpful assistant");
    assert_eq!(sys_msg.role, MessageRole::System);
}

#[test]
fn test_message_with_tools() {
    let tool_call = ToolCall {
        id: "call_123".to_string(),
        call_type: "function".to_string(),
        function: FunctionCall {
            name: "test_tool".to_string(),
            arguments: r#"{"arg": "value"}"#.to_string(),
        },
    };

    let msg = Message::assistant_with_tools(vec![tool_call]);
    assert_eq!(msg.role, MessageRole::Assistant);
    assert!(msg.content.is_none());
    assert!(msg.tool_calls.is_some());
    assert_eq!(msg.tool_calls.as_ref().unwrap().len(), 1);
}

#[test]
fn test_tool_result_message() {
    let msg = Message::tool_result("call_123".to_string(), "result".to_string());
    assert_eq!(msg.role, MessageRole::Tool);
    assert_eq!(msg.content, Some("result".to_string()));
    assert_eq!(msg.tool_call_id, Some("call_123".to_string()));
}

#[test]
fn test_client_stats() {
    let mut stats = ClientStats::new();
    assert_eq!(stats.total_calls(), 0);

    stats.record_call();
    assert_eq!(stats.total_calls(), 1);

    stats.record_retry();
    stats.record_retry();
    assert_eq!(stats.total_retries(), 2);
}

#[test]
fn client_stats_errors_and_successes() {
    let mut stats = ClientStats::new();
    stats.record_error();
    stats.record_success();
    stats.record_success();
    assert_eq!(stats.total_errors(), 1);
    assert_eq!(stats.total_success(), 2);
}

#[test]
fn retryable_errors() {
    assert!(is_retryable_error(&LlmError::Timeout));
    assert!(is_retryable_error(&LlmError::RateLimit));
    assert!(is_retryable_error(&LlmError::Network("error".into())));
    assert!(is_retryable_error(&LlmError::Http { status: 503, message: "Service Unavailable".into() }));
    assert!(!is_retryable_error(&LlmError::Http { status: 404, message: "Not Found".into() }));
    assert!(!is_retryable_error(&LlmError::Parse("error".into())));
    assert!(!is_retryable_error(&LlmError::Config("error".into())));
}

#[test]
fn transport_failure_classification() {
    assert!(matches!(LlmError::from_transport_failure(true, Some(500), "x".into()), LlmError::Timeout));
    assert!(matches!(LlmError::from_transport_failure(false, Some(429), "x".into()), LlmError::RateLimit));
    match LlmError::from_transport_failure(false, Some(502), "bad gateway".into()) {
        LlmError::Http { status, message } => {
            assert_eq!(status, 502);
            assert_eq!(message, "bad gateway");
        }
        _ => panic!("expected an HTTP error"),
    }
    match LlmError::from_transport_failure(false, None, "refused".into()) {
        LlmError::Network(m) => assert_eq!(m, "refused"),
        _ => panic!("expected a network error"),
    }
}

#[test]
fn error_messages() {
    assert_eq!(LlmError::Http { status: 500, message: "boom".into() }.message(), "HTTP 500: boom");
    assert_eq!(LlmError::Network("down".into()).message(), "Network error: down");
    assert_eq!(LlmError::RateLimit.message(), "Rate limit exceeded");
    assert_eq!(LlmError::Timeout.message(), "Timeout");
    assert_eq!(LlmError::Parse("p".into()).message(), "Parse error: p");
    assert_eq!(LlmError::Config("c".into()).message(), "Config error: c");
    assert_eq!(LlmError::Other("o".into()).message(), "o");
}

#[test]
fn role_names() {
    assert_eq!(role_name_of(MessageRole::User), "User");
    assert_eq!(role_name_of(MessageRole::Tool), "Tool");
}

#[test]
fn chat_responses() {
    let t = ChatResponse::text("hi".to_string());
    assert_eq!(t.content.as_deref(), Some("hi"));
    assert!(t.tool_calls.is_empty());
    assert!(t.is_final);
    let w = ChatResponse::with_tools(vec![]);
    assert!(w.content.is_none());
    assert!(w.is_final);
    let call = ToolCall {
        id: "c".to_string(),
        call_type: "function".to_string(),
        function: FunctionCall { name: "f".to_string(), arguments: "{}".to_string() },
    };
    assert!(!ChatResponse::with_tools(vec![call]).is_final);
}

#[test]
fn message_copy_is_equal_field_by_field() {
    let m = Message::tool_result("id".to_string(), "r".to_string());
    let c = copy_message(&m);
    assert_eq!(c.role, m.role);
    assert_eq!(c.content, m.content);
    assert_eq!(c.tool_call_id, m.tool_call_id);
}

use realconsole::llm::{normalize_endpoint, RetryRun, RetryStep};

#[test]
fn endpoint_slashes_are_removed() {
    assert_eq!(normalize_endpoint("https://api.example.com/"), "https://api.example.com");
    assert_eq!(normalize_endpoint("https://api.example.com"), "https://api.example.com");
    assert_eq!(normalize_endpoint("x///"), "x");
    assert_eq!(normalize_endpoint("/"), "");
}

#[test]
fn retry_run_gives_up_after_allowance() {
    let mut run = RetryRun::new(3);
    assert_eq!(run.start(), RetryStep::Attempt(1));
    assert_eq!(run.after_failure(LlmError::Timeout), RetryStep::Attempt(2));
    assert_eq!(run.after_failure(LlmError::Timeout), RetryStep::Attempt(3));
    assert_eq!(run.after_failure(LlmError::Timeout), RetryStep::GiveUp);
    assert!(matches!(run.into_error(), LlmError::Timeout));
}

#[test]
fn retry_run_stops_on_permanent_error() {
    let mut run = RetryRun::new(3);
    run.start();
    assert_eq!(run.after_failure(LlmError::Parse("bad".into())), RetryStep::GiveUp);
    let mut empty = RetryRun::new(0);
    assert_eq!(empty.start(), RetryStep::GiveUp);
    assert!(matches!(empty.into_error(), LlmError::Other(m) if m == "Unknown error after retries"));
}

#[test]
fn retry_run_counts_a_retry_after_late_success() {
    let mut stats = ClientStats::new();
    let mut run = RetryRun::new(3);
    run.start();
    run.after_success(&mut stats);
    assert_eq!(stats.total_retries(), 0);
    run.after_failure(LlmError::RateLimit);
    run.after_success(&mut stats);
    assert_eq!(stats.total_retries(), 1);
}

use realconsole::llm::convert_messages;

#[test]
fn gemini_layout_of_a_conversation() {
    let msgs = vec![
        Message::system("be brief"),
        Message::user("hi"),
        Message::assistant("hello"),
        Message::tool_result("id".to_string(), "42".to_string()),
        Message::system("be kind"),
    ];
    let (turns, system) = convert_messages(&msgs);
    assert_eq!(turns, vec![("user".to_string(), "hi".to_string()), ("model".to_string(), "hello".to_string())]);
    assert_eq!(system.as_deref(), Some("be kind"));
    let (turns, system) = convert_messages(&[]);
    assert!(turns.is_empty());
    assert!(system.is_none());
}

#[test]
fn test_convert_simple_user_message() {
    let messages = vec![Message::user("Hello")];
    let (contents, system) = convert_messages(&messages);

    assert_eq!(contents.len(), 1);
    assert!(system.is_none());
    assert_eq!(contents[0].0, "user");
    assert_eq!(contents[0].1, "Hello");
}

#[test]
fn test_convert_system_message() {
    let messages = vec![Message::system("You are helpful"), Message::user("Hello")];
    let (contents, system) = convert_messages(&messages);

    assert_eq!(contents.len(), 1);
    assert_eq!(system, Some("You are helpful".to_string()));
    assert_eq!(contents[0].0, "user");
}

#[test]
fn test_convert_assistant_to_model() {
    let messages = vec![Message::user("Hello"), Message::assistant("Hi there!")];
    let (contents, _) = convert_messages(&messages);

    assert_eq!(contents.len(), 2);
    assert_eq!(contents[0].0, "user");
    assert_eq!(contents[1].0, "model");
    assert_eq!(contents[1].1, "Hi there!");
}

#[test]
fn test_convert_multi_turn_conversation() {
    let messages = vec![
        Message::system("You are helpful"),
        Message::user("What is 2+2?"),
        Message::assistant("It's 4"),
        Message::user("What about 3+3?"),
    ];
    let (contents, system) = convert_messages(&messages);

    assert_eq!(system, Some("You are helpful".to_string()));
    assert_eq!(contents.len(), 3);
    assert_eq!(contents[0].0, "user");
    assert_eq!(contents[1].0, "model");
    assert_eq!(contents[2].0, "user");
}
