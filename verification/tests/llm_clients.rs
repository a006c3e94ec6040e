use realconsole::llm::LlmError;
use realconsole::llm_clients::{
    compat_model_names, native_model_names, settle_models, take_sse_events, CompatModel, DeepseekClient,
    GeminiClient, HttpClientBase, OllamaClient, OllamaTag, StreamDecoder,
};

fn chars(s: &str) -> Vec<char> {
    s.chars().collect()
}

fn text(v: &[char]) -> String {
    v.iter().collect()
}

fn names(v: &[&str]) -> Vec<String> {
    v.iter().map(|s| s.to_string()).collect()
}

#[test]
fn test_http_base_creation() {
    let base = HttpClientBase::new("https://api.example.com", 60);
    assert!(base.is_ok());

    let base = base.unwrap();
    assert_eq!(base.endpoint, "https://api.example.com");
}

#[test]
fn test_endpoint_normalization() {
    let base = HttpClientBase::new("https://api.example.com/", 60).unwrap();
    assert_eq!(base.endpoint, "https://api.example.com");

    let base = HttpClientBase::new("https://api.example.com///", 60).unwrap();
    assert_eq!(base.endpoint, "https://api.example.com");
}

#[test]
fn test_deepseek_creation() {
    let client = DeepseekClient::new("test-key", "deepseek-chat", "https://api.deepseek.com/v1");
    assert!(client.is_ok());

    let client = client.unwrap();
    assert_eq!(client.model(), "deepseek-chat");
}

#[test]
fn deepseek_test_empty_api_key() {
    let client = DeepseekClient::new("", "deepseek-chat", "https://api.deepseek.com/v1");
    assert!(client.is_err());
}

#[test]
fn test_gemini_creation() {
    let client = GeminiClient::new("test-key", "gemini-pro", "https://generativelanguage.googleapis.com");
    assert!(client.is_ok());

    let client = client.unwrap();
    assert_eq!(client.model(), "gemini-pro");
}

#[test]
fn gemini_test_empty_api_key() {
    let client = GeminiClient::new("", "gemini-pro", "https://example.com");
    assert!(client.is_err());
    if let Err(e) = client {
        assert!(matches!(e, LlmError::Config(_)));
    }
}

#[test]
fn test_with_defaults() {
    let client = GeminiClient::with_defaults("test-key");
    assert!(client.is_ok());

    let client = client.unwrap();
    assert_eq!(client.model(), "gemini-pro");
}

#[test]
fn test_stats_initial() {
    let client = GeminiClient::with_defaults("test-key").unwrap();
    let stats = client.stats();
    assert_eq!(stats.total_calls(), 0);
}

#[test]
fn test_build_url() {
    let client = GeminiClient::new("test-api-key", "gemini-pro", "https://generativelanguage.googleapis.com").unwrap();

    let url = client.build_url();
    assert!(url.contains("/v1beta/models/gemini-pro:generateContent"));
    assert!(url.contains("?key=test-api-key"));
}

#[test]
fn test_strip_think_tags() {
    let input = "Hello <think>内部思考</think> World";
    let output = OllamaClient::strip_think_tags(input);
    assert_eq!(output.trim(), "Hello  World");
}

#[test]
fn missing_key_message_and_urls() {
    match DeepseekClient::with_defaults("") {
        Err(LlmError::Config(m)) => assert_eq!(m, "API key is required"),
        _ => panic!("an empty key must be refused"),
    }
    let d = DeepseekClient::with_defaults("k").unwrap();
    assert_eq!(d.chat_url(), "https://api.deepseek.com/v1/chat/completions");
    assert_eq!(d.authorization(), "Bearer k");
    let g = GeminiClient::new("k", "m", "https://x.test/").unwrap();
    assert_eq!(g.build_url(), "https://x.test/v1beta/models/m:generateContent?key=k");
    assert_eq!(g.diagnose(), "端点: https://x.test\n模型: m\n状态: 待实现");
}

#[test]
fn think_blocks_are_removed_everywhere() {
    assert_eq!(
        OllamaClient::strip_think_tags("<think>a\nb</think>x<think></think>y"),
        "xy"
    );
    assert_eq!(OllamaClient::strip_think_tags("plain"), "plain");
}

#[test]
fn ollama_defaults_and_urls() {
    let c = OllamaClient::with_defaults().unwrap();
    assert_eq!(c.model(), "qwen3:4b");
    assert_eq!(c.tags_url(), "http://localhost:11434/api/tags");
    assert_eq!(c.compat_models_url(), "http://localhost:11434/v1/models");
    assert!(c.cached_models().is_none());
    assert_eq!(c.stats().total_calls(), 0);
}

#[test]
fn model_lists() {
    let tags = vec![
        OllamaTag { name: Some("a".into()), model: Some("b".into()), id: None },
        OllamaTag { name: None, model: Some("c".into()), id: Some("d".into()) },
        OllamaTag { name: None, model: None, id: Some("e".into()) },
        OllamaTag { name: None, model: None, id: None },
    ];
    assert_eq!(native_model_names(&tags), names(&["a", "c", "e"]));
    let compat = vec![
        CompatModel { id: Some("x".into()), name: Some("y".into()) },
        CompatModel { id: None, name: Some("z".into()) },
        CompatModel { id: None, name: None },
    ];
    assert_eq!(compat_model_names(&compat), names(&["x", "z"]));
    assert_eq!(settle_models(names(&["a"]), Some(names(&["x"]))), names(&["a"]));
    assert_eq!(settle_models(vec![], Some(names(&["x"]))), names(&["x"]));
    assert_eq!(
        settle_models(vec![], None),
        names(&["qwen3:4b", "qwen3:8b", "qwen3:30b", "gemma3:27b", "deepseek-r1:8b"])
    );
    assert_eq!(settle_models(vec![], Some(vec![])).len(), 5);
}

#[test]
fn ollama_diagnosis() {
    let mut c = OllamaClient::new("m", "http://h/").unwrap();
    assert_eq!(
        c.diagnose(&Ok(names(&["a", "b"]))),
        "端点: http://h\n模型: m\n✓ 连接成功\n可用模型数: 2\n模型: a, b"
    );
    assert_eq!(c.diagnose(&Ok(vec![])), "端点: http://h\n模型: m\n✓ 连接成功\n可用模型数: 0");
    assert_eq!(
        c.diagnose(&Err(LlmError::Timeout)),
        "端点: http://h\n模型: m\n✗ 连接失败: Timeout\n建议: 确认 'ollama serve' 运行中"
    );
    c.remember_models(names(&["q"]));
    assert_eq!(c.cached_models(), Some(names(&["q"])));
}

#[test]
fn sse_events_are_taken_when_complete() {
    let mut buf = chars("noise data: one\n\ndata: two\n\ndata: thr");
    let events: Vec<String> = take_sse_events(&mut buf).iter().map(|e| text(e)).collect();
    assert_eq!(events, vec!["one", "two"]);
    assert_eq!(text(&buf), "data: thr");
    let mut buf = chars("data: a\n\ndata:  [DONE] \n\ndata: b\n\n");
    let events: Vec<String> = take_sse_events(&mut buf).iter().map(|e| text(e)).collect();
    assert_eq!(events, vec!["a"]);
    assert_eq!(text(&buf), "data: b\n\n");
}

#[test]
fn stream_decoder_assembles_the_answer() {
    let mut d = StreamDecoder::new();
    let first = d.feed("data: {\"choices\":[{\"delta\":{\"content\":\"Hel\"}}]}\n\ndata: {\"cho");
    assert_eq!(first, vec!["Hel"]);
    let second = d.feed("ices\":[{\"delta\":{\"content\":\"lo\"}}]}\n\ndata: {\"choices\":[{\"delta\":{}}]}\n\n");
    assert_eq!(second, vec!["lo"]);
    let third = d.feed("data: not json\n\ndata: [DONE]\n\n");
    assert!(third.is_empty());
    assert_eq!(d.full_response(), "Hello");
}
