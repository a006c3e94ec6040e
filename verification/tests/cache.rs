use realconsole::cache::{cache_key, should_cache, should_cache_response, CacheEntry, LlmCacheConfig, LlmCacheStats, ResponseCache, ChatStep};
use realconsole::llm::{Message, ToolCall, FunctionCall};

const SEC: u64 = 1_000_000_000;

#[test]
fn test_config_presets() {
    let default = LlmCacheConfig::default();
    assert!(default.enabled);
    assert_eq!(default.capacity, 500);

    let disabled = LlmCacheConfig::disabled();
    assert!(!disabled.enabled);

    let high_hit = LlmCacheConfig::high_hit_rate();
    assert!(high_hit.sliding_expiration);
    assert_eq!(high_hit.capacity, 1000);

    let low_mem = LlmCacheConfig::low_memory();
    assert_eq!(low_mem.capacity, 100);
}

#[test]
fn cache_entry_expiry_fixed_and_sliding() {
    let e = CacheEntry::new("r".to_string(), 10, false, 0);
    assert!(!e.is_expired(10 * SEC));
    assert!(e.is_expired(10 * SEC + 1));
    let mut s = CacheEntry::new("r".to_string(), 10, true, 0);
    s.touch(8 * SEC);
    assert!(!s.is_expired(15 * SEC));
    assert!(s.is_expired(18 * SEC + 1));
    assert!(!s.is_expired(0));
}

#[test]
fn cache_key_depends_on_model_and_messages() {
    let a = vec![Message::user("hello there")];
    let b = vec![Message::user("hello here")];
    assert_eq!(cache_key("m", &a), cache_key("m", &a));
    assert_ne!(cache_key("m", &a), cache_key("m", &b));
    assert_ne!(cache_key("m1", &a), cache_key("m2", &a));
}

#[test]
fn should_cache_rules() {
    let cfg = LlmCacheConfig::default();
    assert!(should_cache(&cfg, &[Message::user("hello")]));
    assert!(!should_cache(&cfg, &[Message::user("hi")]));
    assert!(!should_cache(&cfg, &[]));
    assert!(!should_cache(&LlmCacheConfig::disabled(), &[Message::user("hello")]));
    let tool = Message::tool_result("id".to_string(), "a long tool result".to_string());
    assert!(!should_cache(&cfg, &[Message::user("hello"), tool]));
    let call = ToolCall { id: "c".to_string(), call_type: "function".to_string(), function: FunctionCall { name: "f".to_string(), arguments: "{}".to_string() } };
    assert!(!should_cache(&cfg, &[Message::user("hello"), Message::assistant_with_tools(vec![call])]));
    assert!(should_cache_response(&cfg, "ok"));
    assert!(!should_cache_response(&cfg, ""));
    assert!(!should_cache_response(&LlmCacheConfig::low_memory(), &"x".repeat(10001)));
}

#[test]
fn store_then_lookup_hits() {
    let mut c = ResponseCache::new(LlmCacheConfig::default());
    assert!(c.store(7, "answer", 0));
    assert_eq!(c.cache_size(), 1);
    assert_eq!(c.lookup(7, SEC).as_deref(), Some("answer"));
    assert_eq!(c.lookup(8, SEC), None);
    let st: &LlmCacheStats = c.cache_stats();
    assert_eq!(st.hits(), 1);
    assert_eq!(st.misses(), 1);
    assert_eq!(st.writes(), 1);
    assert_eq!(st.total_requests(), 2);
}

#[test]
fn expired_entry_is_dropped() {
    let cfg = LlmCacheConfig { default_ttl_secs: 1, ..LlmCacheConfig::default() };
    let mut c = ResponseCache::new(cfg);
    c.store(1, "a", 0);
    assert_eq!(c.lookup(1, 2 * SEC), None);
    assert_eq!(c.cache_size(), 0);
    assert_eq!(c.cache_stats().expired(), 1);
    assert_eq!(c.cache_stats().misses(), 1);
}

#[test]
fn empty_response_not_stored() {
    let mut c = ResponseCache::new(LlmCacheConfig::default());
    assert!(!c.store(1, "", 0));
    assert_eq!(c.cache_size(), 0);
    assert_eq!(c.cache_stats().writes(), 0);
}

#[test]
fn lru_evicts_least_recent() {
    let cfg = LlmCacheConfig { capacity: 2, ..LlmCacheConfig::default() };
    let mut c = ResponseCache::new(cfg);
    c.store(1, "a", 0);
    c.store(2, "b", 0);
    assert_eq!(c.lookup(1, 0).as_deref(), Some("a"));
    c.store(3, "c", 0);
    assert_eq!(c.cache_size(), 2);
    assert_eq!(c.lookup(2, 0), None);
    assert_eq!(c.lookup(1, 0).as_deref(), Some("a"));
    assert_eq!(c.lookup(3, 0).as_deref(), Some("c"));
    c.clear_cache();
    assert_eq!(c.cache_size(), 0);
}

#[test]
fn stats_start_at_zero() {
    let s = LlmCacheStats::new();
    assert_eq!(s.total_requests(), 0);
    assert_eq!(s.hits(), 0);
}

#[test]
fn requests_are_hits_plus_misses() {
    let mut s = LlmCacheStats::new();
    s.record_hit();
    s.record_miss();
    s.record_miss();
    s.record_miss();
    s.record_write();
    s.record_expired();
    assert_eq!(s.total_requests(), 4);
    assert_eq!(s.hits() + s.misses(), s.total_requests());
    assert_eq!(s.writes(), 1);
    assert_eq!(s.expired(), 1);
}

#[test]
fn cached_chat_answers_repeated_question_from_cache() {
    let mut c = ResponseCache::new(LlmCacheConfig::default());
    let msgs = [Message::user("hello there")];
    let step = c.begin_chat("deepseek-chat", &msgs, 0);
    let key = match step {
        ChatStep::Forward(Some(k)) => k,
        other => panic!("unexpected {:?}", other),
    };
    assert_eq!(key, cache_key("deepseek-chat", &msgs));
    assert!(c.finish_chat(Some(key), "general kenobi", 0));
    assert_eq!(c.begin_chat("deepseek-chat", &msgs, SEC), ChatStep::Cached("general kenobi".to_string()));
    assert_eq!(c.cache_stats().hits(), 1);
    assert_eq!(c.cache_stats().misses(), 1);
    assert_eq!(c.cache_stats().writes(), 1);
    assert_eq!(c.cache_size(), 1);
}

#[test]
fn uncacheable_chat_goes_straight_through() {
    let mut c = ResponseCache::new(LlmCacheConfig::default());
    assert_eq!(c.begin_chat("m", &[Message::user("hi")], 0), ChatStep::Forward(None));
    assert!(!c.finish_chat(None, "answer", 0));
    assert_eq!(c.cache_size(), 0);
    assert_eq!(c.cache_stats().total_requests(), 0);
}
