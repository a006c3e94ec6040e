use realconsole::memory::{
    ContextStats, EntryType, Importance, Memory, MemoryAdapterStats, MemoryEntry, MemoryStorageConfig, PersistFormat,
    SnapshotMetadata, WorkingContext, WorkingContextUpdate,
};

#[test]
fn test_memory_creation() {
    let memory = Memory::new(10);
    assert_eq!(memory.len(), 0);
    assert!(memory.is_empty());
    assert_eq!(memory.capacity(), 10);
}

#[test]
fn memory_core_test_add_entry() {
    let mut memory = Memory::new(10);
    memory.add("Hello".to_string(), EntryType::User);
    assert_eq!(memory.len(), 1);
    assert!(!memory.is_empty());
}

#[test]
fn test_ring_buffer() {
    let mut memory = Memory::new(5);
    for i in 0..6 {
        memory.add(format!("entry-{}", i), EntryType::User);
    }
    assert_eq!(memory.len(), 5);
    let recent = memory.recent(1);
    assert!(recent[0].content.contains("entry-5"));
    let all = memory.dump();
    assert!(all[0].content.contains("entry-1"));
}

#[test]
fn test_recent() {
    let mut memory = Memory::new(10);
    for i in 0..5 {
        memory.add(format!("entry-{}", i), EntryType::User);
    }
    let recent = memory.recent(3);
    assert_eq!(recent.len(), 3);
    assert!(recent[0].content.contains("entry-4"));
    assert!(recent[1].content.contains("entry-3"));
    assert!(recent[2].content.contains("entry-2"));
}

#[test]
fn memory_core_test_search() {
    let mut memory = Memory::new(10);
    memory.add("Hello world".to_string(), EntryType::User);
    memory.add("Goodbye world".to_string(), EntryType::Assistant);
    memory.add("Hello Rust".to_string(), EntryType::User);
    assert_eq!(memory.search("hello").len(), 2);
    assert_eq!(memory.search("world").len(), 2);
    assert_eq!(memory.search("rust").len(), 1);
    assert_eq!(memory.search("notfound").len(), 0);
}

#[test]
fn memory_core_test_filter_by_type() {
    let mut memory = Memory::new(10);
    memory.add("user1".to_string(), EntryType::User);
    memory.add("assistant1".to_string(), EntryType::Assistant);
    memory.add("user2".to_string(), EntryType::User);
    assert_eq!(memory.filter_by_type(EntryType::User).len(), 2);
    assert_eq!(memory.filter_by_type(EntryType::Assistant).len(), 1);
}

#[test]
fn memory_core_test_clear() {
    let mut memory = Memory::new(10);
    memory.add("test".to_string(), EntryType::User);
    assert_eq!(memory.len(), 1);
    memory.clear();
    assert_eq!(memory.len(), 0);
    assert!(memory.is_empty());
}

#[test]
fn test_preview_utf8_safety() {
    let chinese_text = "这是一个测试字符串包含中文字符用于验证UTF8边界处理的正确性";
    let content = chinese_text.repeat(5);
    let entry = MemoryEntry::new(content.to_string(), EntryType::System);
    let preview = entry.preview();
    assert!(preview.contains("..."));
    assert!(std::str::from_utf8(preview.as_bytes()).is_ok());
}

#[test]
fn test_preview_exact_boundary() {
    let content = "a".repeat(80);
    let entry = MemoryEntry::new(content.to_string(), EntryType::User);
    let preview = entry.preview();
    assert!(!preview.contains("..."));
}

#[test]
fn test_preview_with_emoji() {
    let content = "🎉".repeat(50) + &"测试".repeat(50);
    let entry = MemoryEntry::new(content.to_string(), EntryType::User);
    let preview = entry.preview();
    assert!(preview.contains("..."));
    assert!(std::str::from_utf8(preview.as_bytes()).is_ok());
}

fn at(ts: i64, content: &str, t: EntryType, i: Importance) -> MemoryEntry {
    MemoryEntry { timestamp_ms: ts, entry_type: t, content: content.to_string(), importance: i }
}

#[test]
fn entry_lines_with_relative_time() {
    let e = at(0, "ls", EntryType::Shell, Importance::Normal);
    assert_eq!(e.format_at(30_000), "[刚刚] SHELL: ls");
    assert_eq!(e.format_at(5 * 60_000), "[5分钟前] SHELL: ls");
    assert_eq!(e.format_at(3 * 3_600_000), "[3小时前] SHELL: ls");
    assert_eq!(e.format_at(2 * 86_400_000), "[2天前] SHELL: ls");
    assert_eq!(e.format_at(-5), "[刚刚] SHELL: ls");
    let c = at(0, "x", EntryType::User, Importance::Critical);
    assert_eq!(c.format_at(8 * 86_400_000), "[01-01 00:00] USER: [**] x");
    let imp = at(0, &"y".repeat(81), EntryType::Tool, Importance::Important);
    assert_eq!(imp.preview_at(0), format!("[刚刚] TOOL: [*] {}...", "y".repeat(80)));
}

#[test]
fn ring_with_zero_capacity_keeps_newest() {
    let mut m = Memory::new(0);
    m.add("a".to_string(), EntryType::User);
    m.add("b".to_string(), EntryType::User);
    assert_eq!(m.len(), 1);
    assert_eq!(m.dump()[0].content, "b");
}

#[test]
fn mark_importance_counts_from_newest() {
    let mut m = Memory::new(10);
    m.add("old".to_string(), EntryType::User);
    m.add("new".to_string(), EntryType::User);
    assert!(m.mark_importance(1, Importance::Critical).is_ok());
    assert_eq!(m.dump()[0].importance, Importance::Critical);
    assert_eq!(m.filter_by_importance(Importance::Critical).len(), 1);
    let err = m.mark_importance(2, Importance::Important).unwrap_err();
    assert_eq!(err, "索引 2 超出范围（总共 2 条记忆）");
}

#[test]
fn memory_stats_by_type() {
    let mut m = Memory::new(10);
    m.push_entry(at(5, "a", EntryType::User, Importance::Normal));
    m.push_entry(at(7, "b", EntryType::Shell, Importance::Normal));
    m.push_entry(at(9, "c", EntryType::User, Importance::Normal));
    let s = m.stats();
    assert_eq!(s.total_entries, 3);
    assert_eq!(s.type_distribution, vec![(EntryType::User, 2), (EntryType::Shell, 1)]);
    assert_eq!(s.earliest_timestamp_ms, Some(5));
    assert_eq!(s.latest_timestamp_ms, Some(9));
    let a = MemoryAdapterStats::of(&m);
    assert_eq!(a.memory_entries, 3);
}

#[test]
fn memory_batches_for_persistence() {
    let mut m = Memory::new(10).with_persist_batch_size(2);
    assert!(!m.add_with_persist("a".to_string(), EntryType::User, true));
    assert!(!m.add_with_persist("b".to_string(), EntryType::User, false));
    assert!(m.add_with_persist("c".to_string(), EntryType::User, true));
    assert!(m.should_flush());
    let batch = m.take_pending();
    assert_eq!(batch.len(), 2);
    assert_eq!(batch[1].content, "c");
    assert!(!m.should_flush());
    assert_eq!(m.len(), 3);
}

#[test]
fn storage_settings_defaults() {
    let c = MemoryStorageConfig::default();
    assert_eq!(c.capacity, 100);
    assert_eq!(c.auto_persist_interval, 10);
    assert!(!c.enable_compression);
    assert_eq!(c.format, PersistFormat::Json);
    let s = SnapshotMetadata::default();
    assert_eq!(s.total_entries, 0);
    assert!(s.tags.is_empty());
    assert_eq!(Memory::default().capacity(), 100);
}

#[test]
fn working_context_updates() {
    let mut w = WorkingContext::new();
    w.apply(WorkingContextUpdate::CurrentTask("refactor".to_string()));
    w.apply(WorkingContextUpdate::Variable { name: "x".to_string(), value: "1".to_string() });
    w.apply(WorkingContextUpdate::Variable { name: "y".to_string(), value: "2".to_string() });
    w.apply(WorkingContextUpdate::Variable { name: "x".to_string(), value: "3".to_string() });
    w.apply(WorkingContextUpdate::LastCommand("ls".to_string()));
    assert_eq!(w.variable("x").as_deref(), Some("3"));
    assert_eq!(w.variable("y").as_deref(), Some("2"));
    assert_eq!(w.variable("z"), None);
    assert_eq!(w.active_variables.len(), 2);
    assert_eq!(w.current_task.as_deref(), Some("refactor"));
    assert_eq!(w.last_command.as_deref(), Some("ls"));
    let stats = ContextStats { total_entities: 0, total_references: 0, working_context_active: w.current_task.is_some() };
    assert!(stats.working_context_active);
}

#[test]
fn importance_marks_and_labels() {
    assert_eq!(Importance::Normal.symbol(), "");
    assert_eq!(Importance::Important.symbol(), "[*]");
    assert_eq!(Importance::Critical.name(), "Critical");
    assert_eq!(EntryType::Assistant.label(), "ASSISTANT");
}
