use realconsole::history::{sort_by_frequency, sort_by_time, HistoryEntry, HistoryManager, HistoryStats, SortStrategy};

#[test]
fn test_history_entry_creation() {
    let entry = HistoryEntry::new("ls -la".to_string());
    assert_eq!(entry.command, "ls -la");
    assert_eq!(entry.count, 1);
    assert!(entry.last_success);
}

#[test]
fn history_entry_update_counts() {
    let mut entry = HistoryEntry::new("echo hello".to_string());
    entry.update(false);
    assert_eq!(entry.count, 2);
    assert!(!entry.last_success);
}

#[test]
fn history_add_updates_existing() {
    let mut m = HistoryManager::new("/tmp/h.json".to_string(), 100);
    assert!(!m.add("ls".to_string(), true));
    assert_eq!(m.entries().len(), 1);
    m.add("ls".to_string(), true);
    assert_eq!(m.entries().len(), 1);
    assert_eq!(m.entries()[0].count, 2);
}

#[test]
fn history_ignores_blank_and_slash_commands() {
    let mut m = HistoryManager::new("/tmp/h.json".to_string(), 100);
    m.add("   ".to_string(), true);
    m.add("/help".to_string(), true);
    assert!(m.entries().is_empty());
}

#[test]
fn history_search_and_delete() {
    let mut m = HistoryManager::new("/tmp/h.json".to_string(), 100);
    m.add("git status".to_string(), true);
    m.add("git log".to_string(), true);
    m.add("ls -la".to_string(), true);
    assert_eq!(m.matching("GIT").len(), 2);
    assert!(m.delete("git log"));
    assert!(!m.delete("git log"));
    assert_eq!(m.matching("git").len(), 1);
}

#[test]
fn history_stats_counts() {
    let mut m = HistoryManager::new("/tmp/h.json".to_string(), 100);
    m.add("cmd1".to_string(), true);
    m.add("cmd2".to_string(), true);
    m.add("cmd1".to_string(), true);
    let stats: HistoryStats = m.stats();
    assert_eq!(stats.total_entries, 2);
    assert_eq!(stats.total_executions, 3);
    assert_eq!(stats.unique_commands, 2);
}

#[test]
fn history_reports_need_to_prune() {
    let mut m = HistoryManager::new("/tmp/h.json".to_string(), 2);
    assert!(!m.add("a".to_string(), true));
    assert!(!m.add("b".to_string(), true));
    assert!(m.add("c".to_string(), true));
    m.retain_in_order(&[2, 0, 1]);
    let cmds: Vec<&str> = m.entries().iter().map(|e| e.command.as_str()).collect();
    assert_eq!(cmds, vec!["c", "a"]);
}

fn e(cmd: &str, ts: i64, count: u32) -> HistoryEntry {
    HistoryEntry { command: cmd.to_string(), first_timestamp_ms: 0, last_timestamp_ms: ts, count, last_success: true }
}

#[test]
fn history_orderings() {
    let v = vec![e("old_frequent", 1, 11), e("new_rare", 5, 1), e("mid", 3, 4)];
    let t: Vec<String> = sort_by_time(v.clone()).into_iter().map(|x| x.command).collect();
    assert_eq!(t, vec!["new_rare", "mid", "old_frequent"]);
    let f: Vec<String> = sort_by_frequency(v).into_iter().map(|x| x.command).collect();
    assert_eq!(f, vec!["old_frequent", "mid", "new_rare"]);
    assert_ne!(SortStrategy::Time, SortStrategy::Smart);
}

#[test]
fn history_loaded_duplicates_count_once() {
    let mut m = HistoryManager::new("/tmp/h.json".to_string(), 100);
    m.load_entries(vec![e("a", 1, 1), e("b", 1, 2), e("a", 2, 3)]);
    let s = m.stats();
    assert_eq!(s.total_entries, 3);
    assert_eq!(s.unique_commands, 2);
    assert_eq!(s.total_executions, 6);
    m.add("a".to_string(), true);
    assert_eq!(m.entries()[2].count, 4);
    assert_eq!(m.entries()[0].count, 1);
}

#[test]
fn test_history_manager_add() {
    let mut manager = HistoryManager::new("test_history.json".to_string(), 100);

    manager.add("ls".to_string(), true);
    assert_eq!(manager.entries().len(), 1);

    manager.add("ls".to_string(), true);
    assert_eq!(manager.entries().len(), 1);
    assert_eq!(manager.entries()[0].count, 2);
}

#[test]
fn test_history_manager_search() {
    let mut manager = HistoryManager::new("test_history_search.json".to_string(), 100);

    manager.add("git status".to_string(), true);
    manager.add("git log".to_string(), true);
    manager.add("ls -la".to_string(), true);

    let results = sort_by_time(manager.matching("git"));
    assert_eq!(results.len(), 2);
}

#[test]
fn test_history_manager_delete() {
    let mut manager = HistoryManager::new("test_history_delete.json".to_string(), 100);

    manager.add("test command".to_string(), true);
    assert_eq!(manager.entries().len(), 1);

    let deleted = manager.delete("test command");
    assert!(deleted);
    assert_eq!(manager.entries().len(), 0);
}

#[test]
fn test_history_manager_stats() {
    let mut manager = HistoryManager::new("test_history_stats.json".to_string(), 100);

    manager.add("cmd1".to_string(), true);
    manager.add("cmd2".to_string(), true);
    manager.add("cmd1".to_string(), true);

    let stats = manager.stats();
    assert_eq!(stats.total_entries, 2);
    assert_eq!(stats.total_executions, 3);
    assert_eq!(stats.unique_commands, 2);
}
