use realconsole::migration::{is_blank_line, migrate_entries, migrate_line, MigrationReport};
use realconsole::memory::{EntryType, Importance, Memory, MemoryEntry};

/// The success rate as the report prints it: the share of migrated entries
/// in percent, with one decimal.
fn rate(r: &MigrationReport) -> String {
    let p = if r.total == 0 { 0.0 } else { (r.migrated as f64 / r.total as f64) * 100.0 };
    format!("{:.1}", p)
}

#[test]
fn test_migration_report_new() {
    let report = MigrationReport::new();
    assert_eq!(report.total, 0);
    assert_eq!(report.migrated, 0);
    assert_eq!(report.skipped, 0);
    assert_eq!(report.failed, 0);
}

#[test]
fn test_migration_report_record() {
    let mut report = MigrationReport::new();

    report.record_success();
    assert_eq!(report.total, 1);
    assert_eq!(report.migrated, 1);

    report.record_skip("test".to_string());
    assert_eq!(report.total, 2);
    assert_eq!(report.skipped, 1);

    report.record_failure("error".to_string());
    assert_eq!(report.total, 3);
    assert_eq!(report.failed, 1);
}

#[test]
fn test_migration_report_format() {
    let mut report = MigrationReport::new();
    report.record_success();
    report.record_success();
    report.record_failure("test error".to_string());

    let formatted = report.format(&rate(&report));
    assert!(formatted.contains("总条目数: 3"));
    assert!(formatted.contains("成功迁移: 2"));
    assert!(formatted.contains("失败: 1"));
    assert!(formatted.contains("test error"));
}

#[test]
fn migration_report_rate_is_printed_as_given() {
    let mut report = MigrationReport::new();
    for _ in 0..23 {
        report.record_success();
    }
    for i in 0..57 {
        report.record_failure(format!("e{}", i));
    }
    assert_eq!(rate(&report), "28.7");
    assert!(report.format(&rate(&report)).contains("成功率: 28.7%"));
}

#[test]
fn migration_report_full_text() {
    let mut report = MigrationReport::new();
    report.record_success();
    report.record_success();
    report.record_skip("empty".to_string());
    let expected = "━━━━━ Memory 数据迁移报告 ━━━━━\n总条目数: 3\n✅ 成功迁移: 2\n⏭️  跳过: 1\n成功率: 66.7%\n\n错误详情:\n  1. Skipped: empty\n━━━━━━━━━━━━━━━━━━━━━━━━";
    assert_eq!(report.format(&rate(&report)), expected);
}

#[test]
fn migration_report_lists_at_most_ten_errors() {
    let mut report = MigrationReport::new();
    for i in 0..12 {
        report.record_failure(format!("e{}", i));
    }
    let text = report.format(&rate(&report));
    assert!(text.contains("  10. Failed: e9"));
    assert!(!text.contains("Failed: e10"));
    assert!(text.contains("  ... 还有 2 个错误"));
    assert!(text.contains("成功率: 0.0%"));
    assert!(!report.is_success());
}

#[test]
fn migration_success_needs_migrations_and_no_failures() {
    let mut report = MigrationReport::default();
    assert!(!report.is_success());
    report.record_success();
    assert!(report.is_success());
    report.record_skip("s".to_string());
    assert!(report.is_success());
}

#[test]
fn migrate_lines_skip_blank_fail_unparsed_and_remember_parsed() {
    let mut report = MigrationReport::new();
    let mut memory = Memory::new(10);
    let entry = MemoryEntry {
        timestamp_ms: 1_700_000_000_000,
        entry_type: EntryType::User,
        content: "hello".to_string(),
        importance: Importance::Important,
    };
    migrate_line(&mut report, &mut memory, 1, "{\"content\":\"hello\"}", Ok(entry));
    migrate_line(&mut report, &mut memory, 2, "   ", Err(String::new()));
    migrate_line(&mut report, &mut memory, 3, "not json", Err("expected value".to_string()));
    assert_eq!(report.total, 3);
    assert_eq!(report.migrated, 1);
    assert_eq!(report.skipped, 1);
    assert_eq!(report.failed, 1);
    assert_eq!(report.errors[0], "Skipped: 行 2: 空行");
    assert_eq!(report.errors[1], "Failed: 行 3: JSON 解析失败: expected value");
    assert_eq!(memory.len(), 1);
    assert_eq!(memory.dump()[0].content, "hello");
}

#[test]
fn blank_lines_are_white_space_only() {
    assert!(is_blank_line(""));
    assert!(is_blank_line(" \t "));
    assert!(!is_blank_line(" x "));
}

#[test]
fn report_with_more_migrated_than_seen_still_formats() {
    let r = MigrationReport { total: 1, migrated: 3, skipped: 0, failed: 0, errors: vec![] };
    assert!(r.format(&rate(&r)).contains("成功率: 300.0%"));
}

#[test]
fn migrate_entries_remembers_each_in_order() {
    let mut memory = Memory::new(2);
    let e = |c: &str| MemoryEntry { timestamp_ms: 0, entry_type: EntryType::User, content: c.to_string(), importance: Importance::Normal };
    let report = migrate_entries(&mut memory, vec![e("a"), e("b"), e("c")]);
    assert_eq!(report.total, 3);
    assert_eq!(report.migrated, 3);
    assert!(report.is_success());
    let kept: Vec<&str> = memory.dump().iter().map(|m| m.content.as_str()).collect();
    assert_eq!(kept, vec!["b", "c"]);
}
