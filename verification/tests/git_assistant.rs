use realconsole::git_assistant::{parse_ahead_behind, porcelain_counts, ChangeAnalysis, CommitMessage, GitRepository, GitStatus};

#[test]
fn test_commit_message_format() {
    let msg = CommitMessage {
        commit_type: "feat".to_string(),
        scope: Some("git".to_string()),
        subject: "add git smart assistant".to_string(),
        body: Some("Implement intelligent Git operations".to_string()),
        footer: Some("Closes #123".to_string()),
    };

    let formatted = msg.format();
    assert!(formatted.contains("feat(git): add git smart assistant"));
    assert!(formatted.contains("Implement intelligent Git operations"));
    assert!(formatted.contains("Closes #123"));
}

#[test]
fn test_commit_message_format_no_scope() {
    let msg = CommitMessage {
        commit_type: "fix".to_string(),
        scope: None,
        subject: "fix bug".to_string(),
        body: None,
        footer: None,
    };

    let formatted = msg.format();
    assert_eq!(formatted, "fix: fix bug");
}

#[test]
fn test_change_analysis_infer_docs() {
    let mut analysis = ChangeAnalysis {
        doc_files: 2,
        rust_files: 0,
        additions: 10,
        ..Default::default()
    };

    analysis.infer_change_type();
    assert_eq!(analysis.suggested_commit_type(), "docs");
}

#[test]
fn test_change_analysis_infer_feat() {
    let mut analysis = ChangeAnalysis {
        rust_files: 1,
        has_new_functions: true,
        additions: 100,
        deletions: 10,
        ..Default::default()
    };

    analysis.infer_change_type();
    assert_eq!(analysis.suggested_commit_type(), "feat");
}

#[test]
fn commit_message_full_layout() {
    let msg = CommitMessage {
        commit_type: "feat".to_string(),
        scope: Some("git".to_string()),
        subject: "s".to_string(),
        body: Some("b".to_string()),
        footer: Some("f".to_string()),
    };
    assert_eq!(msg.format(), "feat(git): s\n\nb\n\nf");
}

#[test]
fn commit_message_footer_without_body() {
    let msg = CommitMessage {
        commit_type: "fix".to_string(),
        scope: None,
        subject: "s".to_string(),
        body: None,
        footer: Some("f".to_string()),
    };
    assert_eq!(msg.format(), "fix: s\n\nf");
}

#[test]
fn porcelain_counts_by_column() {
    let out = "M  staged.rs\n M changed.rs\nMM both.rs\n?? new.rs\n";
    assert_eq!(porcelain_counts(out), (2, 2, 1));
}

#[test]
fn porcelain_ignores_short_lines() {
    assert_eq!(porcelain_counts("M\n\n"), (0, 0, 0));
}

#[test]
fn ahead_behind_two_counts() {
    assert_eq!(parse_ahead_behind("3\t5\n"), (3, 5));
    assert_eq!(parse_ahead_behind("3"), (0, 0));
    assert_eq!(parse_ahead_behind("x 2"), (0, 2));
}

#[test]
fn status_from_parts_has_changes() {
    let s = GitStatus::from_parts(Some("main".to_string()), None, "?? a\n", 1, 0);
    assert!(s.has_changes);
    assert_eq!(s.untracked_files, 1);
    assert_eq!(s.ahead, 1);
    let clean = GitStatus::from_parts(None, None, "", 0, 0);
    assert!(!clean.has_changes);
}

#[test]
fn repository_needs_git_dir() {
    assert!(GitRepository::new("/tmp/x".to_string(), false).is_err());
    let repo = GitRepository::new("/tmp/x".to_string(), true).unwrap();
    assert_eq!(repo.root(), "/tmp/x");
}

#[test]
fn analyze_changes_counts_diff() {
    let repo = GitRepository::new("/r".to_string(), true).unwrap();
    let diff = "diff --git a/src/lib.rs b/src/lib.rs\n+++ b/src/lib.rs\n+pub fn added() {}\n-old line\n";
    let a = repo.analyze_changes(diff);
    assert_eq!(a.rust_files, 1);
    assert!(a.has_new_functions);
    assert_eq!(a.additions, 1);
    assert_eq!(a.deletions, 1);
}

#[test]
fn suggested_type_defaults_to_chore() {
    let analysis = ChangeAnalysis::default();
    assert_eq!(analysis.suggested_commit_type(), "chore");
}
