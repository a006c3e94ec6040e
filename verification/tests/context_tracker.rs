use realconsole::context_tracker::{ContextTracker, Entity, EntityExtractor, EntityType};
use realconsole::memory::WorkingContextUpdate;

fn file(path: &str) -> EntityType {
    EntityType::File(path.to_string())
}

#[test]
fn test_entity_type_display_name() {
    let file = EntityType::File("/tmp/test.txt".to_string());
    assert_eq!(file.display_name(), "/tmp/test.txt");

    let var = EntityType::Variable {
        name: "name".to_string(),
        value: "Alice".to_string(),
    };
    assert_eq!(var.display_name(), "name = Alice");
}

#[test]
fn test_entity_creation() {
    let entity = Entity::new(file("test.txt"), "查看 test.txt".to_string(), 90);

    assert_eq!(entity.mention_count, 1);
    assert_eq!(entity.confidence, 90);
}

#[test]
fn test_context_tracker_record_entity() {
    let mut tracker = ContextTracker::new();

    let entity = Entity::new(file("main.rs"), "查看 main.rs".to_string(), 90);

    tracker.record_entity(entity);

    assert_eq!(tracker.stats().total_entities, 1);
}

#[test]
fn test_context_tracker_duplicate_entity() {
    let mut tracker = ContextTracker::new();

    let entity1 = Entity::new(file("test.txt"), "第一次提及".to_string(), 90);
    let entity2 = Entity::new(file("test.txt"), "第二次提及".to_string(), 90);

    tracker.record_entity(entity1);
    tracker.record_entity(entity2);

    // 应该只有一个实体，但提及次数为 2
    assert_eq!(tracker.stats().total_entities, 1);

    let entities = tracker.get_all_entities();
    assert_eq!(entities[0].mention_count, 2);
}

#[test]
fn test_resolve_reference() {
    let mut tracker = ContextTracker::new();

    let file_entity = Entity::new(file("config.yaml"), "查看 config.yaml".to_string(), 90);
    tracker.record_entity(file_entity);

    let resolved = tracker.resolve_reference("它");
    assert!(resolved.is_some());

    let entity = resolved.unwrap();
    assert!(matches!(entity.entity_type, EntityType::File(_)));

    assert_eq!(tracker.reference_history().len(), 1);
    assert_eq!(tracker.reference_history()[0].pronoun, "它");
}

#[test]
fn test_resolve_specific_reference() {
    let mut tracker = ContextTracker::new();

    tracker.record_entity(Entity::new(file("test.txt"), "test".to_string(), 90));
    tracker.record_entity(Entity::new(EntityType::Directory("/tmp/".to_string()), "dir".to_string(), 90));

    let resolved = tracker.resolve_reference("这个文件");
    assert!(resolved.is_some());

    let entity = resolved.unwrap();
    assert!(matches!(entity.entity_type, EntityType::File(_)));
}

#[test]
fn test_entity_extractor() {
    let extractor = EntityExtractor::new();

    let text = "请查看 src/main.rs 文件，位于 /home/user/ 目录";
    let entities = extractor.extract(text);

    assert!(!entities.is_empty());

    let has_file = entities.iter().any(|e| matches!(&e.entity_type, EntityType::File(_)));
    assert!(has_file);
}

#[test]
fn test_entity_extractor_url() {
    let extractor = EntityExtractor::new();

    let text = "访问 https://example.com 获取更多信息";
    let entities = extractor.extract(text);

    let has_url = entities.iter().any(|e| matches!(&e.entity_type, EntityType::Url(_)));
    assert!(has_url);
}

#[test]
fn test_working_context_update() {
    let mut tracker = ContextTracker::new();

    tracker.update_working_context(WorkingContextUpdate::CurrentDirectory("/home/user".to_string()));

    tracker.update_working_context(WorkingContextUpdate::Variable {
        name: "PATH".to_string(),
        value: "/usr/bin".to_string(),
    });

    assert!(tracker.working_context().current_directory.is_some());
    assert_eq!(tracker.working_context().variable("PATH"), Some("/usr/bin".to_string()));
}

#[test]
fn test_context_tracker_clear() {
    let mut tracker = ContextTracker::new();

    tracker.record_entity(Entity::new(file("test.txt"), "test".to_string(), 90));

    tracker.clear();

    assert_eq!(tracker.stats().total_entities, 0);
    assert_eq!(tracker.stats().total_references, 0);
}

#[test]
fn extraction_lists_files_then_uncovered_directories_then_urls() {
    let extractor = EntityExtractor::new();
    let text = "看 src/main.rs 和 src/ 以及 docs/ 见 https://example.com/a";
    let found: Vec<(String, u8)> = extractor
        .extract(text)
        .iter()
        .map(|e| (e.entity_type.display_name(), e.confidence))
        .collect();
    assert_eq!(
        found,
        vec![
            ("src/main.rs".to_string(), 90),
            ("docs/".to_string(), 80),
            ("https://example.com/a".to_string(), 95),
        ]
    );
    for e in extractor.extract(text) {
        assert_eq!(e.mention_count, 1);
        assert_eq!(e.context, text);
    }
}

#[test]
fn numbers_are_matched_as_written() {
    let extractor = EntityExtractor::new();
    assert_eq!(extractor.number_matches("端口 8080 和 3.50 版"), vec!["8080", "3.50"]);
    assert!(extractor.number_matches("没有数字").is_empty());
}

#[test]
fn type_labels() {
    assert_eq!(file("a").type_label(), "文件");
    assert_eq!(EntityType::Directory("d/".to_string()).type_label(), "目录");
    assert_eq!(EntityType::Command("ls".to_string()).type_label(), "命令");
    assert_eq!(EntityType::Number("7".to_string()).type_label(), "数字");
    assert_eq!(EntityType::Url("u".to_string()).type_label(), "URL");
}

#[test]
fn recording_moves_an_entity_to_the_front() {
    let mut tracker = ContextTracker::new();
    tracker.record_entity(Entity::new(file("a.txt"), "one".to_string(), 90));
    tracker.record_entity(Entity::new(file("b.txt"), "two".to_string(), 90));
    tracker.record_entity(Entity::new(file("a.txt"), "three".to_string(), 90));
    let names: Vec<String> = tracker.get_all_entities().iter().map(|e| e.entity_type.display_name()).collect();
    assert_eq!(names, vec!["a.txt", "b.txt"]);
    let first = &tracker.get_all_entities()[0];
    assert_eq!(first.mention_count, 2);
    assert_eq!(first.context, "three");
}

#[test]
fn at_most_fifty_entities_are_kept() {
    let mut tracker = ContextTracker::new();
    let entities: Vec<Entity> = (0..55).map(|i| Entity::new(file(&format!("f{}.txt", i)), "x".to_string(), 90)).collect();
    tracker.record_entities(entities);
    assert_eq!(tracker.stats().total_entities, 50);
    let all = tracker.get_all_entities();
    assert_eq!(all[0].entity_type.display_name(), "f54.txt");
    assert_eq!(all[49].entity_type.display_name(), "f5.txt");
}

#[test]
fn pronouns_pick_the_kind_they_name() {
    let mut tracker = ContextTracker::new();
    tracker.record_entity(Entity::new(EntityType::Command("cargo build".to_string()), "c".to_string(), 90));
    tracker.record_entity(Entity::new(file("x.rs"), "f".to_string(), 90));
    tracker.record_entity(Entity::new(EntityType::Directory("src/".to_string()), "d".to_string(), 80));
    assert_eq!(tracker.resolve_reference("IT").unwrap().entity_type.display_name(), "src/");
    assert_eq!(tracker.resolve_reference("this file").unwrap().entity_type.display_name(), "x.rs");
    assert_eq!(tracker.resolve_reference("该目录").unwrap().entity_type.display_name(), "src/");
    assert_eq!(tracker.resolve_reference("Last Command").unwrap().entity_type.display_name(), "cargo build");
    assert!(tracker.resolve_reference("那边").is_none());
    assert_eq!(tracker.reference_history().len(), 4);
}

#[test]
fn other_pronouns_fall_back_to_the_working_file() {
    let mut tracker = ContextTracker::new();
    tracker.update_working_context(WorkingContextUpdate::LastFile("notes.md".to_string()));
    let e = tracker.resolve_reference("那个").unwrap();
    assert_eq!(e.entity_type, EntityType::File("notes.md".to_string()));
    assert_eq!(e.context, "工作上下文");
    assert_eq!(e.confidence, 80);
    assert_eq!(e.mention_count, 1);
}

#[test]
fn reference_history_keeps_the_last_twenty() {
    let mut tracker = ContextTracker::new();
    tracker.record_entity(Entity::new(file("a.txt"), "a".to_string(), 90));
    for i in 0..25 {
        let p = if i % 2 == 0 { "它" } else { "it" };
        assert!(tracker.resolve_reference(p).is_some());
    }
    assert_eq!(tracker.reference_history().len(), 20);
    assert_eq!(tracker.reference_history()[19].pronoun, "它");
    assert_eq!(tracker.reference_history()[0].pronoun, "it");
    tracker.update_working_context(WorkingContextUpdate::CurrentTask("refactor".to_string()));
    assert!(tracker.stats().working_context_active);
    assert_eq!(tracker.stats().total_references, 20);
}
