use sentio_memory::model::{FollowUp, Task, UserModelHypothesis};
use sentio_memory::store::TimeRange;
use sentio_memory::{
    FieldValue, InteractionLog, MemoryCorpus, MemoryError, MemoryFragment, MemoryQuery, MemoryType,
    MessageDirection, SnapshotStore,
};

fn log_at(user: &str, id: &str, ts: i64, summary: &str) -> InteractionLog {
    InteractionLog::with_id(
        id.to_string(),
        ts,
        user.to_string(),
        MessageDirection::Inbound,
        summary.to_string(),
    )
}

fn fragment(id: &str, user: &str, content: &str, kind: MemoryType, at: i64) -> MemoryFragment {
    MemoryFragment {
        id: id.to_string(),
        user_id: user.to_string(),
        memory_type: kind,
        content: content.to_string(),
        tags: Vec::new(),
        created_at: at,
        importance_permille: 500,
        source_id: None,
    }
}

#[test]
fn test_interaction_log_creation() {
    let interaction = InteractionLog::new(
        "test_user_123".to_string(),
        MessageDirection::Inbound,
        "这是一个测试消息".to_string(),
    );

    assert_eq!(interaction.user_id, "test_user_123");
    assert!(matches!(interaction.direction, MessageDirection::Inbound));
    assert_eq!(interaction.summary, "这是一个测试消息");
    assert!(!interaction.log_id.is_empty());
    assert_eq!(interaction.log_id.len(), 36);
    assert_eq!(interaction.llm_model_version, "demo");

    let now = chrono::Utc::now().timestamp_millis();
    assert!(now - interaction.timestamp < 5000);
}

#[test]
fn test_memory_corpus_creation() {
    let mut corpus = MemoryCorpus::default();
    corpus.user_id = "test_user@example.com".to_string();
    corpus.version = "1.0".to_string();

    assert_eq!(corpus.user_id, "test_user@example.com");
    assert_eq!(corpus.version, "1.0");
    assert_eq!(corpus.episodic_memory.interaction_log.len(), 0);
}

#[test]
fn test_memory_data_repository_save_and_get_corpus() {
    let mut repo = SnapshotStore::new();
    let user_id = "test_user_save_get";
    let corpus = MemoryCorpus::new(user_id.to_string());
    repo.save_memory_corpus(corpus, 1_000).unwrap();
    let retrieved = repo.get_memory_corpus(user_id).unwrap();
    assert_eq!(retrieved.user_id, user_id);
}

#[test]
fn test_memory_data_repository_update_corpus() {
    let mut repo = SnapshotStore::new();
    let user_id = "test_user_update";
    let mut corpus = MemoryCorpus::new(user_id.to_string());
    corpus.core_profile.name = Some("Old Name".to_string());
    repo.save_memory_corpus(corpus, 1_000).unwrap();

    let updates = vec![
        ("core_profile.name".to_string(), FieldValue::Text("New Name".to_string())),
        ("core_profile.age".to_string(), FieldValue::Unsigned(30)),
    ];
    repo.update_memory_corpus(user_id, updates, 2_000).unwrap();

    let updated = repo.get_memory_corpus(user_id).unwrap();
    assert_eq!(updated.core_profile.name, Some("New Name".to_string()));
    assert_eq!(updated.core_profile.age, Some(30));
}

#[test]
fn test_memory_data_repository_get_user_statistics() {
    let mut repo = SnapshotStore::new();
    let user_id = "test_user_stats";
    let corpus = MemoryCorpus::new_at(user_id.to_string(), 5_000);
    let created_at = corpus.created_at;
    repo.save_memory_corpus(corpus, 5_000).unwrap();

    let stats = repo.get_user_statistics(user_id, 9_000);
    assert_eq!(stats.user_id, user_id);
    assert_eq!(stats.account_created, created_at);
    assert_eq!(stats.first_interaction, 9_000);
    assert_eq!(stats.last_interaction, 9_000);
}

#[test]
fn test_memory_data_repository_delete_user_data() {
    let mut repo = SnapshotStore::new();
    let user_id = "test_user_delete";
    repo.save_memory_corpus(MemoryCorpus::new(user_id.to_string()), 1_000).unwrap();
    assert!(repo.get_memory_corpus(user_id).is_some());
    repo.delete_user_data(user_id).unwrap();
    assert!(repo.get_memory_corpus(user_id).is_none());
}

#[test]
fn test_mock_repository_basic_operations() {
    let mut repo = SnapshotStore::new();
    let interaction = InteractionLog::new(
        "mock_user".to_string(),
        MessageDirection::Inbound,
        "模拟测试消息".to_string(),
    );
    repo.save_interaction(&interaction.user_id, interaction.clone()).unwrap();
    let retrieved = repo.get_recent_interactions(&interaction.user_id, 10);
    assert_eq!(retrieved.len(), 1);
    assert_eq!(retrieved[0].user_id, interaction.user_id);
    assert_eq!(retrieved[0].summary, interaction.summary);
    assert!(repo.health_check());
}

#[test]
fn round_trip_keeps_user_and_version() {
    let mut repo = SnapshotStore::new();
    let mut corpus = MemoryCorpus::new_at("alice@example.com".to_string(), 100);
    corpus.version = "3.2".to_string();
    repo.save_memory_corpus(corpus, 500).unwrap();
    let got = repo.get_memory_corpus("alice@example.com").unwrap();
    assert_eq!(got.user_id, "alice@example.com");
    assert_eq!(got.version, "3.2");
    assert_eq!(got.updated_at, 500);
}

#[test]
fn saving_again_replaces_the_corpus() {
    let mut repo = SnapshotStore::new();
    repo.save_memory_corpus(MemoryCorpus::new_at("u1".to_string(), 1), 1).unwrap();
    repo.save_memory_corpus(MemoryCorpus::new_at("u2".to_string(), 1), 1).unwrap();
    let mut newer = MemoryCorpus::new_at("u1".to_string(), 1);
    newer.version = "9".to_string();
    repo.save_memory_corpus(newer, 2).unwrap();
    assert_eq!(repo.corpora().len(), 2);
    assert_eq!(repo.get_memory_corpus("u1").unwrap().version, "9");
    assert_eq!(repo.get_memory_corpus("u2").unwrap().version, "1.0");
}

#[test]
fn save_rejects_invalid_corpora() {
    let mut repo = SnapshotStore::new();
    let empty_id = MemoryCorpus::new_at(String::new(), 1);
    assert!(matches!(repo.save_memory_corpus(empty_id, 1), Err(MemoryError::ValidationError { .. })));
    let long_id = MemoryCorpus::new_at("x".repeat(256), 1);
    assert!(matches!(repo.save_memory_corpus(long_id, 1), Err(MemoryError::ValidationError { .. })));
    let ok_long = MemoryCorpus::new_at("x".repeat(255), 1);
    assert!(repo.save_memory_corpus(ok_long, 1).is_ok());
    let opaque_id = MemoryCorpus::new_at("a@b".to_string(), 1);
    assert!(repo.save_memory_corpus(opaque_id, 1).is_ok());
    assert!(repo.get_memory_corpus("a@b").is_some());
    let mut no_version = MemoryCorpus::new_at("u".to_string(), 1);
    no_version.version = String::new();
    assert!(matches!(repo.save_memory_corpus(no_version, 1), Err(MemoryError::ValidationError { .. })));
    let mut backwards = MemoryCorpus::new_at("u".to_string(), 10);
    backwards.updated_at = 5;
    assert!(matches!(repo.save_memory_corpus(backwards, 20), Err(MemoryError::ValidationError { .. })));
}

#[test]
fn update_visibility_and_clock() {
    let mut repo = SnapshotStore::new();
    repo.save_memory_corpus(MemoryCorpus::new_at("bob".to_string(), 1_000), 1_000).unwrap();
    let updates = vec![("core_profile.name".to_string(), FieldValue::Text("Alice".to_string()))];
    repo.update_memory_corpus("bob", updates, 1_000).unwrap();
    let got = repo.get_memory_corpus("bob").unwrap();
    assert_eq!(got.core_profile.name.as_deref(), Some("Alice"));
    assert_eq!(got.updated_at, 1_001);
}

#[test]
fn update_errors() {
    let mut repo = SnapshotStore::new();
    let ups = || vec![("core_profile.city".to_string(), FieldValue::Text("Paris".to_string()))];
    assert!(matches!(
        repo.update_memory_corpus("nobody", ups(), 1),
        Err(MemoryError::DocumentNotFound { .. })
    ));
    repo.save_memory_corpus(MemoryCorpus::new_at("carol".to_string(), 1), 1).unwrap();
    assert!(matches!(
        repo.update_memory_corpus("carol", Vec::new(), 1),
        Err(MemoryError::ValidationError { .. })
    ));
    assert!(matches!(repo.update_memory_corpus("", ups(), 1), Err(MemoryError::ValidationError { .. })));
    match repo.update_memory_corpus("nobody", ups(), 1) {
        Err(MemoryError::DocumentNotFound { document_type, id }) => {
            assert_eq!(document_type, "MemoryCorpus");
            assert_eq!(id, "nobody");
        }
        other => panic!("unexpected {:?}", other),
    }
    match repo.update_memory_corpus("carol", Vec::new(), 1) {
        Err(MemoryError::ValidationError { field, .. }) => assert_eq!(field, "updates"),
        other => panic!("unexpected {:?}", other),
    }
    let skipped = vec![
        ("core_profile.unknown".to_string(), FieldValue::Text("x".to_string())),
        ("core_profile.age".to_string(), FieldValue::Text("old".to_string())),
        ("core_profile.occupation".to_string(), FieldValue::Text("baker".to_string())),
        ("core_profile.current_life_summary".to_string(), FieldValue::Other),
    ];
    repo.update_memory_corpus("carol", skipped, 5).unwrap();
    let got = repo.get_memory_corpus("carol").unwrap();
    assert_eq!(got.core_profile.age, None);
    assert_eq!(got.core_profile.occupation.as_deref(), Some("baker"));
    assert_eq!(got.core_profile.current_life_summary, None);
    assert_eq!(got.updated_at, 5);
}

#[test]
fn deletion_completeness() {
    let mut repo = SnapshotStore::new();
    repo.save_memory_corpus(MemoryCorpus::new_at("dan".to_string(), 1), 1).unwrap();
    repo.save_memory_corpus(MemoryCorpus::new_at("eve".to_string(), 1), 1).unwrap();
    repo.save_interaction("dan", log_at("dan", "l1", 10, "hi")).unwrap();
    repo.save_interaction("eve", log_at("eve", "l2", 11, "hey")).unwrap();
    repo.add_memory_fragment(fragment("f1", "dan", "likes rust", MemoryType::Semantic, 1)).unwrap();
    repo.add_memory_fragment(fragment("f2", "eve", "likes rust too", MemoryType::Semantic, 1)).unwrap();

    repo.delete_user_data("dan").unwrap();
    assert!(repo.get_memory_corpus("dan").is_none());
    assert!(repo.get_recent_interactions("dan", 10).is_empty());
    let q = MemoryQuery::simple_text_search("rust".to_string(), "dan".to_string());
    assert!(repo.search_memories(&q).is_empty());

    assert!(repo.get_memory_corpus("eve").is_some());
    assert_eq!(repo.get_recent_interactions("eve", 10).len(), 1);
    let q = MemoryQuery::simple_text_search("rust".to_string(), "eve".to_string());
    assert_eq!(repo.search_memories(&q).len(), 1);

    repo.delete_user_data("nobody").unwrap();
    assert_eq!(repo.corpora().len(), 1);
}

#[test]
fn recency_ordering() {
    let mut repo = SnapshotStore::new();
    repo.save_interaction("fay", log_at("fay", "i1", 100, "first")).unwrap();
    repo.save_interaction("fay", log_at("fay", "i2", 200, "second")).unwrap();
    let top = repo.get_recent_interactions("fay", 1);
    assert_eq!(top.len(), 1);
    assert_eq!(top[0].log_id, "i2");

    repo.save_interaction("fay", log_at("fay", "i0", 50, "older")).unwrap();
    repo.save_interaction("fay", log_at("fay", "i3", 200, "same instant")).unwrap();
    let all: Vec<&str> = repo
        .get_recent_interactions("fay", 10)
        .iter()
        .map(|l| l.log_id.as_str())
        .collect();
    assert_eq!(all, vec!["i3", "i2", "i1", "i0"]);
}

#[test]
fn search_correctness() {
    let mut repo = SnapshotStore::new();
    repo.add_memory_fragment(fragment("a1", "userA", "rust programming", MemoryType::Semantic, 1)).unwrap();
    repo.add_memory_fragment(fragment("a2", "userA", "rust language features", MemoryType::Semantic, 2)).unwrap();
    repo.add_memory_fragment(fragment("b1", "userB", "other", MemoryType::Semantic, 3)).unwrap();

    let q = MemoryQuery::simple_text_search("rust programming".to_string(), "userA".to_string());
    let found: Vec<&str> = repo.search_memories(&q).iter().map(|f| f.id.as_str()).collect();
    assert_eq!(found, vec!["a1"]);

    let q = MemoryQuery::simple_text_search("rust".to_string(), "userA".to_string());
    let found: Vec<&str> = repo.search_memories(&q).iter().map(|f| f.id.as_str()).collect();
    assert_eq!(found, vec!["a1", "a2"]);

    let q = MemoryQuery::simple_text_search("other".to_string(), "userA".to_string());
    assert!(repo.search_memories(&q).is_empty());
}

#[test]
fn search_ignores_case_and_applies_filters() {
    let mut repo = SnapshotStore::new();
    repo.add_memory_fragment(fragment("g1", "gus", "Loves RUST Programming", MemoryType::Episodic, 10)).unwrap();
    repo.add_memory_fragment(fragment("g2", "gus", "rust at work", MemoryType::Semantic, 20)).unwrap();
    repo.add_memory_fragment(fragment("h1", "hal", "rust", MemoryType::Episodic, 30)).unwrap();

    let q = MemoryQuery::simple_text_search("  rust   PROGRAMMING ".to_string(), "gus".to_string());
    assert_eq!(repo.search_memories(&q).len(), 1);

    let q = MemoryQuery {
        query_text: "rust".to_string(),
        user_id: None,
        time_range: Some(TimeRange { start: 10, end: 20 }),
        memory_types: vec![MemoryType::Episodic],
        limit: None,
    };
    let found: Vec<&str> = repo.search_memories(&q).iter().map(|f| f.id.as_str()).collect();
    assert_eq!(found, vec!["g1"]);

    let q = MemoryQuery {
        query_text: String::new(),
        user_id: None,
        time_range: None,
        memory_types: Vec::new(),
        limit: Some(2),
    };
    assert_eq!(repo.search_memories(&q).len(), 2);
}

#[test]
fn fragment_importance_is_bounded() {
    let mut repo = SnapshotStore::new();
    let mut f = fragment("z", "zed", "x", MemoryType::Semantic, 1);
    f.importance_permille = 1001;
    assert!(matches!(repo.add_memory_fragment(f), Err(MemoryError::ValidationError { .. })));
    assert!(repo.fragments().is_empty());
}

#[test]
fn statistics_over_interactions_and_fragments() {
    let mut repo = SnapshotStore::new();
    repo.save_interaction("ivy", log_at("ivy", "a", 300, "x")).unwrap();
    repo.save_interaction("ivy", log_at("ivy", "b", 100, "y")).unwrap();
    repo.save_interaction("ivy", log_at("ivy", "c", 200, "z")).unwrap();
    repo.add_memory_fragment(fragment("f1", "ivy", "a", MemoryType::Semantic, 1)).unwrap();
    repo.add_memory_fragment(fragment("f2", "ivy", "b", MemoryType::Semantic, 1)).unwrap();
    repo.add_memory_fragment(fragment("f3", "ivy", "c", MemoryType::ActionState, 1)).unwrap();
    let stats = repo.get_user_statistics("ivy", 999);
    assert_eq!(stats.total_interactions, 3);
    assert_eq!(stats.first_interaction, 100);
    assert_eq!(stats.last_interaction, 300);
    assert_eq!(stats.account_created, 999);
    assert_eq!(stats.total_memories, 3);
    assert_eq!(
        stats.memory_type_distribution,
        vec![(MemoryType::Semantic, 2), (MemoryType::ActionState, 1)]
    );
}

#[test]
fn loading_rejects_duplicate_users() {
    let a = MemoryCorpus::new_at("same".to_string(), 1);
    let b = MemoryCorpus::new_at("same".to_string(), 2);
    assert!(matches!(
        SnapshotStore::from_parts(vec![a.clone(), b], Vec::new(), Vec::new()),
        Err(MemoryError::DeserializationError { .. })
    ));
    let mut backwards = MemoryCorpus::new_at("late".to_string(), 10);
    backwards.updated_at = 5;
    assert!(matches!(
        SnapshotStore::from_parts(vec![backwards], Vec::new(), Vec::new()),
        Err(MemoryError::DeserializationError { .. })
    ));
    let nameless = MemoryCorpus::new_at(String::new(), 1);
    assert!(SnapshotStore::from_parts(vec![nameless], Vec::new(), Vec::new()).is_err());
    let loaded = SnapshotStore::from_parts(vec![a], Vec::new(), Vec::new()).unwrap();
    assert!(loaded.get_memory_corpus("same").is_some());
}

fn task(id: &str, status: &str) -> Task {
    Task {
        task_id: id.to_string(),
        description: format!("task {}", id),
        priority: "high".to_string(),
        status: status.to_string(),
        due_date: None,
        created_at: 1,
        updated_at: 1,
    }
}

#[test]
fn corpus_task_mutators() {
    let mut c = MemoryCorpus::new_at("kim".to_string(), 10);
    c.upsert_task(task("t1", "pending"), 20);
    c.upsert_task(task("t2", "pending"), 30);
    c.upsert_task(task("t1", "in_progress"), 40);
    assert_eq!(c.action_state_memory.current_tasks.len(), 2);
    assert_eq!(c.action_state_memory.current_tasks[0].status, "in_progress");
    assert_eq!(c.updated_at, 40);

    assert!(c.complete_task("t2", 50));
    assert!(!c.complete_task("t9", 60));
    assert_eq!(c.action_state_memory.current_tasks[1].status, "completed");
    assert_eq!(c.action_state_memory.current_tasks[1].updated_at, 50);
    assert_eq!(c.get_tasks(Some("completed")).len(), 1);
    assert_eq!(c.get_tasks(None).len(), 2);
}

#[test]
fn corpus_follow_ups_and_hypotheses() {
    let mut c = MemoryCorpus::new_at("lee".to_string(), 10);
    c.add_follow_up(FollowUp { content: "call".to_string(), suggested_time: 5, importance: 3, resolved: false }, 11);
    c.add_follow_up(FollowUp { content: "done".to_string(), suggested_time: 5, importance: 1, resolved: true }, 12);
    let pending = c.get_pending_follow_ups();
    assert_eq!(pending.len(), 1);
    assert_eq!(pending[0].content, "call");

    let h = UserModelHypothesis {
        hypothesis_id: "h1".to_string(),
        hypothesis: "likes tea".to_string(),
        confidence_permille: 600,
        status: "active".to_string(),
        evidence: vec!["log1".to_string()],
        created_at: 1,
        updated_at: 1,
    };
    c.add_user_hypothesis(h, 13);
    assert_eq!(c.get_active_hypotheses().len(), 1);
    assert!(c.update_hypothesis_status("h1", "refuted".to_string(), vec!["log2".to_string()], 14));
    assert!(c.get_active_hypotheses().is_empty());
    let h = &c.strategic_inferential_memory.user_model_hypotheses[0];
    assert_eq!(h.evidence, vec!["log1".to_string(), "log2".to_string()]);
    assert_eq!(h.updated_at, 14);
    assert!(!c.update_hypothesis_status("nope", "x".to_string(), Vec::new(), 15));
    assert_eq!(c.updated_at, 14);
}

#[test]
fn recent_memories_span() {
    let q = MemoryQuery::recent_memories_at("u".to_string(), 2, 1_000_000_000);
    let range = q.time_range.unwrap();
    assert_eq!(range.start, 1_000_000_000 - 2 * 86_400_000);
    assert_eq!(range.end, 1_000_000_000);
    assert_eq!(q.limit, Some(20));
    assert_eq!(q.memory_types, vec![MemoryType::Episodic]);
}

#[test]
fn default_query_matches_everything() {
    let mut repo = SnapshotStore::new();
    for k in 0..12 {
        repo.add_memory_fragment(fragment(&format!("f{}", k), "u", "anything", MemoryType::Semantic, k)).unwrap();
    }
    let q = MemoryQuery::default();
    assert_eq!(q.limit, Some(10));
    assert_eq!(repo.search_memories(&q).len(), 10);
}
