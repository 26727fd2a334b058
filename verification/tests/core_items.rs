use mom::context_pack::{
    bucket, build_context_pack, content_preview, Bucket, TOKENS_PER_ITEM,
};
use mom::facts::{
    read_provenance_ids, read_superseded_by, read_version, record_semantic_conflict,
    write_provenance_ids, write_superseded_by, write_version, FactPayload, FactValidationError,
    PreferencePayload, PreferenceValidationError, META_FACT, META_PREFERENCE,
    META_SEMANTIC_CONFLICTS,
};
use mom::float::Float;
use mom::json::{parse_json, to_json_text, Json, JsonMap};
use mom::memory::{Content, MemoryId, MemoryItem, MemoryKind, ScopeKey, Scored};
use mom::task::{
    task_tag, CheckpointRecord, TaskParseError, TaskRecord, TaskStatus, META_TASK_ID,
};

fn number(x: f32) -> Float {
    Float(x.to_bits())
}

fn object(fields: Vec<(&str, Json)>) -> JsonMap {
    let mut map = JsonMap::new();
    for (key, value) in fields {
        map.insert(key.to_string(), value);
    }
    map
}

fn json(fields: Vec<(&str, Json)>) -> Json {
    Json::Object(object(fields))
}

fn sample_item(kind: MemoryKind, id: &str, importance: f32) -> Scored<MemoryItem> {
    Scored {
        score: number(importance),
        item: MemoryItem {
            id: MemoryId(id.to_string()),
            scope: ScopeKey {
                tenant_id: "acme".to_string(),
                workspace_id: None,
                project_id: None,
                agent_id: Some("agent-1".to_string()),
                run_id: None,
            },
            kind,
            created_at_ms: 1_700_000_000_000,
            content: Content::Text(format!("content for {id}")),
            tags: vec![],
            importance: number(importance),
            confidence: number(0.9),
            source: "agent".to_string(),
            ttl_ms: None,
            meta: JsonMap::new(),
            embedding: None,
            embedding_model: None,
        },
    }
}

#[test]
fn partitions_by_kind() {
    let items = vec![
        sample_item(MemoryKind::Event, "e1", 0.9),
        sample_item(MemoryKind::Summary, "s1", 0.8),
        sample_item(MemoryKind::Fact, "f1", 0.95),
        sample_item(MemoryKind::Preference, "p1", 0.7),
    ];
    let pack = build_context_pack(items, Some(600));
    assert_eq!(pack.highlights.len(), 1);
    assert_eq!(pack.summaries.len(), 1);
    assert_eq!(pack.facts.len(), 2);
    assert_eq!(pack.citations.len(), 4);
    assert_eq!(pack.estimated_tokens, 4 * TOKENS_PER_ITEM);
}

#[test]
fn respects_token_budget() {
    let items: Vec<_> = (0..10)
        .map(|i| sample_item(MemoryKind::Event, &format!("e{i}"), 0.5))
        .collect();
    let pack = build_context_pack(items, Some(300));
    assert_eq!(pack.highlights.len(), 2);
    assert_eq!(pack.estimated_tokens, 300);
}

#[test]
fn content_preview_truncates() {
    let long = "a".repeat(200);
    let preview = content_preview(&Content::Text(long), 50);
    assert!(preview.chars().count() <= 51);
    assert!(preview.ends_with('…'));
}

#[test]
fn preview_of_short_content_is_the_content() {
    assert_eq!(content_preview(&Content::Text("short".to_string()), 50), "short");
    let data = Content::Json(json(vec![("a", Json::PosInt(1))]));
    assert_eq!(content_preview(&data, 50), "{\"a\":1}");
}

#[test]
fn every_kind_has_its_bucket() {
    assert_eq!(bucket(MemoryKind::Summary), Bucket::Summaries);
    assert_eq!(bucket(MemoryKind::Fact), Bucket::Facts);
    assert_eq!(bucket(MemoryKind::Preference), Bucket::Facts);
    assert_eq!(bucket(MemoryKind::Event), Bucket::Highlights);
    assert_eq!(bucket(MemoryKind::Task), Bucket::Highlights);
    assert_eq!(bucket(MemoryKind::Checkpoint), Bucket::Summaries);
}

fn fact_fields() -> Vec<(&'static str, Json)> {
    vec![
        ("subject", Json::text("users")),
        ("predicate", Json::text("prefer")),
        ("object", Json::text("Cloudflare for deployment")),
    ]
}

#[test]
fn fact_payload_roundtrips_through_meta() {
    let original = FactPayload {
        subject: "api".into(),
        predicate: "rate_limit_per_min".into(),
        object: "1000".into(),
    };
    let mut meta = JsonMap::new();
    original.write_to_meta(&mut meta);
    let recovered = FactPayload::try_from_meta(&meta).expect("roundtrip");
    assert_eq!(recovered, original);
}

#[test]
fn fact_payload_rejects_missing_predicate() {
    let mut fields = fact_fields();
    fields.remove(1);
    let meta = object(vec![(META_FACT, json(fields))]);
    let err = FactPayload::try_from_meta(&meta).unwrap_err();
    assert_eq!(err, FactValidationError::MissingField { field: "predicate" });
}

#[test]
fn fact_payload_rejects_whitespace_only_object() {
    let mut fields = fact_fields();
    fields[2] = ("object", Json::text("   "));
    let meta = object(vec![(META_FACT, json(fields))]);
    let err = FactPayload::try_from_meta(&meta).unwrap_err();
    assert_eq!(err, FactValidationError::Empty { field: "object" });
}

#[test]
fn fact_payload_rejects_non_string_subject() {
    let mut fields = fact_fields();
    fields[0] = ("subject", Json::PosInt(42));
    let meta = object(vec![(META_FACT, json(fields))]);
    let err = FactPayload::try_from_meta(&meta).unwrap_err();
    assert_eq!(err, FactValidationError::NotString { field: "subject" });
}

#[test]
fn fact_payload_must_be_there_and_an_object() {
    let none = FactPayload::try_from_meta(&JsonMap::new()).unwrap_err();
    assert_eq!(none, FactValidationError::MissingPayload);
    let meta = object(vec![(META_FACT, Json::text("users prefer Cloudflare"))]);
    let text = FactPayload::try_from_meta(&meta).unwrap_err();
    assert_eq!(text, FactValidationError::PayloadNotObject);
}

#[test]
fn preference_payload_roundtrips_through_meta() {
    let original = PreferencePayload {
        rule: "retry-policy".into(),
        decision: "retry up to 3 times".into(),
        priority: 100,
        conditions: vec![json(vec![("tool", Json::text("http_fetch"))])],
    };
    let mut meta = JsonMap::new();
    original.write_to_meta(&mut meta);
    let recovered = PreferencePayload::try_from_meta(&meta).expect("roundtrip");
    assert_eq!(recovered.rule, original.rule);
    assert_eq!(recovered.decision, original.decision);
    assert_eq!(recovered.priority, original.priority);
    assert_eq!(recovered.conditions.len(), 1);
    assert_eq!(
        recovered.conditions[0].get("tool").and_then(|t| t.as_text()),
        Some("http_fetch")
    );
    assert_eq!(to_json_text(&recovered.conditions[0]), to_json_text(&original.conditions[0]));
}

#[test]
fn preference_payload_defaults_empty_conditions() {
    let meta = object(vec![(
        META_PREFERENCE,
        json(vec![
            ("rule", Json::text("always-https")),
            ("decision", Json::text("deny http origins")),
            ("priority", Json::PosInt(10)),
        ]),
    )]);
    let parsed = PreferencePayload::try_from_meta(&meta).expect("missing conditions ok");
    assert!(parsed.conditions.is_empty());
}

fn preference(priority: Json) -> JsonMap {
    object(vec![(
        META_PREFERENCE,
        json(vec![
            ("rule", Json::text("r")),
            ("decision", Json::text("d")),
            ("priority", priority),
        ]),
    )])
}

#[test]
fn preference_payload_rejects_negative_priority() {
    let err = PreferencePayload::try_from_meta(&preference(Json::NegInt(-1))).unwrap_err();
    assert_eq!(err, PreferenceValidationError::PriorityOutOfRange(-1));
}

#[test]
fn preference_payload_rejects_what_is_no_preference() {
    let none = PreferencePayload::try_from_meta(&JsonMap::new()).unwrap_err();
    assert_eq!(none, PreferenceValidationError::MissingPayload);
    let list = object(vec![(META_PREFERENCE, Json::List(vec![]))]);
    assert_eq!(
        PreferencePayload::try_from_meta(&list).unwrap_err(),
        PreferenceValidationError::PayloadNotObject
    );
    assert_eq!(
        PreferencePayload::try_from_meta(&preference(Json::text("high"))).unwrap_err(),
        PreferenceValidationError::MissingField { field: "priority" }
    );
    assert_eq!(
        PreferencePayload::try_from_meta(&preference(Json::PosInt(5_000_000_000))).unwrap_err(),
        PreferenceValidationError::PriorityOutOfRange(5_000_000_000)
    );
    let mut fields = vec![
        ("rule", Json::text("r")),
        ("decision", Json::text("d")),
        ("priority", Json::PosInt(1)),
        ("conditions", Json::text("none")),
    ];
    let meta = object(vec![(META_PREFERENCE, json(fields))]);
    assert_eq!(
        PreferencePayload::try_from_meta(&meta).unwrap_err(),
        PreferenceValidationError::ConditionsNotArray
    );
    fields = vec![("rule", Json::text(" ")), ("priority", Json::PosInt(1))];
    let blank = object(vec![(META_PREFERENCE, json(fields))]);
    assert_eq!(
        PreferencePayload::try_from_meta(&blank).unwrap_err(),
        PreferenceValidationError::Empty { field: "rule" }
    );
}

#[test]
fn faults_of_payloads_are_told_in_words() {
    let err = FactPayload::try_from_meta(&JsonMap::new()).unwrap_err();
    assert_eq!(err.to_string(), "Fact meta is missing the `fact` key");
    let err = PreferencePayload::try_from_meta(&preference(Json::NegInt(-1))).unwrap_err();
    assert_eq!(
        err.to_string(),
        "Preference meta `preference.priority` (-1) is not a u32; must be 0..=u32::MAX"
    );
    let wrong = FactValidationError::WrongKind { actual: MemoryKind::Event };
    assert_eq!(wrong.to_string(), "MemoryItem.kind is Event, expected MemoryKind::Fact");
}

#[test]
fn provenance_ids_roundtrip() {
    let mut meta = JsonMap::new();
    let ids = vec![MemoryId("a".into()), MemoryId("b".into())];
    write_provenance_ids(&mut meta, &ids);
    assert_eq!(read_provenance_ids(&meta), ids);
}

#[test]
fn provenance_ids_default_to_empty_on_legacy_items() {
    let meta = JsonMap::new();
    assert!(read_provenance_ids(&meta).is_empty());
}

#[test]
fn version_defaults_to_one_when_absent() {
    let meta = JsonMap::new();
    assert_eq!(read_version(&meta), 1);
}

#[test]
fn version_round_trips() {
    let mut meta = JsonMap::new();
    write_version(&mut meta, 7);
    assert_eq!(read_version(&meta), 7);
}

#[test]
fn superseded_by_roundtrips() {
    let mut meta = JsonMap::new();
    let id = MemoryId("v2".into());
    write_superseded_by(&mut meta, &id);
    assert_eq!(read_superseded_by(&meta), Some(id));
}

#[test]
fn semantic_conflict_advisory_is_idempotent() {
    let mut meta = JsonMap::new();
    let id = MemoryId("conflicting".into());
    record_semantic_conflict(&mut meta, &id);
    record_semantic_conflict(&mut meta, &id);
    let stored = meta
        .get(META_SEMANTIC_CONFLICTS)
        .and_then(|v| v.as_list())
        .expect("should be an array");
    assert_eq!(stored.len(), 1, "duplicate semantic_conflict ids");
}

fn plain_scope() -> ScopeKey {
    ScopeKey {
        tenant_id: "acme".to_string(),
        workspace_id: None,
        project_id: None,
        agent_id: None,
        run_id: None,
    }
}

#[test]
fn test_memory_item_new() {
    let item = MemoryItem::new(
        MemoryId("test-1".to_string()),
        plain_scope(),
        MemoryKind::Event,
        Content::Text("Hello world".to_string()),
        "user".to_string(),
    );

    assert_eq!(item.id.0, "test-1");
    assert_eq!(item.kind, MemoryKind::Event);
    assert_eq!(item.importance, number(0.5));
}

#[test]
fn a_new_item_is_made_now() {
    let before = chrono::Utc::now().timestamp_millis();
    let item = MemoryItem::new(
        MemoryId("now".to_string()),
        plain_scope(),
        MemoryKind::Event,
        Content::Text("x".to_string()),
        "user".to_string(),
    );
    let after = chrono::Utc::now().timestamp_millis();
    assert!(before <= item.created_at_ms && item.created_at_ms <= after);
}

fn kind_json(kind: MemoryKind) -> String {
    to_json_text(&Json::text(kind.as_str()))
}

fn kind_in(text: &str) -> MemoryKind {
    let value = parse_json(text).unwrap();
    MemoryKind::from_str(value.as_text().unwrap()).unwrap()
}

#[test]
fn test_memory_kind_task_serializes_lowercase() {
    assert_eq!(kind_json(MemoryKind::Task), "\"task\"");
}

#[test]
fn test_memory_kind_checkpoint_serializes_lowercase() {
    assert_eq!(kind_json(MemoryKind::Checkpoint), "\"checkpoint\"");
}

#[test]
fn test_memory_kind_task_deserializes_from_lowercase() {
    assert_eq!(kind_in("\"task\""), MemoryKind::Task);
}

#[test]
fn test_memory_kind_checkpoint_deserializes_from_lowercase() {
    assert_eq!(kind_in("\"checkpoint\""), MemoryKind::Checkpoint);
}

#[test]
fn test_memory_kind_round_trip_all_variants() {
    for kind in [
        MemoryKind::Event,
        MemoryKind::Summary,
        MemoryKind::Fact,
        MemoryKind::Preference,
        MemoryKind::Task,
        MemoryKind::Checkpoint,
    ] {
        let parsed = kind_in(&kind_json(kind));
        assert_eq!(kind, parsed, "round-trip failed for {:?}", kind);
    }
}

#[test]
fn an_unknown_kind_is_named_in_the_error() {
    let err = MemoryKind::from_str("dream").unwrap_err();
    assert_eq!(err.to_string(), "unknown memory kind: dream");
}

#[test]
fn test_task_item_carries_status_via_json_content() {
    let item = MemoryItem::new(
        MemoryId("task-1".to_string()),
        plain_scope(),
        MemoryKind::Task,
        Content::Json(json(vec![
            ("status", Json::text("in_progress")),
            ("depends_on", Json::List(vec![Json::text("task-0")])),
        ])),
        "agent".to_string(),
    );

    assert_eq!(item.kind, MemoryKind::Task);
    match &item.content {
        Content::Json(v) => {
            assert_eq!(v.get("status").and_then(|s| s.as_text()), Some("in_progress"));
            let depends_on = v.get("depends_on").and_then(|d| d.as_list()).unwrap();
            assert_eq!(depends_on[0].as_text(), Some("task-0"));
        }
        _ => panic!("expected Content::Json"),
    }
}

#[test]
fn test_checkpoint_item_references_originating_task_via_meta() {
    let mut item = MemoryItem::new(
        MemoryId("ckpt-1".to_string()),
        plain_scope(),
        MemoryKind::Checkpoint,
        Content::Json(json(vec![("step", Json::PosInt(4)), ("scratchpad", json(vec![]))])),
        "agent".to_string(),
    );
    item.meta.insert("task_id".to_string(), Json::text("task-1"));

    assert_eq!(item.kind, MemoryKind::Checkpoint);
    assert_eq!(item.meta.get("task_id").unwrap().as_text(), Some("task-1"));
}

#[test]
fn test_deserialize_kind() {
    assert_eq!(kind_in("\"Fact\""), MemoryKind::Fact);
}

fn test_scope() -> ScopeKey {
    ScopeKey {
        tenant_id: "acme".to_string(),
        workspace_id: None,
        project_id: None,
        agent_id: Some("agent-1".to_string()),
        run_id: Some("run-1".to_string()),
    }
}

#[test]
fn task_status_round_trips_snake_case() {
    let s = to_json_text(&Json::text(TaskStatus::InProgress.as_str()));
    assert_eq!(s, "\"in_progress\"");
    let back = parse_json(&s).unwrap();
    assert_eq!(TaskStatus::parse(back.as_text().unwrap()), Some(TaskStatus::InProgress));
}

#[test]
fn every_task_status_reads_back() {
    for status in [
        TaskStatus::Pending,
        TaskStatus::InProgress,
        TaskStatus::Blocked,
        TaskStatus::Completed,
        TaskStatus::Failed,
    ] {
        assert_eq!(TaskStatus::parse(status.as_str()), Some(status));
    }
    assert_eq!(TaskStatus::parse("asleep"), None);
}

#[test]
fn task_record_round_trips_through_memory_item() {
    let record = TaskRecord::new(
        MemoryId("task-1".into()),
        test_scope(),
        TaskStatus::InProgress,
        "Compile the report".into(),
    )
    .with_depends_on(vec!["task-0".into()])
    .with_importance(number(0.9));

    let id = record.id.clone();
    let item = record.into_memory_item("agent".into());
    assert_eq!(item.kind, MemoryKind::Task);
    assert_eq!(item.importance, number(0.9));

    let parsed = TaskRecord::try_from_memory_item(&item).unwrap();
    assert_eq!(parsed.id, id);
    assert_eq!(parsed.status, TaskStatus::InProgress);
    assert_eq!(parsed.description, "Compile the report");
    assert_eq!(parsed.depends_on, vec!["task-0"]);
    assert_eq!(parsed.importance, number(0.9));
}

#[test]
fn task_record_rejects_non_task_items() {
    let item = MemoryItem::new(
        MemoryId("e".into()),
        test_scope(),
        MemoryKind::Event,
        Content::Text("hi".into()),
        "user".into(),
    );
    let err = TaskRecord::try_from_memory_item(&item).unwrap_err();
    assert!(matches!(err, TaskParseError::WrongKind { .. }));
}

#[test]
fn task_record_rejects_text_content() {
    let mut item = MemoryItem::new(
        MemoryId("t".into()),
        test_scope(),
        MemoryKind::Task,
        Content::Text("not json".into()),
        "agent".into(),
    );
    item.kind = MemoryKind::Task;
    let err = TaskRecord::try_from_memory_item(&item).unwrap_err();
    assert!(matches!(err, TaskParseError::NotJsonContent { .. }));
}

#[test]
fn checkpoint_record_round_trips_through_memory_item() {
    let record = CheckpointRecord::new(
        MemoryId("ckpt-1".into()),
        test_scope(),
        "task-1".into(),
        4,
        json(vec![("scratch", json(vec![("k", Json::PosInt(1))]))]),
    )
    .with_importance(number(0.8));

    let item = record.into_memory_item("agent".into());
    assert_eq!(item.kind, MemoryKind::Checkpoint);
    assert_eq!(item.importance, number(0.8));
    assert!(item.tags.contains(&task_tag("task-1")));
    assert_eq!(item.meta.get(META_TASK_ID).and_then(|v| v.as_text()), Some("task-1"));

    let parsed = CheckpointRecord::try_from_memory_item(&item).unwrap();
    assert_eq!(parsed.task_id, "task-1");
    assert_eq!(parsed.step, 4);
    let scratch = parsed.scratchpad.get("scratch").unwrap();
    assert_eq!(scratch.get("k").and_then(|k| k.as_i64()), Some(1));
}

#[test]
fn checkpoint_record_missing_task_id_meta_fails() {
    let mut item = MemoryItem::new(
        MemoryId("c".into()),
        test_scope(),
        MemoryKind::Checkpoint,
        Content::Json(json(vec![("step", Json::PosInt(1)), ("scratchpad", json(vec![]))])),
        "agent".into(),
    );
    item.meta = JsonMap::new();
    let err = CheckpointRecord::try_from_memory_item(&item).unwrap_err();
    assert_eq!(err, TaskParseError::MissingField("meta.task_id"));
}

#[test]
fn checkpoint_record_missing_step_fails() {
    let mut item = MemoryItem::new(
        MemoryId("c".into()),
        test_scope(),
        MemoryKind::Checkpoint,
        Content::Json(json(vec![("scratchpad", json(vec![]))])),
        "agent".into(),
    );
    item.meta.insert(META_TASK_ID.into(), Json::text("task-1"));
    let err = CheckpointRecord::try_from_memory_item(&item).unwrap_err();
    assert_eq!(err, TaskParseError::MissingField("step"));
}

#[test]
fn faults_of_tasks_are_told_in_words() {
    let mut item = MemoryItem::new(
        MemoryId("t".into()),
        test_scope(),
        MemoryKind::Event,
        Content::Text("x".into()),
        "agent".into(),
    );
    let err = TaskRecord::try_from_memory_item(&item).unwrap_err();
    assert_eq!(err.to_string(), "wrong memory kind: expected Task, got Event");
    item.kind = MemoryKind::Task;
    let err = TaskRecord::try_from_memory_item(&item).unwrap_err();
    assert_eq!(err.to_string(), "content is not Content::Json (was text)");
    item.content = Content::Json(json(vec![("description", Json::text("d"))]));
    let err = TaskRecord::try_from_memory_item(&item).unwrap_err();
    assert_eq!(err.to_string(), "missing required field: status");
    item.content = Content::Json(json(vec![("status", Json::text("asleep"))]));
    let err = TaskRecord::try_from_memory_item(&item).unwrap_err();
    assert_eq!(err.to_string(), "field status has wrong type");
}

#[test]
fn task_tag_helper_is_consistent() {
    assert_eq!(task_tag("task-42"), "task:task-42");
}

#[test]
fn checkpoints_of_negative_steps_and_nested_lists_read_back() {
    let scratchpad = Json::List(vec![Json::Null, Json::Bool(true), Json::NegInt(-7)]);
    let text = to_json_text(&scratchpad);
    assert_eq!(text, "[null,true,-7]");
    let record = CheckpointRecord::new(
        MemoryId("c2".into()),
        test_scope(),
        "t".into(),
        -3,
        scratchpad,
    );
    let item = record.into_memory_item_at("agent".into(), 99);
    assert_eq!(item.created_at_ms, 99);
    let parsed = CheckpointRecord::try_from_memory_item(&item).unwrap();
    assert_eq!(parsed.step, -3);
    assert_eq!(to_json_text(&parsed.scratchpad), text);
}
