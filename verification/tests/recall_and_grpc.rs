use mom::float::Float;
use mom::grpc::{
    bulk_get_reply, content_from_wire, content_to_wire, failure, get_reply, item_from_wire,
    item_to_wire, kind_from_wire, kind_to_wire, lookup, query_from_wire, scored_replies,
    write_plan, GrpcStatus, Lookup, RpcAction, WireContent, WireId, WireItem, WireKind, WireQuery,
};
use mom::json::{parse_json, to_json_text, Json, JsonMap};
use mom::memory::{Content, MemoryId, MemoryItem, MemoryKind, ScopeKey, Scored};
use mom::query::Query;
use mom::service::recall::{
    item_to_text, match_lowered, match_results, rank_recall_results, recall_candidate_limit,
    text_match, TextMatch,
};

fn number(x: f32) -> Float {
    Float(x.to_bits())
}

fn tenant() -> ScopeKey {
    ScopeKey {
        tenant_id: "tenant".into(),
        workspace_id: None,
        project_id: None,
        agent_id: None,
        run_id: None,
    }
}

fn sample_item(text: &str, importance: f32, created_at_ms: i64) -> MemoryItem {
    let mut item = MemoryItem::new_at(
        MemoryId("m1".into()),
        tenant(),
        MemoryKind::Event,
        Content::Text(text.into()),
        "test".into(),
        created_at_ms,
    );
    item.importance = number(importance);
    item
}

fn query(text: &str, limit: usize) -> Query {
    Query {
        scope: tenant(),
        text: text.into(),
        kinds: None,
        tags_any: None,
        limit,
        since_ms: None,
        until_ms: None,
        cursor: None,
    }
}

fn hits(texts: Vec<(&str, f32)>) -> Vec<Scored<MemoryItem>> {
    texts
        .into_iter()
        .map(|(text, importance)| Scored {
            score: number(0.1),
            item: sample_item(text, importance, 1),
        })
        .collect()
}

#[test]
fn ranks_text_match_above_non_match() {
    let q = query("kubernetes", 1);
    let results = hits(vec![("unrelated note", 0.9), ("kubernetes rollout failed", 0.5)]);
    let matches = match_results(&results, &q.text);
    let ranked = rank_recall_results(&q, results, &matches, &vec![number(0.9), number(0.7)]);
    assert_eq!(ranked.len(), 1);
    assert!(matches!(
        &ranked[0].item.content,
        Content::Text(t) if t.contains("kubernetes")
    ));
}

#[test]
fn the_heaviest_matches_come_first() {
    let q = query("note", 0);
    let results = hits(vec![("a note", 0.1), ("b note", 0.2), ("c note", 0.3), ("none", 0.9)]);
    let matches = match_results(&results, &q.text);
    let weights = vec![number(0.4), number(0.8), number(-1.0), number(5.0)];
    let ranked = rank_recall_results(&q, results, &matches, &weights);
    assert_eq!(ranked.len(), 1);
    assert_eq!(ranked[0].score, number(0.8));
    assert!(matches!(&ranked[0].item.content, Content::Text(t) if t == "b note"));
}

#[test]
fn recall_without_words_leaves_what_was_found() {
    let results = hits(vec![("a", 0.1), ("b", 0.2)]);
    let matches = match_results(&results, "");
    let same =
        rank_recall_results(&query("", 1), results, &matches, &vec![number(0.0), number(0.0)]);
    assert_eq!(same.len(), 2);
    assert_eq!(same[0].score, number(0.1));
}

#[test]
fn recall_looks_at_five_candidates_for_each_result() {
    assert_eq!(recall_candidate_limit(0), 5);
    assert_eq!(recall_candidate_limit(1), 5);
    assert_eq!(recall_candidate_limit(10), 50);
    assert_eq!(recall_candidate_limit(199), 995);
    assert_eq!(recall_candidate_limit(200), 1000);
    assert_eq!(recall_candidate_limit(usize::MAX), 1000);
}

#[test]
fn words_match_without_regard_to_case() {
    assert_eq!(text_match("HELLO", "hello"), TextMatch::Whole);
    assert_eq!(text_match("Say Hello", "HELLO"), TextMatch::Part { position: 4, length: 9 });
    assert_eq!(text_match("ÄÖ Hello", "hello"), TextMatch::Part { position: 5, length: 10 });
    assert_eq!(text_match("goodbye", "hello"), TextMatch::Nothing);
    assert_eq!(text_match("", "hello"), TextMatch::Nothing);
    assert_eq!(text_match("hello", ""), TextMatch::Nothing);
    assert_eq!(match_lowered("abcabc", "bc"), TextMatch::Part { position: 1, length: 6 });
}

#[test]
fn items_are_searched_by_words_and_json() {
    let mut item = sample_item("words", 0.5, 1);
    assert_eq!(item_to_text(&item), "words");
    let mut map = JsonMap::new();
    map.insert("k".into(), Json::text("v"));
    item.content = Content::Json(Json::Object(map));
    assert_eq!(item_to_text(&item), "{\"k\":\"v\"}");
    item.content = Content::TextJson { text: "words".into(), json: Json::Bool(true) };
    assert_eq!(item_to_text(&item), "words true");
}

fn wire(content: Option<Option<WireContent>>) -> WireItem {
    WireItem {
        id: "doc-123".into(),
        scope: Some(tenant()),
        kind: Some(WireKind::Fact),
        created_at_ms: 7,
        content,
        tags: vec!["conductor".into()],
        importance: number(0.9),
        confidence: number(0.99),
        source: "agent-1".into(),
        ttl_ms: None,
        meta: vec![("version".into(), "2".into())],
        embedding: vec![],
        embedding_model: None,
    }
}

fn text_content(text: &str) -> Option<Option<WireContent>> {
    Some(Some(WireContent::Text(text.into())))
}

fn invalid<T>(r: Result<T, GrpcStatus>) -> String {
    match r {
        Err(GrpcStatus::InvalidArgument(m)) => m,
        _ => panic!("expected an invalid argument"),
    }
}

#[test]
fn messages_become_memories() {
    let item = item_from_wire(wire(text_content("Launch on Friday."))).unwrap();
    assert_eq!(item.id.0, "doc-123");
    assert_eq!(item.kind, MemoryKind::Fact);
    assert_eq!(item.meta.get("version").and_then(|v| v.as_u64()), Some(2));
    assert_eq!(item.embedding, None);
    let mut with_vector = wire(text_content("x"));
    with_vector.embedding = vec![number(0.5)];
    with_vector.kind = None;
    let item = item_from_wire(with_vector).unwrap();
    assert_eq!(item.embedding, Some(vec![number(0.5)]));
    assert_eq!(item.kind, MemoryKind::Event);
}

#[test]
fn messages_must_be_complete() {
    let mut no_scope = wire(None);
    no_scope.scope = None;
    assert_eq!(invalid(item_from_wire(no_scope)), "Scope key must be specified");
    assert_eq!(invalid(item_from_wire(wire(None))), "Content must be specified");
    assert_eq!(
        invalid(item_from_wire(wire(Some(None)))),
        "Content type must be specified"
    );
    let broken = wire(Some(Some(WireContent::Json("{".into()))));
    let message = invalid(item_from_wire(broken));
    assert!(message.starts_with("Invalid JSON content: EOF"), "got {message}");
    let mut bad_meta = wire(text_content("x"));
    bad_meta.meta.push(("k".into(), "nope".into()));
    let message = invalid(item_from_wire(bad_meta));
    assert!(message.starts_with("Invalid JSON in meta field 'k': expected"), "got {message}");
}

#[test]
fn memories_go_through_messages_unchanged() {
    let mut map = JsonMap::new();
    map.insert("list".into(), Json::List(vec![Json::NegInt(-1), Json::Null, Json::text("ü\"")]));
    let mut item = sample_item("x", 0.25, 5);
    item.kind = MemoryKind::Task;
    item.content = Content::TextJson { text: "t".into(), json: Json::Object(map) };
    item.meta.insert("a".into(), Json::PosInt(u64::MAX));
    item.meta.insert("b".into(), Json::Bool(false));
    item.embedding = Some(vec![number(1.5)]);
    item.ttl_ms = Some(3);
    let message = item_to_wire(item.clone());
    assert_eq!(message.kind, Some(WireKind::Task));
    assert_eq!(message.meta.len(), 2);
    let back = item_from_wire(message).unwrap();
    assert_eq!(back.kind, item.kind);
    assert_eq!(back.importance, item.importance);
    assert_eq!(back.embedding, item.embedding);
    assert_eq!(back.ttl_ms, item.ttl_ms);
    assert_eq!(back.meta.get("a").and_then(|v| v.as_u64()), Some(u64::MAX));
    assert_eq!(item_to_text(&back), item_to_text(&item));
}

#[test]
fn an_empty_embedding_does_not_go_through() {
    let mut item = sample_item("x", 0.25, 5);
    item.embedding = Some(vec![]);
    let back = item_from_wire(item_to_wire(item)).unwrap();
    assert_eq!(back.embedding, None);
}

#[test]
fn kinds_go_through_messages() {
    for kind in [
        MemoryKind::Event,
        MemoryKind::Summary,
        MemoryKind::Fact,
        MemoryKind::Preference,
        MemoryKind::Task,
        MemoryKind::Checkpoint,
    ] {
        assert_eq!(kind_from_wire(Some(kind_to_wire(kind))), kind);
    }
    assert_eq!(kind_from_wire(Some(WireKind::Unspecified)), MemoryKind::Event);
    let content = content_to_wire(&Content::Json(Json::List(vec![])));
    assert!(matches!(&content, WireContent::Json(t) if t == "[]"));
    assert!(content_from_wire(Some(content)).is_ok());
}

#[test]
fn query_messages_become_queries() {
    let message = WireQuery {
        scope: Some(tenant()),
        text: "words".into(),
        kinds: vec![Some(WireKind::Fact), None],
        tags_any: vec![],
        limit: 5,
        since_ms: Some(1),
        until_ms: None,
    };
    let q = query_from_wire(message).unwrap();
    assert_eq!(q.kinds, Some(vec![MemoryKind::Fact, MemoryKind::Event]));
    assert_eq!(q.tags_any, None);
    assert_eq!(q.limit, 5);
    assert_eq!(q.since_ms, Some(1));
    assert_eq!(q.cursor, None);
    let no_scope = WireQuery {
        scope: None,
        text: "".into(),
        kinds: vec![],
        tags_any: vec!["t".into()],
        limit: 0,
        since_ms: None,
        until_ms: None,
    };
    assert_eq!(invalid(query_from_wire(no_scope)), "Scope key must be specified");
}

#[test]
fn lookups_keep_to_the_scope_that_a_message_names() {
    let scoped = WireId { id: "m1".into(), scope: Some(tenant()) };
    assert!(matches!(
        lookup(scoped),
        Lookup::Within { id, scope } if id.0 == "m1" && scope.tenant_id == "tenant"
    ));
    let bare = WireId { id: "m1".into(), scope: None };
    assert!(matches!(lookup(bare), Lookup::ById { id } if id.0 == "m1"));
}

#[test]
fn calls_are_answered() {
    let plan = write_plan(wire(text_content("x"))).unwrap();
    assert_eq!(plan.reply.id, "doc-123");
    assert_eq!(plan.reply.scope.unwrap().tenant_id, "tenant");
    assert!(write_plan(wire(None)).is_err());
    assert!(get_reply(Ok(Some(sample_item("x", 0.5, 1)))).is_ok());
    assert!(matches!(
        get_reply(Ok(None)),
        Err(GrpcStatus::NotFound(m)) if m == "Memory item not found"
    ));
    assert!(matches!(
        get_reply(Err("disk".into())),
        Err(GrpcStatus::Internal(m)) if m == "Failed to retrieve memory: internal server error"
    ));
    assert!(matches!(
        bulk_get_reply(&MemoryId("m9".into()), Ok(None)),
        Err(GrpcStatus::NotFound(m)) if m == "Memory item not found: m9"
    ));
    for (action, text) in [
        (RpcAction::Write, "Failed to write memory: internal server error"),
        (RpcAction::Retrieve, "Failed to retrieve memory: internal server error"),
        (RpcAction::Query, "Failed to query memories: internal server error"),
        (RpcAction::Delete, "Failed to delete memory: internal server error"),
        (RpcAction::Recall, "Failed to recall memories: internal server error"),
        (RpcAction::ReadStream, "Stream error: e"),
    ] {
        assert!(matches!(failure(action, "e".to_string()), GrpcStatus::Internal(m) if m == text));
    }
    let replies = scored_replies(hits(vec![("a", 0.1), ("b", 0.2)]));
    assert_eq!(replies.len(), 2);
    assert_eq!(replies[1].score, number(0.1));
}

#[test]
fn json_is_written_and_read() {
    let value = parse_json(" {\"b\": [1, -2, 1.50, \"x\"], \"a\": null} ").unwrap();
    assert_eq!(to_json_text(&value), "{\"a\":null,\"b\":[1,-2,1.5,\"x\"]}");
    assert_eq!(
        parse_json("[1,]").unwrap_err(),
        "trailing comma at line 1 column 4"
    );
}
