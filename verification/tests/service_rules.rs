use mom::context_pack::{ContextPackRequest, TOKENS_PER_ITEM};
use mom::facts::{
    read_provenance_ids, read_superseded_by, read_version, FactPayload, META_PROVENANCE_IDS,
    META_SEMANTIC_CONFLICTS, META_VERSION,
};
use mom::float::Float;
use mom::json::{to_json_text, Json, JsonMap};
use mom::memory::{Content, MemoryId, MemoryItem, MemoryKind, ScopeKey, Scored};
use mom::query::Query;
use mom::service::batch::{
    batch_delete_memory, batch_queries, batch_write_memory, check_batch_delete, check_batch_write,
    max_batch_size, parse_atomic, BatchMode, MAX_BATCH_ITEMS,
};
use mom::service::batch_run::{
    deleted_result, refused_result, written_result, BatchEnd, BatchRun, DeleteRun, Outcome,
};
use mom::service::consolidate::{
    check_consolidate, consolidate_at, consolidation_query, run_consolidation, ConsolidateRequest,
};
use mom::service::error::ApiError;
use mom::service::ingest::{
    check_ingestion, default_ingest_scope, endpoint_variable, failed_response, ingested_response,
    polling_disabled, scope_from_request, IngestSettings, IngestionPollTracker, IngestionRequest,
};
use mom::service::listing::{
    list_query, paginate, parse_kinds, parse_limit, parse_tags, parse_time,
};
use mom::service::params::{scope_from_params, Params};
use mom::service::search::{
    check_recall, context_candidate_limit, context_query, hybrid_limit, hybrid_search_query,
    recall_path, semantic_limit, semantic_search_scope, HybridSearchRequest, RecallPath,
    SemanticSearchRequest,
};
use mom::service::tasks::{
    resume_query, task_checkpoint, task_checkpoint_at, task_resume, CheckpointRequest,
    ResumeRequest,
};
use mom::service::tenant::{
    audit_tenant_access, may_delete_scoped, require_query_scope, require_tenant_id,
    resolve_tenant_scope, validate_memory_write,
};
use mom::service::prepare::{
    keep_active, prepare_memory_item, prepare_with_id, Answer, Held, Need, Preparation,
};
use mom::service::write::{admit_with_id, advise_semantic_conflicts, resolve_conflicts};
use mom::task::CheckpointRecord;

fn number(x: f32) -> Float {
    Float(x.to_bits())
}

fn object(fields: Vec<(&str, Json)>) -> Json {
    let mut map = JsonMap::new();
    for (key, value) in fields {
        map.insert(key.to_string(), value);
    }
    Json::Object(map)
}

fn params(pairs: Vec<(&str, &str)>) -> Params {
    let mut out = Params::new();
    for (name, value) in pairs {
        out.insert(name.to_string(), value.to_string());
    }
    out
}

fn tenant(tenant_id: &str) -> ScopeKey {
    ScopeKey {
        tenant_id: tenant_id.to_string(),
        workspace_id: None,
        project_id: None,
        agent_id: None,
        run_id: None,
    }
}

fn event(id: &str, created_at_ms: i64, importance: f32, text: &str) -> MemoryItem {
    MemoryItem {
        id: MemoryId(id.to_string()),
        scope: tenant("acme"),
        kind: MemoryKind::Event,
        created_at_ms,
        content: Content::Text(text.to_string()),
        tags: vec![],
        importance: number(importance),
        confidence: number(1.0),
        source: "agent".to_string(),
        ttl_ms: None,
        meta: JsonMap::new(),
        embedding: None,
        embedding_model: None,
    }
}

fn fact(id: &str, subject: &str, predicate: &str, object: &str) -> MemoryItem {
    let mut item = event(id, 5, 0.5, "a fact");
    item.kind = MemoryKind::Fact;
    FactPayload {
        subject: subject.to_string(),
        predicate: predicate.to_string(),
        object: object.to_string(),
    }
    .write_to_meta(&mut item.meta);
    item
}

fn hit(item: MemoryItem) -> Scored<MemoryItem> {
    Scored { score: item.importance, item }
}

fn bad_request<T>(r: Result<T, ApiError>) -> String {
    match r {
        Err(ApiError::BadRequest(m)) => m,
        _ => panic!("expected a bad request"),
    }
}

#[test]
fn test_parse_single_kind() {
    let kinds = parse_kinds("event");
    assert_eq!(kinds, Some(vec![MemoryKind::Event]));
}

#[test]
fn test_parse_multiple_kinds() {
    let kinds = parse_kinds("event,summary,fact");
    assert_eq!(kinds, Some(vec![MemoryKind::Event, MemoryKind::Summary, MemoryKind::Fact]));
}

#[test]
fn test_parse_kinds_with_whitespace() {
    let kinds = parse_kinds("event , summary , fact");
    assert_eq!(kinds, Some(vec![MemoryKind::Event, MemoryKind::Summary, MemoryKind::Fact]));
}

#[test]
fn test_parse_kinds_case_insensitive() {
    let kinds = parse_kinds("EVENT,Summary,FACT");
    assert_eq!(kinds, Some(vec![MemoryKind::Event, MemoryKind::Summary, MemoryKind::Fact]));
}

#[test]
fn test_parse_invalid_kind() {
    let kinds = parse_kinds("invalid,event");
    assert_eq!(kinds, None);
}

#[test]
fn test_parse_empty_kinds() {
    let kinds = parse_kinds("");
    assert_eq!(kinds, None);
}

#[test]
fn test_parse_all_kinds() {
    let kinds = parse_kinds("event,summary,fact,preference");
    assert_eq!(
        kinds,
        Some(vec![
            MemoryKind::Event,
            MemoryKind::Summary,
            MemoryKind::Fact,
            MemoryKind::Preference
        ])
    );
}

#[test]
fn test_parse_single_tag() {
    let tags = parse_tags("important");
    assert_eq!(tags, Some(vec!["important".to_string()]));
}

#[test]
fn test_parse_multiple_tags() {
    let tags = parse_tags("important,urgent,review");
    assert_eq!(
        tags,
        Some(vec!["important".to_string(), "urgent".to_string(), "review".to_string()])
    );
}

#[test]
fn test_parse_tags_with_whitespace() {
    let tags = parse_tags("important , urgent , review");
    assert_eq!(
        tags,
        Some(vec!["important".to_string(), "urgent".to_string(), "review".to_string()])
    );
}

#[test]
fn test_parse_empty_tags() {
    let tags = parse_tags("");
    assert_eq!(tags, None);
}

#[test]
fn test_parse_empty_tags_with_commas() {
    let tags = parse_tags(",,");
    assert_eq!(tags, None);
}

#[test]
fn test_parse_tags_with_empty_elements() {
    let tags = parse_tags("important,,urgent");
    assert_eq!(tags, Some(vec!["important".to_string(), "urgent".to_string()]));
}

#[test]
fn test_limit_default() {
    let params = params(vec![]);
    assert_eq!(parse_limit(params.get("limit")), 10);
}

#[test]
fn test_limit_custom() {
    let params = params(vec![("limit", "50")]);
    assert_eq!(parse_limit(params.get("limit")), 50);
}

#[test]
fn test_limit_clamped() {
    let params = params(vec![("limit", "500")]);
    assert_eq!(parse_limit(params.get("limit")), 100);
}

#[test]
fn test_limit_invalid() {
    let params = params(vec![("limit", "invalid")]);
    assert_eq!(parse_limit(params.get("limit")), 10);
}

#[test]
fn test_timestamp_parsing() {
    let params = params(vec![("since_ms", "1609459200000"), ("until_ms", "1609545600000")]);
    assert_eq!(parse_time(params.get("since_ms")), Some(1609459200000i64));
    assert_eq!(parse_time(params.get("until_ms")), Some(1609545600000i64));
}

#[test]
fn test_timestamp_invalid() {
    let params = params(vec![("since_ms", "invalid")]);
    assert_eq!(parse_time(params.get("since_ms")), None);
}

#[test]
fn times_before_the_epoch_are_read() {
    assert_eq!(parse_time(Some("-5")), Some(-5));
    assert_eq!(parse_time(Some("+5")), Some(5));
    assert_eq!(parse_time(Some("9223372036854775807")), Some(i64::MAX));
    assert_eq!(parse_time(Some("9223372036854775808")), None);
    assert_eq!(parse_time(Some("-9223372036854775808")), Some(i64::MIN));
}

#[test]
fn test_combined_filters() {
    let params = params(vec![
        ("tenant_id", "acme"),
        ("kinds", "event,summary"),
        ("tags", "important,urgent"),
        ("limit", "25"),
        ("since_ms", "1609459200000"),
    ]);
    let q = list_query(&params).unwrap();

    assert_eq!(q.kinds, Some(vec![MemoryKind::Event, MemoryKind::Summary]));
    assert_eq!(q.tags_any, Some(vec!["important".to_string(), "urgent".to_string()]));
    assert_eq!(parse_limit(params.get("limit")), 25);
    assert_eq!(q.limit, 26);
    assert_eq!(q.since_ms, Some(1609459200000i64));
    assert_eq!(q.until_ms, None);
    assert_eq!(q.text, "");
}

#[test]
fn test_scope_key_parsing() {
    let params = params(vec![
        ("tenant_id", "acme"),
        ("workspace_id", "workspace1"),
        ("project_id", "project1"),
        ("agent_id", "agent1"),
        ("run_id", "run1"),
    ]);
    let scope = scope_from_params(&params).unwrap();
    assert_eq!(scope.tenant_id, "acme");
    assert_eq!(scope.workspace_id, Some("workspace1".to_string()));
    assert_eq!(scope.project_id, Some("project1".to_string()));
    assert_eq!(scope.agent_id, Some("agent1".to_string()));
    assert_eq!(scope.run_id, Some("run1".to_string()));
}

#[test]
fn test_default_tenant_id() {
    let params = Params::new();
    let tenant_id = params
        .get("tenant_id")
        .map(|s| s.to_string())
        .unwrap_or_else(|| "default".to_string());
    assert_eq!(tenant_id, "default");
}

#[test]
fn ingestion_falls_back_to_the_default_tenant() {
    let settings = IngestSettings {
        tenant_id: None,
        workspace_id: None,
        project_id: None,
        agent_id: None,
        run_id: None,
    };
    assert_eq!(default_ingest_scope(settings).tenant_id, "default");
}

#[test]
fn a_listing_needs_a_tenant() {
    assert_eq!(bad_request(list_query(&params(vec![]))), "tenant_id is required");
}

fn task_scope() -> ScopeKey {
    ScopeKey {
        tenant_id: "acme".to_string(),
        workspace_id: None,
        project_id: None,
        agent_id: Some("agent-1".to_string()),
        run_id: Some("run-1".to_string()),
    }
}

#[test]
fn test_checkpoint_materializes_into_indexable_memory_item() {
    let req = CheckpointRequest {
        scope: task_scope(),
        task_id: "task-7".to_string(),
        step: 3,
        scratchpad: object(vec![("k", Json::PosInt(1))]),
        importance: None,
    };
    let plan = task_checkpoint_at(req, "ckpt-fixed".to_string(), 77).unwrap();
    let item = plan.item;

    assert_eq!(item.kind, MemoryKind::Checkpoint);
    assert!(item.tags.iter().any(|t| t == "task:task-7"));
    assert_eq!(item.meta.get("task_id").and_then(|v| v.as_text()), Some("task-7"));

    let parsed = CheckpointRecord::try_from_memory_item(&item).unwrap();
    assert_eq!(parsed.task_id, "task-7");
    assert_eq!(parsed.step, 3);
    assert_eq!(plan.response.checkpoint_id, "ckpt-fixed");
    assert_eq!(plan.response.created_at_ms, 77);
}

#[test]
fn a_checkpoint_gets_a_random_id_and_an_importance_from_zero_to_one() {
    let req = CheckpointRequest {
        scope: task_scope(),
        task_id: "t".to_string(),
        step: 1,
        scratchpad: Json::Null,
        importance: Some(number(7.5)),
    };
    let plan = task_checkpoint(req).unwrap();
    assert_eq!(plan.item.id.0.len(), 36);
    assert_eq!(plan.item.importance, number(1.0));
}

#[test]
fn checkpoint_requests_name_a_tenant_and_a_task() {
    let req = |tenant_id: &str, task_id: &str| CheckpointRequest {
        scope: tenant(tenant_id),
        task_id: task_id.to_string(),
        step: 1,
        scratchpad: Json::Null,
        importance: None,
    };
    assert_eq!(bad_request(task_checkpoint(req("", "t"))), "scope.tenant_id is required");
    assert_eq!(bad_request(task_checkpoint(req("acme", " "))), "task_id is required");
}

fn checkpoint_hit(id: &str, step: i64, created_at_ms: i64, importance: f32) -> Scored<MemoryItem> {
    let mut item = MemoryItem::new(
        MemoryId(id.into()),
        task_scope(),
        MemoryKind::Checkpoint,
        Content::Json(object(vec![
            ("step", Json::from_i64(step)),
            ("scratchpad", object(vec![])),
        ])),
        "agent".to_string(),
    );
    item.meta.insert("task_id".to_string(), Json::text("task-7"));
    item.created_at_ms = created_at_ms;
    item.importance = number(importance);
    Scored { score: number(importance), item }
}

#[test]
fn test_resume_picks_latest_by_created_at_ms() {
    let scored = vec![
        checkpoint_hit("ckpt-old", 1, 1_000, 0.95),
        checkpoint_hit("ckpt-new", 5, 2_000, 0.5),
    ];
    let latest = task_resume(&scored).unwrap();
    assert_eq!(latest.checkpoint_id, "ckpt-new");
    assert_eq!(latest.created_at_ms, 2_000);
    assert_eq!(latest.step, 5);
}

#[test]
fn of_checkpoints_at_the_same_moment_the_last_counts() {
    let scored = vec![
        checkpoint_hit("a", 1, 9, 0.5),
        checkpoint_hit("b", 2, 9, 0.5),
        checkpoint_hit("c", 3, 4, 0.9),
    ];
    assert_eq!(task_resume(&scored).unwrap().checkpoint_id, "b");
}

#[test]
fn resuming_without_a_checkpoint_is_not_found() {
    assert!(matches!(task_resume(&vec![]), Err(ApiError::NotFound)));
}

#[test]
fn a_malformed_checkpoint_is_an_internal_failure() {
    let mut broken = checkpoint_hit("x", 1, 1, 0.5);
    broken.item.meta = JsonMap::new();
    match task_resume(&vec![broken]) {
        Err(ApiError::Internal(m)) => {
            assert_eq!(m, "malformed checkpoint: missing required field: meta.task_id");
        }
        _ => panic!("expected an internal failure"),
    }
}

#[test]
fn resume_asks_for_the_checkpoints_of_the_task() {
    let req = ResumeRequest { scope: task_scope(), task_id: "task-7".to_string() };
    let q = resume_query(&req).unwrap();
    assert_eq!(q.kinds, Some(vec![MemoryKind::Checkpoint]));
    assert_eq!(q.tags_any, Some(vec!["task:task-7".to_string()]));
    assert_eq!(q.scope.run_id.as_deref(), Some("run-1"));
    let blank = ResumeRequest { scope: task_scope(), task_id: "".to_string() };
    assert_eq!(bad_request(resume_query(&blank)), "task_id is required");
}

#[test]
fn a_checkpoint_is_found_and_given_back_by_resume() {
    let req = CheckpointRequest {
        scope: task_scope(),
        task_id: "task-9".to_string(),
        step: 12,
        scratchpad: object(vec![("url", Json::text("https://example.com"))]),
        importance: Some(number(0.8)),
    };
    let plan = task_checkpoint_at(req, "ckpt-12".to_string(), 50).unwrap();
    let resume = ResumeRequest { scope: task_scope(), task_id: "task-9".to_string() };
    let q = resume_query(&resume).unwrap();
    assert!(plan.item.tags.contains(&q.tags_any.unwrap()[0]));
    let back = task_resume(&vec![hit(plan.item)]).unwrap();
    assert_eq!(back.checkpoint_id, "ckpt-12");
    assert_eq!(back.task_id, "task-9");
    assert_eq!(back.step, 12);
    assert_eq!(to_json_text(&back.scratchpad), "{\"url\":\"https://example.com\"}");
    assert_eq!(back.created_at_ms, 50);
}

#[test]
fn test_embedding_disabled_error() {
    let error_msg = ApiError::BadRequest("Embeddings not available".to_string()).message();
    assert!(!error_msg.is_empty());
    assert!(error_msg.contains("Embeddings"));
}

#[test]
fn test_hybrid_search_request_validation() {
    let with_tenant = params(vec![("tenant_id", "acme")]);
    let empty_query = HybridSearchRequest { query: String::new(), limit: Some(10) };
    assert!(empty_query.query.is_empty());
    assert_eq!(
        bad_request(hybrid_search_query(&with_tenant, empty_query)),
        "query must be 1-1000 characters"
    );

    let long_query = HybridSearchRequest { query: "x".repeat(1001), limit: Some(10) };
    assert!(long_query.query.len() > 1000);
    assert_eq!(
        bad_request(hybrid_search_query(&with_tenant, long_query)),
        "query must be 1-1000 characters"
    );

    let valid_query = HybridSearchRequest {
        query: "what are my recent decisions about kubernetes?".to_string(),
        limit: Some(20),
    };
    assert!(!valid_query.query.is_empty() && valid_query.query.len() <= 1000);
    let q = hybrid_search_query(&with_tenant, valid_query).unwrap();
    assert_eq!(q.limit, 20);
    assert_eq!(q.text, "what are my recent decisions about kubernetes?");
}

#[test]
fn a_query_of_a_thousand_characters_may_take_more_bytes() {
    let with_tenant = params(vec![("tenant_id", "acme")]);
    let req = HybridSearchRequest { query: "é".repeat(1000), limit: None };
    assert_eq!(hybrid_search_query(&with_tenant, req).unwrap().limit, 10);
}

#[test]
fn test_hybrid_search_limit_clamping() {
    let test_cases = vec![
        (None, 10),
        (Some(0), 1),
        (Some(1), 1),
        (Some(50), 50),
        (Some(100), 100),
        (Some(500), 100),
    ];

    for (input, expected) in test_cases {
        let clamped = hybrid_limit(input);
        assert_eq!(clamped, expected, "Input {:?} should clamp to {}", input, expected);
    }
}

#[test]
fn semantic_search_is_limited_to_a_hundred() {
    assert_eq!(semantic_limit(None), 10);
    assert_eq!(semantic_limit(Some(0)), 0);
    assert_eq!(semantic_limit(Some(101)), 100);
    let req = SemanticSearchRequest { query: "q".to_string(), limit: Some(7) };
    let (scope, limit) =
        semantic_search_scope(&params(vec![("tenant_id", "acme")]), &req).unwrap();
    assert_eq!(scope.tenant_id, "acme");
    assert_eq!(limit, 7);
    assert_eq!(bad_request(semantic_search_scope(&params(vec![]), &req)), "tenant_id is required");
}

#[test]
fn test_default_ingest_scope_uses_tenant_default() {
    let scope = default_ingest_scope(IngestSettings {
        tenant_id: Some("acme".to_string()),
        workspace_id: Some("ws".to_string()),
        project_id: None,
        agent_id: None,
        run_id: None,
    });
    assert!(!scope.tenant_id.is_empty());
    assert_eq!(scope.workspace_id.as_deref(), Some("ws"));
}

#[test]
fn test_context_pack_candidate_limit_from_budget() {
    let budget = 1500usize;
    let candidate_limit = context_candidate_limit(Some(budget));
    assert_eq!((budget / TOKENS_PER_ITEM).clamp(10, 100), 10);
    assert_eq!(candidate_limit, 10);
}

#[test]
fn the_candidates_of_a_context_pack_keep_to_the_budget() {
    assert_eq!(context_candidate_limit(Some(15_000)), 100);
    assert_eq!(context_candidate_limit(Some(6_000)), 40);
    let query = |tenant_id: &str, limit: usize| Query {
        scope: tenant(tenant_id),
        text: "kubernetes deployment decisions".to_string(),
        kinds: None,
        tags_any: None,
        limit,
        since_ms: None,
        until_ms: None,
        cursor: None,
    };
    let pack = |q: Query| ContextPackRequest { query: q, budget_tokens: Some(6_000) };
    assert_eq!(context_query(&pack(query("acme", 0))).unwrap().limit, 40);
    assert_eq!(context_query(&pack(query("acme", 500))).unwrap().limit, 40);
    assert_eq!(context_query(&pack(query("acme", 5))).unwrap().limit, 5);
    assert_eq!(bad_request(context_query(&pack(query("", 5)))), "tenant_id is required");
    assert_eq!(
        bad_request(check_recall(&query(" ", 5))),
        "scope.tenant_id is required and must be non-empty"
    );
    assert!(check_recall(&query("acme", 5)).is_ok());
}

#[test]
fn packs_search_by_meaning_only_with_an_embedded_text() {
    assert_eq!(recall_path("x", true), RecallPath::Hybrid);
    assert_eq!(recall_path("x", false), RecallPath::Lexical);
    assert_eq!(recall_path("", true), RecallPath::Lexical);
}

#[test]
fn test_scope_from_ingestion_request() {
    let req = IngestionRequest {
        tenant_id: "acme".to_string(),
        workspace_id: Some("ws-1".to_string()),
        project_id: Some("proj-1".to_string()),
        agent_id: Some("agent-1".to_string()),
        run_id: Some("run-1".to_string()),
    };
    let scope = scope_from_request(&req);
    assert_eq!(scope.tenant_id, "acme");
    assert_eq!(scope.workspace_id.as_deref(), Some("ws-1"));
    assert_eq!(scope.project_id.as_deref(), Some("proj-1"));
    assert_eq!(scope.agent_id.as_deref(), Some("agent-1"));
    assert_eq!(scope.run_id.as_deref(), Some("run-1"));
}

#[test]
fn test_hybrid_search_scope_key_construction() {
    let scope = scope_from_params(&params(vec![("tenant_id", "acme-corp")])).unwrap();
    assert!(scope.workspace_id.is_none());
    assert!(scope.project_id.is_none());
    assert!(scope.agent_id.is_none());
    assert!(scope.run_id.is_none());

    let scope = scope_from_params(&params(vec![
        ("tenant_id", "acme-corp"),
        ("workspace_id", "ws-123"),
        ("project_id", "proj-456"),
    ]))
    .unwrap();
    assert!(scope.workspace_id.is_some());
    assert!(scope.project_id.is_some());
}

#[test]
fn ingestion_needs_a_tenant_and_tells_what_it_did() {
    let blank = IngestionRequest {
        tenant_id: "  ".to_string(),
        workspace_id: None,
        project_id: None,
        agent_id: None,
        run_id: None,
    };
    assert_eq!(
        bad_request(check_ingestion(&blank)),
        "tenant_id is required and must be non-empty"
    );
    let done = ingested_response("datafabric", 3, "acme");
    assert_eq!(done.message, "Ingested 3 memories from datafabric (scope: acme)");
    let failed = failed_response("datafabric", &ApiError::Internal("no route".to_string()));
    assert_eq!(failed.count, 0);
    assert_eq!(failed.message, "Ingestion failed: internal server error");
    let failed = failed_response("datafabric", &ApiError::BadRequest("no url".to_string()));
    assert_eq!(failed.message, "Ingestion failed: no url");
}

#[test]
fn polls_are_tracked_by_source_in_order_of_name() {
    let mut tracker = IngestionPollTracker::new();
    tracker.record_success("oxidizedrag", 2, 10);
    tracker.record_error("datafabric", &ApiError::Internal("down".to_string()), 20);
    tracker.record_success("oxidizedrag", 5, 30);
    let status = tracker.status(3, 300);
    assert_eq!(status.sources, 3);
    assert_eq!(status.last_poll_at_ms, Some(30));
    let names: Vec<&str> = status.source_status.iter().map(|s| s.source.as_str()).collect();
    assert_eq!(names, vec!["datafabric", "oxidizedrag"]);
    assert_eq!(status.source_status[0].last_error.as_deref(), Some("internal server error"));
    assert_eq!(status.source_status[0].last_count, 0);
    assert_eq!(status.source_status[1].last_count, 5);
    assert_eq!(status.source_status[1].last_poll_at_ms, Some(30));
}

#[test]
fn sources_have_their_variables() {
    assert_eq!(endpoint_variable("oxidizedrag"), Some("OXIDIZEDRAG_URL"));
    assert_eq!(endpoint_variable("oxidizedgraph"), Some("OXIDIZEDGRAPH_URL"));
    assert_eq!(endpoint_variable("datafabric"), Some("DATAFABRIC_URL"));
    assert_eq!(endpoint_variable("other"), None);
}

#[test]
fn polling_is_turned_off_by_one_or_true() {
    assert!(polling_disabled(&Some("1".to_string())));
    assert!(polling_disabled(&Some("TrUe".to_string())));
    assert!(!polling_disabled(&Some("yes".to_string())));
    assert!(!polling_disabled(&Some("true ".to_string())));
    assert!(!polling_disabled(&None));
}

#[test]
fn test_post_batch_write_limit_check() {
    let result = batch_write_memory(2, Some("1"), &params(vec![]));
    assert!(result.is_err());
    match result.unwrap_err() {
        ApiError::PayloadTooLarge(msg) => {
            assert!(msg.contains("exceeds maximum allowed"));
            assert_eq!(msg, "Batch size 2 exceeds maximum allowed of 1");
        }
        _ => panic!("expected PayloadTooLarge error"),
    }
    assert_eq!(ApiError::PayloadTooLarge(String::new()).status_code(), 413);
}

#[test]
fn batches_must_not_be_empty_or_too_large() {
    assert_eq!(max_batch_size(None), MAX_BATCH_ITEMS);
    assert_eq!(max_batch_size(Some("many")), 1000);
    assert_eq!(bad_request(check_batch_write(0, 10)), "items must not be empty");
    assert_eq!(bad_request(check_batch_delete(0)), "ids must not be empty");
    assert_eq!(bad_request(check_batch_delete(1001)), "batch size 1001 exceeds max 1000");
    assert_eq!(bad_request(batch_queries(&vec![])), "queries must not be empty");
}

#[test]
fn batches_are_atomic_only_when_told_so() {
    assert!(parse_atomic(&params(vec![("atomic", "true")])));
    assert!(!parse_atomic(&params(vec![("atomic", "1")])));
    assert!(!parse_atomic(&params(vec![])));
    let atomic = params(vec![("atomic", "true")]);
    assert_eq!(batch_write_memory(2, None, &atomic).unwrap(), BatchMode::Atomic);
    assert_eq!(batch_write_memory(2, None, &params(vec![])).unwrap(), BatchMode::BestEffort);
    assert!(matches!(
        batch_write_memory(2, Some("1"), &atomic),
        Err(ApiError::PayloadTooLarge(_))
    ));
}

#[test]
fn a_batch_deletion_names_its_tenant_and_keeps_to_its_scope() {
    let asked = params(vec![("atomic", "true"), ("tenant_id", "acme"), ("run_id", "r1")]);
    let deletion = batch_delete_memory(2, &asked, &None).unwrap();
    assert_eq!(deletion.mode, BatchMode::Atomic);
    assert_eq!(deletion.scope.tenant_id, "acme");
    assert_eq!(deletion.scope.run_id, Some("r1".to_string()));
    let one_by_one = batch_delete_memory(1, &params(vec![("tenant_id", "acme")]), &None).unwrap();
    assert_eq!(one_by_one.mode, BatchMode::BestEffort);
    assert_eq!(bad_request(batch_delete_memory(0, &asked, &None)), "ids must not be empty");
    let nameless = params(vec![("atomic", "true")]);
    assert_eq!(bad_request(batch_delete_memory(2, &nameless, &None)), "tenant_id is required");
    let blank = params(vec![("tenant_id", "  ")]);
    assert_eq!(bad_request(batch_delete_memory(2, &blank, &None)), "tenant_id is required");
    assert_eq!(
        bad_request(batch_delete_memory(2, &asked, &Some("globex".to_string()))),
        "tenant_id query param does not match X-Tenant-ID header"
    );
}

#[test]
fn each_part_of_a_batch_is_answered_for_itself() {
    let refused = refused_result(&ApiError::BadRequest("no tenant".to_string()));
    assert_eq!(refused.status, 400);
    assert_eq!(refused.id, None);
    assert_eq!(refused.error.as_deref(), Some("Bad request: no tenant"));
    let refused = refused_result(&ApiError::PayloadTooLarge("2 of 1".to_string()));
    assert_eq!(refused.status, 413);
    assert_eq!(refused.error.as_deref(), Some("Payload too large: 2 of 1"));
    let refused = refused_result(&ApiError::Internal("disk".to_string()));
    assert_eq!(refused.status, 500);
    assert_eq!(refused.error.as_deref(), Some("internal server error"));
    let written = written_result(MemoryId("a".into()), None);
    assert_eq!(written.status, 201);
    assert_eq!(written.id, Some(MemoryId("a".into())));
    assert_eq!(written.error, None);
    let failed = written_result(MemoryId("a".into()), Some("disk".to_string()));
    assert_eq!(failed.status, 500);
    assert_eq!(failed.id, Some(MemoryId("a".into())));
    assert_eq!(failed.error.as_deref(), Some("internal server error"));
    let deleted = deleted_result(MemoryId("b".into()), None);
    assert_eq!((deleted.status, deleted.error), (204, None));
    let failed = deleted_result(MemoryId("b".into()), Some("disk".into()));
    assert_eq!(failed.status, 500);
    assert_eq!(failed.error.as_deref(), Some("internal server error"));
}

#[test]
fn queries_of_a_batch_must_name_a_tenant() {
    let query = |tenant_id: &str| Query {
        scope: tenant(tenant_id),
        text: String::new(),
        kinds: None,
        tags_any: None,
        limit: 10,
        since_ms: None,
        until_ms: None,
        cursor: None,
    };
    assert!(batch_queries(&vec![query("tenant-a"), query("tenant-b")]).is_ok());
    assert_eq!(
        bad_request(batch_queries(&vec![query("tenant-a"), query("")])),
        "scope.tenant_id is required and must be non-empty"
    );
}

/// A store in memory that refuses what is out of range, as a whole or by item.
struct Shelf {
    items: Vec<MemoryItem>,
}

impl Shelf {
    fn holds(&self, id: &str) -> bool {
        self.items.iter().any(|item| item.id.0 == id)
    }

    fn write(&mut self, rows: Vec<MemoryItem>) -> Result<(), String> {
        if rows.iter().any(|row| f32::from_bits(row.importance.0) > 1.0) {
            return Err("importance out of range".to_string());
        }
        for row in rows {
            self.items.retain(|item| item.id != row.id);
            self.items.push(row);
        }
        Ok(())
    }

    fn active(&self, subject: &str) -> Vec<MemoryItem> {
        let of_subject = |item: &&MemoryItem| {
            matches!(FactPayload::try_from_meta(&item.meta), Ok(f) if f.subject == subject)
                && read_superseded_by(&item.meta).is_none()
        };
        self.items.iter().filter(of_subject).cloned().collect()
    }
}

fn batch_write(shelf: &mut Shelf, mode: BatchMode, items: Vec<MemoryItem>) -> BatchEnd {
    let mut run = BatchRun::begin(mode, items.len());
    while let Some(place) = run.next() {
        let item = items[place].clone();
        let outcome = match prepare_memory_item(item, run.held()) {
            Err(e) => Outcome::Refused(e),
            Ok(mut preparation) => loop {
                let answer = match preparation.need() {
                    Need::Facts { subject, .. } => Answer::Facts(Ok(shelf.active(&subject))),
                    Need::Store(rows) => Answer::Stored(shelf.write(rows)),
                    Need::Embedding(_) => Answer::Embedding(None),
                    Need::Neighbours { .. } => Answer::Neighbours(Ok(vec![])),
                    Need::Nothing => {
                        let prepared = preparation.into_prepared().unwrap();
                        if mode == BatchMode::Atomic {
                            break Outcome::Prepared(prepared);
                        }
                        assert!(prepared.retired.is_empty());
                        let id = prepared.item.id.clone();
                        break Outcome::Stored { id, failure: shelf.write(vec![prepared.item]).err() };
                    }
                };
                preparation = preparation.advance(answer).unwrap();
            },
        };
        run.record(outcome);
    }
    run.answer()
}

#[test]
fn test_post_batch_write_atomic_success() {
    let mut shelf = Shelf { items: vec![] };
    let items = vec![event("at-good-1", 0, 0.5, "hello 1"), event("at-good-2", 0, 0.5, "hello 2")];
    match batch_write(&mut shelf, BatchMode::Atomic, items) {
        BatchEnd::Commit { rows, ids } => {
            assert_eq!(ids, vec![MemoryId("at-good-1".into()), MemoryId("at-good-2".into())]);
            assert!(shelf.items.is_empty());
            shelf.write(rows).unwrap();
        }
        _ => panic!("expected a transaction"),
    }
    assert!(shelf.holds("at-good-1"));
    assert!(shelf.holds("at-good-2"));
}

#[test]
fn test_post_batch_write_atomic_failure() {
    let mut shelf = Shelf { items: vec![] };
    let items = vec![event("at-good", 0, 0.5, "hello good"), event("at-bad", 0, 2.0, "hello bad")];
    match batch_write(&mut shelf, BatchMode::Atomic, items) {
        BatchEnd::Commit { rows, .. } => assert!(shelf.write(rows).is_err()),
        _ => panic!("expected a transaction"),
    }
    assert!(!shelf.holds("at-good"));
}

#[test]
fn test_post_batch_write_best_effort() {
    let mut shelf = Shelf { items: vec![] };
    let items = vec![event("be-good", 0, 0.5, "hello good"), event("be-bad", 0, 2.0, "hello bad")];
    match batch_write(&mut shelf, BatchMode::BestEffort, items) {
        BatchEnd::Results(results) => {
            assert_eq!(results.len(), 2);
            assert_eq!((results[0].status, results[1].status), (201, 500));
            assert_eq!(results[0].id, Some(MemoryId("be-good".into())));
            assert_eq!(results[0].error, None);
            assert_eq!(results[1].error.as_deref(), Some("internal server error"));
        }
        _ => panic!("expected results"),
    }
    assert!(shelf.holds("be-good"));
    assert!(!shelf.holds("be-bad"));
}

#[test]
fn a_failing_item_does_not_stop_the_others() {
    let mut shelf = Shelf { items: vec![] };
    let mut malformed = event("x", 0, 0.5, "no payload");
    malformed.kind = MemoryKind::Fact;
    let items =
        vec![malformed, event("b", 0, 2.0, "out of range"), event("c", 0, 0.5, "hello")];
    match batch_write(&mut shelf, BatchMode::BestEffort, items) {
        BatchEnd::Results(results) => {
            let statuses: Vec<u16> = results.iter().map(|r| r.status).collect();
            assert_eq!(statuses, vec![400, 500, 201]);
            assert_eq!(results[0].id, None);
        }
        _ => panic!("expected results"),
    }
    assert!(shelf.holds("c"));
}

#[test]
fn a_refused_atomic_batch_leaves_every_fact_as_it_was() {
    let mut shelf = Shelf { items: vec![fact("old", "api", "limit", "750")] };
    let mut malformed = event("x", 0, 0.5, "no payload");
    malformed.kind = MemoryKind::Fact;
    let items = vec![fact("new", "api", "limit", "1000"), malformed, event("y", 0, 0.5, "hi")];
    match batch_write(&mut shelf, BatchMode::Atomic, items) {
        BatchEnd::Refused(ApiError::BadRequest(_)) => {}
        _ => panic!("expected a refusal"),
    }
    assert_eq!(shelf.items.len(), 1);
    assert_eq!(read_superseded_by(&shelf.items[0].meta), None);
}

#[test]
fn an_atomic_batch_stores_retired_facts_with_its_items() {
    let mut shelf = Shelf { items: vec![fact("old", "api", "limit", "750")] };
    let items = vec![fact("n1", "api", "limit", "1000"), fact("n2", "api", "limit", "2000")];
    let (rows, ids) = match batch_write(&mut shelf, BatchMode::Atomic, items) {
        BatchEnd::Commit { rows, ids } => (rows, ids),
        _ => panic!("expected a transaction"),
    };
    assert_eq!(read_superseded_by(&shelf.items[0].meta), None);
    let written: Vec<&str> = rows.iter().map(|row| row.id.0.as_str()).collect();
    assert_eq!(written, vec!["old", "n1", "n2"]);
    assert_eq!(read_superseded_by(&rows[0].meta), Some(MemoryId("n1".into())));
    assert_eq!((read_version(&rows[1].meta), read_version(&rows[2].meta)), (2, 1));
    assert_eq!(ids, vec![MemoryId("n1".into()), MemoryId("n2".into())]);
}

#[test]
fn outcomes_that_do_not_fit_change_nothing() {
    let mut run = BatchRun::begin(BatchMode::Atomic, 1);
    run.record(Outcome::Stored { id: MemoryId("a".into()), failure: None });
    assert_eq!(run.next(), Some(0));
    run.record(Outcome::Refused(ApiError::NotFound));
    assert_eq!(run.next(), None);
    run.record(Outcome::Refused(ApiError::BadRequest("late".into())));
    assert!(matches!(run.answer(), BatchEnd::Refused(ApiError::NotFound)));
}

#[test]
fn deletions_are_answered_id_by_id() {
    let mut run = DeleteRun::begin(vec![MemoryId("a".into()), MemoryId("b".into())]);
    assert_eq!(run.next(), Some(MemoryId("a".into())));
    run.record(Some("disk".to_string()));
    assert_eq!(run.next(), Some(MemoryId("b".into())));
    run.record(None);
    assert_eq!(run.next(), None);
    run.record(None);
    let results = run.answer();
    assert_eq!(results.len(), 2);
    assert_eq!((results[0].id.0.as_str(), results[0].status), ("a", 500));
    assert_eq!((results[1].id.0.as_str(), results[1].status), ("b", 204));
}

#[test]
fn retired_facts_are_active_no_longer() {
    let facts = vec![fact("a", "s", "p", "1"), fact("b", "s", "p", "2")];
    let left = keep_active(facts, &vec![MemoryId("a".into())]);
    assert_eq!(left.len(), 1);
    assert_eq!(left[0].id.0, "b");
}

#[test]
fn test_prepare_memory_item_id_generation() {
    let mut item = event("", 0, 0.0, "hello");
    item.scope = tenant("test-tenant");
    item.confidence = number(0.0);
    let waiting = prepare_memory_item(item, Held::at_once()).unwrap();
    let ready = waiting.advance(Answer::Embedding(None)).unwrap();
    let prepared = ready.into_prepared().unwrap().item;
    assert!(!prepared.id.0.is_empty());
    assert_eq!(prepared.id.0.len(), 36);
    assert_eq!(read_version(&prepared.meta), 1);
    assert!(prepared.meta.contains_key(META_VERSION));
    assert!(prepared.meta.contains_key(META_PROVENANCE_IDS));
}

fn internal<T>(r: Result<T, ApiError>) -> String {
    match r {
        Err(ApiError::Internal(m)) => m,
        _ => panic!("expected an internal error"),
    }
}

#[test]
fn a_fact_is_prepared_step_by_step() {
    let new = fact("new", "api", "limit", "1000");
    let waiting = prepare_with_id(new, "unused".into(), Held::at_once()).unwrap();
    assert!(matches!(
        waiting.need(),
        Need::Facts { subject, predicate, .. } if subject == "api" && predicate == "limit"
    ));
    let old = fact("old", "api", "limit", "750");
    let waiting = waiting.advance(Answer::Facts(Ok(vec![old]))).unwrap();
    match waiting.need() {
        Need::Store(retired) => {
            assert_eq!(retired.len(), 1);
            assert_eq!(read_superseded_by(&retired[0].meta), Some(MemoryId("new".into())));
        }
        _ => panic!("expected facts to store"),
    }
    let waiting = waiting.advance(Answer::Stored(Ok(()))).unwrap();
    assert!(matches!(waiting.need(), Need::Embedding(_)));
    let made = Some((vec![number(0.5)], "model".to_string()));
    let waiting = waiting.advance(Answer::Embedding(made)).unwrap();
    match waiting.need() {
        Need::Neighbours { embedding, exclude, threshold, max, .. } => {
            assert_eq!(embedding, vec![number(0.5)]);
            assert_eq!(exclude.0, "new");
            assert_eq!(threshold, number(0.85));
            assert_eq!(max, 5);
        }
        _ => panic!("expected a comparison"),
    }
    let near = fact("near", "api", "cap", "500");
    let ready = waiting.advance(Answer::Neighbours(Ok(vec![near]))).unwrap();
    assert!(matches!(ready.need(), Need::Nothing));
    let item = ready.into_prepared().unwrap().item;
    assert_eq!(read_version(&item.meta), 2);
    assert_eq!(item.embedding_model.as_deref(), Some("model"));
    assert!(item.meta.contains_key(META_SEMANTIC_CONFLICTS));
}

#[test]
fn the_store_may_fail_a_preparation_and_the_embedder_may_not() {
    let new = || fact("new", "api", "limit", "1");
    let begin = || prepare_with_id(new(), "unused".into(), Held::at_once()).unwrap();
    assert_eq!(
        internal(begin().advance(Answer::Facts(Err("down".into())))),
        "conflict detection failed: down"
    );
    let retiring = || begin().advance(Answer::Facts(Ok(vec![]))).unwrap();
    assert_eq!(
        internal(retiring().advance(Answer::Stored(Err("full".into())))),
        "supersession write failed: full"
    );
    let embedding = || retiring().advance(Answer::Stored(Ok(()))).unwrap();
    let ready = embedding().advance(Answer::Embedding(None)).unwrap();
    assert!(ready.into_prepared().unwrap().item.embedding.is_none());
    let made = Some((vec![number(1.0)], "m".to_string()));
    let comparing = embedding().advance(Answer::Embedding(made)).unwrap();
    assert_eq!(
        internal(comparing.advance(Answer::Neighbours(Err("slow".into())))),
        "semantic conflict scan failed: slow"
    );
    let unmoved = begin().advance(Answer::Stored(Ok(()))).unwrap();
    assert!(matches!(unmoved, Preparation::Facts { .. }));
}

#[test]
fn items_without_a_tenant_or_payload_are_refused() {
    let mut item = event("x", 0, 0.5, "hello");
    item.scope = tenant(" ");
    assert_eq!(
        bad_request(admit_with_id(item, "id".to_string())),
        "scope.tenant_id is required and must be non-empty"
    );
    let mut item = event("x", 0, 0.5, "hello");
    item.kind = MemoryKind::Fact;
    assert_eq!(
        bad_request(admit_with_id(item, "id".to_string())),
        "invalid Fact payload: Fact meta is missing the `fact` key"
    );
    let mut item = event("x", 0, 0.5, "hello");
    item.kind = MemoryKind::Preference;
    assert_eq!(
        bad_request(admit_with_id(item, "id".to_string())),
        "invalid Preference payload: Preference meta is missing the `preference` key"
    );
}

#[test]
fn a_new_fact_retires_the_facts_it_contradicts() {
    let admitted = admit_with_id(fact("new", "api", "limit", "1000"), "unused".into()).unwrap();
    let object = admitted.fact.unwrap().object;
    let mut second = fact("old-2", "api", "limit", "500");
    mom::facts::write_version(&mut second.meta, 4);
    let conflicts = vec![
        fact("old-1", "api", "limit", "750"),
        second,
        fact("same", "api", "limit", "1000"),
        fact("new", "api", "limit", "1"),
    ];
    let resolution = resolve_conflicts(admitted.item, &object, conflicts);
    assert_eq!(resolution.retired.len(), 2);
    for old in &resolution.retired {
        assert_eq!(read_superseded_by(&old.meta), Some(MemoryId("new".into())));
    }
    assert_eq!(read_version(&resolution.item.meta), 5);
    assert_eq!(
        read_provenance_ids(&resolution.item.meta),
        vec![MemoryId("old-1".into()), MemoryId("old-2".into())]
    );
}

#[test]
fn admitting_an_admitted_item_changes_nothing() {
    let first = admit_with_id(event("", 1, 0.5, "x"), "made".to_string()).unwrap().item;
    assert_eq!(first.id.0, "made");
    let second = admit_with_id(first.clone(), "other".to_string()).unwrap().item;
    assert_eq!(second.id, first.id);
    assert_eq!(read_version(&second.meta), 1);
    assert!(read_provenance_ids(&second.meta).is_empty());
}

#[test]
fn near_facts_with_another_object_are_flagged_once() {
    let new = fact("new", "api", "limit", "1000");
    let candidates = vec![
        fact("near", "api", "cap", "500"),
        fact("same", "api", "cap", "1000"),
        fact("near", "api", "cap", "500"),
    ];
    let item = advise_semantic_conflicts(new, "1000", &candidates);
    let flagged = item.meta.get(META_SEMANTIC_CONFLICTS).and_then(|v| v.as_list()).unwrap();
    assert_eq!(flagged.len(), 1);
    assert_eq!(flagged[0].as_text(), Some("near"));
}

fn window(importance_threshold: f32, delete_sources: bool) -> ConsolidateRequest {
    ConsolidateRequest {
        tenant_id: "acme".to_string(),
        workspace_id: None,
        project_id: None,
        agent_id: Some("agent-1".to_string()),
        run_id: None,
        window_start_ms: 0,
        window_end_ms: 100_000,
        importance_threshold: number(importance_threshold),
        delete_sources,
    }
}

#[test]
fn consolidation_creates_one_summary_with_backing_ids() {
    let req = window(0.0, true);
    let hits: Vec<_> = (0..10)
        .map(|i| hit(event(&format!("ev-{i}"), 1_000 + i as i64, 0.5, &format!("event {i}"))))
        .collect();
    let resp = run_consolidation(&req, hits);
    assert_eq!(resp.response.consolidated_count, 10);
    assert_eq!(resp.response.summaries.len(), 1);
    assert!(resp.response.sources_deleted);
    assert_eq!(resp.delete.len(), 10);

    let summary = &resp.response.summaries[0];
    assert_eq!(summary.kind, MemoryKind::Summary);
    assert_eq!(summary.meta.get("window_start_ms").and_then(|v| v.as_i64()), Some(0));
    assert_eq!(summary.meta.get("window_end_ms").and_then(|v| v.as_i64()), Some(100_000));
    assert_eq!(read_provenance_ids(&summary.meta).len(), 10);

    let resp2 = run_consolidation(&req, vec![]);
    assert_eq!(resp2.response.consolidated_count, 0);
    assert!(resp2.response.summaries.is_empty());
}

#[test]
fn a_summary_tells_its_events_and_is_as_important() {
    let hits = vec![
        hit(event("a", 1, 0.9, "first")),
        hit(event("b", 2, 0.2, "too small")),
        hit(event("c", 3, 0.6, "second")),
    ];
    let done = consolidate_at(&window(0.5, false), hits, "sum".to_string(), 7);
    assert!(done.delete.is_empty());
    assert!(!done.response.sources_deleted);
    let summary = &done.response.summaries[0];
    assert_eq!(summary.id.0, "sum");
    assert_eq!(summary.created_at_ms, 7);
    assert_eq!(summary.importance, number(0.9));
    assert_eq!(
        read_provenance_ids(&summary.meta),
        vec![MemoryId("a".into()), MemoryId("c".into())]
    );
    match &summary.content {
        Content::Text(t) => assert_eq!(
            t,
            "Consolidated 2 event(s) in window [0, 100000]: first; second"
        ),
        _ => panic!("expected text"),
    }
}

#[test]
fn consolidation_needs_a_tenant_and_a_window() {
    let mut req = window(0.0, false);
    let q = consolidation_query(&req);
    assert_eq!(q.kinds, Some(vec![MemoryKind::Event]));
    assert_eq!(q.since_ms, Some(0));
    assert_eq!(q.until_ms, Some(100_000));
    assert!(check_consolidate(&req).is_ok());
    req.window_end_ms = -1;
    assert_eq!(bad_request(check_consolidate(&req)), "window_end_ms must be >= window_start_ms");
    req.tenant_id = String::new();
    assert_eq!(bad_request(check_consolidate(&req)), "tenant_id is required");
}

/// The newest memories older than a cursor, as a store would give them back.
fn stored_page(q: &Query) -> Vec<Scored<MemoryItem>> {
    let before = q.cursor.as_ref().map(|c| Query::decode_cursor(c).unwrap().0);
    (1..=5)
        .rev()
        .map(|i| event(&format!("page-item-{}", i), i * 1000, 0.5, &format!("hello {}", i)))
        .filter(|item| before.map_or(true, |b| item.created_at_ms < b))
        .take(q.limit)
        .map(hit)
        .collect()
}

#[test]
fn test_list_memories_pagination() {
    let q1 = list_query(&params(vec![("tenant_id", "acme"), ("limit", "2")])).unwrap();
    let body1 = paginate(stored_page(&q1), 2);
    assert_eq!(body1.items.len(), 2);
    assert_eq!(body1.items[0].id.0, "page-item-5");
    assert_eq!(body1.items[1].id.0, "page-item-4");
    let cursor1 = body1.next_cursor.unwrap();
    assert_eq!(Query::decode_cursor(&cursor1), Some((4000, "page-item-4".to_string())));

    let q2 = list_query(&params(vec![
        ("tenant_id", "acme"),
        ("limit", "2"),
        ("cursor", &cursor1),
    ]))
    .unwrap();
    let body2 = paginate(stored_page(&q2), 2);
    assert_eq!(body2.items.len(), 2);
    assert_eq!(body2.items[0].id.0, "page-item-3");
    assert_eq!(body2.items[1].id.0, "page-item-2");
    let cursor2 = body2.next_cursor.unwrap();

    let q3 = list_query(&params(vec![
        ("tenant_id", "acme"),
        ("limit", "2"),
        ("cursor", &cursor2),
    ]))
    .unwrap();
    let body3 = paginate(stored_page(&q3), 2);
    assert_eq!(body3.items.len(), 1);
    assert_eq!(body3.items[0].id.0, "page-item-1");
    assert!(body3.next_cursor.is_none());
}

#[test]
fn errors_are_answered_without_what_went_wrong_inside() {
    let internal = ApiError::Internal("db password".to_string());
    assert_eq!(internal.status_code(), 500);
    assert_eq!(internal.answer(), "internal server error");
    assert_eq!(internal.to_string(), "Internal error: db password");
    assert_eq!(ApiError::NotFound.status_code(), 404);
    assert_eq!(ApiError::NotFound.answer(), "Not found");
    let bad = ApiError::BadRequest("limit".to_string());
    assert_eq!(bad.status_code(), 400);
    assert_eq!(bad.answer(), "limit");
}

#[test]
fn the_tenant_header_must_agree() {
    let named = params(vec![("tenant_id", "acme"), ("run_id", "r1")]);
    let scope = resolve_tenant_scope(&named, &Some("acme".to_string())).unwrap();
    assert_eq!(scope.tenant_id, "acme");
    assert_eq!(scope.run_id.as_deref(), Some("r1"));
    assert!(resolve_tenant_scope(&named, &Some(" ".to_string())).is_ok());
    assert_eq!(
        bad_request(resolve_tenant_scope(&named, &Some("globex".to_string()))),
        "tenant_id query param does not match X-Tenant-ID header"
    );
    assert_eq!(
        bad_request(resolve_tenant_scope(&params(vec![("tenant_id", " ")]), &None)),
        "tenant_id is required"
    );
    let item = event("m", 0, 0.5, "x");
    assert!(validate_memory_write(&item, &None).is_ok());
    assert_eq!(
        bad_request(validate_memory_write(&item, &Some("globex".to_string()))),
        "memory scope tenant_id does not match X-Tenant-ID header"
    );
    let mut blank = event("m", 0, 0.5, "x");
    blank.scope.tenant_id = String::new();
    assert_eq!(
        bad_request(validate_memory_write(&blank, &None)),
        "tenant_id is required on memory writes"
    );
}

#[test]
fn access_is_audited_in_one_line() {
    assert_eq!(
        audit_tenant_access("read", "acme", "mem-123"),
        "audit=tenant_access operation=read tenant_id=acme resource=mem-123"
    );
}

#[test]
fn only_the_tenant_itself_may_delete() {
    let item = Some(event("m", 0, 0.5, "x"));
    assert!(may_delete_scoped(&item, &tenant("acme")));
    assert!(!may_delete_scoped(&item, &tenant("globex")));
    assert!(!may_delete_scoped(&None, &tenant("acme")));
    let mut narrow = tenant("acme");
    narrow.run_id = Some("run-1".to_string());
    assert!(!may_delete_scoped(&item, &narrow));
    assert!(require_tenant_id("acme").is_ok());
    assert_eq!(require_tenant_id("\t").unwrap_err(), "tenant_id is required");
    assert!(require_query_scope(&tenant("")).is_err());
}
