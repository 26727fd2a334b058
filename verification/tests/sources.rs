use mom::embedding::{
    content_embed_text, create_embedder, first_embedding, maybe_embed_item, text_to_embed,
    EmbeddingProvider, EmbeddingSettings, MistralEmbedder, OllamaEmbedder, OpenAIEmbedder,
};
use mom::float::Float;
use mom::json::{to_json_text, Json, JsonMap};
use mom::memory::{Content, MemoryId, MemoryItem, MemoryKind, ScopeKey};
use mom::source::connectors::{
    health_request, is_healthy, DataFabricConnector, OxidizedGraphConnector, OxidizedRAGConnector,
    RAGCodeResult, RAGQueryResult, SourceConfig, TaskActivity, TaskDecision, WorkflowDecision,
    WorkflowExecution,
};
use mom::source::datafabric::{
    floor_fact_confidence, memory_of_fact, memory_of_task, priority_to_importance,
    DataFabricSource, FactRecord, TaskRecord,
};
use mom::source::http::{authorization, retry_after, DEFAULT_TIMEOUT_SECS};
use mom::source::ingestion::{
    health_check_failure, subscribe_updates, FetchFailure, IngestionError,
};
use mom::source::oxidizedgraph::{
    Decision, OxidizedGraphSource, StateTransition, WorkflowTrace,
};
use mom::source::oxidizedrag::{FunctionAnalysis, OxidizedRAGAnalysis, OxidizedRAGSource};
use mom::source::scheduler::{IngestionScheduler, Poll};

fn number(x: f32) -> Float {
    Float(x.to_bits())
}

fn detail<'a>(item: &'a MemoryItem, key: &str) -> Option<&'a str> {
    match &item.content {
        Content::TextJson { json, .. } => json.get(key).and_then(|v| v.as_text()),
        _ => None,
    }
}

fn text_of(item: &MemoryItem) -> &str {
    match &item.content {
        Content::TextJson { text, .. } => text,
        Content::Text(text) => text,
        Content::Json(_) => panic!("expected text"),
    }
}

fn repo_scope() -> ScopeKey {
    ScopeKey {
        tenant_id: "test".to_string(),
        workspace_id: Some("repo".to_string()),
        project_id: Some("ci".to_string()),
        agent_id: None,
        run_id: Some("20260305".to_string()),
    }
}

fn tenant(tenant_id: &str) -> ScopeKey {
    ScopeKey {
        tenant_id: tenant_id.to_string(),
        workspace_id: None,
        project_id: None,
        agent_id: None,
        run_id: None,
    }
}

#[test]
fn test_datafabric_source_creation() {
    let source = DataFabricSource::new("http://localhost:8003".to_string());
    assert_eq!(source.source_id(), "datafabric");
    assert!(source.api_key.is_none());
}

#[test]
fn test_datafabric_with_api_key() {
    let source = DataFabricSource::new("http://localhost:8003".to_string())
        .with_api_key("secret789".to_string());
    assert_eq!(source.api_key.as_deref(), Some("secret789"));
}

fn task(status: &str, priority: i32) -> TaskRecord {
    TaskRecord {
        id: "task-001".to_string(),
        task_type: "build".to_string(),
        status: status.to_string(),
        title: "Compile project".to_string(),
        description: "Full project compilation".to_string(),
        started_at: 1609459200000,
        completed_at: Some(1609459300000),
        owner: "ci-agent".to_string(),
        priority,
    }
}

fn fact(confidence: f32) -> FactRecord {
    FactRecord {
        id: "fact-001".to_string(),
        content: "API endpoint accepts POST requests".to_string(),
        category: "api-spec".to_string(),
        validation_status: "validated".to_string(),
        created_at: 1609459200000,
        confidence: number(confidence),
    }
}

#[test]
fn test_memory_item_from_task() {
    let memory = memory_of_task(&task("completed", 8), &repo_scope());

    assert_eq!(memory.source, "datafabric");
    assert_eq!(memory.kind, MemoryKind::Fact);
    assert_eq!(memory.confidence, number(1.0));
    assert_eq!(memory.id.0, "datafabric:task:task-001");
    assert_eq!(memory.created_at_ms, 1609459200000);
    assert_eq!(memory.importance, number(0.8));
    assert_eq!(text_of(&memory), "build: Compile project");
    assert_eq!(detail(&memory, "type"), Some("task"));
    assert_eq!(detail(&memory, "owner"), Some("ci-agent"));
    assert_eq!(memory.tags, vec!["task", "build", "priority:8", "datafabric"]);
    assert_eq!(memory.scope.run_id.as_deref(), Some("20260305"));
}

#[test]
fn tasks_under_way_are_events() {
    let memory = memory_of_task(&task("running", -4), &repo_scope());
    assert_eq!(memory.kind, MemoryKind::Event);
    assert_eq!(memory.confidence, number(0.7));
    assert_eq!(memory.importance, number(0.0));
    assert_eq!(memory.tags[2], "priority:-4");
}

#[test]
fn facts_are_kept_with_their_category() {
    let memory = memory_of_fact(&fact(0.98), &repo_scope());
    assert_eq!(memory.id.0, "datafabric:fact:fact-001");
    assert_eq!(memory.kind, MemoryKind::Fact);
    assert_eq!(memory.confidence, number(0.98));
    assert_eq!(memory.importance, number(0.8));
    assert_eq!(memory.tags, vec!["fact", "api-spec", "validated", "datafabric"]);
    assert_eq!(detail(&memory, "validation_status"), Some("validated"));
}

#[test]
fn data_fabric_answers_become_memories() {
    let source = DataFabricSource::new("http://fabric".to_string());
    let memories = source
        .fetch_memories(&repo_scope(), Ok(vec![task("completed", 3)]), Some(vec![fact(0.1)]))
        .unwrap();
    assert_eq!(memories.len(), 2);
    assert_eq!(memories[0].importance, number(0.3));
    assert_eq!(memories[1].confidence, number(0.7));
    let without = source.fetch_memories(&repo_scope(), Ok(vec![task("x", 1)]), None).unwrap();
    assert_eq!(without.len(), 1);
    let call = source.fetch_memories(&repo_scope(), Err(FetchFailure::Call("down".into())), None);
    assert_eq!(call.unwrap_err(), "Failed to call data-fabric API: down");
    let parse =
        source.fetch_memories(&repo_scope(), Err(FetchFailure::Parse("eof".into())), None);
    assert_eq!(parse.unwrap_err(), "Failed to parse data-fabric tasks response: eof");
}

#[test]
fn data_fabric_is_asked_by_workspace() {
    let source = DataFabricSource::new("http://fabric".to_string());
    assert_eq!(
        source.tasks_url(&repo_scope(), Some(17)),
        "http://fabric/v1/tasks?workspace=repo&since=17"
    );
    assert_eq!(
        source.tasks_url(&tenant("t"), None),
        "http://fabric/v1/tasks?workspace=default"
    );
    assert_eq!(source.facts_url(&repo_scope()), "http://fabric/v1/facts?workspace=repo");
    assert_eq!(source.health_url(), "http://fabric/v1/health");
    assert_eq!(
        source.description(),
        "Task records, modifications, and validated facts from data-fabric"
    );
}

#[test]
fn priority_to_importance_clamps_above_ten_to_one() {
    assert_eq!(priority_to_importance(11), number(1.0));
    assert_eq!(priority_to_importance(1_000_000), number(1.0));
    assert_eq!(priority_to_importance(i32::MAX), number(1.0));
}

#[test]
fn priority_to_importance_clamps_negative_to_zero() {
    assert_eq!(priority_to_importance(-1), number(0.0));
    assert_eq!(priority_to_importance(i32::MIN), number(0.0));
}

#[test]
fn priority_to_importance_maps_in_range_linearly() {
    assert_eq!(priority_to_importance(0), number(0.0));
    assert_eq!(priority_to_importance(5), number(0.5));
    assert_eq!(priority_to_importance(8), number(0.8));
    assert_eq!(priority_to_importance(10), number(1.0));
    for p in 0..=10 {
        assert_eq!(priority_to_importance(p), number(p as f32 / 10.0));
    }
}

#[test]
fn floor_fact_confidence_does_not_inflate_high_upstream_values() {
    assert_eq!(floor_fact_confidence(number(0.95)), number(0.95));
    assert_eq!(floor_fact_confidence(number(1.0)), number(1.0));
}

#[test]
fn floor_fact_confidence_floors_low_upstream_at_seven_tenths() {
    assert_eq!(floor_fact_confidence(number(0.5)), number(0.7));
    assert_eq!(floor_fact_confidence(number(0.0)), number(0.7));
}

#[test]
fn floor_fact_confidence_clamps_out_of_range_inputs() {
    assert_eq!(floor_fact_confidence(number(1.5)), number(1.0));
    assert_eq!(floor_fact_confidence(number(-0.2)), number(0.7));
}

#[test]
fn floor_fact_confidence_handles_nan_gracefully() {
    assert_eq!(floor_fact_confidence(number(f32::NAN)), number(0.7));
    assert_eq!(floor_fact_confidence(number(-f32::NAN)), number(0.7));
    assert_eq!(floor_fact_confidence(number(f32::INFINITY)), number(1.0));
}

#[test]
fn test_oxidizedgraph_source_creation() {
    let source = OxidizedGraphSource::new("http://localhost:8002".to_string());
    assert_eq!(source.source_id(), "oxidizedgraph");
    assert!(source.api_key.is_none());
}

#[test]
fn test_oxidizedgraph_with_api_key() {
    let source = OxidizedGraphSource::new("http://localhost:8002".to_string())
        .with_api_key("secret456".to_string());
    assert_eq!(source.api_key.as_deref(), Some("secret456"));
}

fn run_scope() -> ScopeKey {
    ScopeKey {
        tenant_id: "test".to_string(),
        workspace_id: Some("workspace".to_string()),
        project_id: Some("project".to_string()),
        agent_id: Some("agent".to_string()),
        run_id: Some("run".to_string()),
    }
}

fn trace() -> WorkflowTrace {
    WorkflowTrace {
        agent_id: "agent".to_string(),
        run_id: "run-001".to_string(),
        decisions: vec![Decision {
            id: "d1".to_string(),
            decision_type: "approval".to_string(),
            action: "approve_pr".to_string(),
            confidence: number(0.95),
            reasoning: "Code quality is good".to_string(),
            timestamp: 1609459200000,
        }],
        state_transitions: vec![StateTransition {
            from_state: "open".to_string(),
            to_state: "approved".to_string(),
            trigger: "quality_check_passed".to_string(),
            timestamp: 1609459200001,
        }],
        timestamp: 1609459200000,
    }
}

#[test]
fn test_memory_item_from_decision() {
    let source = OxidizedGraphSource::new("http://graph".to_string());
    let memories = source.fetch_memories(&run_scope(), Ok(trace())).unwrap();
    let memory = &memories[0];

    assert_eq!(memory.source, "oxidizedgraph");
    assert_eq!(memory.kind, MemoryKind::Fact);
    assert_eq!(memory.confidence, number(0.95));
    assert_eq!(memory.id.0, "oxidizedgraph:agent:run:decision:d1");
    assert_eq!(text_of(memory), "Decision: approval - approve_pr");
    assert_eq!(detail(memory, "type"), Some("decision"));
    assert_eq!(memory.importance, number(0.8));
}

#[test]
fn transitions_are_events_by_their_place() {
    let source = OxidizedGraphSource::new("http://graph".to_string());
    let memories = source.fetch_memories(&tenant("t"), Ok(trace())).unwrap();
    assert_eq!(memories.len(), 2);
    let memory = &memories[1];
    assert_eq!(memory.id.0, "oxidizedgraph:default:latest:transition:0");
    assert_eq!(memory.kind, MemoryKind::Event);
    assert_eq!(
        text_of(memory),
        "State transition: open → approved (quality_check_passed)"
    );
    assert_eq!(memory.importance, number(0.6));
    assert_eq!(memory.tags, vec!["state", "transition", "oxidizedgraph"]);
}

#[test]
fn oxidizedgraph_is_asked_by_run() {
    let source = OxidizedGraphSource::new("http://graph".to_string());
    assert_eq!(
        source.traces_url(&run_scope()),
        "http://graph/v1/traces?agent=agent&run=run"
    );
    assert_eq!(
        source.traces_url(&tenant("t")),
        "http://graph/v1/traces?agent=default&run=latest"
    );
    let parse = source.fetch_memories(&tenant("t"), Err(FetchFailure::Parse("x".into())));
    assert_eq!(parse.unwrap_err(), "Failed to parse oxidizedgraph response: x");
    let call = source.fetch_memories(&tenant("t"), Err(FetchFailure::Call("x".into())));
    assert_eq!(call.unwrap_err(), "Failed to call oxidizedgraph API: x");
    assert_eq!(source.health_url(), "http://graph/v1/health");
}

#[test]
fn test_oxidizedrag_source_creation() {
    let source = OxidizedRAGSource::new("http://localhost:8001".to_string());
    assert_eq!(source.source_id(), "oxidizedrag");
    assert!(source.api_key.is_none());
}

#[test]
fn test_oxidizedrag_with_api_key() {
    let source = OxidizedRAGSource::new("http://localhost:8001".to_string())
        .with_api_key("secret123".to_string());
    assert_eq!(source.api_key.as_deref(), Some("secret123"));
}

fn analysis(patterns: Vec<&str>) -> OxidizedRAGAnalysis {
    OxidizedRAGAnalysis {
        repo: "my-repo".to_string(),
        file: "lib.rs".to_string(),
        analysis_type: "ast".to_string(),
        functions: vec![FunctionAnalysis {
            name: "analyze".to_string(),
            signature: "fn analyze(&self) -> Result<Analysis>".to_string(),
            line_start: 10,
            line_end: 25,
        }],
        patterns: patterns.into_iter().map(|p| p.to_string()).collect(),
        dependencies: vec!["tokio".to_string(), "serde".to_string()],
        timestamp: 1609459200000,
        confidence: number(0.95),
    }
}

#[test]
fn test_memory_item_from_analysis() {
    let mut scope = tenant("test");
    scope.workspace_id = Some("repo".to_string());
    scope.project_id = Some("main".to_string());
    let source = OxidizedRAGSource::new("http://rag".to_string());
    let memories = source.fetch_memories(&scope, Ok(analysis(vec![]))).unwrap();
    assert_eq!(memories.len(), 1);
    let memory = &memories[0];

    assert_eq!(memory.source, "oxidizedrag");
    assert_eq!(memory.kind, MemoryKind::Fact);
    assert_eq!(memory.confidence, number(0.95));
    assert_eq!(memory.id.0, "oxidizedrag:repo:main:analyze");
    assert_eq!(text_of(memory), "Function analyze at 10:25");
    assert_eq!(detail(memory, "name"), Some("analyze"));
    match &memory.content {
        Content::TextJson { json, .. } => assert_eq!(
            to_json_text(json.get("location").unwrap()),
            "{\"end\":25,\"file\":\"main\",\"start\":10}"
        ),
        _ => panic!("expected both"),
    }
}

#[test]
fn patterns_are_summed_up() {
    let source = OxidizedRAGSource::new("http://rag".to_string());
    let memories = source
        .fetch_memories(&tenant("t"), Ok(analysis(vec!["async_handler", "error_handling"])))
        .unwrap();
    assert_eq!(memories.len(), 2);
    let summary = &memories[1];
    assert_eq!(summary.id.0, "oxidizedrag:default:all:patterns");
    assert_eq!(summary.kind, MemoryKind::Summary);
    assert_eq!(text_of(summary), "Code patterns detected: async_handler, error_handling");
    match &summary.content {
        Content::TextJson { json, .. } => assert_eq!(
            to_json_text(json),
            "{\"count\":2,\"patterns\":[\"async_handler\",\"error_handling\"],\"type\":\"patterns\"}"
        ),
        _ => panic!("expected both"),
    }
    assert_eq!(source.analyze_url(&tenant("t")), "http://rag/v1/analyze?repo=default&file=all");
    assert_eq!(source.health_url(), "http://rag/v1/health");
    let parse = source.fetch_memories(&tenant("t"), Err(FetchFailure::Parse("x".into())));
    assert_eq!(parse.unwrap_err(), "Failed to parse oxidizedRAG response: x");
    let call = source.fetch_memories(&tenant("t"), Err(FetchFailure::Call("x".into())));
    assert_eq!(call.unwrap_err(), "Failed to call oxidizedRAG API: x");
}

#[test]
fn test_oxidizedrag_connector_creation() {
    let connector = OxidizedRAGConnector::new();
    assert_eq!(connector.name(), "oxidizedRAG");
}

#[test]
fn test_oxidizedrag_default() {
    let _connector = OxidizedRAGConnector::default();
}

#[test]
fn test_oxidizedgraph_connector_creation() {
    let connector = OxidizedGraphConnector::new();
    assert_eq!(connector.name(), "oxidizedgraph");
}

#[test]
fn test_oxidizedgraph_default() {
    let _connector = OxidizedGraphConnector::default();
}

#[test]
fn test_datafabric_connector_creation() {
    let connector = DataFabricConnector::new();
    assert_eq!(connector.name(), "data-fabric");
}

#[test]
fn test_datafabric_default() {
    let _connector = DataFabricConnector::default();
}

fn config(source_type: &str, api_key: Option<&str>) -> SourceConfig {
    SourceConfig {
        source_id: "test".to_string(),
        source_type: source_type.to_string(),
        endpoint: "http://localhost:8000".to_string(),
        api_key: api_key.map(|k| k.to_string()),
        poll_interval_secs: 60,
        enabled: true,
    }
}

#[test]
fn test_oxidizedrag_health_check_no_api_key() {
    assert_eq!(health_request(&config("oxidizedrag", None)).unwrap_err(), "No API key");
}

#[test]
fn test_oxidizedrag_fetch_memories_no_api_key() {
    let result = OxidizedRAGConnector::new().recent_request(&config("oxidizedrag", None));
    assert_eq!(result.unwrap_err(), "API key required for oxidizedRAG");
}

#[test]
fn test_oxidizedgraph_health_check_no_api_key() {
    assert!(health_request(&config("oxidizedgraph", None)).is_err());
}

#[test]
fn test_oxidizedgraph_fetch_memories_no_api_key() {
    let result = OxidizedGraphConnector::new().recent_request(&config("oxidizedgraph", None));
    assert_eq!(result.unwrap_err(), "API key required for oxidizedgraph");
}

#[test]
fn test_datafabric_health_check_no_api_key() {
    assert!(health_request(&config("data-fabric", None)).is_err());
}

#[test]
fn test_datafabric_fetch_memories_no_api_key() {
    let result = DataFabricConnector::new().recent_request(&config("data-fabric", None));
    assert_eq!(result.unwrap_err(), "API key required for data-fabric");
}

#[test]
fn connectors_ask_with_their_key() {
    let with_key = config("x", Some("k"));
    let request = OxidizedRAGConnector::new().recent_request(&with_key).unwrap();
    assert_eq!(request.url, "http://localhost:8000/api/v1/queries/recent");
    assert_eq!(request.authorization, "Bearer k");
    let request = OxidizedGraphConnector::new().recent_request(&with_key).unwrap();
    assert_eq!(request.url, "http://localhost:8000/api/v1/executions/recent");
    let request = DataFabricConnector::new().recent_request(&with_key).unwrap();
    assert_eq!(request.url, "http://localhost:8000/api/v1/tasks/recent");
    assert_eq!(
        health_request(&with_key).unwrap().url,
        "http://localhost:8000/api/v1/health"
    );
    assert!(is_healthy(Some(204)));
    assert!(!is_healthy(Some(300)));
    assert!(!is_healthy(None));
}

#[test]
fn recent_queries_become_memories() {
    let result = |path: &str| RAGCodeResult {
        file_path: path.to_string(),
        snippet: "fn x() {}".to_string(),
        pattern: "singleton".to_string(),
        confidence: number(0.4),
    };
    let queries = vec![
        RAGQueryResult { query: "q1".into(), results: vec![result("a.rs"), result("b.rs")], timestamp: 5 },
        RAGQueryResult { query: "q2".into(), results: vec![], timestamp: 6 },
        RAGQueryResult { query: "q3".into(), results: vec![result("c.rs")], timestamp: -7 },
    ];
    let memories = OxidizedRAGConnector::new().memories(&queries, 99);
    let ids: Vec<&str> = memories.iter().map(|m| m.id.0.as_str()).collect();
    assert_eq!(ids, vec!["rag-5-a.rs", "rag-5-b.rs", "rag--7-c.rs"]);
    assert_eq!(memories[0].created_at_ms, 99);
    assert_eq!(memories[0].scope.tenant_id, "system");
    assert_eq!(text_of(&memories[0]), "Code pattern: singleton in a.rs");
    assert_eq!(detail(&memories[2], "query"), Some("q3"));
    assert_eq!(memories[0].confidence, number(0.4));
}

#[test]
fn recent_executions_become_memories() {
    let executions = vec![WorkflowExecution {
        workflow_id: "w".into(),
        execution_id: "e1".into(),
        status: "done".into(),
        decisions: vec![
            WorkflowDecision {
                decision_id: "d1".into(),
                description: "ship".into(),
                approved: true,
                timestamp: 1,
            },
            WorkflowDecision {
                decision_id: "d2".into(),
                description: "skip".into(),
                approved: false,
                timestamp: 2,
            },
        ],
        timestamp: 3,
    }];
    let memories = OxidizedGraphConnector::new().memories(&executions, 4);
    assert_eq!(memories[0].id.0, "graph-e1-d1");
    assert_eq!(text_of(&memories[0]), "Workflow decision: ship (approved)");
    assert_eq!(memories[0].importance, number(0.8));
    assert_eq!(text_of(&memories[1]), "Workflow decision: skip (rejected)");
    assert_eq!(memories[1].importance, number(0.6));
    assert_eq!(memories[1].confidence, number(0.95));
    assert_eq!(memories[1].scope.run_id.as_deref(), Some("e1"));
}

#[test]
fn recent_tasks_become_memories() {
    let tasks = vec![TaskActivity {
        task_id: "t1".into(),
        description: "move".into(),
        status: "open".into(),
        decisions: vec![TaskDecision {
            decision_id: "d".into(),
            content: "use boxes".into(),
            outcome: "agreed".into(),
        }],
        timestamp: 1,
    }];
    let memories = DataFabricConnector::new().memories(&tasks, 2);
    assert_eq!(memories.len(), 1);
    assert_eq!(memories[0].id.0, "df-t1-d");
    assert_eq!(text_of(&memories[0]), "Task decision: use boxes (agreed)");
    assert_eq!(memories[0].importance, number(0.85));
    assert_eq!(memories[0].confidence, number(0.9));
    assert_eq!(detail(&memories[0], "task_status"), Some("open"));
}

#[test]
fn failing_servers_are_asked_again_with_growing_waits() {
    assert_eq!(retry_after(503, 0), Some(100));
    assert_eq!(retry_after(500, 1), Some(200));
    assert_eq!(retry_after(500, 2), None);
    assert_eq!(retry_after(404, 0), None);
    assert_eq!(retry_after(200, 0), None);
    assert_eq!(DEFAULT_TIMEOUT_SECS, 30);
    assert_eq!(authorization(&Some("k".into())).as_deref(), Some("Bearer k"));
    assert_eq!(authorization(&None), None);
}

#[test]
fn ingestion_errors_are_told_in_words() {
    let unavailable = IngestionError::SourceUnavailable("rag".into(), "timeout".into());
    assert_eq!(unavailable.to_string(), "Source rag unavailable: timeout");
    assert_eq!(
        IngestionError::InvalidMemory("x".into()).to_string(),
        "Invalid memory format: x"
    );
    assert_eq!(IngestionError::ScopeMismatch("x".into()).to_string(), "Scope mismatch: x");
    assert_eq!(IngestionError::StorageError("x".into()).to_string(), "Storage error: x");
    assert_eq!(
        subscribe_updates("datafabric"),
        "Real-time subscriptions not supported for datafabric"
    );
    assert_eq!(health_check_failure("x"), "Health check failed: x");
}

#[test]
fn ingest_source_fetches_and_stores_from_wiremock() {
    let source = OxidizedRAGSource::new("http://rag".to_string());
    let mut scheduler = IngestionScheduler::new(60);
    scheduler.register_source(source.source_id());
    let mut scope = tenant("tenant-a");
    scope.workspace_id = Some("repo".into());
    scope.project_id = Some("all".into());

    assert_eq!(scheduler.since("oxidizedrag"), Ok(None));
    let memories = source.fetch_memories(&scope, Ok(analysis(vec![]))).expect("ingest");
    let poll = Poll::Fetched { count: memories.len(), stored: Ok(()) };
    assert_eq!(scheduler.ingest_source("oxidizedrag", poll, 42), Ok(1));

    let status = scheduler.status();
    let stats = status.source("oxidizedrag").expect("stats");
    assert_eq!(stats.last_success_count, 1);
    assert_eq!(stats.total_ingested, 1);
    assert!(stats.last_error.is_none());
    assert_eq!(scheduler.since("oxidizedrag"), Ok(Some(42)));
}

#[test]
fn ingest_source_failure_does_not_advance_since_watermark() {
    let source = OxidizedRAGSource::new("http://rag".to_string());
    let mut scheduler = IngestionScheduler::new(60);
    scheduler.register_source(source.source_id());

    let result =
        source.fetch_memories(&tenant("tenant-a"), Err(FetchFailure::Parse("empty".into())));
    let poll = Poll::Failed(result.unwrap_err());
    assert!(scheduler.ingest_source("oxidizedrag", poll, 42).is_err());

    let status = scheduler.status();
    let stats = status.source("oxidizedrag").expect("stats");
    assert!(stats.last_poll_at_ms.is_none());
    assert_eq!(stats.last_success_count, 0);
    assert!(stats.last_error.is_some());
}

#[test]
fn memories_that_were_not_stored_are_asked_for_again() {
    let mut scheduler = IngestionScheduler::new(60);
    scheduler.register_source("a");
    let stored = || Poll::Fetched { count: 2, stored: Ok(()) };
    assert_eq!(scheduler.ingest_source("a", stored(), 10), Ok(2));
    let unstored = Poll::Fetched { count: 3, stored: Err("disk".to_string()) };
    assert_eq!(scheduler.ingest_source("a", unstored, 20), Err("disk".to_string()));
    assert_eq!(scheduler.since("a"), Ok(Some(10)));
    let report = scheduler.status();
    assert_eq!(report.source("a").unwrap().last_success_count, 2);
    assert_eq!(report.source("a").unwrap().last_error, None);
    assert_eq!(scheduler.ingest_source("b", stored(), 30), Err("unknown source: b".to_string()));
    assert!(scheduler.status().source("b").is_none());
}

#[test]
fn sources_are_scheduled_once_each() {
    let mut scheduler = IngestionScheduler::new(300);
    scheduler.register_source("b");
    scheduler.register_source("a");
    scheduler.register_source("b");
    assert_eq!(scheduler.source_count(), 2);
    assert_eq!(scheduler.source_ids(), vec!["b", "a"]);
    assert_eq!(scheduler.poll_interval(), 300);
    assert_eq!(scheduler.since("c").unwrap_err(), "unknown source: c");
    scheduler.record_success("a", 2, 10);
    scheduler.record_success("b", 1, 11);
    scheduler.record_success("a", 3, 20);
    scheduler.record_failure("a", "down".to_string());
    assert_eq!(scheduler.since("a"), Ok(Some(20)));
    assert_eq!(scheduler.since("b"), Ok(Some(11)));
    let report = scheduler.status();
    assert_eq!(report.source("a").unwrap().total_ingested, 5);
    assert_eq!(report.source("a").unwrap().last_error.as_deref(), Some("down"));
    assert_eq!(report.source("b").unwrap().last_success_count, 1);
    assert!(report.source("c").is_none());
    assert!(!report.loop_running);
    scheduler.start_loop();
    assert!(scheduler.status().loop_running);
}

#[test]
fn test_mistral_embedder_creation() {
    let embedder = MistralEmbedder::new("test-key".to_string(), "mistral-embed".to_string());
    assert_eq!(embedder.dims(), 1024);
    assert_eq!(embedder.model_id(), "mistral-embed");
    assert_eq!(embedder.authorization(), "Bearer test-key");
}

#[test]
fn test_ollama_embedder_creation() {
    let embedder = OllamaEmbedder::new(
        "http://localhost:11434".to_string(),
        "mxbai-embed-large".to_string(),
    );
    assert_eq!(embedder.dims(), 1024);
    assert_eq!(embedder.model_id(), "mxbai-embed-large");
    assert_eq!(embedder.embed_url(), "http://localhost:11434/api/embeddings");
    assert_eq!(OllamaEmbedder::new("u".into(), "nomic-embed-text".into()).dims(), 768);
}

#[test]
fn test_openai_embedder_creation() {
    let embedder =
        OpenAIEmbedder::new("test-key".to_string(), "text-embedding-3-large".to_string());
    assert_eq!(embedder.dims(), 3072);
    assert_eq!(embedder.model_id(), "text-embedding-3-large");
    assert_eq!(OpenAIEmbedder::new("k".into(), "text-embedding-3-small".into()).dims(), 1536);
}

fn settings(provider: Option<&str>) -> EmbeddingSettings {
    EmbeddingSettings {
        provider: provider.map(|p| p.to_string()),
        ollama_base_url: None,
        ollama_model: None,
        mistral_api_key: Err("environment variable not found".to_string()),
        mistral_model: None,
        openai_api_key: Ok("key".to_string()),
        openai_model: Some("text-embedding-3-small".to_string()),
    }
}

#[test]
fn the_provider_is_chosen_by_the_settings() {
    match create_embedder(settings(None)) {
        Ok(EmbeddingProvider::Ollama(e)) => {
            assert_eq!(e.base_url, "http://localhost:11434");
            assert_eq!(e.model, "mxbai-embed-large");
        }
        _ => panic!("expected Ollama"),
    }
    match create_embedder(settings(Some("openai"))) {
        Ok(EmbeddingProvider::OpenAI(e)) => {
            assert_eq!(e.api_key, "key");
            assert_eq!(e.model, "text-embedding-3-small");
        }
        _ => panic!("expected OpenAI"),
    }
    assert_eq!(
        create_embedder(settings(Some("mistral"))).unwrap_err(),
        "environment variable not found"
    );
    assert_eq!(
        create_embedder(settings(Some("abacus"))).unwrap_err(),
        "Unknown embedding provider: abacus"
    );
    assert_eq!(first_embedding(vec![]).unwrap_err(), "No embeddings returned");
    let first = first_embedding(vec![vec![number(1.0)], vec![number(2.0)]]).unwrap();
    assert_eq!(first, vec![number(1.0)]);
}

fn embeddable(kind: MemoryKind, content: Content) -> MemoryItem {
    MemoryItem::new_at(
        MemoryId("m1".to_string()),
        tenant("acme"),
        kind,
        content,
        "agent".to_string(),
        1,
    )
}

fn made() -> Option<Vec<Float>> {
    Some(vec![number(0.1), number(0.2), number(0.3)])
}

#[test]
fn embeds_text_memory() {
    let item = embeddable(MemoryKind::Event, Content::Text("deploy kubernetes".to_string()));
    assert_eq!(text_to_embed(&item).as_deref(), Some("deploy kubernetes"));
    let item = maybe_embed_item(item, made(), "stub-model");
    assert!(item.embedding.is_some());
    assert_eq!(item.embedding_model.as_deref(), Some("stub-model"));
}

#[test]
fn skips_checkpoint_kind() {
    let item = embeddable(MemoryKind::Checkpoint, Content::Text("state blob".to_string()));
    assert_eq!(text_to_embed(&item), None);
    let item = maybe_embed_item(item, made(), "stub-model");
    assert!(item.embedding.is_none());
}

#[test]
fn preserves_existing_embedding() {
    let mut item = embeddable(MemoryKind::Fact, Content::Text("fact".to_string()));
    item.embedding = Some(vec![number(9.0)]);
    item.embedding_model = Some("existing".to_string());
    let item = maybe_embed_item(item, made(), "stub-model");
    assert_eq!(item.embedding, Some(vec![number(9.0)]));
    assert_eq!(item.embedding_model.as_deref(), Some("existing"));
}

#[test]
fn a_failed_embedding_leaves_the_item() {
    let item = embeddable(MemoryKind::Event, Content::Text("words".to_string()));
    let item = maybe_embed_item(item, None, "stub-model");
    assert!(item.embedding.is_none());
    assert!(item.embedding_model.is_none());
    let blank = Content::Text("  ".to_string());
    assert_eq!(content_embed_text(&blank, MemoryKind::Event), None);
    let data = Content::Json(Json::Object(JsonMap::new()));
    assert_eq!(content_embed_text(&data, MemoryKind::Event), None);
    let both = Content::TextJson { text: "t".to_string(), json: Json::Null };
    assert_eq!(content_embed_text(&both, MemoryKind::Fact).as_deref(), Some("t"));
}
