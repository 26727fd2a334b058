use mom::float::Float;
use mom::json::{Json, JsonMap};
use mom::memory::{Content, MemoryId, MemoryItem, MemoryKind, ScopeKey};
use mom::store::statements::assign_ids;

fn number(x: f32) -> Float {
    Float(x.to_bits())
}

fn object(fields: Vec<(&str, &str)>) -> Json {
    let mut map = JsonMap::new();
    for (key, value) in fields {
        map.insert(key.to_string(), Json::text(value));
    }
    Json::Object(map)
}

fn field<'a>(json: &'a Json, key: &str) -> Option<&'a str> {
    json.get(key).and_then(|v| v.as_text())
}

fn tenant(tenant_id: &str) -> ScopeKey {
    ScopeKey {
        tenant_id: tenant_id.to_string(),
        workspace_id: None,
        project_id: None,
        agent_id: None,
        run_id: None,
    }
}

fn item(id: &str, scope: ScopeKey, content: Content) -> MemoryItem {
    MemoryItem {
        id: MemoryId(id.to_string()),
        scope,
        kind: MemoryKind::Event,
        created_at_ms: 0,
        content,
        tags: vec![],
        importance: number(0.5),
        confidence: number(1.0),
        source: "system".to_string(),
        ttl_ms: None,
        meta: JsonMap::new(),
        embedding: None,
        embedding_model: None,
    }
}

fn text(t: &str) -> Content {
    Content::Text(t.to_string())
}

#[test]
fn test_memory_item_text_event() {
    let item = MemoryItem {
        id: MemoryId("test-1".to_string()),
        scope: ScopeKey {
            tenant_id: "test-tenant".to_string(),
            workspace_id: Some("workspace-1".to_string()),
            project_id: None,
            agent_id: Some("agent-1".to_string()),
            run_id: None,
        },
        kind: MemoryKind::Event,
        created_at_ms: 1609459200000,
        content: text("User requested code review"),
        tags: vec!["code-review".to_string(), "pr-123".to_string()],
        importance: number(0.8),
        confidence: number(0.95),
        source: "user".to_string(),
        ttl_ms: None,
        meta: JsonMap::new(),
        embedding: None,
        embedding_model: None,
    };

    assert_eq!(item.id.0, "test-1");
    assert_eq!(item.kind, MemoryKind::Event);
    assert_eq!(item.source, "user");
    assert_eq!(item.tags.len(), 2);
    assert_eq!(item.importance, number(0.8));
}

#[test]
fn test_memory_item_json_event() {
    let mut content = JsonMap::new();
    content.insert("type".to_string(), Json::text("tool_response"));
    content.insert("tool".to_string(), Json::text("linter"));
    content.insert("status".to_string(), Json::text("success"));
    content.insert("issues".to_string(), Json::PosInt(3));

    let mut item = item("test-2", tenant("test-tenant"), Content::Json(Json::Object(content)));
    item.created_at_ms = 1609459200000;
    item.tags = vec!["tool-response".to_string()];
    item.source = "tool".to_string();

    assert_eq!(item.kind, MemoryKind::Event);
    assert_eq!(item.source, "tool");
    match &item.content {
        Content::Json(v) => {
            assert_eq!(field(v, "type"), Some("tool_response"));
            assert_eq!(field(v, "status"), Some("success"));
        }
        _ => panic!("Expected JSON content"),
    }
}

#[test]
fn test_memory_item_text_json_event() {
    let item = MemoryItem {
        id: MemoryId("test-3".to_string()),
        scope: ScopeKey {
            tenant_id: "acme".to_string(),
            workspace_id: Some("repo".to_string()),
            project_id: Some("backend".to_string()),
            agent_id: Some("critic".to_string()),
            run_id: Some("run-001".to_string()),
        },
        kind: MemoryKind::Summary,
        created_at_ms: chrono::Utc::now().timestamp_millis(),
        content: Content::TextJson {
            text: "Code summary: Simple Rust program".to_string(),
            json: object(vec![("code", "fn main() {}"), ("lang", "rust")]),
        },
        tags: vec!["summary".to_string(), "rust".to_string()],
        importance: number(0.7),
        confidence: number(0.9),
        source: "agent".to_string(),
        ttl_ms: Some(86400000),
        meta: JsonMap::new(),
        embedding: None,
        embedding_model: None,
    };

    assert_eq!(item.kind, MemoryKind::Summary);
    assert_eq!(item.source, "agent");
    assert_eq!(item.ttl_ms, Some(86400000));
    match &item.content {
        Content::TextJson { text, json } => {
            assert!(text.contains("Code summary"));
            assert_eq!(field(json, "lang"), Some("rust"));
        }
        _ => panic!("Expected TextJson content"),
    }
}

#[test]
fn test_scope_isolation() {
    let mut scope1 = tenant("tenant-a");
    scope1.workspace_id = Some("ws-1".to_string());
    let mut scope2 = tenant("tenant-b");
    scope2.workspace_id = Some("ws-2".to_string());
    let item1 = item("1", scope1, text("Tenant A data"));
    let item2 = item("2", scope2, text("Tenant B data"));

    assert_ne!(item1.scope.tenant_id, item2.scope.tenant_id);
}

#[test]
fn test_id_generation() {
    let mut items = assign_ids(vec![item("", tenant("test"), text("Test"))]);
    let item = items.remove(0);

    assert!(!item.id.0.is_empty());
    assert!(item.id.0.contains('-'));
}

#[test]
fn ids_that_are_there_stay() {
    let items = assign_ids(vec![
        item("mine", tenant("test"), text("a")),
        item("", tenant("test"), text("b")),
        item("", tenant("test"), text("c")),
    ]);
    assert_eq!(items[0].id.0, "mine");
    assert_eq!(items[1].id.0.len(), 36);
    assert_ne!(items[1].id, items[2].id);
}

#[test]
fn test_tags_support() {
    let mut item = item("test", tenant("test"), text("Tagged event"));
    item.tags = vec!["urgent".to_string(), "code-review".to_string(), "pr-123".to_string()];
    item.importance = number(0.8);
    item.source = "user".to_string();

    assert_eq!(item.tags.len(), 3);
    assert!(item.tags.contains(&"urgent".to_string()));
    assert!(item.tags.contains(&"code-review".to_string()));
}

#[test]
fn test_source_values() {
    let sources = vec!["user", "tool", "agent", "system"];

    for source in sources {
        let mut item = item("test", tenant("test"), text("Test"));
        item.source = source.to_string();
        assert_eq!(item.source, source);
    }
}

#[test]
fn test_ttl_optional() {
    let mut item_with_ttl = item("1", tenant("test"), text("Expires"));
    item_with_ttl.ttl_ms = Some(3600000);
    let item_no_ttl = item("2", tenant("test"), text("Permanent"));

    assert_eq!(item_with_ttl.ttl_ms, Some(3600000));
    assert_eq!(item_no_ttl.ttl_ms, None);
}

#[test]
fn test_timestamp_present() {
    let now_ms = chrono::Utc::now().timestamp_millis();
    let item = MemoryItem::new(
        MemoryId("test".to_string()),
        tenant("test"),
        MemoryKind::Event,
        text("Test"),
        "test".to_string(),
    );

    assert!((item.created_at_ms - now_ms).abs() < 1000);
}

fn create_basic_item(id: &str, kind: MemoryKind) -> MemoryItem {
    let mut item = item(id, tenant("test"), Content::Text(format!("Deletable {:?}", kind)));
    item.kind = kind;
    item.source = "test".to_string();
    item
}

#[test]
fn test_deletion_works_with_all_memory_kinds() {
    let kinds = vec![
        MemoryKind::Event,
        MemoryKind::Summary,
        MemoryKind::Fact,
        MemoryKind::Preference,
    ];

    for kind in kinds {
        let item = create_basic_item(&format!("delete-{:?}", kind).to_lowercase(), kind);
        assert_eq!(item.kind, kind, "Item kind should match expected {:?}", kind);
        assert!(!item.id.0.is_empty(), "Item should have non-empty ID");
    }
}

#[test]
fn test_deletion_preserves_scope_information() {
    let scope = ScopeKey {
        tenant_id: "tenant-delete-test".to_string(),
        workspace_id: Some("ws-delete".to_string()),
        project_id: Some("proj-delete".to_string()),
        agent_id: Some("agent-delete".to_string()),
        run_id: Some("run-delete".to_string()),
    };
    let item = item("scoped-delete", scope.clone(), text("Scoped item"));

    assert_eq!(item.scope.tenant_id, "tenant-delete-test");
    assert_eq!(item.scope.workspace_id, Some("ws-delete".to_string()));
    assert_eq!(item.scope.project_id, Some("proj-delete".to_string()));
    assert_eq!(item.scope.agent_id, Some("agent-delete".to_string()));
    assert_eq!(item.scope.run_id, Some("run-delete".to_string()));
}

#[test]
fn test_deletion_with_ttl() {
    let mut item = create_basic_item("ttl-delete", MemoryKind::Event);
    item.ttl_ms = Some(3600000);

    assert_eq!(item.ttl_ms, Some(3600000));
    assert_eq!(item.kind, MemoryKind::Event);
}

#[test]
fn test_deletion_with_multiple_tags() {
    let mut item = create_basic_item("tagged-delete", MemoryKind::Event);
    item.tags = vec![
        "tag1".to_string(),
        "tag2".to_string(),
        "tag3".to_string(),
        "delete-me".to_string(),
    ];
    item.importance = number(0.8);

    assert_eq!(item.tags.len(), 4);
    assert!(item.tags.contains(&"delete-me".to_string()));
}

#[test]
fn test_deletion_with_json_content() {
    let content =
        object(vec![("action", "delete"), ("reason", "cleanup"), ("status", "pending")]);
    let mut item = create_basic_item("json-delete", MemoryKind::Event);
    item.content = Content::Json(content);

    match &item.content {
        Content::Json(v) => {
            assert_eq!(field(v, "action"), Some("delete"));
        }
        _ => panic!("Expected JSON content"),
    }
}

#[test]
fn test_deletion_with_confidence_levels() {
    for confidence in &[0.0, 0.5, 0.95, 1.0] {
        let mut item = create_basic_item(&format!("conf-{}", confidence), MemoryKind::Event);
        item.confidence = number(*confidence);
        assert_eq!(item.confidence, number(*confidence));
    }
}

#[test]
fn test_deletion_with_importance_levels() {
    for importance in &[0.0, 0.25, 0.75, 1.0] {
        let mut item = create_basic_item(&format!("imp-{}", importance), MemoryKind::Event);
        item.importance = number(*importance);
        assert_eq!(item.importance, number(*importance));
    }
}

#[test]
fn test_deletion_with_optional_scope_fields() {
    let scope_partial = ScopeKey {
        tenant_id: "test".to_string(),
        workspace_id: Some("ws-1".to_string()),
        project_id: None,
        agent_id: Some("agent-1".to_string()),
        run_id: None,
    };
    let item = item("partial-scope", scope_partial, text("Item with partial scope"));

    assert!(item.scope.workspace_id.is_some());
    assert!(item.scope.project_id.is_none());
    assert!(item.scope.agent_id.is_some());
    assert!(item.scope.run_id.is_none());
}

#[test]
fn test_deletion_with_empty_vs_populated_tags() {
    let empty_tags = create_basic_item("empty-tags", MemoryKind::Event);
    assert_eq!(empty_tags.tags.len(), 0);

    let mut with_tags = create_basic_item("with-tags", MemoryKind::Event);
    with_tags.tags = vec!["important".to_string()];
    assert_eq!(with_tags.tags.len(), 1);
}

fn workspace(tenant_id: &str, workspace_id: &str) -> ScopeKey {
    let mut scope = tenant(tenant_id);
    scope.workspace_id = Some(workspace_id.to_string());
    scope
}

#[test]
fn test_scope_key_tenant_isolation_basic() {
    let tenant_a_scope = workspace("acme-corp", "ws-1");
    let tenant_b_scope = workspace("globex-corp", "ws-1");

    assert_ne!(tenant_a_scope.tenant_id, tenant_b_scope.tenant_id);
    assert_eq!(tenant_a_scope.tenant_id, "acme-corp");
    assert_eq!(tenant_b_scope.tenant_id, "globex-corp");
}

#[test]
fn test_scope_key_same_tenant_different_workspaces() {
    let scope_ws1 = workspace("acme", "workspace-1");
    let scope_ws2 = workspace("acme", "workspace-2");

    assert_eq!(scope_ws1.tenant_id, scope_ws2.tenant_id);
    assert_ne!(scope_ws1.workspace_id, scope_ws2.workspace_id);
}

#[test]
fn test_memory_item_preserves_tenant_scope() {
    let tenant_scope = ScopeKey {
        tenant_id: "customer-123".to_string(),
        workspace_id: Some("proj-abc".to_string()),
        project_id: Some("task-xyz".to_string()),
        agent_id: Some("agent-001".to_string()),
        run_id: Some("run-2024-03-10".to_string()),
    };
    let mut item = item("mem-001", tenant_scope.clone(), text("Sensitive customer data"));
    item.tags = vec!["confidential".to_string()];
    item.importance = number(0.9);
    item.source = "customer-app".to_string();

    assert_eq!(item.scope.tenant_id, "customer-123");
    assert_eq!(item.scope.workspace_id, Some("proj-abc".to_string()));
    assert_eq!(item.scope.project_id, Some("task-xyz".to_string()));
    assert_eq!(item.scope.agent_id, Some("agent-001".to_string()));
    assert_eq!(item.scope.run_id, Some("run-2024-03-10".to_string()));
}

#[test]
fn test_different_tenants_can_have_same_id() {
    let shared_id = "shared-memory-001";

    let mut tenant_a_item = item(shared_id, tenant("tenant-a"), text("Tenant A data"));
    tenant_a_item.kind = MemoryKind::Fact;
    tenant_a_item.created_at_ms = 1000;
    tenant_a_item.source = "a-system".to_string();

    let mut tenant_b_item = item(shared_id, tenant("tenant-b"), text("Tenant B data"));
    tenant_b_item.kind = MemoryKind::Fact;
    tenant_b_item.created_at_ms = 2000;
    tenant_b_item.importance = number(0.7);
    tenant_b_item.source = "b-system".to_string();

    assert_eq!(tenant_a_item.id, tenant_b_item.id);
    assert_ne!(tenant_a_item.scope.tenant_id, tenant_b_item.scope.tenant_id);
    match (&tenant_a_item.content, &tenant_b_item.content) {
        (Content::Text(a), Content::Text(b)) => assert_ne!(a, b),
        _ => panic!("Expected both to be Text content"),
    }
    assert_ne!(tenant_a_item.created_at_ms, tenant_b_item.created_at_ms);
}

#[test]
fn test_scope_validation_cross_tenant_mismatch() {
    let item_scope = workspace("tenant-x", "ws-1");
    let request_scope = workspace("tenant-y", "ws-1");

    let stored = item("m", item_scope.clone(), text("x"));
    let seen = mom::service::tenant::get_scoped(Some(stored), &request_scope);
    let tenant_isolation_check = item_scope.tenant_id == request_scope.tenant_id;
    assert!(!tenant_isolation_check, "Should detect tenant mismatch");
    assert!(seen.is_none());
}

#[test]
fn test_scope_validation_same_tenant_allowed() {
    let item_scope = workspace("tenant-alpha", "ws-1");
    let request_scope = workspace("tenant-alpha", "ws-1");

    let stored = item("m", item_scope.clone(), text("x"));
    let seen = mom::service::tenant::get_scoped(Some(stored), &request_scope);
    let tenant_isolation_check = item_scope.tenant_id == request_scope.tenant_id;
    assert!(tenant_isolation_check, "Should allow access when tenant matches");
    assert!(seen.is_some());
}
