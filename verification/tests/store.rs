use mom::float::Float;
use mom::json::{to_json_text, Json, JsonMap};
use mom::memory::{Content, MemoryId, MemoryItem, MemoryKind, ScopeKey, Scored};
use mom::query::Query;
use mom::store::hybrid::{
    find_semantic_fact_conflicts, fuse_ranks, hydrate, keep_found, lexical_hits,
    merge_results_with_rrf, vector_recall, RankedResult,
};
use mom::store::rows::{
    is_expired, lay_out, live_memories, memories_of, query_items, scoped_item,
    stored_item_from_memory_item, stored_item_to_memory,
};
use mom::store::sql::{
    append_scope_where_clauses, bind_scope_filters, escape_sql_string, record_ref, scope_matches,
    BindValue,
};
use mom::store::statements::{
    bind_query_params, build_parameterized_query, delete_batch_scoped_statement,
    delete_batch_text, delete_scoped_statement, delete_text, fetch_statement,
    find_active_facts_with_key, get_scoped_statement, get_text, ids_of_items, lexical_statement,
    put_and_delete_steps, query_items_statement, query_statement, semantic_conflicts_text,
    semantic_statement, upsert_text, write_batch_text,
};

fn number(x: f32) -> Float {
    Float(x.to_bits())
}

fn scope(
    tenant: &str,
    workspace: Option<&str>,
    project: Option<&str>,
    agent: Option<&str>,
    run: Option<&str>,
) -> ScopeKey {
    ScopeKey {
        tenant_id: tenant.to_string(),
        workspace_id: workspace.map(|s| s.to_string()),
        project_id: project.map(|s| s.to_string()),
        agent_id: agent.map(|s| s.to_string()),
        run_id: run.map(|s| s.to_string()),
    }
}

fn tenant(t: &str) -> ScopeKey {
    scope(t, None, None, None, None)
}

fn item(id: &str, text: &str) -> MemoryItem {
    MemoryItem::new_at(
        MemoryId(id.to_string()),
        tenant("acme"),
        MemoryKind::Fact,
        Content::Text(text.to_string()),
        "agent".to_string(),
        1_000,
    )
}

fn query(text: &str) -> Query {
    Query {
        scope: tenant("acme"),
        text: text.to_string(),
        kinds: None,
        tags_any: None,
        limit: 10,
        since_ms: None,
        until_ms: None,
        cursor: None,
    }
}

#[test]
fn ttl_expiry_helper_marks_expired_items() {
    assert!(is_expired(1_000, Some(500), 1_500));
    assert!(is_expired(1_000, Some(500), 1_501));
}

#[test]
fn ttl_expiry_helper_keeps_fresh_or_unbounded_items() {
    assert!(!is_expired(1_000, Some(500), 1_499));
    assert!(!is_expired(1_000, None, 10_000));
}

#[test]
fn a_lifetime_beyond_the_end_of_time_never_ends() {
    assert!(!is_expired(i64::MAX, Some(1), i64::MAX));
    assert!(is_expired(0, Some(-5), 0));
}

#[test]
fn append_scope_where_clauses_includes_run_id_when_set() {
    let mut sql = String::new();
    append_scope_where_clauses(&mut sql, &scope("acme", None, None, None, Some("run-1")));
    assert!(
        sql.contains("AND run_id = $run"),
        "expected `run_id` clause when scope.run_id = Some; got `{sql}`"
    );
}

#[test]
fn append_scope_where_clauses_emits_no_run_id_when_unset() {
    let mut sql = String::new();
    append_scope_where_clauses(&mut sql, &scope("acme", Some("w1"), None, None, None));
    assert!(
        !sql.contains("run_id"),
        "run_id should be unconstrained when scope.run_id = None; got `{sql}`"
    );
}

#[test]
fn append_scope_where_clauses_emits_all_set_fields_in_canonical_order() {
    let mut sql = String::new();
    append_scope_where_clauses(
        &mut sql,
        &scope("acme", Some("w1"), Some("p1"), Some("a1"), Some("r1")),
    );
    let ws = sql.find("workspace_id").expect("workspace clause");
    let proj = sql.find("project_id").expect("project clause");
    let agent = sql.find("agent_id").expect("agent clause");
    let run = sql.find("run_id").expect("run clause");
    assert!(
        ws < proj && proj < agent && agent < run,
        "clauses out of canonical order: `{sql}`"
    );
}

#[test]
fn append_scope_where_clauses_emits_nothing_when_all_unset() {
    let mut sql = String::new();
    append_scope_where_clauses(&mut sql, &scope("acme", None, None, None, None));
    assert!(
        sql.is_empty(),
        "expected empty clause when only tenant_id is set; got `{sql}`"
    );
}

#[test]
fn scope_parameters_go_with_their_clauses() {
    let bound = bind_scope_filters(&scope("acme", Some("w1"), None, Some("a1"), Some("r1")));
    let names: Vec<&str> = bound.iter().map(|b| b.name).collect();
    let mut sql = String::new();
    append_scope_where_clauses(&mut sql, &scope("acme", Some("w1"), None, Some("a1"), Some("r1")));
    assert_eq!(names.len(), 3);
    for name in names {
        assert!(sql.contains(&format!("${name}")), "no ${name} in `{sql}`");
    }
}

#[test]
fn scopes_match_level_by_level() {
    let asked = scope("acme", Some("w1"), None, None, None);
    assert!(scope_matches(&scope("acme", Some("w1"), Some("p"), None, None), &asked));
    assert!(!scope_matches(&scope("acme", Some("w2"), None, None, None), &asked));
    assert!(!scope_matches(&scope("acme", None, None, None, None), &asked));
    assert!(!scope_matches(&scope("globex", Some("w1"), None, None, None), &asked));
}

#[test]
fn test_sql_injection_get_scoped() {
    let payloads = vec![
        "acme\\' OR tenant_id = 'other".to_string(),
        "acme\\' OR tenant_id != '".to_string(),
        "acme\\' OR 1=1 --".to_string(),
        "acme\\' OR true //".to_string(),
    ];
    for payload in payloads {
        let statement =
            get_scoped_statement(&MemoryId("inj-2".to_string()), &tenant(&payload)).unwrap();
        assert!(!statement.text.contains("acme"));
        assert!(matches!(&statement.bindings[0].value, BindValue::Text(t) if *t == payload));
    }
}

#[test]
fn quotes_and_backslashes_are_escaped() {
    assert_eq!(escape_sql_string("it's a \\ test"), "it\\'s a \\\\ test");
    assert_eq!(record_ref("a'b"), "type::thing('memory_items', 'a\\'b')");
}

#[test]
fn records_are_read_and_deleted_within_their_scope() {
    let id = MemoryId("m1".to_string());
    let asked = scope("acme", Some("w1"), None, None, Some("r1"));
    let get = get_scoped_statement(&id, &asked).unwrap();
    assert_eq!(
        get.text,
        "SELECT * FROM type::thing('memory_items', 'm1') WHERE tenant_id = $tenant_id \
         AND workspace_id = $workspace_id AND run_id = $run_id"
    );
    let names: Vec<&str> = get.bindings.iter().map(|b| b.name).collect();
    assert_eq!(names, vec!["tenant_id", "workspace_id", "run_id"]);
    let delete = delete_scoped_statement(&id, &asked).unwrap();
    assert!(delete.text.starts_with("DELETE type::thing('memory_items', 'm1') WHERE tenant_id"));
    assert_eq!(get_scoped_statement(&id, &tenant("")).unwrap_err(), "tenant_id is required");
    assert!(delete_scoped_statement(&id, &tenant(" ")).is_err());
    assert_eq!(get_text(&id), "SELECT * FROM type::thing('memory_items', 'm1')");
    assert_eq!(delete_text(&id), "DELETE type::thing('memory_items', 'm1')");
    assert_eq!(
        upsert_text(&id, "{\"a\":1}"),
        "UPSERT type::thing('memory_items', 'm1') MERGE {\"a\":1}"
    );
}

#[test]
fn queries_hold_their_filters() {
    let mut q = query("words");
    q.kinds = Some(vec![MemoryKind::Fact, MemoryKind::Event]);
    q.tags_any = Some(vec!["urgent".to_string()]);
    q.since_ms = Some(1);
    q.until_ms = Some(2);
    let text = build_parameterized_query(&q, "ORDER BY id", true);
    assert_eq!(
        text,
        "SELECT * FROM memory_items WHERE tenant_id = $tenant_id AND kind IN $kinds \
         AND tags CONTAINSANY $tags_any AND created_at_ms >= $since AND created_at_ms <= $until \
         AND (content_text CONTAINS $text OR tags CONTAINS [$text]) ORDER BY id LIMIT $limit"
    );
    let bound = bind_query_params(&q);
    let names: Vec<&str> = bound.iter().map(|b| b.name).collect();
    assert_eq!(names, vec!["tenant_id", "kinds", "tags_any", "since", "until", "text"]);
    assert!(matches!(&bound[1].value, BindValue::Texts(k) if k == &vec!["fact", "event"]));
}

#[test]
fn a_query_with_words_prefers_what_matters() {
    let with_words = query_statement(&query("words"));
    assert!(with_words.text.contains("ORDER BY importance DESC, created_at_ms DESC, id DESC"));
    let without = query_statement(&query(""));
    assert!(without.text.contains("ORDER BY created_at_ms DESC, id DESC"));
    assert!(!without.text.contains("importance"));
    let mut paged = query("words");
    paged.cursor = Some(Query::encode_cursor(99, "m1"));
    let next = query_statement(&paged);
    assert!(next.text.contains("ORDER BY created_at_ms DESC, id DESC"));
    assert!(next.text.contains("99"));
    let items = query_items_statement(&query(""));
    assert!(items.text.ends_with("ORDER BY created_at_ms ASC, id ASC"));
}

#[test]
fn facts_are_looked_up_by_subject_and_predicate() {
    let asked = scope("acme", Some("w1"), None, None, Some("r1"));
    let statement = find_active_facts_with_key(&asked, "api", "limit");
    assert!(statement.text.contains("meta.fact.subject = $subject"));
    assert!(statement.text.contains("meta.superseded_by IS NONE"));
    assert!(statement.text.contains("workspace_id"));
    assert!(!statement.text.contains("run_id"));
    assert_eq!(statement.bindings[1].name, "subject");
    let near = semantic_conflicts_text(&scope("o'neil", None, None, Some("a"), None));
    assert!(near.contains("tenant_id = 'o\\'neil'"));
    assert!(near.ends_with(" AND agent_id = 'a'"));
}

#[test]
fn searches_keep_to_their_scope() {
    let lexical = lexical_statement(&tenant("acme"), "words", 7);
    assert!(lexical.text.ends_with("ORDER BY importance DESC, created_at_ms DESC LIMIT $limit"));
    assert_eq!(lexical.bindings.len(), 3);
    assert_eq!(lexical_statement(&tenant("acme"), "", 7).bindings.len(), 2);
    let semantic = semantic_statement(&tenant("acme"));
    assert!(semantic.text.contains("embedding IS NOT NULL"));
    assert!(semantic.text.ends_with("LIMIT 1000"));
    let fetch = fetch_statement(&vec!["a".to_string(), "b".to_string()], &tenant("acme"));
    assert_eq!(
        fetch.text,
        "SELECT * FROM memory_items WHERE id IN [type::thing('memory_items', 'a'), \
         type::thing('memory_items', 'b')] AND tenant_id = $tenant_id"
    );
    let run = scope("acme", None, None, None, Some("r1"));
    let lexical = lexical_statement(&run, "", 7);
    assert_eq!(
        lexical.text,
        "SELECT * FROM memory_items WHERE tenant_id = $tenant_id \
         AND run_id = $run_id ORDER BY importance DESC, created_at_ms DESC LIMIT $limit"
    );
    let semantic = semantic_statement(&run);
    assert_eq!(
        semantic.text,
        "SELECT id, embedding FROM memory_items WHERE tenant_id = $tenant_id \
         AND embedding IS NOT NULL AND run_id = $run_id ORDER BY created_at_ms DESC LIMIT 1000"
    );
    let fetch = fetch_statement(&vec!["a".to_string()], &run);
    assert_eq!(
        fetch.text,
        "SELECT * FROM memory_items WHERE id IN [type::thing('memory_items', 'a')] \
         AND tenant_id = $tenant_id AND run_id = $run_id"
    );
    for statement in [lexical, semantic, fetch] {
        let bound = |name: &str, text: &str| {
            statement
                .bindings
                .iter()
                .any(|b| b.name == name && matches!(&b.value, BindValue::Text(t) if t == text))
        };
        assert!(bound("tenant_id", "acme"));
        assert!(bound("run_id", "r1"));
    }
}

#[test]
fn recall_by_meaning_gives_live_memories_of_the_scope_only() {
    let run = scope("acme", None, None, None, Some("r1"));
    let in_run = |id: &str, run_id: &str| {
        let mut found = item(id, "x");
        found.scope = scope("acme", None, None, None, Some(run_id));
        found
    };
    let mut over = in_run("over", "r1");
    over.ttl_ms = Some(10);
    let mut other = in_run("other", "r1");
    other.scope.tenant_id = "globex".to_string();
    let rows = vec![in_run("a", "r1"), in_run("b", "r2"), over, other, in_run("c", "r1")];
    let rows = rows.iter().map(lay_out).collect();
    let hits: Vec<Scored<String>> = vec!["c", "b", "over", "other", "a"]
        .into_iter()
        .enumerate()
        .map(|(i, id)| Scored { score: number(5.0 - i as f32), item: id.to_string() })
        .collect();
    let found = vector_recall(&hits, rows, &run, 1_010);
    let ids: Vec<&str> = found.iter().map(|h| h.item.id.0.as_str()).collect();
    assert_eq!(ids, vec!["c", "a"]);
    assert_eq!(found[0].score, number(5.0));
    assert_eq!(found[1].score, number(1.0));
}

#[test]
fn batches_are_one_transaction() {
    let items = vec![item("a", "x"), item("b", "y")];
    let ids = ids_of_items(&items);
    assert_eq!(ids, vec![MemoryId("a".into()), MemoryId("b".into())]);
    assert_eq!(
        write_batch_text(&ids, &vec!["{}".to_string(), "{\"k\":1}".to_string()]),
        "BEGIN TRANSACTION;\nUPSERT type::thing('memory_items', 'a') MERGE {};\n\
         UPSERT type::thing('memory_items', 'b') MERGE {\"k\":1};\nCOMMIT TRANSACTION;\n"
    );
    assert_eq!(
        delete_batch_text(&vec![MemoryId("a".into())]),
        "BEGIN TRANSACTION;\nDELETE type::thing('memory_items', 'a');\nCOMMIT TRANSACTION;\n"
    );
    let one = vec![MemoryId("a".into())];
    let scoped = delete_batch_scoped_statement(&one, &tenant("acme")).unwrap();
    assert_eq!(
        scoped.text,
        "BEGIN TRANSACTION;\nDELETE type::thing('memory_items', 'a') \
         WHERE tenant_id = $tenant_id;\nCOMMIT TRANSACTION;\n"
    );
    let narrow = scope("acme", Some("w1"), None, None, Some("r1"));
    let scoped = delete_batch_scoped_statement(&one, &narrow).unwrap();
    assert_eq!(
        scoped.text,
        "BEGIN TRANSACTION;\nDELETE type::thing('memory_items', 'a') \
         WHERE tenant_id = $tenant_id AND workspace_id = $workspace_id AND run_id = $run_id;\n\
         COMMIT TRANSACTION;\n"
    );
    assert_eq!(scoped.bindings.len(), 3);
    assert_eq!(
        delete_batch_scoped_statement(&one, &tenant(" ")).unwrap_err(),
        "tenant_id is required"
    );
    let steps = put_and_delete_steps(
        &MemoryId("s".into()),
        "{}",
        &vec![MemoryId("a".into()), MemoryId("b".into())],
    );
    assert_eq!(
        steps,
        vec![
            "UPSERT type::thing('memory_items', 's') MERGE {}",
            "DELETE type::thing('memory_items', 'a')",
            "DELETE type::thing('memory_items', 'b')"
        ]
    );
}

#[test]
fn items_read_back_from_their_rows() {
    let mut before = item("m", "words");
    let mut json = JsonMap::new();
    json.insert("k".to_string(), Json::PosInt(1));
    before.content =
        Content::TextJson { text: "words".to_string(), json: Json::Object(json) };
    before.meta.insert("version".to_string(), Json::PosInt(3));
    before.tags = vec!["t".to_string()];
    before.ttl_ms = Some(9);
    before.embedding = Some(vec![number(0.25)]);
    let row = stored_item_from_memory_item(&before).unwrap();
    assert_eq!(row.kind, "fact");
    assert_eq!(to_json_text(&row.meta), "{\"version\":3}");
    let after = stored_item_to_memory(row);
    assert_eq!(after.id, before.id);
    assert_eq!(after.kind, before.kind);
    assert_eq!(after.tags, before.tags);
    assert_eq!(after.ttl_ms, before.ttl_ms);
    assert_eq!(after.embedding, before.embedding);
    assert_eq!(after.meta.get("version").and_then(|v| v.as_u64()), Some(3));
    match &after.content {
        Content::TextJson { text, json } => {
            assert_eq!(text, "words");
            assert_eq!(json.get("k").and_then(|v| v.as_u64()), Some(1));
        }
        _ => panic!("expected both"),
    }
}

#[test]
fn put_rejects_blank_tenant_id() {
    let mut blank = item("m", "x");
    blank.scope.tenant_id = "   ".to_string();
    assert!(stored_item_from_memory_item(&blank).is_err());
}

#[test]
fn rows_of_unknown_kinds_are_events() {
    let mut row = lay_out(&item("m", "x"));
    row.kind = "dream".to_string();
    row.content_text = None;
    let read = stored_item_to_memory(row);
    assert_eq!(read.kind, MemoryKind::Event);
    assert!(matches!(&read.content, Content::Text(t) if t.is_empty()));
}

#[test]
fn expired_rows_are_not_found() {
    let mut short = item("short", "x");
    short.ttl_ms = Some(10);
    let rows = || vec![lay_out(&short), lay_out(&item("long", "y"))];
    assert!(scoped_item(rows(), 1_010).is_none());
    assert_eq!(scoped_item(rows(), 1_009).unwrap().id.0, "short");
    let live = query_items(rows(), 1_010, 10);
    assert_eq!(live.len(), 1);
    assert_eq!(live[0].id.0, "long");
    assert_eq!(query_items(rows(), 0, 1).len(), 1);
    assert_eq!(memories_of(rows()).len(), 2);
    assert_eq!(live_memories(rows(), 1_010).len(), 1);
}

const RRF_K: f32 = 61.0;

fn rrf_score_weighted(result: &RankedResult, lexical_weight: f32, semantic_weight: f32) -> f32 {
    let mut score = 0.0;
    if let Some(rank) = result.lexical_rank {
        score += lexical_weight / (RRF_K + rank as f32);
    }
    if let Some(rank) = result.semantic_rank {
        score += semantic_weight / (RRF_K + rank as f32);
    }
    score
}

fn merge(
    lexical: Vec<(String, f32)>,
    semantic: Vec<(String, f32)>,
    limit: usize,
) -> Vec<Scored<String>> {
    let hits = |list: Vec<(String, f32)>| -> Vec<Scored<String>> {
        list.into_iter().map(|(item, score)| Scored { score: number(score), item }).collect()
    };
    let ranked = fuse_ranks(&hits(lexical), &hits(semantic));
    let scores = ranked.iter().map(|r| number(rrf_score_weighted(r, 0.7, 0.3))).collect();
    merge_results_with_rrf(ranked, &scores, limit)
}

#[test]
fn test_merge_no_overlap() {
    let lexical = vec![("doc1".to_string(), 0.9), ("doc2".to_string(), 0.8)];
    let semantic = vec![("doc3".to_string(), 0.95), ("doc4".to_string(), 0.85)];

    let result = merge(lexical, semantic, 10);

    assert_eq!(result.len(), 4);
    assert!(result[0].item == "doc1" || result[0].item == "doc3");
}

#[test]
fn test_merge_with_overlap() {
    let lexical = vec![("doc1".to_string(), 0.9), ("doc2".to_string(), 0.8)];
    let semantic = vec![("doc1".to_string(), 0.95), ("doc3".to_string(), 0.85)];

    let result = merge(lexical, semantic, 10);

    assert_eq!(result.len(), 3);
    assert_eq!(result[0].item, "doc1");
}

#[test]
fn test_merge_respects_limit() {
    let lexical: Vec<_> = (0..20).map(|i| (format!("doc{}", i), 0.9)).collect();
    let semantic: Vec<_> = (10..30).map(|i| (format!("doc{}", i), 0.8)).collect();

    let result = merge(lexical, semantic, 5);

    assert_eq!(result.len(), 5);
}

#[test]
fn standings_name_the_place_in_each_ranking() {
    let hits = |ids: Vec<&str>| -> Vec<Scored<String>> {
        ids.into_iter().map(|i| Scored { score: number(0.5), item: i.to_string() }).collect()
    };
    let ranked = fuse_ranks(&hits(vec!["a", "b", "a"]), &hits(vec!["c", "b"]));
    assert_eq!(ranked.len(), 3);
    let of = |id: &str| ranked.iter().find(|r| r.id == id).unwrap();
    assert_eq!(of("a").lexical_rank, Some(2));
    assert_eq!(of("a").semantic_rank, None);
    assert_eq!(of("a").semantic_score, None);
    assert_eq!(of("b").lexical_rank, Some(1));
    assert_eq!(of("b").semantic_rank, Some(1));
    assert_eq!(of("c").semantic_rank, Some(0));
    assert_eq!(of("c").semantic_score, Some(number(0.5)));
}

#[test]
fn hits_become_items_in_their_order() {
    let hits: Vec<Scored<String>> = vec!["b", "missing", "a", "b"]
        .into_iter()
        .enumerate()
        .map(|(i, id)| Scored { score: number(i as f32), item: id.to_string() })
        .collect();
    let found = hydrate(&hits, &vec![item("a", "x"), item("b", "old"), item("b", "new")]);
    let ids: Vec<&str> = found.iter().map(|h| h.item.id.0.as_str()).collect();
    assert_eq!(ids, vec!["b", "a"]);
    assert_eq!(found[1].score, number(2.0));
    assert!(matches!(&found[0].item.content, Content::Text(t) if t == "new"));
    let kept = keep_found(&hits, vec![Some(item("b", "x")), None, None, Some(item("b", "x"))]);
    assert_eq!(kept.len(), 2);
    assert_eq!(kept[1].score, number(3.0));
    let mut row = lay_out(&item("r", "x"));
    row.importance = number(0.75);
    let lexical = lexical_hits(vec![row]);
    assert_eq!(lexical[0].item, "r");
    assert_eq!(lexical[0].score, number(0.75));
}

fn near(id: &str, similarity: f32) -> Scored<MemoryItem> {
    Scored { score: number(similarity), item: item(id, "x") }
}

#[test]
fn find_semantic_fact_conflicts_returns_high_similarity() {
    let query = vec![number(1.0), number(0.0), number(0.0)];
    let candidates = vec![near("orthogonal", 0.0), near("near-2", 0.99), near("near-1", 1.0)];
    let hits = find_semantic_fact_conflicts(&query, candidates, &None, number(0.85), 10);
    let ids: Vec<&str> = hits.iter().map(|h| h.item.id.0.as_str()).collect();
    assert_eq!(ids, vec!["near-1", "near-2"]);
}

#[test]
fn find_semantic_fact_conflicts_respects_exclude_and_max() {
    let query = vec![number(1.0), number(0.0), number(0.0)];
    let excluded = MemoryId("near-0".into());
    let candidates = (0..5).map(|n| near(&format!("near-{n}"), 1.0)).collect();
    let hits = find_semantic_fact_conflicts(
        &query,
        candidates,
        &Some(excluded.clone()),
        number(0.85),
        3,
    );
    assert_eq!(hits.len(), 3, "must be capped to max=3");
    assert!(hits.iter().all(|h| h.item.id != excluded), "excluded id must not appear");
}

#[test]
fn find_semantic_fact_conflicts_returns_empty_for_empty_query() {
    let hits =
        find_semantic_fact_conflicts(&vec![], vec![near("fact-1", 1.0)], &None, number(0.85), 10);
    assert!(hits.is_empty(), "empty query embedding short-circuits");
    let none = find_semantic_fact_conflicts(
        &vec![number(1.0)],
        vec![near("fact-1", 1.0)],
        &None,
        number(0.85),
        0,
    );
    assert!(none.is_empty());
}
