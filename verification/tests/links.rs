use mom::float::Float;
use mom::link::{MemoryLink, MemoryLinkId, RelationshipType, TraversalStep};
use mom::memory::{MemoryId, ScopeKey};
use mom::service::error::ApiError;
use mom::service::links::{
    create_link, create_link_at, map_link_store_err, parse_optional_rel, traverse_request,
    traverse_response, update_link, CreateLinkRequest, UpdateLinkRequest,
};
use mom::service::params::Params;
use mom::store::links::{
    check_link, check_link_ends, delete_link_statement, find_contradictions_statement, found_link,
    get_link_statement, list_links_from_statement, read_links, stored_from_link, tenant_scope,
    updated_link, PUT_LINK,
};
use mom::store::sql::BindValue;
use mom::store::traverse::{next_statement, traverse, Traversal};

fn number(x: f32) -> Float {
    Float(x.to_bits())
}

fn link(id: &str, src: &str, dst: &str, rel: RelationshipType) -> MemoryLink {
    MemoryLink {
        id: MemoryLinkId(id.into()),
        tenant_id: "tenant-a".into(),
        src: MemoryId(src.into()),
        dst: MemoryId(dst.into()),
        rel,
        weight: number(0.9),
        confidence: number(0.95),
        created_at_ms: 1_700_000_000_001,
    }
}

fn causal(src: &str, dst: &str) -> MemoryLink {
    link(&format!("{src}-{dst}"), src, dst, RelationshipType::Causal)
}

/// Follows links among the given ones until the traversal is over.
fn run(from: &str, max_depth: usize, links: &Vec<MemoryLink>) -> Vec<TraversalStep> {
    let mut traversal = Traversal::new(&MemoryId(from.into()), max_depth);
    while let Some(current) = traversal.next_memory() {
        let outgoing = links.iter().filter(|l| l.src == current).cloned().collect();
        traversal.feed(outgoing);
    }
    traversal.into_steps()
}

#[test]
fn parse_optional_rel_accepts_absent_or_valid() {
    let mut params = Params::new();
    assert!(parse_optional_rel(&params).unwrap().is_none());

    params.insert("rel".into(), "causal".into());
    assert_eq!(parse_optional_rel(&params).unwrap(), Some(RelationshipType::Causal));
}

#[test]
fn parse_optional_rel_rejects_invalid() {
    let mut params = Params::new();
    params.insert("rel".into(), "not-a-rel".into());
    assert!(matches!(parse_optional_rel(&params), Err(ApiError::BadRequest(_))));
    match parse_optional_rel(&params) {
        Err(ApiError::BadRequest(m)) => assert_eq!(m, "invalid rel: not-a-rel"),
        _ => panic!("expected a bad request"),
    }
}

#[test]
fn map_link_store_err_classifies_client_errors() {
    assert!(matches!(
        map_link_store_err("source memory not found in tenant".to_string()),
        ApiError::BadRequest(_)
    ));
    assert!(matches!(
        map_link_store_err("weight and confidence must be in 0..=1".to_string()),
        ApiError::BadRequest(_)
    ));
    assert!(matches!(map_link_store_err("link not found".to_string()), ApiError::NotFound));
}

#[test]
fn other_failures_of_the_link_store_stay_inside() {
    assert!(matches!(map_link_store_err("disk full".to_string()), ApiError::Internal(_)));
    assert!(matches!(map_link_store_err("link not found!".to_string()), ApiError::Internal(_)));
}

#[test]
fn every_relationship_reads_back() {
    for rel in [
        RelationshipType::Causal,
        RelationshipType::DerivedFrom,
        RelationshipType::Contradicts,
        RelationshipType::SameAs,
        RelationshipType::References,
    ] {
        assert_eq!(RelationshipType::parse(rel.as_str()), Some(rel));
    }
    assert_eq!(RelationshipType::parse("Causal"), None);
    assert_eq!(RelationshipType::DerivedFrom.as_str(), "derived_from");
}

#[test]
fn link_create_and_traverse_causal_chain() {
    let links = vec![link("link-ab", "event-a", "event-b", RelationshipType::Causal)];
    let steps = run("event-a", 3, &links);

    assert_eq!(steps.len(), 1);
    assert_eq!(steps[0].memory_id.0, "event-b");
    assert_eq!(steps[0].link.rel, RelationshipType::Causal);
    assert_eq!(steps[0].depth, 1);
}

#[test]
fn find_contradictions_returns_conflict_edges() {
    let fact_1 = Some(MemoryId("fact-1".into()));
    let statement = find_contradictions_statement("tenant-a", &fact_1).unwrap();
    assert!(statement.text.contains("rel = 'contradicts'"));
    assert!(statement.text.contains("src_memory_id = $id OR dst_memory_id = $id"));
    let rows = vec![stored_from_link(&link(
        "link-cx",
        "fact-1",
        "fact-2",
        RelationshipType::Contradicts,
    ))];
    let conflicts = read_links(rows);
    assert_eq!(conflicts.len(), 1);
    assert_eq!(conflicts[0].rel, RelationshipType::Contradicts);
}

#[test]
fn a_traversal_reaches_each_memory_once_by_a_shortest_way() {
    let links = vec![
        causal("a", "b"),
        causal("a", "c"),
        causal("b", "d"),
        causal("c", "d"),
        causal("d", "a"),
        causal("d", "e"),
        causal("e", "f"),
    ];
    let steps = run("a", 3, &links);
    let seen: Vec<(&str, usize)> =
        steps.iter().map(|s| (s.memory_id.0.as_str(), s.depth)).collect();
    assert_eq!(seen, vec![("b", 1), ("c", 1), ("d", 2), ("e", 3)]);
    assert_eq!(steps[2].link.src.0, "b");
    assert_eq!(steps[3].link.id.0, "d-e");
}

#[test]
fn a_traversal_goes_one_step_at_least_and_thirty_two_at_most() {
    let chain: Vec<MemoryLink> =
        (0..50).map(|i| causal(&format!("n{i}"), &format!("n{}", i + 1))).collect();
    assert_eq!(run("n0", 0, &chain).len(), 1);
    assert_eq!(run("n0", 5, &chain).len(), 5);
    let all = run("n0", 1000, &chain);
    assert_eq!(all.len(), 32);
    assert_eq!(all[31].depth, 32);
}

#[test]
fn a_traversal_that_is_over_ignores_what_it_is_fed() {
    let mut traversal = Traversal::new(&MemoryId("a".into()), 1);
    traversal.feed(vec![causal("a", "b")]);
    assert!(traversal.next_memory().is_none());
    traversal.feed(vec![causal("b", "c")]);
    assert_eq!(traversal.into_steps().len(), 1);
    assert_eq!(
        traverse(" ", &MemoryId("a".into()), 3).unwrap_err(),
        "tenant_id is required"
    );
    assert!(traverse("t", &MemoryId("a".into()), 3).is_ok());
}

#[test]
fn a_traversal_asks_for_links_of_its_tenant_and_relationship() {
    let mut traversal = traverse("acme", &MemoryId("a".into()), 2).unwrap();
    let rel = Some(RelationshipType::Causal);
    let bound = |traversal: &Traversal, rel: Option<RelationshipType>| {
        let statement = next_statement("acme", traversal, rel).unwrap()?;
        let values = statement.bindings.into_iter().map(|b| match b.value {
            BindValue::Text(text) => text,
            _ => panic!("expected a text"),
        });
        Some(values.collect::<Vec<String>>())
    };
    assert_eq!(bound(&traversal, rel).unwrap(), vec!["acme", "a", "causal"]);
    assert_eq!(bound(&traversal, None).unwrap(), vec!["acme", "a"]);
    traversal.feed(vec![causal("a", "b")]);
    assert_eq!(bound(&traversal, rel).unwrap(), vec!["acme", "b", "causal"]);
    traversal.feed(vec![causal("b", "c"), causal("b", "a")]);
    assert!(bound(&traversal, rel).is_none());
    assert_eq!(next_statement("", &traversal, rel).unwrap_err(), "tenant_id is required");
    let steps = traversal.into_steps();
    let taken: Vec<(&str, &str)> =
        steps.iter().map(|s| (s.link.src.0.as_str(), s.link.dst.0.as_str())).collect();
    assert_eq!(taken, vec![("a", "b"), ("b", "c")]);
}

#[test]
fn links_read_back_from_their_rows() {
    let before = link("l", "a", "b", RelationshipType::SameAs);
    let after = stored_from_link(&before).into_link().unwrap();
    assert_eq!(after.id, before.id);
    assert_eq!(after.src, before.src);
    assert_eq!(after.dst, before.dst);
    assert_eq!(after.rel, before.rel);
    assert_eq!(after.weight, before.weight);
    assert_eq!(after.created_at_ms, before.created_at_ms);
    let mut row = stored_from_link(&before);
    row.rel = "unheard_of".into();
    assert!(row.into_link().is_none());
    assert!(found_link(vec![]).is_none());
    let found = found_link(vec![stored_from_link(&before)]).unwrap();
    assert_eq!(found.id.0, "l");
}

#[test]
fn links_must_be_sound_and_have_their_ends() {
    let good = link("l", "a", "b", RelationshipType::Causal);
    assert!(check_link(&good).is_ok());
    let mut bad = good.clone();
    bad.weight = number(1.5);
    assert_eq!(check_link(&bad).unwrap_err(), "weight and confidence must be in 0..=1");
    bad.weight = number(f32::NAN);
    assert!(check_link(&bad).is_err());
    bad.weight = number(-0.0);
    assert!(check_link(&bad).is_ok());
    bad.tenant_id = "  ".into();
    assert_eq!(check_link(&bad).unwrap_err(), "tenant_id is required");
    assert_eq!(check_link_ends(false, false).unwrap_err(), "source memory not found in tenant");
    assert_eq!(
        check_link_ends(true, false).unwrap_err(),
        "destination memory not found in tenant"
    );
    assert!(check_link_ends(true, true).is_ok());
}

#[test]
fn an_updated_link_keeps_its_age() {
    let mut old = link("l", "a", "b", RelationshipType::Causal);
    old.created_at_ms = 5;
    let new = link("l", "a", "b", RelationshipType::Causal);
    assert_eq!(updated_link(new.clone(), Some(old)).unwrap().created_at_ms, 5);
    assert_eq!(updated_link(new, None).unwrap_err(), "link not found");
}

#[test]
fn link_statements_name_their_tenant() {
    let id = MemoryLinkId("l".into());
    let delete = delete_link_statement("acme", &id).unwrap();
    assert_eq!(delete.text, "DELETE memory_links WHERE link_id = $id AND tenant_id = $tenant");
    assert_eq!(delete.bindings[1].name, "tenant");
    assert!(matches!(&delete.bindings[1].value, BindValue::Text(t) if t == "acme"));
    let get = get_link_statement("acme", &id).unwrap();
    assert!(get.text.ends_with("LIMIT 1"));
    let src = MemoryId("a".into());
    let some = list_links_from_statement("acme", &src, Some(RelationshipType::Causal)).unwrap();
    assert!(some.text.ends_with("AND rel = $rel"));
    assert_eq!(some.bindings.len(), 3);
    let all = list_links_from_statement("acme", &src, None).unwrap();
    assert_eq!(all.bindings.len(), 2);
    assert!(find_contradictions_statement("acme", &None).unwrap().text.ends_with("'contradicts'"));
    assert!(get_link_statement("", &id).is_err());
    assert!(delete_link_statement("", &id).is_err());
    assert!(list_links_from_statement("", &src, None).is_err());
    assert!(find_contradictions_statement("", &None).is_err());
    assert_eq!(PUT_LINK, "UPSERT type::thing('memory_links', $id) MERGE $data");
    assert_eq!(tenant_scope("acme").tenant_id, "acme");
}

fn scope() -> ScopeKey {
    tenant_scope("acme")
}

fn request(rel: &str, weight: Option<f32>) -> CreateLinkRequest {
    CreateLinkRequest {
        src_memory_id: "event-a".into(),
        dst_memory_id: "event-b".into(),
        rel: rel.into(),
        weight: weight.map(number),
        confidence: None,
    }
}

#[test]
fn new_links_are_full_unless_told_otherwise() {
    let made = create_link_at(&scope(), request("causal", None), "l1".into(), 9).unwrap();
    assert_eq!(made.id.0, "l1");
    assert_eq!(made.tenant_id, "acme");
    assert_eq!(made.weight, number(1.0));
    assert_eq!(made.confidence, number(1.0));
    assert_eq!(made.created_at_ms, 9);
    let random = create_link(&scope(), request("same_as", Some(0.25))).unwrap();
    assert_eq!(random.id.0.len(), 36);
    assert_eq!(random.weight, number(0.25));
    match create_link(&scope(), request("friend", None)) {
        Err(ApiError::BadRequest(m)) => assert_eq!(m, "invalid rel: friend"),
        _ => panic!("expected a bad request"),
    }
    match create_link(&scope(), request("causal", Some(2.0))) {
        Err(ApiError::BadRequest(m)) => {
            assert_eq!(m, "weight and confidence must be in 0..=1");
        }
        _ => panic!("expected a bad request"),
    }
}

#[test]
fn a_change_leaves_the_rest_of_a_link() {
    let old = link("l", "a", "b", RelationshipType::References);
    let req = UpdateLinkRequest { weight: Some(number(0.8)), confidence: None };
    let new = update_link(&req, Some(old.clone())).unwrap();
    assert_eq!(new.weight, number(0.8));
    assert_eq!(new.confidence, old.confidence);
    assert_eq!(new.rel, old.rel);
    assert_eq!(new.created_at_ms, old.created_at_ms);
    assert!(matches!(update_link(&req, None), Err(ApiError::NotFound)));
    let bad = UpdateLinkRequest { weight: None, confidence: Some(number(-1.0)) };
    assert!(matches!(update_link(&bad, Some(old)), Err(ApiError::BadRequest(_))));
}

#[test]
fn traversals_are_asked_for_by_parameters() {
    let mut params = Params::new();
    assert!(matches!(
        traverse_request(&params),
        Err(ApiError::BadRequest(m)) if m == "from is required"
    ));
    params.insert("from".into(), "event-a".into());
    let plain = traverse_request(&params).unwrap();
    assert_eq!(plain.max_depth, 5);
    assert_eq!(plain.rel, None);
    params.insert("depth".into(), "2".into());
    params.insert("rel".into(), "causal".into());
    let full = traverse_request(&params).unwrap();
    assert_eq!(full.max_depth, 2);
    let answer = traverse_response(full, run("event-a", 2, &vec![causal("event-a", "b")]));
    assert_eq!(answer.from.0, "event-a");
    assert_eq!(answer.rel.as_deref(), Some("causal"));
    assert_eq!(answer.steps.len(), 1);
    params.insert("depth".into(), "deep".into());
    assert_eq!(traverse_request(&params).unwrap().max_depth, 5);
}
