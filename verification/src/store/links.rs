//! Links in the database, and the breadth-first traversal over them.
use crate::float::Float;
use crate::link::{
    law_only_its_word_names_a_relationship, law_relationship_reads_back, rel_named, rel_text, validate_link_metadata, LinkModel,
    MemoryLink, MemoryLinkId, RelationshipType,
};
use crate::memory::{MemoryId, ScopeKey, ScopeModel};
use crate::model::{opt, views};
use crate::service::tenant::require_tenant_id;
use crate::store::sql::{push_text_binding, BindModel, Binding, Statement, StatementModel, ValueModel};
use crate::text::{blank, occurs, occurs_at};
use vstd::prelude::*;

verus! {

/// The statement that stores a link's row: its id under `id`, the row under
/// `data`.
pub const PUT_LINK: &'static str = "UPSERT type::thing('memory_links', $id) MERGE $data";

/// A link as a row.
#[derive(Debug)]
pub struct StoredLink {
    pub link_id: String,
    pub tenant_id: String,
    pub src_memory_id: String,
    pub dst_memory_id: String,
    pub rel: String,
    pub weight: Float,
    pub confidence: Float,
    pub created_at_ms: i64,
}

/// The model of a link's row.
pub struct LinkRow {
    pub link_id: Seq<char>,
    pub tenant_id: Seq<char>,
    pub src_memory_id: Seq<char>,
    pub dst_memory_id: Seq<char>,
    pub rel: Seq<char>,
    pub weight: Float,
    pub confidence: Float,
    pub created_at_ms: i64,
}

impl View for StoredLink {
    type V = LinkRow;

    open spec fn view(&self) -> LinkRow {
        LinkRow {
            link_id: self.link_id@,
            tenant_id: self.tenant_id@,
            src_memory_id: self.src_memory_id@,
            dst_memory_id: self.dst_memory_id@,
            rel: self.rel@,
            weight: self.weight,
            confidence: self.confidence,
            created_at_ms: self.created_at_ms,
        }
    }
}

/// The row of a link.
pub open spec fn link_row(link: LinkModel) -> LinkRow {
    LinkRow {
        link_id: link.id,
        tenant_id: link.tenant_id,
        src_memory_id: link.src,
        dst_memory_id: link.dst,
        rel: rel_text(link.rel),
        weight: link.weight,
        confidence: link.confidence,
        created_at_ms: link.created_at_ms,
    }
}

/// The link that a row holds; none where its relationship is unknown.
pub open spec fn link_of(row: LinkRow) -> Option<LinkModel> {
    match rel_named(row.rel) {
        Some(rel) => Some(
            LinkModel {
                id: row.link_id,
                tenant_id: row.tenant_id,
                src: row.src_memory_id,
                dst: row.dst_memory_id,
                rel,
                weight: row.weight,
                confidence: row.confidence,
                created_at_ms: row.created_at_ms,
            },
        ),
        None => None,
    }
}

/// Lays out a link as a row.
pub fn stored_from_link(link: &MemoryLink) -> (r: StoredLink)
    ensures
        r@ == link_row(link@),
{
    StoredLink {
        link_id: link.id.0.clone(),
        tenant_id: link.tenant_id.clone(),
        src_memory_id: link.src.0.clone(),
        dst_memory_id: link.dst.0.clone(),
        rel: link.rel.as_str().to_owned(),
        weight: link.weight,
        confidence: link.confidence,
        created_at_ms: link.created_at_ms,
    }
}

impl StoredLink {
    /// Reads the link out of a row.
    pub fn into_link(self) -> (r: Option<MemoryLink>)
        ensures
            opt(r) == link_of(self@),
    {
        match RelationshipType::parse(self.rel.as_str()) {
            Some(rel) => Some(
                MemoryLink {
                    id: MemoryLinkId(self.link_id),
                    tenant_id: self.tenant_id,
                    src: MemoryId(self.src_memory_id),
                    dst: MemoryId(self.dst_memory_id),
                    rel,
                    weight: self.weight,
                    confidence: self.confidence,
                    created_at_ms: self.created_at_ms,
                },
            ),
            None => None,
        }
    }
}

/// A link laid out as a row reads back as that link.
pub proof fn law_link_row_reads_back(link: LinkModel)
    ensures
        link_of(link_row(link)) == Some(link),
{
    law_relationship_reads_back(link.rel);
}

/// Reads the link that a lookup found: that of the first row, if it holds one.
pub fn found_link(rows: Vec<StoredLink>) -> (r: Option<MemoryLink>)
    ensures
        opt(r) == if rows@.len() == 0 {
            None
        } else {
            link_of(rows@[0]@)
        },
{
    if rows.len() == 0 {
        return None;
    }
    let mut rest = rows;
    rest.remove(0).into_link()
}

/// The scope in which a link's ends are looked up: all of its tenant.
pub fn tenant_scope(tenant_id: &str) -> (r: ScopeKey)
    ensures
        r@ == (ScopeModel {
            tenant_id: tenant_id@,
            workspace_id: None,
            project_id: None,
            agent_id: None,
            run_id: None,
        }),
{
    ScopeKey {
        tenant_id: tenant_id.to_owned(),
        workspace_id: None,
        project_id: None,
        agent_id: None,
        run_id: None,
    }
}

/// The links that rows hold, in their order; rows that hold none are left out.
pub open spec fn links_of(rows: Seq<LinkRow>) -> Seq<LinkModel>
    decreases rows.len(),
{
    if rows.len() == 0 {
        Seq::empty()
    } else {
        match link_of(rows.last()) {
            Some(link) => links_of(rows.drop_last()).push(link),
            None => links_of(rows.drop_last()),
        }
    }
}

/// Reads the links out of rows.
pub fn read_links(rows: Vec<StoredLink>) -> (r: Vec<MemoryLink>)
    ensures
        views(r@) == links_of(views(rows@)),
{
    let ghost all = views(rows@);
    let mut out: Vec<MemoryLink> = Vec::new();
    assert(all.take(0) =~= Seq::<LinkRow>::empty());
    assert(views(out@) =~= Seq::<LinkModel>::empty());
    for row in it: rows
        invariant
            it.seq() == rows@,
            all == views(rows@),
            views(out@) == links_of(all.take(it.index())),
    {
        let ghost i = it.index();
        let ghost before = views(out@);
        proof {
            assert(all[i] == row@);
            assert(all.take(i + 1).drop_last() =~= all.take(i));
            assert(all.take(i + 1).last() == row@);
        }
        match row.into_link() {
            Some(link) => {
                let ghost model = link@;
                out.push(link);
                assert(views(out@) =~= before.push(model));
            },
            None => {},
        }
    }
    assert(all.take(all.len() as int) =~= all);
    out
}

/// What is wrong with a link in itself, if anything.
pub open spec fn link_fault(link: LinkModel) -> Option<Seq<char>> {
    if blank(link.tenant_id) {
        Some("tenant_id is required"@)
    } else if !(link.weight.in_unit() && link.confidence.in_unit()) {
        Some("weight and confidence must be in 0..=1"@)
    } else {
        None
    }
}

/// Checks a link in itself: it must name a tenant, and its weight and confidence
/// must be from 0 to 1.
pub fn check_link(link: &MemoryLink) -> (r: Result<(), String>)
    ensures
        match r {
            Ok(_) => link_fault(link@) is None,
            Err(e) => link_fault(link@) == Some(e@),
        },
{
    match require_tenant_id(link.tenant_id.as_str()) {
        Ok(_) => {},
        Err(e) => return Err(e),
    }
    validate_link_metadata(link.weight, link.confidence)
}

/// Checks that a link's ends exist in its tenant, the source first.
pub fn check_link_ends(src_exists: bool, dst_exists: bool) -> (r: Result<(), String>)
    ensures
        match r {
            Ok(_) => src_exists && dst_exists,
            Err(e) => if !src_exists {
                e@ == "source memory not found in tenant"@
            } else {
                !dst_exists && e@ == "destination memory not found in tenant"@
            },
        },
{
    if !src_exists {
        return Err("source memory not found in tenant".to_owned());
    }
    if !dst_exists {
        return Err("destination memory not found in tenant".to_owned());
    }
    Ok(())
}

/// The link to store in place of `existing`: the new one, with the creation time
/// of the old. There must be an old one.
pub fn updated_link(link: MemoryLink, existing: Option<MemoryLink>) -> (r: Result<
    MemoryLink,
    String,
>)
    ensures
        match (r, existing) {
            (Ok(u), Some(e)) => u@ == (LinkModel { created_at_ms: e.created_at_ms, ..link@ }),
            (Err(m), None) => m@ == "link not found"@,
            _ => false,
        },
{
    match existing {
        Some(e) => Ok(MemoryLink { created_at_ms: e.created_at_ms, ..link }),
        None => Err("link not found".to_owned()),
    }
}

/// A parameter that holds a text.
pub open spec fn text_binding(name: Seq<char>, value: Seq<char>) -> BindModel {
    BindModel { name, value: ValueModel::Text(value) }
}

/// The statement that deletes a link of a tenant, which must be named.
pub fn delete_link_statement(tenant_id: &str, link_id: &MemoryLinkId) -> (r: Result<
    Statement,
    String,
>)
    ensures
        match r {
            Ok(s) => !blank(tenant_id@) && s@ == (StatementModel {
                text: "DELETE memory_links WHERE link_id = $id AND tenant_id = $tenant"@,
                bindings: seq![text_binding("id"@, link_id@), text_binding("tenant"@, tenant_id@)],
            }),
            Err(e) => blank(tenant_id@) && e@ == "tenant_id is required"@,
        },
{
    match require_tenant_id(tenant_id) {
        Ok(_) => {},
        Err(e) => return Err(e),
    }
    let mut bindings: Vec<Binding> = Vec::new();
    push_text_binding(&mut bindings, "id", link_id.0.as_str());
    push_text_binding(&mut bindings, "tenant", tenant_id);
    assert(views(bindings@) =~= seq![
        text_binding("id"@, link_id@),
        text_binding("tenant"@, tenant_id@),
    ]);
    Ok(
        Statement {
            text: "DELETE memory_links WHERE link_id = $id AND tenant_id = $tenant".to_owned(),
            bindings,
        },
    )
}

/// The statement that looks up a link of a tenant, which must be named.
pub fn get_link_statement(tenant_id: &str, link_id: &MemoryLinkId) -> (r: Result<
    Statement,
    String,
>)
    ensures
        match r {
            Ok(s) => !blank(tenant_id@) && s@ == (StatementModel {
                text: "SELECT * FROM memory_links WHERE link_id = $id AND tenant_id = $tenant LIMIT 1"@,
                bindings: seq![text_binding("id"@, link_id@), text_binding("tenant"@, tenant_id@)],
            }),
            Err(e) => blank(tenant_id@) && e@ == "tenant_id is required"@,
        },
{
    match require_tenant_id(tenant_id) {
        Ok(_) => {},
        Err(e) => return Err(e),
    }
    let mut bindings: Vec<Binding> = Vec::new();
    push_text_binding(&mut bindings, "id", link_id.0.as_str());
    push_text_binding(&mut bindings, "tenant", tenant_id);
    assert(views(bindings@) =~= seq![
        text_binding("id"@, link_id@),
        text_binding("tenant"@, tenant_id@),
    ]);
    Ok(
        Statement {
            text: "SELECT * FROM memory_links WHERE link_id = $id AND tenant_id = $tenant LIMIT 1".to_owned(),
            bindings,
        },
    )
}

/// The statement for the links that leave a memory, of one relationship or of
/// all.
pub open spec fn links_from(
    tenant_id: Seq<char>,
    src: Seq<char>,
    rel: Option<RelationshipType>,
) -> StatementModel {
    match rel {
        Some(rel) => StatementModel {
            text: "SELECT * FROM memory_links WHERE tenant_id = $tenant AND src_memory_id = $src AND rel = $rel"@,
            bindings: seq![
                text_binding("tenant"@, tenant_id),
                text_binding("src"@, src),
                text_binding("rel"@, rel_text(rel)),
            ],
        },
        None => StatementModel {
            text: "SELECT * FROM memory_links WHERE tenant_id = $tenant AND src_memory_id = $src"@,
            bindings: seq![text_binding("tenant"@, tenant_id), text_binding("src"@, src)],
        },
    }
}

/// The statement for the links that leave a memory of a tenant, which must be
/// named.
pub fn list_links_from_statement(
    tenant_id: &str,
    src: &MemoryId,
    rel: Option<RelationshipType>,
) -> (r: Result<Statement, String>)
    ensures
        match r {
            Ok(s) => !blank(tenant_id@) && s@ == links_from(tenant_id@, src@, rel),
            Err(e) => blank(tenant_id@) && e@ == "tenant_id is required"@,
        },
{
    match require_tenant_id(tenant_id) {
        Ok(_) => {},
        Err(e) => return Err(e),
    }
    let mut bindings: Vec<Binding> = Vec::new();
    push_text_binding(&mut bindings, "tenant", tenant_id);
    push_text_binding(&mut bindings, "src", src.0.as_str());
    let text = match rel {
        Some(r) => {
            push_text_binding(&mut bindings, "rel", r.as_str());
            "SELECT * FROM memory_links WHERE tenant_id = $tenant AND src_memory_id = $src AND rel = $rel".to_owned()
        },
        None =>
        "SELECT * FROM memory_links WHERE tenant_id = $tenant AND src_memory_id = $src".to_owned(),
    };
    assert(views(bindings@) =~= links_from(tenant_id@, src@, rel).bindings);
    Ok(Statement { text, bindings })
}

/// The statement for the contradictions of a tenant, or of one of its memories.
pub open spec fn contradictions(tenant_id: Seq<char>, memory_id: Option<Seq<char>>) -> StatementModel {
    match memory_id {
        Some(id) => StatementModel {
            text: "SELECT * FROM memory_links WHERE tenant_id = $tenant AND rel = 'contradicts' AND (src_memory_id = $id OR dst_memory_id = $id)"@,
            bindings: seq![text_binding("tenant"@, tenant_id), text_binding("id"@, id)],
        },
        None => StatementModel {
            text: "SELECT * FROM memory_links WHERE tenant_id = $tenant AND rel = 'contradicts'"@,
            bindings: seq![text_binding("tenant"@, tenant_id)],
        },
    }
}

/// The statement for the contradictions of a tenant, which must be named.
pub fn find_contradictions_statement(tenant_id: &str, memory_id: &Option<MemoryId>) -> (r: Result<
    Statement,
    String,
>)
    ensures
        match r {
            Ok(s) => !blank(tenant_id@) && s@ == contradictions(tenant_id@, opt(*memory_id)),
            Err(e) => blank(tenant_id@) && e@ == "tenant_id is required"@,
        },
{
    match require_tenant_id(tenant_id) {
        Ok(_) => {},
        Err(e) => return Err(e),
    }
    let mut bindings: Vec<Binding> = Vec::new();
    push_text_binding(&mut bindings, "tenant", tenant_id);
    let text = match memory_id {
        Some(id) => {
            push_text_binding(&mut bindings, "id", id.0.as_str());
            "SELECT * FROM memory_links WHERE tenant_id = $tenant AND rel = 'contradicts' AND (src_memory_id = $id OR dst_memory_id = $id)".to_owned()
        },
        None =>
        "SELECT * FROM memory_links WHERE tenant_id = $tenant AND rel = 'contradicts'".to_owned(),
    };
    assert(views(bindings@) =~= contradictions(tenant_id@, opt(*memory_id)).bindings);
    Ok(Statement { text, bindings })
}

/// The links read out of rows are those of the rows whose relationship is known, in
/// their order, each from the row's source to the row's destination and otherwise
/// as the row says.
pub proof fn law_rows_become_their_links(rows: Seq<LinkRow>) -> (places: Seq<int>)
    ensures
        links_of(rows).len() == places.len(),
        forall|a: int, b: int|
            0 <= a < b < places.len() ==> #[trigger] places[a] < #[trigger] places[b],
        forall|a: int|
            0 <= a < places.len() ==> {
                &&& 0 <= #[trigger] places[a] < rows.len()
                &&& links_of(rows)[a].id == rows[places[a]].link_id
                &&& links_of(rows)[a].tenant_id == rows[places[a]].tenant_id
                &&& links_of(rows)[a].src == rows[places[a]].src_memory_id
                &&& links_of(rows)[a].dst == rows[places[a]].dst_memory_id
                &&& rel_text(links_of(rows)[a].rel) == rows[places[a]].rel
                &&& links_of(rows)[a].weight == rows[places[a]].weight
                &&& links_of(rows)[a].confidence == rows[places[a]].confidence
                &&& links_of(rows)[a].created_at_ms == rows[places[a]].created_at_ms
            },
        forall|k: int|
            0 <= k < rows.len() && rel_named((#[trigger] rows[k]).rel) is Some ==> places.contains(
                k,
            ),
    decreases rows.len(),
{
    if rows.len() == 0 {
        Seq::empty()
    } else {
        let front = rows.drop_last();
        let before = law_rows_become_their_links(front);
        law_only_its_word_names_a_relationship(rows.last().rel);
        let places = if link_of(rows.last()) is Some {
            before.push(rows.len() - 1)
        } else {
            before
        };
        assert forall|k: int|
            0 <= k < rows.len() && rel_named(
                (#[trigger] rows[k]).rel,
            ) is Some implies places.contains(k) by {
            if k < front.len() {
                assert(front[k] == rows[k]);
                let a = before.index_of(k);
                assert(places[a] == k);
            } else {
                assert(places[before.len() as int] == k);
            }
        }
        places
    }
}

/// A link's row holds its ends, each under its own name, its tenant, its
/// relationship in words, its numbers and its moment.
pub proof fn law_row_holds_its_link(link: LinkModel)
    ensures
        link_row(link).link_id == link.id,
        link_row(link).tenant_id == link.tenant_id,
        link_row(link).src_memory_id == link.src,
        link_row(link).dst_memory_id == link.dst,
        link_row(link).rel == rel_text(link.rel),
        link_row(link).weight == link.weight,
        link_row(link).confidence == link.confidence,
        link_row(link).created_at_ms == link.created_at_ms,
{
}

/// A link may be stored exactly where it names a tenant, and its weight and
/// confidence are numbers from 0 to 1.
pub proof fn law_links_are_checked(link: LinkModel)
    ensures
        link_fault(link) is None <==> !blank(link.tenant_id) && Float(0).at_most(link.weight)
            && link.weight.at_most(Float(0x3f80_0000)) && Float(0).at_most(link.confidence)
            && link.confidence.at_most(Float(0x3f80_0000)),
{
}

/// What asks for the links that leave a memory binds the tenant, the memory and,
/// where one is asked for, the relationship, and names each of them in a condition;
/// what asks for contradictions binds the tenant and, where one is asked about, the
/// memory, at either end.
pub proof fn law_link_statements_bind_what_they_ask(
    tenant_id: Seq<char>,
    src: Seq<char>,
    rel: RelationshipType,
)
    ensures
        links_from(tenant_id, src, None).bindings == seq![
            BindModel { name: "tenant"@, value: ValueModel::Text(tenant_id) },
            BindModel { name: "src"@, value: ValueModel::Text(src) },
        ],
        links_from(tenant_id, src, Some(rel)).bindings == seq![
            BindModel { name: "tenant"@, value: ValueModel::Text(tenant_id) },
            BindModel { name: "src"@, value: ValueModel::Text(src) },
            BindModel { name: "rel"@, value: ValueModel::Text(rel_text(rel)) },
        ],
        occurs(links_from(tenant_id, src, None).text, "tenant_id = $tenant AND src_memory_id = $src"@),
        occurs(
            links_from(tenant_id, src, Some(rel)).text,
            "tenant_id = $tenant AND src_memory_id = $src AND rel = $rel"@,
        ),
        contradictions(tenant_id, None).bindings == seq![
            BindModel { name: "tenant"@, value: ValueModel::Text(tenant_id) },
        ],
        contradictions(tenant_id, Some(src)).bindings == seq![
            BindModel { name: "tenant"@, value: ValueModel::Text(tenant_id) },
            BindModel { name: "id"@, value: ValueModel::Text(src) },
        ],
        occurs(
            contradictions(tenant_id, None).text,
            "tenant_id = $tenant AND rel = 'contradicts'"@,
        ),
        occurs(
            contradictions(tenant_id, Some(src)).text,
            "tenant_id = $tenant AND rel = 'contradicts' AND (src_memory_id = $id OR dst_memory_id = $id)"@,
        ),
{
    reveal_strlit("SELECT * FROM memory_links WHERE tenant_id = $tenant AND src_memory_id = $src");
    reveal_strlit("tenant_id = $tenant AND src_memory_id = $src");
    let a = links_from(tenant_id, src, None).text;
    let x = "tenant_id = $tenant AND src_memory_id = $src"@;
    assert(a.subrange(33, 33 + x.len() as int) =~= x);
    assert(occurs_at(a, x, 33));
    reveal_strlit(
        "SELECT * FROM memory_links WHERE tenant_id = $tenant AND src_memory_id = $src AND rel = $rel",
    );
    reveal_strlit("tenant_id = $tenant AND src_memory_id = $src AND rel = $rel");
    let b = links_from(tenant_id, src, Some(rel)).text;
    let y = "tenant_id = $tenant AND src_memory_id = $src AND rel = $rel"@;
    assert(b.subrange(33, 33 + y.len() as int) =~= y);
    assert(occurs_at(b, y, 33));
    contradictions_are_asked(tenant_id, src);
}

proof fn contradictions_are_asked(tenant_id: Seq<char>, id: Seq<char>)
    ensures
        occurs(
            contradictions(tenant_id, None).text,
            "tenant_id = $tenant AND rel = 'contradicts'"@,
        ),
        occurs(
            contradictions(tenant_id, Some(id)).text,
            "tenant_id = $tenant AND rel = 'contradicts' AND (src_memory_id = $id OR dst_memory_id = $id)"@,
        ),
{
    reveal_strlit("SELECT * FROM memory_links WHERE tenant_id = $tenant AND rel = 'contradicts'");
    reveal_strlit("tenant_id = $tenant AND rel = 'contradicts'");
    let a = contradictions(tenant_id, None).text;
    let x = "tenant_id = $tenant AND rel = 'contradicts'"@;
    assert(a.subrange(33, 33 + x.len() as int) =~= x);
    assert(occurs_at(a, x, 33));
    reveal_strlit(
        "SELECT * FROM memory_links WHERE tenant_id = $tenant AND rel = 'contradicts' AND (src_memory_id = $id OR dst_memory_id = $id)",
    );
    reveal_strlit(
        "tenant_id = $tenant AND rel = 'contradicts' AND (src_memory_id = $id OR dst_memory_id = $id)",
    );
    let b = contradictions(tenant_id, Some(id)).text;
    let y =
        "tenant_id = $tenant AND rel = 'contradicts' AND (src_memory_id = $id OR dst_memory_id = $id)"@;
    assert(b.subrange(33, 33 + y.len() as int) =~= y);
    assert(occurs_at(b, y, 33));
}

} // verus!
