//! The statements behind the operations on memories.
use crate::decimal::{decimal, i64_text};
use crate::memory::{
    is_random_id, kind_text, random_id, ItemModel, MemoryId, MemoryItem, MemoryKind, ScopeKey,
    ScopeModel,
};
use crate::model::{copy_texts, opt, views};
use crate::query::{cursor_position, Query, QueryModel};
use crate::service::tenant::require_query_scope;
use crate::store::sql::{
    escape_sql_string, escaped, filter_binding, filters_bindings, filters_text,
    law_literal_reads_back, level, make_scope_filters, push_binding, push_filter_bindings, push_filters, push_text_binding,
    read_literal, record_ref, record_ref_of, scope_filters, BindModel, BindValue, Binding,
    Statement, StatementModel, ValueModel,
};
use crate::text::{
    blank, cat, cat3, join, joined, law_joined_parts_stand_in_order, occurs, occurs_at,
};
use vstd::prelude::*;

verus! {

/// `text` where `given` holds, else nothing.
pub open spec fn when(given: bool, text: Seq<char>) -> Seq<char> {
    if given {
        text
    } else {
        Seq::empty()
    }
}

fn push_when(out: &mut String, given: bool, text: &str)
    ensures
        final(out)@ == old(out)@ + when(given, text@),
{
    if given {
        out.push_str(text);
    } else {
        assert(out@ + Seq::<char>::empty() =~= out@);
    }
}

/// The parameter that names the tenant.
pub open spec fn tenant_binding(scope: ScopeModel) -> BindModel {
    BindModel { name: "tenant_id"@, value: ValueModel::Text(scope.tenant_id) }
}

/// The parameters of a whole scope.
pub open spec fn scope_bindings(scope: ScopeModel, with_run: bool) -> Seq<BindModel> {
    seq![tenant_binding(scope)] + filters_bindings(scope_filters(scope, with_run))
}

fn make_scope_bindings(scope: &ScopeKey, with_run: bool) -> (r: Vec<Binding>)
    ensures
        views(r@) == scope_bindings(scope@, with_run),
{
    let mut out: Vec<Binding> = Vec::new();
    push_text_binding(&mut out, "tenant_id", scope.tenant_id.as_str());
    assert(views(out@) =~= seq![tenant_binding(scope@)]);
    push_filter_bindings(&mut out, make_scope_filters(scope, with_run));
    out
}

/// `head` with the conditions of a scope.
pub open spec fn scoped_text(head: Seq<char>, scope: ScopeModel, with_run: bool) -> Seq<char> {
    head + filters_text(scope_filters(scope, with_run))
}

/// The statement about one record that holds only within a scope.
pub open spec fn record_statement(
    verb: Seq<char>,
    id: Seq<char>,
    scope: ScopeModel,
) -> StatementModel {
    StatementModel {
        text: scoped_text(
            verb + record_ref_of(id) + " WHERE tenant_id = $tenant_id"@,
            scope,
            true,
        ),
        bindings: scope_bindings(scope, true),
    }
}

fn make_record_statement(verb: &str, id: &str, scope: &ScopeKey) -> (r: Statement)
    ensures
        r@ == record_statement(verb@, id@, scope@),
{
    let mut text = cat3(verb, record_ref(id).as_str(), " WHERE tenant_id = $tenant_id");
    push_filters(&mut text, &make_scope_filters(scope, true));
    Statement { text, bindings: make_scope_bindings(scope, true) }
}

/// Looks up a memory within a scope, which must name a tenant.
pub fn get_scoped_statement(id: &MemoryId, scope: &ScopeKey) -> (r: Result<Statement, String>)
    ensures
        match r {
            Ok(s) => !blank(scope@.tenant_id) && s@ == record_statement(
                "SELECT * FROM "@,
                id@,
                scope@,
            ),
            Err(e) => blank(scope@.tenant_id) && e@ == "tenant_id is required"@,
        },
{
    match require_query_scope(scope) {
        Ok(_) => Ok(make_record_statement("SELECT * FROM ", id.0.as_str(), scope)),
        Err(e) => Err(e),
    }
}

/// Deletes a memory within a scope, which must name a tenant.
pub fn delete_scoped_statement(id: &MemoryId, scope: &ScopeKey) -> (r: Result<Statement, String>)
    ensures
        match r {
            Ok(s) => !blank(scope@.tenant_id) && s@ == record_statement(
                "DELETE "@,
                id@,
                scope@,
            ),
            Err(e) => blank(scope@.tenant_id) && e@ == "tenant_id is required"@,
        },
{
    match require_query_scope(scope) {
        Ok(_) => Ok(make_record_statement("DELETE ", id.0.as_str(), scope)),
        Err(e) => Err(e),
    }
}

/// Looks up a memory by its id alone, whoever holds it.
pub fn get_text(id: &MemoryId) -> (r: String)
    ensures
        r@ == "SELECT * FROM "@ + record_ref_of(id@),
{
    cat("SELECT * FROM ", record_ref(id.0.as_str()).as_str())
}

/// Deletes a memory by its id alone, whoever holds it.
pub open spec fn delete_text_of(id: Seq<char>) -> Seq<char> {
    "DELETE "@ + record_ref_of(id)
}

/// Deletes a memory by its id alone, whoever holds it.
pub fn delete_text(id: &MemoryId) -> (r: String)
    ensures
        r@ == delete_text_of(id@),
{
    cat("DELETE ", record_ref(id.0.as_str()).as_str())
}

/// Stores the row `body`, given as JSON, under an id.
pub open spec fn upsert_text_of(id: Seq<char>, body: Seq<char>) -> Seq<char> {
    "UPSERT "@ + record_ref_of(id) + " MERGE "@ + body
}

/// Stores the row `body`, given as JSON, under an id.
pub fn upsert_text(id: &MemoryId, body: &str) -> (r: String)
    ensures
        r@ == upsert_text_of(id@, body@),
{
    let mut out = cat3("UPSERT ", record_ref(id.0.as_str()).as_str(), " MERGE ");
    out.push_str(body);
    out
}

/// The condition that follows a cursor: older than its position, or as old with
/// a smaller id. A cursor that cannot be read sets no condition.
pub open spec fn cursor_clause(cursor: Option<Seq<char>>) -> Seq<char> {
    match cursor {
        Some(c) => match cursor_position(c) {
            Some(p) => " AND (created_at_ms < "@ + decimal(p.0 as int) + " OR (created_at_ms = "@
                + decimal(p.0 as int) + " AND id < type::thing('memory_items', '"@ + escaped(p.1)
                + "')))"@,
            None => Seq::empty(),
        },
        None => Seq::empty(),
    }
}

fn make_cursor_clause(cursor: &Option<String>) -> (r: String)
    ensures
        r@ == cursor_clause(opt(*cursor)),
{
    match cursor {
        Some(c) => match Query::decode_cursor(c.as_str()) {
            Some(p) => {
                let time = i64_text(p.0);
                let mut out = cat3(
                    " AND (created_at_ms < ",
                    time.as_str(),
                    " OR (created_at_ms = ",
                );
                out.push_str(time.as_str());
                out.push_str(" AND id < type::thing('memory_items', '");
                out.push_str(escape_sql_string(p.1.as_str()).as_str());
                out.push_str("')))");
                out
            },
            None => String::new(),
        },
        None => String::new(),
    }
}

/// The text of a query.
pub open spec fn query_text(q: QueryModel, order_by: Seq<char>, include_limit: bool) -> Seq<char> {
    scoped_text("SELECT * FROM memory_items WHERE tenant_id = $tenant_id"@, q.scope, true) + when(
        q.kinds is Some,
        " AND kind IN $kinds"@,
    ) + when(q.tags_any is Some, " AND tags CONTAINSANY $tags_any"@) + when(
        q.since_ms is Some,
        " AND created_at_ms >= $since"@,
    ) + when(q.until_ms is Some, " AND created_at_ms <= $until"@) + cursor_clause(q.cursor) + when(
        q.text.len() > 0,
        " AND (content_text CONTAINS $text OR tags CONTAINS [$text])"@,
    ) + " "@ + order_by + when(include_limit, " LIMIT $limit"@)
}

/// The text of a query, in the order `order_by_clause`.
pub fn build_parameterized_query(q: &Query, order_by_clause: &str, include_limit: bool) -> (r:
    String)
    ensures
        r@ == query_text(q@, order_by_clause@, include_limit),
{
    let mut out = "SELECT * FROM memory_items WHERE tenant_id = $tenant_id".to_owned();
    push_filters(&mut out, &make_scope_filters(&q.scope, true));
    push_when(&mut out, q.kinds.is_some(), " AND kind IN $kinds");
    push_when(&mut out, q.tags_any.is_some(), " AND tags CONTAINSANY $tags_any");
    push_when(&mut out, q.since_ms.is_some(), " AND created_at_ms >= $since");
    push_when(&mut out, q.until_ms.is_some(), " AND created_at_ms <= $until");
    out.push_str(make_cursor_clause(&q.cursor).as_str());
    push_when(
        &mut out,
        !q.text.as_str().is_empty(),
        " AND (content_text CONTAINS $text OR tags CONTAINS [$text])",
    );
    out.push_str(" ");
    out.push_str(order_by_clause);
    push_when(&mut out, include_limit, " LIMIT $limit");
    out
}

proof fn occurs_in_longer(a: Seq<char>, b: Seq<char>, needle: Seq<char>)
    requires
        occurs(a, needle),
    ensures
        occurs(a + b, needle),
{
    let at = choose|at: int| occurs_at(a, needle, at);
    assert((a + b).subrange(at, at + needle.len()) =~= a.subrange(at, at + needle.len()));
    assert(occurs_at(a + b, needle, at));
}

/// `needle` occurs in a text in which a text that holds it stands.
proof fn occurs_inside(front: Seq<char>, a: Seq<char>, back: Seq<char>, needle: Seq<char>)
    requires
        occurs(a, needle),
    ensures
        occurs(front + a + back, needle),
{
    let at = choose|at: int| occurs_at(a, needle, at);
    let all = front + a + back;
    assert(all.subrange(front.len() + at, front.len() + at + needle.len()) =~= a.subrange(
        at,
        at + needle.len(),
    ));
    assert(occurs_at(all, needle, front.len() + at));
}

proof fn occurs_in_itself(a: Seq<char>)
    ensures
        occurs(a, a),
{
    assert(a.subrange(0, a.len() as int) =~= a);
    assert(occurs_at(a, a, 0));
}

/// A statement's text that keeps to a scope: it holds the condition on the tenant
/// and those of every narrower level that is set.
pub open spec fn text_keeps_to(text: Seq<char>, scope: ScopeModel) -> bool {
    &&& occurs(text, " tenant_id = $tenant_id"@)
    &&& occurs(text, filters_text(scope_filters(scope, true)))
}

/// A statement that keeps to a scope: its text does, and the parameters of those
/// conditions are bound to what the scope holds.
pub open spec fn keeps_to(statement: StatementModel, scope: ScopeModel) -> bool {
    &&& text_keeps_to(statement.text, scope)
    &&& forall|i: int|
        0 <= i < scope_bindings(scope, true).len() ==> statement.bindings.contains(
            #[trigger] scope_bindings(scope, true)[i],
        )
}

/// A text made of a head that ends with the condition on the tenant, something
/// more, the conditions of a scope, and something more.
proof fn scoped_text_keeps(head: Seq<char>, scope: ScopeModel, back: Seq<char>)
    requires
        occurs(head, " tenant_id = $tenant_id"@),
    ensures
        text_keeps_to(scoped_text(head, scope, true) + back, scope),
{
    let conditions = filters_text(scope_filters(scope, true));
    occurs_in_longer(head, conditions, " tenant_id = $tenant_id"@);
    occurs_in_longer(head + conditions, back, " tenant_id = $tenant_id"@);
    occurs_in_itself(conditions);
    occurs_inside(head, conditions, back, conditions);
}

proof fn tenant_condition_occurs(front: Seq<char>)
    ensures
        occurs(front + " WHERE tenant_id = $tenant_id"@, " tenant_id = $tenant_id"@),
        occurs(front + "] AND tenant_id = $tenant_id"@, " tenant_id = $tenant_id"@),
        occurs(
            "SELECT * FROM memory_items WHERE tenant_id = $tenant_id"@,
            " tenant_id = $tenant_id"@,
        ),
        occurs(
            "SELECT id, embedding FROM memory_items WHERE tenant_id = $tenant_id AND embedding IS NOT NULL"@,
            " tenant_id = $tenant_id"@,
        ),
{
    let needle = " tenant_id = $tenant_id"@;
    reveal_strlit(" tenant_id = $tenant_id");
    reveal_strlit(" WHERE tenant_id = $tenant_id");
    reveal_strlit("] AND tenant_id = $tenant_id");
    reveal_strlit("SELECT * FROM memory_items WHERE tenant_id = $tenant_id");
    reveal_strlit(
        "SELECT id, embedding FROM memory_items WHERE tenant_id = $tenant_id AND embedding IS NOT NULL",
    );
    let a = " WHERE tenant_id = $tenant_id"@;
    assert(a.subrange(6, (6 + needle.len()) as int) =~= needle);
    assert(occurs_at(a, needle, 6));
    occurs_inside(front, a, Seq::empty(), needle);
    assert(front + a + Seq::<char>::empty() =~= front + a);
    let b = "] AND tenant_id = $tenant_id"@;
    assert(b.subrange(5, (5 + needle.len()) as int) =~= needle);
    assert(occurs_at(b, needle, 5));
    occurs_inside(front, b, Seq::empty(), needle);
    assert(front + b + Seq::<char>::empty() =~= front + b);
    let c = "SELECT * FROM memory_items WHERE tenant_id = $tenant_id"@;
    assert(c.subrange(32, (32 + needle.len()) as int) =~= needle);
    assert(occurs_at(c, needle, 32));
    let d =
        "SELECT id, embedding FROM memory_items WHERE tenant_id = $tenant_id AND embedding IS NOT NULL"@;
    assert(d.subrange(44, (44 + needle.len()) as int) =~= needle);
    assert(occurs_at(d, needle, 44));
}

proof fn record_keeps(verb: Seq<char>, id: Seq<char>, scope: ScopeModel)
    ensures
        keeps_to(record_statement(verb, id, scope), scope),
{
    tenant_condition_occurs(verb + record_ref_of(id));
    let head = verb + record_ref_of(id) + " WHERE tenant_id = $tenant_id"@;
    let none = Seq::<char>::empty();
    scoped_text_keeps(head, scope, none);
    assert(scoped_text(head, scope, true) + none =~= scoped_text(head, scope, true));
}

proof fn query_keeps(q: QueryModel, order_by: Seq<char>, include_limit: bool)
    ensures
        keeps_to(
            StatementModel {
                text: query_text(q, order_by, include_limit),
                bindings: query_bindings(q),
            },
            q.scope,
        ),
{
    let head = "SELECT * FROM memory_items WHERE tenant_id = $tenant_id"@;
    let a = when(q.kinds is Some, " AND kind IN $kinds"@);
    let b = when(q.tags_any is Some, " AND tags CONTAINSANY $tags_any"@);
    let c = when(q.since_ms is Some, " AND created_at_ms >= $since"@);
    let d = when(q.until_ms is Some, " AND created_at_ms <= $until"@);
    let e = cursor_clause(q.cursor);
    let f = when(
        q.text.len() > 0,
        " AND (content_text CONTAINS $text OR tags CONTAINS [$text])"@,
    );
    let g = " "@;
    let h = when(include_limit, " LIMIT $limit"@);
    let scoped = scoped_text(head, q.scope, true);
    tenant_condition_occurs(Seq::empty());
    scoped_text_keeps(head, q.scope, a + b + c + d + e + f + g + order_by + h);
    parts_in_a_row(scoped, a, b, c, d, e, f, g, order_by, h);
    let bound = scope_bindings(q.scope, true);
    assert forall|i: int| 0 <= i < bound.len() implies query_bindings(q).contains(
        #[trigger] bound[i],
    ) by {
        assert(query_bindings(q)[i] == bound[i]);
    }
}

proof fn parts_in_a_row(
    s: Seq<char>,
    a: Seq<char>,
    b: Seq<char>,
    c: Seq<char>,
    d: Seq<char>,
    e: Seq<char>,
    f: Seq<char>,
    g: Seq<char>,
    h: Seq<char>,
    i: Seq<char>,
)
    ensures
        s + a + b + c + d + e + f + g + h + i == s + (a + b + c + d + e + f + g + h + i),
{
    assert(s + a + b + c + d + e + f + g + h + i =~= s + (a + b + c + d + e + f + g + h + i));
}

proof fn lexical_keeps(scope: ScopeModel, text: Seq<char>, limit: usize)
    ensures
        keeps_to(lexical_model(scope, text, limit), scope),
{
    let head = "SELECT * FROM memory_items WHERE tenant_id = $tenant_id"@;
    let a = when(
        text.len() > 0,
        " AND (content_text CONTAINS $text OR tags CONTAINS [$text])"@,
    );
    let b = " ORDER BY importance DESC, created_at_ms DESC LIMIT $limit"@;
    tenant_condition_occurs(Seq::empty());
    scoped_text_keeps(head, scope, a + b);
    assert(scoped_text(head, scope, true) + a + b =~= scoped_text(head, scope, true) + (a + b));
    let bound = scope_bindings(scope, true);
    let all = lexical_model(scope, text, limit).bindings;
    assert forall|i: int| 0 <= i < bound.len() implies all.contains(#[trigger] bound[i]) by {
        assert(all[i] == bound[i]);
    }
}

proof fn semantic_keeps(scope: ScopeModel)
    ensures
        keeps_to(semantic_model(scope), scope),
{
    tenant_condition_occurs(Seq::empty());
    scoped_text_keeps(
        "SELECT id, embedding FROM memory_items WHERE tenant_id = $tenant_id AND embedding IS NOT NULL"@,
        scope,
        " ORDER BY created_at_ms DESC LIMIT 1000"@,
    );
}

proof fn fetch_keeps(ids: Seq<Seq<char>>, scope: ScopeModel)
    ensures
        keeps_to(fetch_model(ids, scope), scope),
{
    let listed = "SELECT * FROM memory_items WHERE id IN ["@ + joined(record_refs(ids), ", "@);
    tenant_condition_occurs(listed);
    let head = listed + "] AND tenant_id = $tenant_id"@;
    let none = Seq::<char>::empty();
    scoped_text_keeps(head, scope, none);
    assert(scoped_text(head, scope, true) + none =~= scoped_text(head, scope, true));
}

/// Every statement about one record within a scope, every query, both searches of
/// a recall and the fetching of what they found keep to their scope, whatever else
/// is asked: the tenant and every narrower level that is set.
pub proof fn law_statements_keep_to_their_scope(
    verb: Seq<char>,
    id: Seq<char>,
    q: QueryModel,
    order_by: Seq<char>,
    include_limit: bool,
    text: Seq<char>,
    limit: usize,
    ids: Seq<Seq<char>>,
)
    ensures
        keeps_to(record_statement(verb, id, q.scope), q.scope),
        keeps_to(
            StatementModel {
                text: query_text(q, order_by, include_limit),
                bindings: query_bindings(q),
            },
            q.scope,
        ),
        keeps_to(lexical_model(q.scope, text, limit), q.scope),
        keeps_to(semantic_model(q.scope), q.scope),
        keeps_to(fetch_model(ids, q.scope), q.scope),
{
    record_keeps(verb, id, q.scope);
    query_keeps(q, order_by, include_limit);
    lexical_keeps(q.scope, text, limit);
    semantic_keeps(q.scope);
    fetch_keeps(ids, q.scope);
}

/// A batch of deletions within a scope keeps to that scope: each of its steps
/// does, and the parameters are those of the scope.
pub proof fn law_batch_deletion_keeps_to_its_scope(
    ids: Seq<Seq<char>>,
    id: Seq<char>,
    scope: ScopeModel,
)
    ensures
        delete_batch_model(ids, scope).text == transaction_of(
            Seq::new(ids.len(), |i: int| scoped_delete_of(ids[i], scope)),
        ),
        delete_batch_model(ids, scope).bindings == scope_bindings(scope, true),
        keeps_to(
            StatementModel {
                text: scoped_delete_of(id, scope),
                bindings: scope_bindings(scope, true),
            },
            scope,
        ),
        scoped_delete_of(id, scope) == record_statement("DELETE "@, id, scope).text,
{
    assert(ids.map_values(|id: Seq<char>| scoped_delete_of(id, scope)) =~= Seq::new(
        ids.len(),
        |i: int| scoped_delete_of(ids[i], scope),
    ));
    let none = Seq::<char>::empty();
    tenant_condition_occurs(delete_text_of(id));
    let head = delete_text_of(id) + " WHERE tenant_id = $tenant_id"@;
    scoped_text_keeps(head, scope, none);
    assert(scoped_text(head, scope, true) + none =~= scoped_text(head, scope, true));
    let bound = scope_bindings(scope, true);
    assert forall|i: int| 0 <= i < bound.len() implies bound.contains(#[trigger] bound[i]) by {
    }
}

/// The words for kinds, in their order.
pub open spec fn kind_texts(kinds: Seq<MemoryKind>) -> Seq<Seq<char>> {
    kinds.map_values(|k: MemoryKind| kind_text(k))
}

fn make_kind_texts(kinds: &Vec<MemoryKind>) -> (r: Vec<String>)
    ensures
        views(r@) == kind_texts(kinds@),
{
    let mut out: Vec<String> = Vec::new();
    let mut i: usize = 0;
    while i < kinds.len()
        invariant
            i <= kinds@.len(),
            out@.len() == i,
            forall|k: int| 0 <= k < i ==> (#[trigger] out@[k])@ == kind_text(kinds@[k]),
        decreases kinds@.len() - i,
    {
        out.push(kinds[i].to_string());
        i += 1;
    }
    assert(views(out@) =~= kind_texts(kinds@));
    out
}

/// One parameter where a value is given, else none.
pub open spec fn maybe_bound(name: Seq<char>, value: Option<ValueModel>) -> Seq<BindModel> {
    match value {
        Some(value) => seq![BindModel { name, value }],
        None => Seq::empty(),
    }
}

/// The parameters of a query.
pub open spec fn query_bindings(q: QueryModel) -> Seq<BindModel> {
    scope_bindings(q.scope, true) + maybe_bound(
        "kinds"@,
        match q.kinds {
            Some(k) => Some(ValueModel::Texts(kind_texts(k))),
            None => None,
        },
    ) + maybe_bound(
        "tags_any"@,
        match q.tags_any {
            Some(t) => Some(ValueModel::Texts(t)),
            None => None,
        },
    ) + maybe_bound(
        "since"@,
        match q.since_ms {
            Some(n) => Some(ValueModel::Int(n as int)),
            None => None,
        },
    ) + maybe_bound(
        "until"@,
        match q.until_ms {
            Some(n) => Some(ValueModel::Int(n as int)),
            None => None,
        },
    ) + maybe_bound(
        "text"@,
        if q.text.len() > 0 {
            Some(ValueModel::Text(q.text))
        } else {
            None
        },
    )
}

fn push_maybe(out: &mut Vec<Binding>, name: &'static str, value: Option<BindValue>)
    ensures
        views(final(out)@) == views(old(out)@) + maybe_bound(name@, opt(value)),
{
    let ghost before = views(out@);
    match value {
        Some(v) => {
            let ghost model = BindModel { name: name@, value: v@ };
            push_binding(out, name, v);
            assert(before.push(model) =~= before + seq![model]);
        },
        None => {
            assert(before + Seq::<BindModel>::empty() =~= before);
        },
    }
}

/// The parameters of a query.
pub fn bind_query_params(q: &Query) -> (r: Vec<Binding>)
    ensures
        views(r@) == query_bindings(q@),
{
    let mut out = make_scope_bindings(&q.scope, true);
    let kinds: Option<BindValue> = match &q.kinds {
        Some(k) => Some(BindValue::Texts(make_kind_texts(k))),
        None => None,
    };
    push_maybe(&mut out, "kinds", kinds);
    let tags: Option<BindValue> = match &q.tags_any {
        Some(t) => Some(BindValue::Texts(copy_texts(t))),
        None => None,
    };
    push_maybe(&mut out, "tags_any", tags);
    let since: Option<BindValue> = match q.since_ms {
        Some(n) => Some(BindValue::Int(n)),
        None => None,
    };
    push_maybe(&mut out, "since", since);
    let until: Option<BindValue> = match q.until_ms {
        Some(n) => Some(BindValue::Int(n)),
        None => None,
    };
    push_maybe(&mut out, "until", until);
    let text: Option<BindValue> = if q.text.as_str().is_empty() {
        None
    } else {
        Some(BindValue::Text(q.text.clone()))
    };
    push_maybe(&mut out, "text", text);
    out
}

/// The order of a query's results: a first page of a text search goes by
/// importance, everything else by age.
pub open spec fn order_of(q: QueryModel) -> Seq<char> {
    if q.text.len() > 0 && q.cursor is None {
        "ORDER BY importance DESC, created_at_ms DESC, id DESC"@
    } else {
        "ORDER BY created_at_ms DESC, id DESC"@
    }
}

/// The statement of a query.
pub fn query_statement(q: &Query) -> (r: Statement)
    ensures
        r@ == (StatementModel {
            text: query_text(q@, order_of(q@), true),
            bindings: query_bindings(q@).push(
                BindModel { name: "limit"@, value: ValueModel::Int(q.limit as int) },
            ),
        }),
{
    let order_by = if !q.text.as_str().is_empty() && q.cursor.is_none() {
        "ORDER BY importance DESC, created_at_ms DESC, id DESC"
    } else {
        "ORDER BY created_at_ms DESC, id DESC"
    };
    let mut bindings = bind_query_params(q);
    push_binding(&mut bindings, "limit", BindValue::Size(q.limit));
    Statement { text: build_parameterized_query(q, order_by, true), bindings }
}

/// The statement for everything that a query selects, oldest first.
pub fn query_items_statement(q: &Query) -> (r: Statement)
    ensures
        r@ == (StatementModel {
            text: query_text(q@, "ORDER BY created_at_ms ASC, id ASC"@, false),
            bindings: query_bindings(q@),
        }),
{
    Statement {
        text: build_parameterized_query(q, "ORDER BY created_at_ms ASC, id ASC", false),
        bindings: bind_query_params(q),
    }
}

/// The statement for the facts in a scope on a subject and predicate that no
/// other fact has retired. The run does not count: what one run learned is known
/// to the others of the same agent.
pub fn find_active_facts_with_key(scope: &ScopeKey, subject: &str, predicate: &str) -> (r:
    Statement)
    ensures
        r@ == (StatementModel {
            text: scoped_text(
                "SELECT * FROM memory_items WHERE tenant_id = $tenant_id AND kind = 'fact' AND meta.fact.subject = $subject AND meta.fact.predicate = $predicate AND (meta.superseded_by IS NONE OR meta.superseded_by IS NULL)"@,
                scope@,
                false,
            ),
            bindings: seq![
                tenant_binding(scope@),
                BindModel { name: "subject"@, value: ValueModel::Text(subject@) },
                BindModel { name: "predicate"@, value: ValueModel::Text(predicate@) },
            ] + filters_bindings(scope_filters(scope@, false)),
        }),
{
    let mut text =
        "SELECT * FROM memory_items WHERE tenant_id = $tenant_id AND kind = 'fact' AND meta.fact.subject = $subject AND meta.fact.predicate = $predicate AND (meta.superseded_by IS NONE OR meta.superseded_by IS NULL)".to_owned();
    push_filters(&mut text, &make_scope_filters(scope, false));
    let mut bindings: Vec<Binding> = Vec::new();
    push_text_binding(&mut bindings, "tenant_id", scope.tenant_id.as_str());
    push_text_binding(&mut bindings, "subject", subject);
    push_text_binding(&mut bindings, "predicate", predicate);
    assert(views(bindings@) =~= seq![
        tenant_binding(scope@),
        BindModel { name: "subject"@, value: ValueModel::Text(subject@) },
        BindModel { name: "predicate"@, value: ValueModel::Text(predicate@) },
    ]);
    push_filter_bindings(&mut bindings, make_scope_filters(scope, false));
    Statement { text, bindings }
}

/// A condition that a column equals a quoted literal, where one is given.
pub open spec fn literal_clause(column: Seq<char>, value: Option<Seq<char>>) -> Seq<char> {
    match value {
        Some(v) => " AND "@ + column + " = '"@ + escaped(v) + "'"@,
        None => Seq::empty(),
    }
}

fn push_literal_clause(out: &mut String, column: &str, value: &Option<String>)
    ensures
        final(out)@ == old(out)@ + literal_clause(column@, opt(*value)),
{
    let ghost before = out@;
    match value {
        Some(v) => {
            out.push_str(" AND ");
            out.push_str(column);
            out.push_str(" = '");
            out.push_str(escape_sql_string(v.as_str()).as_str());
            out.push_str("'");
            assert(out@ =~= before + literal_clause(column@, opt(*value)));
        },
        None => {
            assert(out@ + Seq::<char>::empty() =~= out@);
        },
    }
}

/// The statement for the facts in a scope that have an embedding and that no
/// other fact has retired. The run does not count.
pub fn semantic_conflicts_text(scope: &ScopeKey) -> (r: String)
    ensures
        r@ == "SELECT * FROM memory_items WHERE tenant_id = '"@ + escaped(scope@.tenant_id)
            + "' AND kind = 'fact' AND embedding IS NOT NULL AND (meta.superseded_by IS NONE OR meta.superseded_by IS NULL)"@
            + literal_clause("workspace_id"@, scope@.workspace_id) + literal_clause(
            "project_id"@,
            scope@.project_id,
        ) + literal_clause("agent_id"@, scope@.agent_id),
{
    let mut out = cat3(
        "SELECT * FROM memory_items WHERE tenant_id = '",
        escape_sql_string(scope.tenant_id.as_str()).as_str(),
        "' AND kind = 'fact' AND embedding IS NOT NULL AND (meta.superseded_by IS NONE OR meta.superseded_by IS NULL)",
    );
    push_literal_clause(&mut out, "workspace_id", &scope.workspace_id);
    push_literal_clause(&mut out, "project_id", &scope.project_id);
    push_literal_clause(&mut out, "agent_id", &scope.agent_id);
    out
}

/// The statement of the search by words.
pub open spec fn lexical_model(scope: ScopeModel, text: Seq<char>, limit: usize) -> StatementModel {
    StatementModel {
        text: scoped_text(
            "SELECT * FROM memory_items WHERE tenant_id = $tenant_id"@,
            scope,
            true,
        ) + when(
            text.len() > 0,
            " AND (content_text CONTAINS $text OR tags CONTAINS [$text])"@,
        ) + " ORDER BY importance DESC, created_at_ms DESC LIMIT $limit"@,
        bindings: scope_bindings(scope, true).push(
            BindModel { name: "limit"@, value: ValueModel::Int(limit as int) },
        ) + maybe_bound(
            "text"@,
            if text.len() > 0 {
                Some(ValueModel::Text(text))
            } else {
                None
            },
        ),
    }
}

/// The statement of the search by words: the most important first.
pub fn lexical_statement(scope: &ScopeKey, text: &str, limit: usize) -> (r: Statement)
    ensures
        r@ == lexical_model(scope@, text@, limit),
{
    let mut out = "SELECT * FROM memory_items WHERE tenant_id = $tenant_id".to_owned();
    push_filters(&mut out, &make_scope_filters(scope, true));
    push_when(
        &mut out,
        !text.is_empty(),
        " AND (content_text CONTAINS $text OR tags CONTAINS [$text])",
    );
    out.push_str(" ORDER BY importance DESC, created_at_ms DESC LIMIT $limit");
    let mut bindings = make_scope_bindings(scope, true);
    push_binding(&mut bindings, "limit", BindValue::Size(limit));
    let bound: Option<BindValue> = if text.is_empty() {
        None
    } else {
        Some(BindValue::Text(text.to_owned()))
    };
    push_maybe(&mut bindings, "text", bound);
    Statement { text: out, bindings }
}

/// The statement of the search by meaning.
pub open spec fn semantic_model(scope: ScopeModel) -> StatementModel {
    StatementModel {
        text: scoped_text(
            "SELECT id, embedding FROM memory_items WHERE tenant_id = $tenant_id AND embedding IS NOT NULL"@,
            scope,
            true,
        ) + " ORDER BY created_at_ms DESC LIMIT 1000"@,
        bindings: scope_bindings(scope, true),
    }
}

/// The statement of the search by meaning: the newest memories with embeddings,
/// to be ranked by similarity.
pub fn semantic_statement(scope: &ScopeKey) -> (r: Statement)
    ensures
        r@ == semantic_model(scope@),
{
    let mut out =
        "SELECT id, embedding FROM memory_items WHERE tenant_id = $tenant_id AND embedding IS NOT NULL".to_owned();
    push_filters(&mut out, &make_scope_filters(scope, true));
    out.push_str(" ORDER BY created_at_ms DESC LIMIT 1000");
    Statement { text: out, bindings: make_scope_bindings(scope, true) }
}

/// The references to records, in their order.
pub open spec fn record_refs(ids: Seq<Seq<char>>) -> Seq<Seq<char>> {
    ids.map_values(|id: Seq<char>| record_ref_of(id))
}

/// The statement that fetches records by their ids, within a scope only.
pub open spec fn fetch_model(ids: Seq<Seq<char>>, scope: ScopeModel) -> StatementModel {
    StatementModel {
        text: scoped_text(
            "SELECT * FROM memory_items WHERE id IN ["@ + joined(record_refs(ids), ", "@)
                + "] AND tenant_id = $tenant_id"@,
            scope,
            true,
        ),
        bindings: scope_bindings(scope, true),
    }
}

/// The statement that fetches records by their ids, within a scope only.
pub fn fetch_statement(ids: &Vec<String>, scope: &ScopeKey) -> (r: Statement)
    ensures
        r@ == fetch_model(views(ids@), scope@),
{
    let mut refs: Vec<String> = Vec::new();
    let mut i: usize = 0;
    while i < ids.len()
        invariant
            i <= ids@.len(),
            refs@.len() == i,
            forall|k: int| 0 <= k < i ==> (#[trigger] refs@[k])@ == record_ref_of(ids@[k]@),
        decreases ids@.len() - i,
    {
        refs.push(record_ref(ids[i].as_str()));
        i += 1;
    }
    assert(views(refs@) =~= record_refs(views(ids@)));
    let mut text = cat3(
        "SELECT * FROM memory_items WHERE id IN [",
        join(&refs, ", ").as_str(),
        "] AND tenant_id = $tenant_id",
    );
    push_filters(&mut text, &make_scope_filters(scope, true));
    Statement { text, bindings: make_scope_bindings(scope, true) }
}

/// Statements on lines of their own, each ended by a semicolon.
pub open spec fn lines_of(statements: Seq<Seq<char>>) -> Seq<char>
    decreases statements.len(),
{
    if statements.len() == 0 {
        Seq::empty()
    } else {
        lines_of(statements.drop_last()) + statements.last() + ";\n"@
    }
}

/// Statements that are done as a whole or not at all.
pub open spec fn transaction_of(statements: Seq<Seq<char>>) -> Seq<char> {
    "BEGIN TRANSACTION;\n"@ + lines_of(statements) + "COMMIT TRANSACTION;\n"@
}

proof fn three_in_a_row(a: Seq<char>, b: Seq<char>, c: Seq<char>)
    ensures
        a + b + c == a + (b + c),
        a + (b + c) + Seq::<char>::empty() == a + b + c,
{
    assert(a + b + c =~= a + (b + c));
    assert(a + (b + c) + Seq::<char>::empty() =~= a + b + c);
}

proof fn lines_hold_each(statements: Seq<Seq<char>>, end: Seq<char>, i: int)
    requires
        0 <= i < statements.len(),
        end == ";\n"@,
    ensures
        occurs(lines_of(statements), statements[i] + end),
    decreases statements.len(),
{
    let front = lines_of(statements.drop_last());
    let last = statements.last();
    let line = statements[i] + end;
    assert(lines_of(statements) == front + last + end);
    three_in_a_row(front, last, end);
    if i == statements.len() - 1 {
        assert(line == last + end);
        occurs_in_itself(line);
        occurs_inside(front, line, Seq::empty(), line);
    } else {
        lines_hold_each(statements.drop_last(), end, i);
        assert(statements.drop_last()[i] == statements[i]);
        occurs_in_longer(front, last + end, line);
    }
}

/// A transaction holds each of its steps, between its beginning and its end.
pub proof fn law_transaction_holds_each_step(statements: Seq<Seq<char>>, i: int)
    requires
        0 <= i < statements.len(),
    ensures
        occurs(transaction_of(statements), statements[i] + ";\n"@),
        "BEGIN TRANSACTION;\n"@.is_prefix_of(transaction_of(statements)),
        "COMMIT TRANSACTION;\n"@.is_suffix_of(transaction_of(statements)),
{
    lines_hold_each(statements, ";\n"@, i);
    occurs_inside(
        "BEGIN TRANSACTION;\n"@,
        lines_of(statements),
        "COMMIT TRANSACTION;\n"@,
        statements[i] + ";\n"@,
    );
    let all = transaction_of(statements);
    let begin = "BEGIN TRANSACTION;\n"@;
    let end = "COMMIT TRANSACTION;\n"@;
    assert(all.subrange(0, begin.len() as int) =~= begin);
    assert(all.subrange(all.len() - end.len(), all.len() as int) =~= end);
}

fn make_transaction(statements: &Vec<String>) -> (r: String)
    ensures
        r@ == transaction_of(views(statements@)),
{
    let ghost all = views(statements@);
    let mut out = "BEGIN TRANSACTION;\n".to_owned();
    let ghost start = out@;
    let mut i: usize = 0;
    assert(all.take(0) =~= Seq::<Seq<char>>::empty());
    assert(start + lines_of(all.take(0)) =~= start);
    while i < statements.len()
        invariant
            i <= statements@.len(),
            all == views(statements@),
            out@ == start + lines_of(all.take(i as int)),
        decreases statements@.len() - i,
    {
        proof {
            assert(all.take(i + 1).drop_last() =~= all.take(i as int));
            assert(all.take(i + 1).last() == statements@[i as int]@);
        }
        out.push_str(statements[i].as_str());
        out.push_str(";\n");
        assert(out@ =~= start + lines_of(all.take(i + 1)));
        i += 1;
    }
    assert(all.take(all.len() as int) =~= all);
    out.push_str("COMMIT TRANSACTION;\n");
    out
}

/// The item with an id of its own: a random one where it had none.
pub open spec fn has_id(after: ItemModel, before: ItemModel) -> bool {
    if before.id.len() == 0 {
        is_random_id(after.id) && after == ItemModel { id: after.id, ..before }
    } else {
        after == before
    }
}

/// Gives a random id to every item that has none.
pub fn assign_ids(items: Vec<MemoryItem>) -> (r: Vec<MemoryItem>)
    ensures
        r@.len() == items@.len(),
        forall|i: int| 0 <= i < r@.len() ==> has_id((#[trigger] r@[i])@, items@[i]@),
{
    let mut out: Vec<MemoryItem> = Vec::new();
    for item in it: items
        invariant
            it.seq() == items@,
            out@.len() == it.index(),
            forall|k: int| 0 <= k < it.index() ==> has_id((#[trigger] out@[k])@, items@[k]@),
    {
        let mut item = item;
        if item.id.0.as_str().is_empty() {
            item.id = MemoryId(random_id());
        }
        out.push(item);
    }
    out
}

/// The ids of items, in their order.
pub fn ids_of_items(items: &Vec<MemoryItem>) -> (r: Vec<MemoryId>)
    ensures
        r@.len() == items@.len(),
        forall|i: int| 0 <= i < r@.len() ==> (#[trigger] r@[i])@ == items@[i]@.id,
{
    let mut out: Vec<MemoryId> = Vec::new();
    let mut i: usize = 0;
    while i < items.len()
        invariant
            i <= items@.len(),
            out@.len() == i,
            forall|k: int| 0 <= k < i ==> (#[trigger] out@[k])@ == items@[k]@.id,
        decreases items@.len() - i,
    {
        out.push(items[i].id.clone());
        i += 1;
    }
    out
}

/// The statements that store rows, given as JSON, under their ids.
pub open spec fn upserts(ids: Seq<Seq<char>>, bodies: Seq<Seq<char>>) -> Seq<Seq<char>> {
    Seq::new(ids.len(), |i: int| upsert_text_of(ids[i], bodies[i]))
}

/// The transaction that stores rows, given as JSON, under their ids.
pub fn write_batch_text(ids: &Vec<MemoryId>, bodies: &Vec<String>) -> (r: String)
    requires
        ids@.len() == bodies@.len(),
    ensures
        r@ == transaction_of(upserts(views(ids@), views(bodies@))),
{
    let mut statements: Vec<String> = Vec::new();
    let mut i: usize = 0;
    while i < ids.len()
        invariant
            i <= ids@.len(),
            ids@.len() == bodies@.len(),
            statements@.len() == i,
            forall|k: int|
                0 <= k < i ==> (#[trigger] statements@[k])@ == upsert_text_of(
                    ids@[k]@,
                    bodies@[k]@,
                ),
        decreases ids@.len() - i,
    {
        statements.push(upsert_text(&ids[i], bodies[i].as_str()));
        i += 1;
    }
    assert(views(statements@) =~= upserts(views(ids@), views(bodies@)));
    make_transaction(&statements)
}

/// The transaction that deletes memories by their ids alone, whoever holds them.
/// What a tenant asks to delete goes through `delete_batch_scoped_statement`.
pub fn delete_batch_text(ids: &Vec<MemoryId>) -> (r: String)
    ensures
        r@ == transaction_of(views(ids@).map_values(|id: Seq<char>| delete_text_of(id))),
{
    let mut statements: Vec<String> = Vec::new();
    let mut i: usize = 0;
    while i < ids.len()
        invariant
            i <= ids@.len(),
            statements@.len() == i,
            forall|k: int|
                0 <= k < i ==> (#[trigger] statements@[k])@ == delete_text_of(ids@[k]@),
        decreases ids@.len() - i,
    {
        statements.push(delete_text(&ids[i]));
        i += 1;
    }
    assert(views(statements@) =~= views(ids@).map_values(|id: Seq<char>| delete_text_of(id)));
    make_transaction(&statements)
}

/// Deletes a memory if it lies within a scope.
pub open spec fn scoped_delete_of(id: Seq<char>, scope: ScopeModel) -> Seq<char> {
    scoped_text(delete_text_of(id) + " WHERE tenant_id = $tenant_id"@, scope, true)
}

/// The transaction that deletes those of some memories that lie within a scope.
pub open spec fn delete_batch_model(ids: Seq<Seq<char>>, scope: ScopeModel) -> StatementModel {
    StatementModel {
        text: transaction_of(ids.map_values(|id: Seq<char>| scoped_delete_of(id, scope))),
        bindings: scope_bindings(scope, true),
    }
}

/// The transaction that deletes those of some memories that lie within a scope,
/// which must name a tenant.
pub fn delete_batch_scoped_statement(ids: &Vec<MemoryId>, scope: &ScopeKey) -> (r: Result<
    Statement,
    String,
>)
    ensures
        match r {
            Ok(s) => !blank(scope@.tenant_id) && s@ == delete_batch_model(views(ids@), scope@),
            Err(e) => blank(scope@.tenant_id) && e@ == "tenant_id is required"@,
        },
{
    match require_query_scope(scope) {
        Ok(_) => {},
        Err(e) => return Err(e),
    }
    let filters = make_scope_filters(scope, true);
    let mut statements: Vec<String> = Vec::new();
    let mut i: usize = 0;
    while i < ids.len()
        invariant
            i <= ids@.len(),
            views(filters@) == scope_filters(scope@, true),
            statements@.len() == i,
            forall|k: int|
                0 <= k < i ==> (#[trigger] statements@[k])@ == scoped_delete_of(ids@[k]@, scope@),
        decreases ids@.len() - i,
    {
        let mut text = cat(delete_text(&ids[i]).as_str(), " WHERE tenant_id = $tenant_id");
        push_filters(&mut text, &filters);
        statements.push(text);
        i += 1;
    }
    assert(views(statements@) =~= views(ids@).map_values(
        |id: Seq<char>| scoped_delete_of(id, scope@),
    ));
    Ok(
        Statement {
            text: make_transaction(&statements),
            bindings: make_scope_bindings(scope, true),
        },
    )
}

/// The steps that store one row and delete others, between `BEGIN TRANSACTION;`
/// and `COMMIT TRANSACTION;`: the row first. Where nothing is to be deleted,
/// storing the row is the only step, and no transaction is needed.
pub fn put_and_delete_steps(id: &MemoryId, body: &str, delete_ids: &Vec<MemoryId>) -> (r: Vec<
    String,
>)
    ensures
        views(r@) == seq![upsert_text_of(id@, body@)] + views(delete_ids@).map_values(
            |id: Seq<char>| delete_text_of(id),
        ),
{
    let mut steps: Vec<String> = Vec::new();
    steps.push(upsert_text(id, body));
    let mut i: usize = 0;
    while i < delete_ids.len()
        invariant
            i <= delete_ids@.len(),
            steps@.len() == i + 1,
            steps@[0]@ == upsert_text_of(id@, body@),
            forall|k: int|
                0 <= k < i ==> (#[trigger] steps@[k + 1])@ == delete_text_of(delete_ids@[k]@),
        decreases delete_ids@.len() - i,
    {
        let ghost before = steps@;
        steps.push(delete_text(&delete_ids[i]));
        proof {
            assert forall|k: int| 0 <= k < i + 1 implies (#[trigger] steps@[k + 1])@
                == delete_text_of(delete_ids@[k]@) by {
                if k < i {
                    assert(steps@[k + 1] == before[k + 1]);
                }
            }
        }
        i += 1;
    }
    proof {
        let want = seq![upsert_text_of(id@, body@)] + views(delete_ids@).map_values(
            |id: Seq<char>| delete_text_of(id),
        );
        assert forall|k: int| 0 <= k < want.len() implies views(steps@)[k] == want[k] by {
            if k > 0 {
                assert(steps@[(k - 1) + 1]@ == delete_text_of(delete_ids@[k - 1]@));
            }
        }
        assert(views(steps@) =~= want);
    }
    steps
}

proof fn occurs_at_the_end(a: Seq<char>, part: Seq<char>)
    ensures
        occurs(a + part, part),
{
    occurs_in_itself(part);
    occurs_inside(a, part, Seq::empty(), part);
    assert(a + part + Seq::<char>::empty() =~= a + part);
}

/// A query writes a condition for each filter that it sets: on kinds, on tags, on the
/// earliest and the latest moment, on its words, on its cursor; and its order, and
/// its limit where it has one, come last.
pub proof fn law_query_writes_its_filters(q: QueryModel, order_by: Seq<char>, include_limit: bool)
    ensures
        ({
            let text = query_text(q, order_by, include_limit);
            &&& q.kinds is Some ==> occurs(text, " AND kind IN $kinds"@)
            &&& q.tags_any is Some ==> occurs(text, " AND tags CONTAINSANY $tags_any"@)
            &&& q.since_ms is Some ==> occurs(text, " AND created_at_ms >= $since"@)
            &&& q.until_ms is Some ==> occurs(text, " AND created_at_ms <= $until"@)
            &&& q.text.len() > 0 ==> occurs(
                text,
                " AND (content_text CONTAINS $text OR tags CONTAINS [$text])"@,
            )
            &&& occurs(text, cursor_clause(q.cursor))
            &&& include_limit ==> (order_by + " LIMIT $limit"@).is_suffix_of(text)
            &&& !include_limit ==> order_by.is_suffix_of(text)
        }),
{
    let s = scoped_text(
        "SELECT * FROM memory_items WHERE tenant_id = $tenant_id"@,
        q.scope,
        true,
    );
    let a = when(q.kinds is Some, " AND kind IN $kinds"@);
    let b = when(q.tags_any is Some, " AND tags CONTAINSANY $tags_any"@);
    let c = when(q.since_ms is Some, " AND created_at_ms >= $since"@);
    let d = when(q.until_ms is Some, " AND created_at_ms <= $until"@);
    let e = cursor_clause(q.cursor);
    let f = when(
        q.text.len() > 0,
        " AND (content_text CONTAINS $text OR tags CONTAINS [$text])"@,
    );
    let h = when(include_limit, " LIMIT $limit"@);
    nine_parts(s, a, b, c, d, e, f, " "@, order_by, h);
    let all = query_text(q, order_by, include_limit);
    let front = s + a + b + c + d + e + f + " "@;
    assert(all == front + order_by + h);
    if include_limit {
        let end = order_by + h;
        assert(all.subrange(all.len() - end.len(), all.len() as int) =~= end);
    } else {
        assert(all.subrange(all.len() - order_by.len(), all.len() as int) =~= order_by);
    }
}

proof fn nine_parts(
    s: Seq<char>,
    a: Seq<char>,
    b: Seq<char>,
    c: Seq<char>,
    d: Seq<char>,
    e: Seq<char>,
    f: Seq<char>,
    g: Seq<char>,
    h: Seq<char>,
    i: Seq<char>,
)
    ensures
        ({
            let all = s + a + b + c + d + e + f + g + h + i;
            occurs(all, a) && occurs(all, b) && occurs(all, c) && occurs(all, d) && occurs(all, e)
                && occurs(all, f)
        }),
{
    let sa = s + a;
    let sb = sa + b;
    let sc = sb + c;
    let sd = sc + d;
    let se = sd + e;
    let sf = se + f;
    let sg = sf + g;
    let sh = sg + h;
    occurs_at_the_end(s, a);
    occurs_in_longer(sa, b, a);
    occurs_in_longer(sb, c, a);
    occurs_in_longer(sc, d, a);
    occurs_in_longer(sd, e, a);
    occurs_in_longer(se, f, a);
    occurs_in_longer(sf, g, a);
    occurs_in_longer(sg, h, a);
    occurs_in_longer(sh, i, a);
    occurs_at_the_end(sa, b);
    occurs_in_longer(sb, c, b);
    occurs_in_longer(sc, d, b);
    occurs_in_longer(sd, e, b);
    occurs_in_longer(se, f, b);
    occurs_in_longer(sf, g, b);
    occurs_in_longer(sg, h, b);
    occurs_in_longer(sh, i, b);
    occurs_at_the_end(sb, c);
    occurs_in_longer(sc, d, c);
    occurs_in_longer(sd, e, c);
    occurs_in_longer(se, f, c);
    occurs_in_longer(sf, g, c);
    occurs_in_longer(sg, h, c);
    occurs_in_longer(sh, i, c);
    occurs_at_the_end(sc, d);
    occurs_in_longer(sd, e, d);
    occurs_in_longer(se, f, d);
    occurs_in_longer(sf, g, d);
    occurs_in_longer(sg, h, d);
    occurs_in_longer(sh, i, d);
    occurs_at_the_end(sd, e);
    occurs_in_longer(se, f, e);
    occurs_in_longer(sf, g, e);
    occurs_in_longer(sg, h, e);
    occurs_in_longer(sh, i, e);
    occurs_at_the_end(se, f);
    occurs_in_longer(sf, g, f);
    occurs_in_longer(sg, h, f);
    occurs_in_longer(sh, i, f);
}

/// A query binds what its filters hold, each under its own name: the words for its
/// kinds, its tags, its moments and its text.
pub proof fn law_query_binds_its_filters(q: QueryModel)
    ensures
        query_bindings(q).contains(
            BindModel { name: "tenant_id"@, value: ValueModel::Text(q.scope.tenant_id) },
        ),
        q.kinds matches Some(kinds) ==> query_bindings(q).contains(
            BindModel {
                name: "kinds"@,
                value: ValueModel::Texts(Seq::new(kinds.len(), |i: int| kind_text(kinds[i]))),
            },
        ),
        q.tags_any matches Some(tags) ==> query_bindings(q).contains(
            BindModel { name: "tags_any"@, value: ValueModel::Texts(tags) },
        ),
        q.since_ms matches Some(n) ==> query_bindings(q).contains(
            BindModel { name: "since"@, value: ValueModel::Int(n as int) },
        ),
        q.until_ms matches Some(n) ==> query_bindings(q).contains(
            BindModel { name: "until"@, value: ValueModel::Int(n as int) },
        ),
        q.text.len() > 0 ==> query_bindings(q).contains(
            BindModel { name: "text"@, value: ValueModel::Text(q.text) },
        ),
{
    let a = scope_bindings(q.scope, true);
    let b = maybe_bound(
        "kinds"@,
        match q.kinds {
            Some(k) => Some(ValueModel::Texts(kind_texts(k))),
            None => None,
        },
    );
    let c = maybe_bound(
        "tags_any"@,
        match q.tags_any {
            Some(t) => Some(ValueModel::Texts(t)),
            None => None,
        },
    );
    let d = maybe_bound(
        "since"@,
        match q.since_ms {
            Some(n) => Some(ValueModel::Int(n as int)),
            None => None,
        },
    );
    let e = maybe_bound(
        "until"@,
        match q.until_ms {
            Some(n) => Some(ValueModel::Int(n as int)),
            None => None,
        },
    );
    let f = maybe_bound(
        "text"@,
        if q.text.len() > 0 {
            Some(ValueModel::Text(q.text))
        } else {
            None
        },
    );
    let all = query_bindings(q);
    assert(all == a + b + c + d + e + f);
    assert(all[0] == tenant_binding(q.scope));
    let x = a.len() as int;
    if let Some(kinds) = q.kinds {
        assert(kind_texts(kinds) =~= Seq::new(kinds.len(), |i: int| kind_text(kinds[i])));
        assert(all[x] == b[0]);
    }
    if q.tags_any is Some {
        assert(all[x + b.len()] == c[0]);
    }
    if q.since_ms is Some {
        assert(all[x + b.len() + c.len()] == d[0]);
    }
    if q.until_ms is Some {
        assert(all[x + b.len() + c.len() + d.len()] == e[0]);
    }
    if q.text.len() > 0 {
        assert(all[x + b.len() + c.len() + d.len() + e.len()] == f[0]);
    }
}

/// The pages of a query go by age, the newest first, so that a cursor continues them;
/// only a first page that is searched by words goes by importance.
pub proof fn law_pages_go_by_age(q: QueryModel)
    ensures
        q.cursor is Some || q.text.len() == 0 ==> order_of(q)
            == "ORDER BY created_at_ms DESC, id DESC"@,
        q.cursor is None && q.text.len() > 0 ==> order_of(q)
            == "ORDER BY importance DESC, created_at_ms DESC, id DESC"@,
{
}

/// The condition of a cursor names its moment, and its id as a literal; one that
/// cannot be read sets none, and neither does none.
pub proof fn law_cursor_sets_its_condition(c: Seq<char>)
    ensures
        cursor_clause(None).len() == 0,
        cursor_position(c) is None ==> cursor_clause(Some(c)).len() == 0,
        cursor_position(c) matches Some(p) ==> {
            &&& occurs(cursor_clause(Some(c)), "(created_at_ms < "@ + decimal(p.0 as int))
            &&& occurs(cursor_clause(Some(c)), "(created_at_ms = "@ + decimal(p.0 as int))
            &&& occurs(
                cursor_clause(Some(c)),
                "id < type::thing('memory_items', '"@ + escaped(p.1) + "')"@,
            )
        },
{
    if let Some(p) = cursor_position(c) {
        let n = decimal(p.0 as int);
        let id = escaped(p.1);
        let all = cursor_clause(Some(c));
        reveal_strlit(" AND (created_at_ms < ");
        reveal_strlit(" OR (created_at_ms = ");
        reveal_strlit(" AND id < type::thing('memory_items', '");
        reveal_strlit("')))");
        reveal_strlit("(created_at_ms < ");
        reveal_strlit("(created_at_ms = ");
        reveal_strlit("id < type::thing('memory_items', '");
        reveal_strlit("')");
        let x = "(created_at_ms < "@ + n;
        assert(all.subrange(5, 5 + x.len() as int) =~= x);
        assert(occurs_at(all, x, 5));
        let y = "(created_at_ms = "@ + n;
        let at_y = 22 + n.len() as int + 4;
        assert(all.subrange(at_y, at_y + y.len()) =~= y);
        assert(occurs_at(all, y, at_y));
        let z = "id < type::thing('memory_items', '"@ + id + "')"@;
        let at_z = 22 + n.len() as int + 21 + n.len() as int + 5;
        assert(all.subrange(at_z, at_z + z.len()) =~= z);
        assert(occurs_at(all, z, at_z));
    }
}

/// Both searches of a recall are bounded and ordered: the one by words takes the most
/// important memories first and no more than were asked for; the one by meaning takes
/// only memories that have an embedding.
pub proof fn law_searches_are_ordered(scope: ScopeModel, text: Seq<char>, limit: usize)
    ensures
        " ORDER BY importance DESC, created_at_ms DESC LIMIT $limit"@.is_suffix_of(
            lexical_model(scope, text, limit).text,
        ),
        lexical_model(scope, text, limit).bindings.contains(
            BindModel { name: "limit"@, value: ValueModel::Int(limit as int) },
        ),
        text.len() > 0 ==> occurs(
            lexical_model(scope, text, limit).text,
            " AND (content_text CONTAINS $text OR tags CONTAINS [$text])"@,
        ) && lexical_model(scope, text, limit).bindings.contains(
            BindModel { name: "text"@, value: ValueModel::Text(text) },
        ),
        "SELECT id, embedding FROM memory_items WHERE tenant_id = $tenant_id AND embedding IS NOT NULL"@.is_prefix_of(
        semantic_model(scope).text),
        " ORDER BY created_at_ms DESC LIMIT 1000"@.is_suffix_of(semantic_model(scope).text),
{
    let end = " ORDER BY importance DESC, created_at_ms DESC LIMIT $limit"@;
    let s = scoped_text(
        "SELECT * FROM memory_items WHERE tenant_id = $tenant_id"@,
        scope,
        true,
    );
    let words = when(
        text.len() > 0,
        " AND (content_text CONTAINS $text OR tags CONTAINS [$text])"@,
    );
    let all = lexical_model(scope, text, limit).text;
    assert(all == s + words + end);
    assert(all.subrange(all.len() - end.len(), all.len() as int) =~= end);
    let bound = lexical_model(scope, text, limit).bindings;
    let n = scope_bindings(scope, true).len() as int;
    assert(bound[n] == BindModel { name: "limit"@, value: ValueModel::Int(limit as int) });
    if text.len() > 0 {
        occurs_at_the_end(s, words);
        occurs_in_longer(s + words, end, words);
        assert(bound[n + 1] == BindModel { name: "text"@, value: ValueModel::Text(text) });
    }
    let front =
        "SELECT id, embedding FROM memory_items WHERE tenant_id = $tenant_id AND embedding IS NOT NULL"@;
    let meaning = semantic_model(scope).text;
    let last = " ORDER BY created_at_ms DESC LIMIT 1000"@;
    assert(meaning.subrange(0, front.len() as int) =~= front);
    assert(meaning.subrange(meaning.len() - last.len(), meaning.len() as int) =~= last);
}

/// What is fetched by id is every record that was asked for: the text names them all,
/// one after another.
pub proof fn law_fetching_names_every_record(ids: Seq<Seq<char>>, scope: ScopeModel, i: int)
    requires
        0 <= i < ids.len(),
    ensures
        occurs(
            fetch_model(ids, scope).text,
            "type::thing('memory_items', '"@ + escaped(ids[i]) + "')"@,
        ),
{
    let refs = record_refs(ids);
    let list = joined(refs, ", "@);
    let starts = law_joined_parts_stand_in_order(refs, ", "@);
    let part = refs[i];
    assert(0 <= starts[i]);
    assert(occurs_at(list, part, starts[i]));
    let front = "SELECT * FROM memory_items WHERE id IN ["@;
    let back = "] AND tenant_id = $tenant_id"@ + filters_text(scope_filters(scope, true));
    occurs_inside(front, list, back, part);
    assert(fetch_model(ids, scope).text =~= front + list + back);
}

/// Storing, looking up and deleting a record name the record by its id, as a literal
/// that reads back as that id; what is stored is the row that was given.
pub proof fn law_records_are_named_by_their_id(id: Seq<char>, body: Seq<char>, rest: Seq<char>)
    ensures
        delete_text_of(id) == "DELETE type::thing('memory_items', '"@ + escaped(id) + "')"@,
        upsert_text_of(id, body) == "UPSERT type::thing('memory_items', '"@ + escaped(id)
            + "') MERGE "@ + body,
        read_literal(escaped(id) + seq!['\''] + rest) == Some((id, rest)),
{
    law_literal_reads_back(id, rest);
    reveal_strlit("DELETE ");
    reveal_strlit("type::thing('memory_items', '");
    reveal_strlit("DELETE type::thing('memory_items', '");
    assert("DELETE "@ + "type::thing('memory_items', '"@
        =~= "DELETE type::thing('memory_items', '"@);
    assert(delete_text_of(id) =~= ("DELETE "@ + "type::thing('memory_items', '"@) + escaped(id)
        + "')"@);
    reveal_strlit("UPSERT ");
    reveal_strlit("UPSERT type::thing('memory_items', '");
    reveal_strlit("')");
    reveal_strlit(" MERGE ");
    reveal_strlit("') MERGE ");
    assert("UPSERT "@ + "type::thing('memory_items', '"@
        =~= "UPSERT type::thing('memory_items', '"@);
    assert("')"@ + " MERGE "@ =~= "') MERGE "@);
    assert(upsert_text_of(id, body) =~= ("UPSERT "@ + "type::thing('memory_items', '"@) + escaped(
        id,
    ) + ("')"@ + " MERGE "@) + body);
}

/// A batch of rows is stored row by row, each under the id at its place.
pub proof fn law_batch_stores_each_row_under_its_id(
    ids: Seq<Seq<char>>,
    bodies: Seq<Seq<char>>,
    i: int,
)
    requires
        ids.len() == bodies.len(),
        0 <= i < ids.len(),
    ensures
        upserts(ids, bodies).len() == ids.len(),
        upserts(ids, bodies)[i] == "UPSERT type::thing('memory_items', '"@ + escaped(ids[i])
            + "') MERGE "@ + bodies[i],
        occurs(
            transaction_of(upserts(ids, bodies)),
            "UPSERT type::thing('memory_items', '"@ + escaped(ids[i]) + "') MERGE "@ + bodies[i]
                + ";\n"@,
        ),
{
    law_records_are_named_by_their_id(ids[i], bodies[i], Seq::empty());
    law_transaction_holds_each_step(upserts(ids, bodies), i);
}

/// An item keeps its id where it has one; one that gets an id changes in nothing
/// else.
pub proof fn law_ids_are_kept(after: ItemModel, before: ItemModel)
    requires
        has_id(after, before),
    ensures
        before.id.len() > 0 ==> after == before,
        after == (ItemModel { id: after.id, ..before }),
{
}

/// A statement about one record begins with its verb and the record's name, and binds
/// the tenant and every level that the scope sets, each under its own name.
pub proof fn law_record_statements_name_their_record(
    verb: Seq<char>,
    id: Seq<char>,
    scope: ScopeModel,
)
    ensures
        (verb + "type::thing('memory_items', '"@ + escaped(id) + "')"@).is_prefix_of(
            record_statement(verb, id, scope).text,
        ),
        ({
            let bound = record_statement(verb, id, scope).bindings;
            &&& bound.contains(
                BindModel { name: "tenant_id"@, value: ValueModel::Text(scope.tenant_id) },
            )
            &&& scope.workspace_id matches Some(v) ==> bound.contains(
                BindModel { name: "workspace_id"@, value: ValueModel::Text(v) },
            )
            &&& scope.project_id matches Some(v) ==> bound.contains(
                BindModel { name: "project_id"@, value: ValueModel::Text(v) },
            )
            &&& scope.agent_id matches Some(v) ==> bound.contains(
                BindModel { name: "agent_id"@, value: ValueModel::Text(v) },
            )
            &&& scope.run_id matches Some(v) ==> bound.contains(
                BindModel { name: "run_id"@, value: ValueModel::Text(v) },
            )
        }),
{
    let head = verb + "type::thing('memory_items', '"@ + escaped(id) + "')"@;
    let text = record_statement(verb, id, scope).text;
    assert(text.subrange(0, head.len() as int) =~= head);
    let a = level("workspace_id"@, "workspace_id"@, scope.workspace_id);
    let b = level("project_id"@, "project_id"@, scope.project_id);
    let c = level("agent_id"@, "agent_id"@, scope.agent_id);
    let d = level("run_id"@, "run_id"@, scope.run_id);
    let filters = scope_filters(scope, true);
    assert(filters == a + b + c + d);
    let bound = record_statement(verb, id, scope).bindings;
    assert(bound[0] == tenant_binding(scope));
    assert forall|i: int| 0 <= i < filters.len() implies bound[i + 1] == #[trigger] filter_binding(
        filters[i],
    ) by {
    }
    if scope.workspace_id is Some {
        assert(filters[0] == a[0]);
        assert(bound[1] == filter_binding(filters[0]));
    }
    if scope.project_id is Some {
        let i = a.len() as int;
        assert(filters[i] == b[0]);
        assert(bound[i + 1] == filter_binding(filters[i]));
    }
    if scope.agent_id is Some {
        let i = a.len() as int + b.len();
        assert(filters[i] == c[0]);
        assert(bound[i + 1] == filter_binding(filters[i]));
    }
    if scope.run_id is Some {
        let i = a.len() as int + b.len() + c.len();
        assert(filters[i] == d[0]);
        assert(bound[i + 1] == filter_binding(filters[i]));
    }
}

} // verus!
