//! Statements: the text and the bound parameters of what is asked of the
//! database. What reads or deletes memories for a tenant filters on that tenant and
//! on every narrower level of the scope that is set; the lookups of facts for a new
//! one leave out the run, since what one run learned is known to the others. The
//! statements that go by an id alone serve no tenant's request.
use crate::memory::{ScopeKey, ScopeModel};
use crate::model::{opt, views};
use crate::text::{cat3, occurs, occurs_at, same_text, to_chars};
use vstd::prelude::*;

verus! {

/// A character inside a quoted literal: quotes and backslashes get a backslash.
pub open spec fn escape_char(c: char) -> Seq<char> {
    if c == '\\' {
        seq!['\\', '\\']
    } else if c == '\'' {
        seq!['\\', '\'']
    } else {
        seq![c]
    }
}

/// A text inside a quoted literal.
pub open spec fn escaped(s: Seq<char>) -> Seq<char>
    decreases s.len(),
{
    if s.len() == 0 {
        Seq::empty()
    } else {
        escaped(s.drop_last()) + escape_char(s.last())
    }
}

/// Escapes a text for a quoted literal.
pub fn escape_sql_string(s: &str) -> (r: String)
    ensures
        r@ == escaped(s@),
{
    let chars = to_chars(s);
    let mut out = String::new();
    let mut i: usize = 0;
    assert(chars@.take(0) =~= Seq::<char>::empty());
    while i < chars.len()
        invariant
            i <= chars@.len(),
            chars@ == s@,
            out@ == escaped(chars@.take(i as int)),
        decreases chars@.len() - i,
    {
        let c = chars[i];
        let ghost before = out@;
        proof {
            assert(chars@.take(i + 1).drop_last() =~= chars@.take(i as int));
        }
        if c == '\\' || c == '\'' {
            out.push('\\');
        }
        out.push(c);
        assert(out@ =~= before + escape_char(c));
        i += 1;
    }
    assert(chars@.take(chars@.len() as int) =~= chars@);
    out
}

/// What a reader of the literal takes it for: the text up to the closing quote,
/// where a backslash makes the next character plain; and what follows.
pub open spec fn read_literal(s: Seq<char>) -> Option<(Seq<char>, Seq<char>)>
    decreases s.len(),
{
    if s.len() == 0 {
        None
    } else if s[0] == '\'' {
        Some((Seq::empty(), s.drop_first()))
    } else if s[0] == '\\' {
        if s.len() == 1 {
            None
        } else {
            match read_literal(s.skip(2)) {
                Some(p) => Some((seq![s[1]] + p.0, p.1)),
                None => None,
            }
        }
    } else {
        match read_literal(s.drop_first()) {
            Some(p) => Some((seq![s[0]] + p.0, p.1)),
            None => None,
        }
    }
}

proof fn escaped_front(s: Seq<char>)
    requires
        s.len() > 0,
    ensures
        escaped(s) == escape_char(s[0]) + escaped(s.drop_first()),
    decreases s.len(),
{
    if s.len() == 1 {
        assert(s.drop_last() =~= Seq::<char>::empty());
        assert(s.drop_first() =~= Seq::<char>::empty());
        assert(escaped(s) =~= escape_char(s[0]) + escaped(s.drop_first()));
    } else {
        escaped_front(s.drop_last());
        assert(s.drop_last().drop_first() =~= s.drop_first().drop_last());
        assert(escaped(s) =~= escape_char(s[0]) + escaped(s.drop_first()));
    }
}

/// An escaped text between quotes is read as that text and nothing more: no
/// text ends its literal early, whatever it holds.
pub proof fn law_literal_reads_back(s: Seq<char>, rest: Seq<char>)
    ensures
        read_literal(escaped(s) + seq!['\''] + rest) == Some((s, rest)),
    decreases s.len(),
{
    let all = escaped(s) + seq!['\''] + rest;
    if s.len() == 0 {
        assert(all.drop_first() =~= rest);
        assert(s =~= Seq::<char>::empty());
    } else {
        escaped_front(s);
        let tail = s.drop_first();
        law_literal_reads_back(tail, rest);
        let after = escaped(tail) + seq!['\''] + rest;
        assert(seq![s[0]] + tail =~= s);
        if s[0] == '\\' || s[0] == '\'' {
            assert(all.skip(2) =~= after);
            assert(all[0] == '\\' && all[1] == s[0]);
        } else {
            assert(all.drop_first() =~= after);
            assert(all[0] == s[0]);
        }
    }
}

/// The reference to the record of a memory.
pub open spec fn record_ref_of(id: Seq<char>) -> Seq<char> {
    "type::thing('memory_items', '"@ + escaped(id) + "')"@
}

/// The reference to the record of a memory.
pub fn record_ref(id: &str) -> (r: String)
    ensures
        r@ == record_ref_of(id@),
{
    cat3("type::thing('memory_items', '", escape_sql_string(id).as_str(), "')")
}

/// A value bound to a parameter.
#[derive(Debug)]
pub enum BindValue {
    Text(String),
    Texts(Vec<String>),
    Int(i64),
    Size(usize),
}

/// The model of such a value.
pub enum ValueModel {
    Text(Seq<char>),
    Texts(Seq<Seq<char>>),
    Int(int),
}

impl View for BindValue {
    type V = ValueModel;

    open spec fn view(&self) -> ValueModel {
        match self {
            BindValue::Text(t) => ValueModel::Text(t@),
            BindValue::Texts(v) => ValueModel::Texts(views(v@)),
            BindValue::Int(n) => ValueModel::Int(*n as int),
            BindValue::Size(n) => ValueModel::Int(*n as int),
        }
    }
}

/// A parameter and its value.
#[derive(Debug)]
pub struct Binding {
    pub name: &'static str,
    pub value: BindValue,
}

/// The model of a bound parameter.
pub struct BindModel {
    pub name: Seq<char>,
    pub value: ValueModel,
}

impl View for Binding {
    type V = BindModel;

    open spec fn view(&self) -> BindModel {
        BindModel { name: self.name@, value: self.value@ }
    }
}

/// A statement with its bound parameters.
#[derive(Debug)]
pub struct Statement {
    pub text: String,
    pub bindings: Vec<Binding>,
}

/// The model of a statement.
pub struct StatementModel {
    pub text: Seq<char>,
    pub bindings: Seq<BindModel>,
}

impl View for Statement {
    type V = StatementModel;

    open spec fn view(&self) -> StatementModel {
        StatementModel { text: self.text@, bindings: views(self.bindings@) }
    }
}

/// A condition that a column equals a bound value.
#[derive(Debug)]
pub struct Filter {
    pub column: &'static str,
    pub param: &'static str,
    pub value: String,
}

/// The model of a condition.
pub struct FilterModel {
    pub column: Seq<char>,
    pub param: Seq<char>,
    pub value: Seq<char>,
}

impl View for Filter {
    type V = FilterModel;

    open spec fn view(&self) -> FilterModel {
        FilterModel { column: self.column@, param: self.param@, value: self.value@ }
    }
}

/// The condition of one level of a scope, where it is set.
pub open spec fn level(
    column: Seq<char>,
    param: Seq<char>,
    value: Option<Seq<char>>,
) -> Seq<FilterModel> {
    match value {
        Some(value) => seq![FilterModel { column, param, value }],
        None => Seq::empty(),
    }
}

/// The conditions below the tenant, from the widest level to the narrowest. The
/// run is left out where `with_run` is false.
pub open spec fn scope_filters(scope: ScopeModel, with_run: bool) -> Seq<FilterModel> {
    level("workspace_id"@, "workspace_id"@, scope.workspace_id) + level(
        "project_id"@,
        "project_id"@,
        scope.project_id,
    ) + level("agent_id"@, "agent_id"@, scope.agent_id) + if with_run {
        level("run_id"@, "run_id"@, scope.run_id)
    } else {
        Seq::empty()
    }
}

/// The same conditions with short parameter names.
pub open spec fn short_filters(scope: ScopeModel) -> Seq<FilterModel> {
    level("workspace_id"@, "workspace"@, scope.workspace_id) + level(
        "project_id"@,
        "project"@,
        scope.project_id,
    ) + level("agent_id"@, "agent"@, scope.agent_id) + level("run_id"@, "run"@, scope.run_id)
}

/// The text of conditions, each after an `AND`.
pub open spec fn filters_text(filters: Seq<FilterModel>) -> Seq<char>
    decreases filters.len(),
{
    if filters.len() == 0 {
        Seq::empty()
    } else {
        filters_text(filters.drop_last()) + " AND "@ + filters.last().column + " = $"@
            + filters.last().param
    }
}

/// The parameter of a condition.
pub open spec fn filter_binding(f: FilterModel) -> BindModel {
    BindModel { name: f.param, value: ValueModel::Text(f.value) }
}

/// The parameters of conditions, in their order.
pub open spec fn filters_bindings(filters: Seq<FilterModel>) -> Seq<BindModel> {
    filters.map_values(|f: FilterModel| filter_binding(f))
}

fn push_level(
    out: &mut Vec<Filter>,
    column: &'static str,
    param: &'static str,
    value: &Option<String>,
)
    ensures
        views(final(out)@) == views(old(out)@) + level(column@, param@, opt(*value)),
{
    let ghost before = views(out@);
    match value {
        Some(v) => {
            out.push(Filter { column, param, value: v.clone() });
            assert(views(out@) =~= before + level(column@, param@, opt(*value)));
        },
        None => {
            assert(before + Seq::<FilterModel>::empty() =~= before);
        },
    }
}

pub(crate) fn make_scope_filters(scope: &ScopeKey, with_run: bool) -> (r: Vec<Filter>)
    ensures
        views(r@) == scope_filters(scope@, with_run),
{
    let mut out: Vec<Filter> = Vec::new();
    push_level(&mut out, "workspace_id", "workspace_id", &scope.workspace_id);
    push_level(&mut out, "project_id", "project_id", &scope.project_id);
    push_level(&mut out, "agent_id", "agent_id", &scope.agent_id);
    if with_run {
        push_level(&mut out, "run_id", "run_id", &scope.run_id);
    }
    assert(views(out@) =~= scope_filters(scope@, with_run));
    out
}

fn make_short_filters(scope: &ScopeKey) -> (r: Vec<Filter>)
    ensures
        views(r@) == short_filters(scope@),
{
    let mut out: Vec<Filter> = Vec::new();
    push_level(&mut out, "workspace_id", "workspace", &scope.workspace_id);
    push_level(&mut out, "project_id", "project", &scope.project_id);
    push_level(&mut out, "agent_id", "agent", &scope.agent_id);
    push_level(&mut out, "run_id", "run", &scope.run_id);
    assert(views(out@) =~= short_filters(scope@));
    out
}

pub(crate) fn push_filters(text: &mut String, filters: &Vec<Filter>)
    ensures
        final(text)@ == old(text)@ + filters_text(views(filters@)),
{
    let ghost start = text@;
    let ghost all = views(filters@);
    let mut i: usize = 0;
    assert(all.take(0) =~= Seq::<FilterModel>::empty());
    assert(start + filters_text(all.take(0)) =~= start);
    while i < filters.len()
        invariant
            i <= filters@.len(),
            all == views(filters@),
            text@ == start + filters_text(all.take(i as int)),
        decreases filters@.len() - i,
    {
        proof {
            assert(all.take(i + 1).drop_last() =~= all.take(i as int));
            assert(all.take(i + 1).last() == filters@[i as int]@);
        }
        text.push_str(" AND ");
        text.push_str(filters[i].column);
        text.push_str(" = $");
        text.push_str(filters[i].param);
        assert(text@ =~= start + filters_text(all.take(i + 1)));
        i += 1;
    }
    assert(all.take(all.len() as int) =~= all);
}

pub(crate) fn push_filter_bindings(out: &mut Vec<Binding>, filters: Vec<Filter>)
    ensures
        views(final(out)@) == views(old(out)@) + filters_bindings(views(filters@)),
{
    let ghost start = views(out@);
    let ghost all = views(filters@);
    assert(all.take(0) =~= Seq::<FilterModel>::empty());
    assert(start + filters_bindings(all.take(0)) =~= start);
    for f in it: filters
        invariant
            it.seq() == filters@,
            all == views(filters@),
            views(out@) == start + filters_bindings(all.take(it.index())),
    {
        let ghost n = it.index();
        let ghost before = views(out@);
        let ghost model = f@;
        out.push(Binding { name: f.param, value: BindValue::Text(f.value) });
        proof {
            assert(all[n] == model);
            assert(all.take(n + 1) =~= all.take(n).push(model));
            assert(views(out@) =~= before.push(filter_binding(model)));
            assert(filters_bindings(all.take(n + 1)) =~= filters_bindings(all.take(n)).push(
                filter_binding(model),
            ));
            assert(views(out@) =~= start + filters_bindings(all.take(n + 1)));
        }
    }
    assert(all.take(all.len() as int) =~= all);
}

pub(crate) fn push_binding(out: &mut Vec<Binding>, name: &'static str, value: BindValue)
    ensures
        views(final(out)@) == views(old(out)@).push(
            (BindModel { name: name@, value: value@ }),
        ),
{
    let ghost before = views(out@);
    let ghost model = BindModel { name: name@, value: value@ };
    out.push(Binding { name, value });
    assert(views(out@) =~= before.push(model));
}

pub(crate) fn push_text_binding(out: &mut Vec<Binding>, name: &'static str, value: &str)
    ensures
        views(final(out)@) == views(old(out)@).push(
            (BindModel { name: name@, value: ValueModel::Text(value@) }),
        ),
{
    push_binding(out, name, BindValue::Text(value.to_owned()));
}

/// Appends to a statement's text a condition for every level of the scope that
/// is set, from the widest to the narrowest.
pub fn append_scope_where_clauses(query_str: &mut String, scope: &ScopeKey)
    ensures
        final(query_str)@ == old(query_str)@ + filters_text(short_filters(scope@)),
{
    push_filters(query_str, &make_short_filters(scope));
}

/// The parameters that go with `append_scope_where_clauses`, in the same order.
pub fn bind_scope_filters(scope: &ScopeKey) -> (r: Vec<Binding>)
    ensures
        views(r@) == filters_bindings(short_filters(scope@)),
{
    let mut out: Vec<Binding> = Vec::new();
    push_filter_bindings(&mut out, make_short_filters(scope));
    assert(views(out@) =~= filters_bindings(short_filters(scope@)));
    out
}

/// Every condition names the parameter that is bound at its place, and the value
/// that is bound is the one the scope holds.
pub proof fn law_conditions_and_parameters_agree(filters: Seq<FilterModel>)
    ensures
        filters_bindings(filters).len() == filters.len(),
        forall|i: int|
            0 <= i < filters.len() ==> {
                &&& (#[trigger] filters_bindings(filters)[i]).name == filters[i].param
                &&& filters_bindings(filters)[i].value == ValueModel::Text(filters[i].value)
            },
{
}

/// The value of a scope column.
pub open spec fn column_value(scope: ScopeModel, column: Seq<char>) -> Option<Seq<char>> {
    if column == "workspace_id"@ {
        scope.workspace_id
    } else if column == "project_id"@ {
        scope.project_id
    } else if column == "agent_id"@ {
        scope.agent_id
    } else if column == "run_id"@ {
        scope.run_id
    } else {
        None
    }
}

/// A row of a given scope meets a condition.
pub open spec fn meets(row: ScopeModel, f: FilterModel) -> bool {
    column_value(row, f.column) == Some(f.value)
}

/// A row of a given scope meets all conditions.
pub open spec fn meets_all(row: ScopeModel, filters: Seq<FilterModel>) -> bool {
    forall|i: int| 0 <= i < filters.len() ==> meets(row, #[trigger] filters[i])
}

/// One level of a scope lies within another: where the other sets it, they are
/// the same.
pub open spec fn level_within(row: Option<Seq<char>>, asked: Option<Seq<char>>) -> bool {
    asked is Some ==> row == asked
}

/// A scope lies within another: the same tenant, and the same at every level
/// that the other sets.
pub open spec fn within(row: ScopeModel, asked: ScopeModel) -> bool {
    &&& row.tenant_id == asked.tenant_id
    &&& level_within(row.workspace_id, asked.workspace_id)
    &&& level_within(row.project_id, asked.project_id)
    &&& level_within(row.agent_id, asked.agent_id)
    &&& level_within(row.run_id, asked.run_id)
}

fn level_matches(row: &Option<String>, asked: &Option<String>) -> (r: bool)
    ensures
        r == level_within(opt(*row), opt(*asked)),
{
    match asked {
        None => true,
        Some(a) => match row {
            None => false,
            Some(b) => same_text(a.as_str(), b.as_str()),
        },
    }
}

/// Whether an item's scope lies within the scope that was asked for.
pub fn scope_matches(item: &ScopeKey, asked: &ScopeKey) -> (r: bool)
    ensures
        r == within(item@, asked@),
{
    same_text(item.tenant_id.as_str(), asked.tenant_id.as_str()) && level_matches(
        &item.workspace_id,
        &asked.workspace_id,
    ) && level_matches(&item.project_id, &asked.project_id) && level_matches(
        &item.agent_id,
        &asked.agent_id,
    ) && level_matches(&item.run_id, &asked.run_id)
}

proof fn meets_concat(row: ScopeModel, a: Seq<FilterModel>, b: Seq<FilterModel>)
    ensures
        meets_all(row, a + b) == (meets_all(row, a) && meets_all(row, b)),
{
    if meets_all(row, a + b) {
        assert forall|i: int| 0 <= i < a.len() implies meets(row, #[trigger] a[i]) by {
            assert((a + b)[i] == a[i]);
        }
        assert forall|i: int| 0 <= i < b.len() implies meets(row, #[trigger] b[i]) by {
            assert((a + b)[a.len() + i] == b[i]);
        }
    }
}

proof fn meets_level(row: ScopeModel, column: Seq<char>, param: Seq<char>, value: Option<Seq<char>>)
    ensures
        meets_all(row, level(column, param, value)) == level_within(
            column_value(row, column),
            value,
        ),
{
    if value is Some {
        assert(level(column, param, value)[0].column == column);
    }
}

/// The conditions of a scope let through exactly the rows within it: a level
/// that is set never widens the result, and a row of another scope is never
/// shown. This holds with either set of parameter names.
pub proof fn law_scope_conditions_isolate(row: ScopeModel, asked: ScopeModel)
    ensures
        row.tenant_id == asked.tenant_id && meets_all(row, scope_filters(asked, true)) <==> within(
            row,
            asked,
        ),
        row.tenant_id == asked.tenant_id && meets_all(row, short_filters(asked)) <==> within(
            row,
            asked,
        ),
{
    reveal_strlit("workspace_id");
    reveal_strlit("project_id");
    reveal_strlit("agent_id");
    reveal_strlit("run_id");
    assert("workspace_id"@.len() == 12 && "project_id"@.len() == 10 && "agent_id"@.len() == 8
        && "run_id"@.len() == 6);
    let a = level("workspace_id"@, "workspace_id"@, asked.workspace_id);
    let b = level("project_id"@, "project_id"@, asked.project_id);
    let c = level("agent_id"@, "agent_id"@, asked.agent_id);
    let d = level("run_id"@, "run_id"@, asked.run_id);
    meets_concat(row, a + b + c, d);
    meets_concat(row, a + b, c);
    meets_concat(row, a, b);
    meets_level(row, "workspace_id"@, "workspace_id"@, asked.workspace_id);
    meets_level(row, "project_id"@, "project_id"@, asked.project_id);
    meets_level(row, "agent_id"@, "agent_id"@, asked.agent_id);
    meets_level(row, "run_id"@, "run_id"@, asked.run_id);
    let e = level("workspace_id"@, "workspace"@, asked.workspace_id);
    let f = level("project_id"@, "project"@, asked.project_id);
    let g = level("agent_id"@, "agent"@, asked.agent_id);
    let h = level("run_id"@, "run"@, asked.run_id);
    meets_concat(row, e + f + g, h);
    meets_concat(row, e + f, g);
    meets_concat(row, e, f);
    meets_level(row, "workspace_id"@, "workspace"@, asked.workspace_id);
    meets_level(row, "project_id"@, "project"@, asked.project_id);
    meets_level(row, "agent_id"@, "agent"@, asked.agent_id);
    meets_level(row, "run_id"@, "run"@, asked.run_id);
}

/// The conditions of a scope let through exactly the rows of the same value at each
/// level that is set, level by level; without the run, whatever the run.
pub proof fn law_conditions_go_level_by_level(row: ScopeModel, asked: ScopeModel)
    ensures
        meets_all(row, scope_filters(asked, true)) <==> (asked.workspace_id is Some
            ==> row.workspace_id == asked.workspace_id) && (asked.project_id is Some
            ==> row.project_id == asked.project_id) && (asked.agent_id is Some ==> row.agent_id
            == asked.agent_id) && (asked.run_id is Some ==> row.run_id == asked.run_id),
        meets_all(row, scope_filters(asked, false)) <==> (asked.workspace_id is Some
            ==> row.workspace_id == asked.workspace_id) && (asked.project_id is Some
            ==> row.project_id == asked.project_id) && (asked.agent_id is Some ==> row.agent_id
            == asked.agent_id),
        meets_all(row, short_filters(asked)) <==> meets_all(row, scope_filters(asked, true)),
{
    let same = ScopeModel { tenant_id: asked.tenant_id, ..row };
    law_scope_conditions_isolate(same, asked);
    assert(meets_all(row, scope_filters(asked, true)) == meets_all(
        same,
        scope_filters(asked, true),
    )) by {
        assert forall|i: int| 0 <= i < scope_filters(asked, true).len() implies meets(
            row,
            #[trigger] scope_filters(asked, true)[i],
        ) == meets(same, scope_filters(asked, true)[i]) by {
        }
    }
    assert(meets_all(row, short_filters(asked)) == meets_all(same, short_filters(asked))) by {
        assert forall|i: int| 0 <= i < short_filters(asked).len() implies meets(
            row,
            #[trigger] short_filters(asked)[i],
        ) == meets(same, short_filters(asked)[i]) by {
        }
    }
    reveal_strlit("workspace_id");
    reveal_strlit("project_id");
    reveal_strlit("agent_id");
    reveal_strlit("run_id");
    assert("workspace_id"@.len() == 12 && "project_id"@.len() == 10 && "agent_id"@.len() == 8
        && "run_id"@.len() == 6);
    let a = level("workspace_id"@, "workspace_id"@, asked.workspace_id);
    let b = level("project_id"@, "project_id"@, asked.project_id);
    let c = level("agent_id"@, "agent_id"@, asked.agent_id);
    let none = Seq::<FilterModel>::empty();
    meets_concat(row, a + b + c, none);
    meets_concat(row, a + b, c);
    meets_concat(row, a, b);
    meets_level(row, "workspace_id"@, "workspace_id"@, asked.workspace_id);
    meets_level(row, "project_id"@, "project_id"@, asked.project_id);
    meets_level(row, "agent_id"@, "agent_id"@, asked.agent_id);
}

/// One scope lies within another exactly where the tenants are the same and so is
/// every level that the other sets.
pub proof fn law_within_goes_level_by_level(row: ScopeModel, asked: ScopeModel)
    ensures
        within(row, asked) <==> row.tenant_id == asked.tenant_id && (asked.workspace_id is Some
            ==> row.workspace_id == asked.workspace_id) && (asked.project_id is Some
            ==> row.project_id == asked.project_id) && (asked.agent_id is Some ==> row.agent_id
            == asked.agent_id) && (asked.run_id is Some ==> row.run_id == asked.run_id),
{
}

/// The text of conditions names every one of them: its column, and its parameter.
pub proof fn law_every_condition_is_written(filters: Seq<FilterModel>, i: int)
    requires
        0 <= i < filters.len(),
    ensures
        occurs(filters_text(filters), " AND "@ + filters[i].column + " = $"@ + filters[i].param),
    decreases filters.len(),
{
    let front = filters.drop_last();
    let so_far = filters_text(front);
    let last = filters.last();
    let all = filters_text(filters);
    let part = " AND "@ + filters[i].column + " = $"@ + filters[i].param;
    if i == filters.len() - 1 {
        assert(all.subrange(so_far.len() as int, (so_far.len() + part.len()) as int) =~= part);
        assert(occurs_at(all, part, so_far.len() as int));
    } else {
        assert(front[i] == filters[i]);
        law_every_condition_is_written(front, i);
        let at = choose|at: int| occurs_at(so_far, part, at);
        assert(all.subrange(at, at + part.len()) =~= so_far.subrange(at, at + part.len()));
        assert(occurs_at(all, part, at));
    }
}

} // verus!
