//! Batches: many writes, deletions or queries in one request.
use crate::decimal::{decimal, parse_usize, read_unsigned, usize_text};
use crate::memory::{ScopeKey, ScopeModel};
use crate::model::{opt, views};
use crate::query::{Query, QueryModel};
use crate::service::error::{ApiError, ApiIssue};
use crate::service::params::{param, Params, ParamsModel};
use crate::service::tenant::{resolve_tenant_scope, tenant_scope};
use crate::text::{blank, cat3, is_blank, same_text};
use vstd::prelude::*;

verus! {

/// The most items of one batch write, unless configured otherwise.
pub const MAX_BATCH_ITEMS: usize = 1000;

/// The most ids of one batch deletion.
pub const MAX_BATCH_DELETE_IDS: usize = 1000;

/// The most queries of one batch.
pub const MAX_BATCH_QUERIES: usize = 100;

/// The most items of one batch write, by the setting that may change it.
pub open spec fn batch_size(configured: Option<Seq<char>>) -> usize {
    match configured {
        Some(v) => match read_unsigned(v) {
            Some(n) if n <= usize::MAX => n as usize,
            _ => MAX_BATCH_ITEMS,
        },
        None => MAX_BATCH_ITEMS,
    }
}

/// The most items of one batch write; `configured` is the setting that may
/// change it, and counts if it is a number.
pub fn max_batch_size(configured: Option<&str>) -> (r: usize)
    ensures
        r == batch_size(opt(configured)),
{
    match configured {
        Some(v) => match parse_usize(v) {
            Some(n) => n,
            None => MAX_BATCH_ITEMS,
        },
        None => MAX_BATCH_ITEMS,
    }
}

/// What is wrong with a batch write of `count` items, if anything.
pub open spec fn write_batch_fault(count: usize, max: usize) -> Option<ApiIssue> {
    if count == 0 {
        Some(ApiIssue::BadRequest("items must not be empty"@))
    } else if count > max {
        Some(
            ApiIssue::PayloadTooLarge(
                "Batch size "@ + decimal(count as int) + " exceeds maximum allowed of "@ + decimal(
                    max as int,
                ),
            ),
        )
    } else {
        None
    }
}

/// Checks the size of a batch write.
pub fn check_batch_write(count: usize, max: usize) -> (r: Result<(), ApiError>)
    ensures
        match r {
            Ok(_) => write_batch_fault(count, max) is None,
            Err(e) => write_batch_fault(count, max) == Some(e@),
        },
{
    if count == 0 {
        return Err(ApiError::BadRequest("items must not be empty".to_owned()));
    }
    if count > max {
        let mut m = cat3(
            "Batch size ",
            usize_text(count).as_str(),
            " exceeds maximum allowed of ",
        );
        m.push_str(usize_text(max).as_str());
        return Err(ApiError::PayloadTooLarge(m));
    }
    Ok(())
}

/// What is wrong with a batch of `count` parts named `what`, if anything.
pub open spec fn batch_fault(what: Seq<char>, count: usize, max: usize) -> Option<ApiIssue> {
    if count == 0 {
        Some(ApiIssue::BadRequest(what + " must not be empty"@))
    } else if count > max {
        Some(
            ApiIssue::BadRequest(
                "batch size "@ + decimal(count as int) + " exceeds max "@ + decimal(max as int),
            ),
        )
    } else {
        None
    }
}

fn check_batch(what: &str, count: usize, max: usize) -> (r: Result<(), ApiError>)
    ensures
        match r {
            Ok(_) => batch_fault(what@, count, max) is None,
            Err(e) => batch_fault(what@, count, max) == Some(e@),
        },
{
    if count == 0 {
        return Err(ApiError::BadRequest(crate::text::cat(what, " must not be empty")));
    }
    if count > max {
        let mut m = cat3("batch size ", usize_text(count).as_str(), " exceeds max ");
        m.push_str(usize_text(max).as_str());
        return Err(ApiError::BadRequest(m));
    }
    Ok(())
}

/// Checks the size of a batch deletion.
pub fn check_batch_delete(count: usize) -> (r: Result<(), ApiError>)
    ensures
        match r {
            Ok(_) => batch_fault("ids"@, count, MAX_BATCH_DELETE_IDS) is None,
            Err(e) => batch_fault("ids"@, count, MAX_BATCH_DELETE_IDS) == Some(e@),
        },
{
    check_batch("ids", count, MAX_BATCH_DELETE_IDS)
}

/// Whether a batch is to be done as a whole or not at all: only where the
/// parameter `atomic` is the word `true`.
pub open spec fn is_atomic(params: ParamsModel) -> bool {
    param(params, "atomic"@) == Some("true"@)
}

/// Reads whether a batch is to be done as a whole.
pub fn parse_atomic(params: &Params) -> (r: bool)
    ensures
        r == is_atomic(params@),
{
    match params.get("atomic") {
        Some(v) => same_text(v, "true"),
        None => false,
    }
}

/// How a batch is done.
#[derive(Debug, Clone, Copy, PartialEq, Eq, Structural)]
pub enum BatchMode {
    /// As a whole or not at all: the first failure is the answer.
    Atomic,
    /// Part by part: each is answered for itself.
    BestEffort,
}

/// How the parameters ask a batch to be done.
pub open spec fn mode_of(params: ParamsModel) -> BatchMode {
    if is_atomic(params) {
        BatchMode::Atomic
    } else {
        BatchMode::BestEffort
    }
}

fn read_mode(params: &Params) -> (r: BatchMode)
    ensures
        r == mode_of(params@),
{
    if parse_atomic(params) {
        BatchMode::Atomic
    } else {
        BatchMode::BestEffort
    }
}

/// Checks a batch write of `count` items and reads how it is to be done.
pub fn batch_write_memory(count: usize, configured: Option<&str>, params: &Params) -> (r: Result<
    BatchMode,
    ApiError,
>)
    ensures
        match (r, write_batch_fault(count, batch_size(opt(configured)))) {
            (Ok(mode), None) => mode == mode_of(params@),
            (Err(e), Some(f)) => e@ == f,
            _ => false,
        },
{
    match check_batch_write(count, max_batch_size(configured)) {
        Ok(_) => Ok(read_mode(params)),
        Err(e) => Err(e),
    }
}

/// A batch deletion that may go ahead: how, and within which scope.
#[derive(Debug)]
pub struct BatchDeletion {
    pub mode: BatchMode,
    pub scope: ScopeKey,
}

/// The model of a batch deletion.
pub struct DeletionModel {
    pub mode: BatchMode,
    pub scope: ScopeModel,
}

impl View for BatchDeletion {
    type V = DeletionModel;

    open spec fn view(&self) -> DeletionModel {
        DeletionModel { mode: self.mode, scope: self.scope@ }
    }
}

/// How a batch of `count` ids is deleted: like a single deletion it must name a
/// tenant, and deletes nothing outside its scope.
pub open spec fn deletion_of(
    count: usize,
    params: ParamsModel,
    header: Option<Seq<char>>,
) -> Result<DeletionModel, ApiIssue> {
    match (batch_fault("ids"@, count, MAX_BATCH_DELETE_IDS), tenant_scope(params, header)) {
        (Some(fault), _) => Err(fault),
        (None, Err(fault)) => Err(fault),
        (None, Ok(scope)) => Ok(DeletionModel { mode: mode_of(params), scope }),
    }
}

/// Checks a batch deletion of `count` ids, and reads how and within which scope it
/// is to be done.
pub fn batch_delete_memory(count: usize, params: &Params, header: &Option<String>) -> (r: Result<
    BatchDeletion,
    ApiError,
>)
    ensures
        match (r, deletion_of(count, params@, opt(*header))) {
            (Ok(d), Ok(m)) => d@ == m,
            (Err(e), Err(f)) => e@ == f,
            _ => false,
        },
{
    match check_batch_delete(count) {
        Ok(_) => {},
        Err(e) => return Err(e),
    }
    match resolve_tenant_scope(params, header) {
        Ok(scope) => Ok(BatchDeletion { mode: read_mode(params), scope }),
        Err(e) => Err(e),
    }
}

/// A batch deletion names its tenant: without one nothing is deleted.
pub proof fn law_batch_deletion_names_its_tenant(
    count: usize,
    params: ParamsModel,
    header: Option<Seq<char>>,
)
    ensures
        deletion_of(count, params, header) matches Ok(d) ==> !blank(d.scope.tenant_id) && param(
            params,
            "tenant_id"@,
        ) == Some(d.scope.tenant_id) && tenant_scope(params, header) == Ok::<
            ScopeModel,
            ApiIssue,
        >(d.scope),
{
}

/// What is wrong with a batch of queries, if anything: its size, or that a query
/// names no tenant.
pub open spec fn queries_fault(queries: Seq<QueryModel>) -> Option<ApiIssue> {
    match batch_fault("queries"@, queries.len() as usize, MAX_BATCH_QUERIES) {
        Some(fault) => Some(fault),
        None => if exists|i: int|
            0 <= i < queries.len() && blank((#[trigger] queries[i]).scope.tenant_id) {
            Some(ApiIssue::BadRequest("scope.tenant_id is required and must be non-empty"@))
        } else {
            None
        },
    }
}

/// Checks a batch of queries, each of which must name a tenant.
pub fn batch_queries(queries: &Vec<Query>) -> (r: Result<(), ApiError>)
    ensures
        match r {
            Ok(_) => queries_fault(views(queries@)) is None,
            Err(e) => queries_fault(views(queries@)) == Some(e@),
        },
{
    match check_batch("queries", queries.len(), MAX_BATCH_QUERIES) {
        Ok(_) => {},
        Err(e) => return Err(e),
    }
    let ghost all = views(queries@);
    for i in 0..queries.len()
        invariant
            all == views(queries@),
            batch_fault("queries"@, all.len() as usize, MAX_BATCH_QUERIES) is None,
            forall|k: int| 0 <= k < i ==> !blank((#[trigger] all[k]).scope.tenant_id),
    {
        assert(all[i as int] == queries@[i as int]@);
        if is_blank(queries[i].scope.tenant_id.as_str()) {
            return Err(
                ApiError::BadRequest(
                    "scope.tenant_id is required and must be non-empty".to_owned(),
                ),
            );
        }
    }
    Ok(())
}

/// A batch write is refused exactly where it is empty or larger than it may be: an
/// empty one as a bad request, one that is too large as too large. It may hold 1000
/// items unless a number is configured.
pub proof fn law_batch_writes_keep_to_their_size(
    count: usize,
    max: usize,
    configured: Option<Seq<char>>,
)
    ensures
        write_batch_fault(count, max) is None <==> 1 <= count <= max,
        count == 0 ==> (write_batch_fault(count, max) matches Some(f) && f is BadRequest),
        count > max && count > 0 ==> (write_batch_fault(count, max) matches Some(f)
            && f is PayloadTooLarge),
        configured is None ==> batch_size(configured) == 1000,
        configured matches Some(v) ==> (match read_unsigned(v) {
            Some(n) => n <= usize::MAX ==> batch_size(configured) == n,
            None => batch_size(configured) == 1000,
        }),
{
}

/// A batch of ids or queries is refused exactly where it is empty or larger than it
/// may be, as a bad request; a batch of queries also where one of them names no
/// tenant.
pub proof fn law_batches_keep_to_their_size(
    what: Seq<char>,
    count: usize,
    max: usize,
    queries: Seq<QueryModel>,
)
    requires
        queries.len() <= usize::MAX,
    ensures
        batch_fault(what, count, max) is None <==> 1 <= count <= max,
        batch_fault(what, count, max) matches Some(f) ==> f is BadRequest,
        queries_fault(queries) is None <==> 1 <= queries.len() <= 100 && forall|i: int|
            0 <= i < queries.len() ==> !blank((#[trigger] queries[i]).scope.tenant_id),
{
}

/// A batch is done as a whole exactly where the parameter `atomic` is `true`.
pub proof fn law_batches_are_atomic_on_demand(params: ParamsModel)
    ensures
        mode_of(params) == BatchMode::Atomic <==> params.contains_key("atomic"@)
            && params["atomic"@] == "true"@,
{
}

/// A batch deletion goes ahead exactly where it names from 1 to 1000 ids and a
/// tenant that the header does not contradict; it is done within the scope that the
/// parameters name, down to the run.
pub proof fn law_batch_deletion_keeps_to_the_request(
    count: usize,
    params: ParamsModel,
    header: Option<Seq<char>>,
)
    ensures
        deletion_of(count, params, header) is Ok <==> 1 <= count <= 1000 && params.contains_key(
            "tenant_id"@,
        ) && !blank(params["tenant_id"@]) && (header matches Some(h) ==> blank(h) || h
            == params["tenant_id"@]),
        deletion_of(count, params, header) matches Ok(d) ==> {
            &&& d.scope.tenant_id == params["tenant_id"@]
            &&& params.contains_key("workspace_id"@) ==> d.scope.workspace_id == Some(
                params["workspace_id"@],
            )
            &&& params.contains_key("project_id"@) ==> d.scope.project_id == Some(
                params["project_id"@],
            )
            &&& params.contains_key("agent_id"@) ==> d.scope.agent_id == Some(params["agent_id"@])
            &&& params.contains_key("run_id"@) ==> d.scope.run_id == Some(params["run_id"@])
        },
{
}

} // verus!
