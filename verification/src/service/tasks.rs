//! Pausing and resuming agent tasks.
use crate::context_pack::Hit;
use crate::float::Float;
use crate::json::Json;
use crate::memory::{
    is_random_id, now_ms, random_id, MemoryId, MemoryItem, MemoryKind, Scored, ScopeKey,
    ScopeModel,
};
use crate::model::views;
use crate::query::{Query, QueryModel};
use crate::service::error::{ApiError, ApiIssue};
use crate::task::{
    checkpoint_item, checkpoint_of, law_checkpoint_reads_back, task_issue_text, task_tag,
    CheckpointModel, CheckpointRecord, TAG_TASK_PREFIX,
};
use crate::text::{blank, cat, is_blank};
use vstd::prelude::*;

verus! {

/// A request to store a checkpoint.
#[derive(Debug)]
pub struct CheckpointRequest {
    pub scope: ScopeKey,
    pub task_id: String,
    pub step: i64,
    pub scratchpad: Json,
    pub importance: Option<Float>,
}

/// The answer to such a request.
#[derive(Debug)]
pub struct CheckpointResponse {
    pub checkpoint_id: String,
    pub task_id: String,
    pub step: i64,
    pub created_at_ms: i64,
}

/// A request for the latest checkpoint of a task.
#[derive(Debug)]
pub struct ResumeRequest {
    pub scope: ScopeKey,
    pub task_id: String,
}

/// The answer to such a request.
#[derive(Debug)]
pub struct ResumeResponse {
    pub checkpoint_id: String,
    pub task_id: String,
    pub step: i64,
    pub scratchpad: Json,
    pub created_at_ms: i64,
}

/// What is wrong with a request about a task, if anything.
pub open spec fn task_request_fault(tenant_id: Seq<char>, task_id: Seq<char>) -> Option<ApiIssue> {
    if tenant_id.len() == 0 {
        Some(ApiIssue::BadRequest("scope.tenant_id is required"@))
    } else if blank(task_id) {
        Some(ApiIssue::BadRequest("task_id is required"@))
    } else {
        None
    }
}

fn check_task_request(tenant_id: &str, task_id: &str) -> (r: Result<(), ApiError>)
    ensures
        match r {
            Ok(_) => task_request_fault(tenant_id@, task_id@) is None,
            Err(e) => task_request_fault(tenant_id@, task_id@) == Some(e@),
        },
{
    if tenant_id.is_empty() {
        return Err(ApiError::BadRequest("scope.tenant_id is required".to_owned()));
    }
    if is_blank(task_id) {
        return Err(ApiError::BadRequest("task_id is required".to_owned()));
    }
    Ok(())
}

/// A checkpoint to store, and the answer once that is done.
#[derive(Debug)]
pub struct CheckpointPlan {
    pub item: MemoryItem,
    pub response: CheckpointResponse,
}

/// The checkpoint that a request describes. Its importance is brought into 0 to
/// 1, and is middling where it is not given.
pub open spec fn requested_checkpoint(req: CheckpointRequest, id: Seq<char>) -> CheckpointModel {
    CheckpointModel {
        id,
        scope: req.scope@,
        task_id: req.task_id@,
        step: req.step,
        scratchpad: req.scratchpad@,
        importance: match req.importance {
            Some(i) => i.unit(),
            None => Float(crate::float::HALF),
        },
    }
}

/// What comes of a checkpoint request.
pub open spec fn checkpointed(
    req: CheckpointRequest,
    id: Seq<char>,
    now_ms: i64,
    r: Result<CheckpointPlan, ApiError>,
) -> bool {
    match (r, task_request_fault(req.scope@.tenant_id, req.task_id@)) {
        (Ok(plan), None) => {
            &&& plan.item@ == checkpoint_item(requested_checkpoint(req, id), "agent"@, now_ms)
            &&& plan.response.checkpoint_id@ == id
            &&& plan.response.task_id@ == req.task_id@
            &&& plan.response.step == req.step
            &&& plan.response.created_at_ms == now_ms
        },
        (Err(e), Some(f)) => e@ == f,
        _ => false,
    }
}

/// Plans the checkpoint that a request describes, named `id` and made at
/// `now_ms`.
pub fn task_checkpoint_at(req: CheckpointRequest, id: String, now_ms: i64) -> (r: Result<
    CheckpointPlan,
    ApiError,
>)
    ensures
        checkpointed(req, id@, now_ms, r),
{
    match check_task_request(req.scope.tenant_id.as_str(), req.task_id.as_str()) {
        Ok(_) => {},
        Err(e) => return Err(e),
    }
    let mut record = CheckpointRecord::new(
        MemoryId(id.clone()),
        req.scope,
        req.task_id.clone(),
        req.step,
        req.scratchpad,
    );
    match req.importance {
        Some(i) => {
            record = record.with_importance(i);
        },
        None => {},
    }
    let item = record.into_memory_item_at("agent".to_owned(), now_ms);
    Ok(
        CheckpointPlan {
            item,
            response: CheckpointResponse {
                checkpoint_id: id,
                task_id: req.task_id,
                step: req.step,
                created_at_ms: now_ms,
            },
        },
    )
}

/// Plans the checkpoint that a request describes, with a random id, made now.
pub fn task_checkpoint(req: CheckpointRequest) -> (r: Result<CheckpointPlan, ApiError>)
    ensures
        exists|id: Seq<char>, now: i64| is_random_id(id) && #[trigger] checkpointed(req, id, now, r),
{
    let id = random_id();
    let now: i64 = now_ms();
    let ghost fresh = id@;
    let r = task_checkpoint_at(req, id, now);
    assert(checkpointed(req, fresh, now, r));
    r
}

/// The most checkpoints that resuming looks at.
pub const MAX_CHECKPOINTS: usize = 100;

/// The query for the checkpoints of a task.
pub open spec fn resume_query_of(scope: ScopeModel, task_id: Seq<char>) -> QueryModel {
    QueryModel {
        scope,
        text: Seq::empty(),
        kinds: Some(seq![MemoryKind::Checkpoint]),
        tags_any: Some(seq![TAG_TASK_PREFIX@ + task_id]),
        limit: MAX_CHECKPOINTS,
        since_ms: None,
        until_ms: None,
        cursor: None,
    }
}

/// Reads the query of a request to resume.
pub fn resume_query(req: &ResumeRequest) -> (r: Result<Query, ApiError>)
    ensures
        match (r, task_request_fault(req.scope@.tenant_id, req.task_id@)) {
            (Ok(q), None) => q@ == resume_query_of(req.scope@, req.task_id@),
            (Err(e), Some(f)) => e@ == f,
            _ => false,
        },
{
    match check_task_request(req.scope.tenant_id.as_str(), req.task_id.as_str()) {
        Ok(_) => {},
        Err(e) => return Err(e),
    }
    let mut kinds: Vec<MemoryKind> = Vec::new();
    kinds.push(MemoryKind::Checkpoint);
    assert(kinds@ =~= seq![MemoryKind::Checkpoint]);
    let mut tags: Vec<String> = Vec::new();
    tags.push(task_tag(req.task_id.as_str()));
    assert(views(tags@) =~= seq![TAG_TASK_PREFIX@ + req.task_id@]);
    Ok(
        Query {
            scope: req.scope.clone(),
            text: String::new(),
            kinds: Some(kinds),
            tags_any: Some(tags),
            limit: MAX_CHECKPOINTS,
            since_ms: None,
            until_ms: None,
            cursor: None,
        },
    )
}

/// The place of the latest hit; the last of those made at the same moment.
pub open spec fn latest(hits: Seq<Hit>) -> int
    decreases hits.len(),
{
    if hits.len() <= 1 {
        0
    } else {
        let before = latest(hits.drop_last());
        if hits[before].item.created_at_ms <= hits.last().item.created_at_ms {
            hits.len() - 1
        } else {
            before
        }
    }
}

/// The latest hit is no earlier than any, and later than all that come after
/// it: an important but older checkpoint does not hide a newer one.
pub proof fn law_latest_is_latest(hits: Seq<Hit>)
    requires
        hits.len() > 0,
    ensures
        0 <= latest(hits) < hits.len(),
        forall|i: int|
            0 <= i < hits.len() ==> (#[trigger] hits[i]).item.created_at_ms
                <= hits[latest(hits)].item.created_at_ms,
        forall|i: int|
            latest(hits) < i < hits.len() ==> (#[trigger] hits[i]).item.created_at_ms
                < hits[latest(hits)].item.created_at_ms,
    decreases hits.len(),
{
    if hits.len() > 1 {
        let front = hits.drop_last();
        law_latest_is_latest(front);
        assert(front[latest(front)] == hits[latest(front)]);
        assert forall|i: int| 0 <= i < hits.len() implies (#[trigger] hits[i]).item.created_at_ms
            <= hits[latest(hits)].item.created_at_ms by {
            if i < front.len() {
                assert(front[i] == hits[i]);
            }
        }
        assert forall|i: int| latest(hits) < i < hits.len() implies (
        #[trigger] hits[i]).item.created_at_ms < hits[latest(hits)].item.created_at_ms by {
            if i < front.len() {
                assert(front[i] == hits[i]);
            }
        }
    }
}

/// What comes of a request to resume, by the checkpoints that were found.
pub open spec fn resumed(hits: Seq<Hit>, r: Result<ResumeResponse, ApiError>) -> bool {
    if hits.len() == 0 {
        match r {
            Ok(_) => false,
            Err(e) => e@ == ApiIssue::NotFound,
        }
    } else {
        let item = hits[latest(hits)].item;
        match (r, checkpoint_of(item)) {
            (Ok(a), Ok(c)) => {
                &&& a.checkpoint_id@ == c.id
                &&& a.task_id@ == c.task_id
                &&& a.step == c.step
                &&& a.scratchpad@ == c.scratchpad
                &&& a.created_at_ms == item.created_at_ms
            },
            (Err(e), Err(f)) => e@ == ApiIssue::Internal(
                "malformed checkpoint: "@ + task_issue_text(f),
            ),
            _ => false,
        }
    }
}

/// Answers a request to resume with the latest of the checkpoints that were
/// found.
pub fn task_resume(results: &Vec<Scored<MemoryItem>>) -> (r: Result<ResumeResponse, ApiError>)
    ensures
        resumed(views(results@), r),
{
    if results.len() == 0 {
        return Err(ApiError::NotFound);
    }
    let ghost all = views(results@);
    let mut best: usize = 0;
    let mut i: usize = 1;
    while i < results.len()
        invariant
            1 <= i <= results@.len(),
            all == views(results@),
            best < i,
            best == latest(all.take(i as int)),
        decreases results@.len() - i,
    {
        proof {
            assert(all.take(i + 1).drop_last() =~= all.take(i as int));
            assert(all.take(i + 1).last() == results@[i as int]@);
            assert(all.take(i + 1)[best as int] == results@[best as int]@);
        }
        if results[best].item.created_at_ms <= results[i].item.created_at_ms {
            best = i;
        }
        i += 1;
    }
    assert(all.take(all.len() as int) =~= all);
    let item = &results[best].item;
    assert(all[best as int].item == item@);
    match CheckpointRecord::try_from_memory_item(item) {
        Ok(record) => Ok(
            ResumeResponse {
                checkpoint_id: record.id.0,
                task_id: record.task_id,
                step: record.step,
                scratchpad: record.scratchpad,
                created_at_ms: item.created_at_ms,
            },
        ),
        Err(e) => Err(
            ApiError::Internal(cat("malformed checkpoint: ", e.to_string().as_str())),
        ),
    }
}

/// A checkpoint is stored where a request to resume its task, in its scope, looks:
/// as a checkpoint, under the task's tag.
pub proof fn law_checkpoint_is_where_resume_looks(
    req: CheckpointRequest,
    id: Seq<char>,
    now_ms: i64,
    plan: CheckpointPlan,
)
    requires
        checkpointed(req, id, now_ms, Ok(plan)),
    ensures
        ({
            let q = resume_query_of(req.scope@, req.task_id@);
            &&& q.scope == plan.item@.scope
            &&& q.kinds == Some(seq![plan.item@.kind])
            &&& q.tags_any matches Some(tags) && tags.len() == 1 && plan.item@.tags.contains(
                tags[0],
            )
        }),
{
    let tag = TAG_TASK_PREFIX@ + req.task_id@;
    let tags = plan.item@.tags;
    assert(exists|i: int| 0 <= i < tags.len() && tags[i] == tag) by {
        assert(tags[0] == tag);
    }
}

/// To resume a task gives back what its latest checkpoint stored.
pub proof fn law_resume_gives_back_the_checkpoint(
    req: CheckpointRequest,
    id: Seq<char>,
    now_ms: i64,
    plan: CheckpointPlan,
    hits: Seq<Hit>,
    r: Result<ResumeResponse, ApiError>,
)
    requires
        checkpointed(req, id, now_ms, Ok(plan)),
        hits.len() > 0,
        hits[latest(hits)].item == plan.item@,
        resumed(hits, r),
    ensures
        r matches Ok(a) && {
            &&& a.checkpoint_id@ == id
            &&& a.task_id@ == req.task_id@
            &&& a.step == req.step
            &&& a.scratchpad@ == req.scratchpad@
            &&& a.created_at_ms == now_ms
        },
{
    law_checkpoint_reads_back(requested_checkpoint(req, id), "agent"@, now_ms);
}

/// A checkpoint holds what the request says: its scope, task, step and scratchpad,
/// and its importance, brought into 0 to 1; one half where none is given.
pub proof fn law_checkpoint_holds_the_request(req: CheckpointRequest, id: Seq<char>)
    ensures
        requested_checkpoint(req, id).id == id,
        requested_checkpoint(req, id).scope == req.scope@,
        requested_checkpoint(req, id).task_id == req.task_id@,
        requested_checkpoint(req, id).step == req.step,
        requested_checkpoint(req, id).scratchpad == req.scratchpad@,
        req.importance is None ==> requested_checkpoint(req, id).importance == Float(0x3f00_0000),
        req.importance matches Some(i) ==> {
            &&& Float(0).at_most(i) && i.at_most(Float(0x3f80_0000)) ==> requested_checkpoint(
                req,
                id,
            ).importance == i
            &&& i.below(Float(0)) ==> requested_checkpoint(req, id).importance == Float(0)
            &&& Float(0x3f80_0000).below(i) ==> requested_checkpoint(req, id).importance == Float(
                0x3f80_0000,
            )
        },
{
}

/// A request about a task is refused exactly where it names no tenant, or a task
/// that is blank.
pub proof fn law_task_requests_name_tenant_and_task(tenant_id: Seq<char>, task_id: Seq<char>)
    ensures
        task_request_fault(tenant_id, task_id) is None <==> tenant_id.len() > 0 && !blank(task_id),
{
}

/// To resume a task gives back the checkpoint that was made last, whatever the
/// scores of the others and wherever it stands among them.
pub proof fn law_resume_takes_the_newest(
    req: CheckpointRequest,
    id: Seq<char>,
    now_ms: i64,
    plan: CheckpointPlan,
    hits: Seq<Hit>,
    r: Result<ResumeResponse, ApiError>,
    k: int,
)
    requires
        checkpointed(req, id, now_ms, Ok(plan)),
        0 <= k < hits.len(),
        hits[k].item == plan.item@,
        forall|i: int|
            0 <= i < hits.len() && i != k ==> (#[trigger] hits[i]).item.created_at_ms < now_ms,
        resumed(hits, r),
    ensures
        r matches Ok(a) && {
            &&& a.checkpoint_id@ == id
            &&& a.task_id@ == req.task_id@
            &&& a.step == req.step
            &&& a.scratchpad@ == req.scratchpad@
            &&& a.created_at_ms == now_ms
        },
{
    law_latest_is_latest(hits);
    assert(hits[k].item.created_at_ms <= hits[latest(hits)].item.created_at_ms);
    if latest(hits) != k {
        assert(hits[latest(hits)].item.created_at_ms < now_ms);
    }
    law_resume_gives_back_the_checkpoint(req, id, now_ms, plan, hits, r);
}

/// What a task's checkpoints are looked up by: its scope, as it is, the kind of
/// checkpoints, and the tag of the task; nothing else narrows it.
pub proof fn law_resume_looks_for_the_task(scope: ScopeModel, task_id: Seq<char>)
    ensures
        resume_query_of(scope, task_id).scope == scope,
        resume_query_of(scope, task_id).kinds == Some(seq![MemoryKind::Checkpoint]),
        resume_query_of(scope, task_id).tags_any == Some(seq!["task:"@ + task_id]),
        resume_query_of(scope, task_id).text.len() == 0,
        resume_query_of(scope, task_id).since_ms is None,
        resume_query_of(scope, task_id).until_ms is None,
        resume_query_of(scope, task_id).cursor is None,
        resume_query_of(scope, task_id).limit >= 1,
{
}

} // verus!
