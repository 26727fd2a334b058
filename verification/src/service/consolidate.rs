//! Consolidation: folding the events of a time window into one summary.
use crate::context_pack::{content_text, read_content_text, Hit};
use crate::decimal::{decimal, i64_text, usize_text};
use crate::facts::{provenance_of, text_list_members, with_provenance, write_provenance_ids, MetaModel};
use crate::float::{Float, ONE, ZERO};
use crate::json::{Json, JsonMap, JsonTree};
use crate::memory::{
    is_random_id, now_ms, random_id, Content, ContentModel, ItemModel, MemoryId, MemoryItem,
    MemoryKind, Scored, ScopeKey, ScopeModel,
};
use crate::model::{copy_opt, opt, views};
use crate::query::{Query, QueryModel};
use crate::service::error::{ApiError, ApiIssue};
use crate::text::{first_chars, occurs, occurs_at, take_chars};
use vstd::prelude::*;

verus! {

/// A request to fold the events of a scope and a time window into a summary.
#[derive(Debug)]
pub struct ConsolidateRequest {
    pub tenant_id: String,
    pub workspace_id: Option<String>,
    pub project_id: Option<String>,
    pub agent_id: Option<String>,
    pub run_id: Option<String>,
    /// The first moment of the window.
    pub window_start_ms: i64,
    /// The last moment of the window.
    pub window_end_ms: i64,
    /// Less important events are left alone.
    pub importance_threshold: Float,
    /// Whether the events are deleted once they are folded.
    pub delete_sources: bool,
}

/// The answer to such a request.
#[derive(Debug)]
pub struct ConsolidateResponse {
    pub summaries: Vec<MemoryItem>,
    pub consolidated_count: usize,
    pub sources_deleted: bool,
}

/// What a consolidation asks of the store, and how it is answered once that is
/// done: first the summaries of the answer are stored, then the events are
/// deleted one by one.
#[derive(Debug)]
pub struct Consolidation {
    pub response: ConsolidateResponse,
    pub delete: Vec<MemoryId>,
}

/// The scope of a request.
pub open spec fn request_scope(req: ConsolidateRequest) -> ScopeModel {
    ScopeModel {
        tenant_id: req.tenant_id@,
        workspace_id: opt(req.workspace_id),
        project_id: opt(req.project_id),
        agent_id: opt(req.agent_id),
        run_id: opt(req.run_id),
    }
}

/// What is wrong with a request, if anything.
pub open spec fn request_fault(req: ConsolidateRequest) -> Option<ApiIssue> {
    if req.tenant_id@.len() == 0 {
        Some(ApiIssue::BadRequest("tenant_id is required"@))
    } else if req.window_end_ms < req.window_start_ms {
        Some(ApiIssue::BadRequest("window_end_ms must be >= window_start_ms"@))
    } else {
        None
    }
}

/// Checks a request.
pub fn check_consolidate(req: &ConsolidateRequest) -> (r: Result<(), ApiError>)
    ensures
        match r {
            Ok(_) => request_fault(*req) is None,
            Err(e) => request_fault(*req) == Some(e@),
        },
{
    if req.tenant_id.as_str().is_empty() {
        return Err(ApiError::BadRequest("tenant_id is required".to_owned()));
    }
    if req.window_end_ms < req.window_start_ms {
        return Err(
            ApiError::BadRequest("window_end_ms must be >= window_start_ms".to_owned()),
        );
    }
    Ok(())
}

fn read_request_scope(req: &ConsolidateRequest) -> (r: ScopeKey)
    ensures
        r@ == request_scope(*req),
{
    ScopeKey {
        tenant_id: req.tenant_id.clone(),
        workspace_id: copy_opt(&req.workspace_id),
        project_id: copy_opt(&req.project_id),
        agent_id: copy_opt(&req.agent_id),
        run_id: copy_opt(&req.run_id),
    }
}

/// How many events one consolidation considers.
pub const MAX_CANDIDATES: usize = 10_000;

/// The query for the events of the window.
pub fn consolidation_query(req: &ConsolidateRequest) -> (r: Query)
    ensures
        r@ == (QueryModel {
            scope: request_scope(*req),
            text: Seq::empty(),
            kinds: Some(seq![MemoryKind::Event]),
            tags_any: None,
            limit: MAX_CANDIDATES,
            since_ms: Some(req.window_start_ms),
            until_ms: Some(req.window_end_ms),
            cursor: None,
        }),
{
    let mut kinds: Vec<MemoryKind> = Vec::new();
    kinds.push(MemoryKind::Event);
    assert(kinds@ =~= seq![MemoryKind::Event]);
    Query {
        scope: read_request_scope(req),
        text: String::new(),
        kinds: Some(kinds),
        tags_any: None,
        limit: MAX_CANDIDATES,
        since_ms: Some(req.window_start_ms),
        until_ms: Some(req.window_end_ms),
        cursor: None,
    }
}

/// The items among `hits` that are at least as important as `threshold`, in
/// their order.
pub open spec fn important(hits: Seq<Hit>, threshold: Float) -> Seq<ItemModel>
    decreases hits.len(),
{
    if hits.len() == 0 {
        Seq::empty()
    } else if threshold.at_most(hits.last().item.importance) {
        important(hits.drop_last(), threshold).push(hits.last().item)
    } else {
        important(hits.drop_last(), threshold)
    }
}

/// How much of an event goes into the summary.
pub const SNIPPET_CHARS: usize = 120;

/// The beginnings of the items' texts, one after another with semicolons
/// between them.
pub open spec fn digest(items: Seq<ItemModel>) -> Seq<char>
    decreases items.len(),
{
    if items.len() == 0 {
        Seq::empty()
    } else {
        let before = digest(items.drop_last());
        let snippet = first_chars(content_text(items.last().content), SNIPPET_CHARS as nat);
        if before.len() == 0 {
            snippet
        } else {
            before + "; "@ + snippet
        }
    }
}

/// The text of a summary.
pub open spec fn summary_text(items: Seq<ItemModel>, start_ms: i64, end_ms: i64) -> Seq<char> {
    "Consolidated "@ + decimal(items.len() as int) + " event(s) in window ["@ + decimal(
        start_ms as int,
    ) + ", "@ + decimal(end_ms as int) + "]: "@ + digest(items)
}

/// The greatest importance among the items, and at least 0.
pub open spec fn max_importance(items: Seq<ItemModel>) -> Float
    decreases items.len(),
{
    if items.len() == 0 {
        Float(ZERO)
    } else {
        max_importance(items.drop_last()).greater(items.last().importance)
    }
}

/// The ids of items.
pub open spec fn ids_of(items: Seq<ItemModel>) -> Seq<Seq<char>> {
    items.map_values(|i: ItemModel| i.id)
}

/// The metadata of a summary: its window, and the events it is made of.
pub open spec fn summary_meta(items: Seq<ItemModel>, start_ms: i64, end_ms: i64) -> MetaModel {
    with_provenance(
        Map::<Seq<char>, JsonTree>::empty().insert(
            "window_start_ms"@,
            JsonTree::Int(start_ms as int),
        ).insert("window_end_ms"@, JsonTree::Int(end_ms as int)),
        ids_of(items),
    )
}

/// The summary of some events.
pub open spec fn summary_of(
    req: ConsolidateRequest,
    items: Seq<ItemModel>,
    id: Seq<char>,
    now_ms: i64,
) -> ItemModel {
    ItemModel {
        id,
        scope: request_scope(req),
        kind: MemoryKind::Summary,
        created_at_ms: now_ms,
        content: ContentModel::Text(
            summary_text(items, req.window_start_ms, req.window_end_ms),
        ),
        tags: seq!["consolidated"@],
        importance: max_importance(items),
        confidence: Float(ONE),
        source: "system"@,
        ttl_ms: None,
        meta: summary_meta(items, req.window_start_ms, req.window_end_ms),
        embedding: None,
        embedding_model: None,
    }
}

/// What comes of a request and the events found for it: nothing where none is
/// important enough, else one summary; and the events go if the request says so.
pub open spec fn consolidated(
    req: ConsolidateRequest,
    hits: Seq<Hit>,
    id: Seq<char>,
    now_ms: i64,
    r: Consolidation,
) -> bool {
    let items = important(hits, req.importance_threshold);
    if items.len() == 0 {
        &&& r.response.summaries@.len() == 0
        &&& r.response.consolidated_count == 0
        &&& !r.response.sources_deleted
        &&& r.delete@.len() == 0
    } else {
        &&& views(r.response.summaries@) == seq![summary_of(req, items, id, now_ms)]
        &&& r.response.consolidated_count == items.len()
        &&& r.response.sources_deleted == req.delete_sources
        &&& views(r.delete@) == if req.delete_sources {
            ids_of(items)
        } else {
            Seq::empty()
        }
    }
}

fn keep_important(hits: Vec<Scored<MemoryItem>>, threshold: Float) -> (r: Vec<MemoryItem>)
    ensures
        views(r@) == important(views(hits@), threshold),
{
    let ghost all = views(hits@);
    let mut out: Vec<MemoryItem> = Vec::new();
    assert(all.take(0) =~= Seq::<Hit>::empty());
    assert(views(out@) =~= Seq::<ItemModel>::empty());
    for hit in it: hits
        invariant
            it.seq() == hits@,
            all == views(hits@),
            views(out@) == important(all.take(it.index()), threshold),
    {
        let ghost i = it.index();
        let ghost before = views(out@);
        proof {
            assert(all[i] == hit@);
            assert(all.take(i + 1).drop_last() =~= all.take(i));
            assert(all.take(i + 1).last() == hit@);
        }
        if threshold.less_or_equal(hit.item.importance) {
            let ghost model = hit.item@;
            out.push(hit.item);
            assert(views(out@) =~= before.push(model));
        }
    }
    assert(all.take(all.len() as int) =~= all);
    out
}

fn make_digest(items: &Vec<MemoryItem>) -> (r: String)
    ensures
        r@ == digest(views(items@)),
{
    let ghost all = views(items@);
    let mut out = String::new();
    let mut i: usize = 0;
    assert(all.take(0) =~= Seq::<ItemModel>::empty());
    while i < items.len()
        invariant
            i <= items@.len(),
            all == views(items@),
            out@ == digest(all.take(i as int)),
        decreases items@.len() - i,
    {
        proof {
            assert(all[i as int] == items@[i as int]@);
            assert(all.take(i + 1).drop_last() =~= all.take(i as int));
            assert(all.take(i + 1).last() == items@[i as int]@);
        }
        let snippet = take_chars(read_content_text(&items[i].content).as_str(), SNIPPET_CHARS);
        if out.as_str().is_empty() {
            assert(out@ + snippet@ =~= snippet@);
        } else {
            out.push_str("; ");
        }
        out.push_str(snippet.as_str());
        i += 1;
    }
    assert(all.take(all.len() as int) =~= all);
    out
}

fn find_max_importance(items: &Vec<MemoryItem>) -> (r: Float)
    ensures
        r == max_importance(views(items@)),
{
    let ghost all = views(items@);
    let mut max = Float(ZERO);
    let mut i: usize = 0;
    assert(all.take(0) =~= Seq::<ItemModel>::empty());
    while i < items.len()
        invariant
            i <= items@.len(),
            all == views(items@),
            max == max_importance(all.take(i as int)),
        decreases items@.len() - i,
    {
        proof {
            assert(all[i as int] == items@[i as int]@);
            assert(all.take(i + 1).drop_last() =~= all.take(i as int));
            assert(all.take(i + 1).last() == items@[i as int]@);
        }
        max = max.max(items[i].importance);
        i += 1;
    }
    assert(all.take(all.len() as int) =~= all);
    max
}

fn item_ids(items: &Vec<MemoryItem>) -> (r: Vec<MemoryId>)
    ensures
        views(r@) == ids_of(views(items@)),
{
    let mut out: Vec<MemoryId> = Vec::new();
    let mut i: usize = 0;
    while i < items.len()
        invariant
            i <= items@.len(),
            out@.len() == i,
            forall|k: int| 0 <= k < i ==> (#[trigger] out@[k])@ == items@[k]@.id,
        decreases items@.len() - i,
    {
        out.push(items[i].id.clone());
        i += 1;
    }
    assert(views(out@) =~= ids_of(views(items@)));
    out
}

/// Folds the events found for a request into a summary named `id` and made at
/// `now_ms`.
pub fn consolidate_at(
    req: &ConsolidateRequest,
    hits: Vec<Scored<MemoryItem>>,
    id: String,
    now_ms: i64,
) -> (r: Consolidation)
    ensures
        consolidated(*req, views(hits@), id@, now_ms, r),
{
    let items = keep_important(hits, req.importance_threshold);
    let ghost models = views(items@);
    if items.len() == 0 {
        return Consolidation {
            response: ConsolidateResponse {
                summaries: Vec::new(),
                consolidated_count: 0,
                sources_deleted: false,
            },
            delete: Vec::new(),
        };
    }
    let mut text = "Consolidated ".to_owned();
    text.push_str(usize_text(items.len()).as_str());
    text.push_str(" event(s) in window [");
    text.push_str(i64_text(req.window_start_ms).as_str());
    text.push_str(", ");
    text.push_str(i64_text(req.window_end_ms).as_str());
    text.push_str("]: ");
    text.push_str(make_digest(&items).as_str());
    let ids = item_ids(&items);
    let mut meta = JsonMap::new();
    meta.insert("window_start_ms".to_owned(), Json::from_i64(req.window_start_ms));
    meta.insert("window_end_ms".to_owned(), Json::from_i64(req.window_end_ms));
    write_provenance_ids(&mut meta, &ids);
    let mut tags: Vec<String> = Vec::new();
    tags.push("consolidated".to_owned());
    assert(views(tags@) =~= seq!["consolidated"@]);
    let summary = MemoryItem {
        id: MemoryId(id),
        scope: read_request_scope(req),
        kind: MemoryKind::Summary,
        created_at_ms: now_ms,
        content: Content::Text(text),
        tags,
        importance: find_max_importance(&items),
        confidence: Float(ONE),
        source: "system".to_owned(),
        ttl_ms: None,
        meta,
        embedding: None,
        embedding_model: None,
    };
    let mut summaries: Vec<MemoryItem> = Vec::new();
    let ghost model = summary@;
    summaries.push(summary);
    assert(views(summaries@) =~= seq![model]);
    let delete: Vec<MemoryId> = if req.delete_sources {
        ids
    } else {
        Vec::new()
    };
    proof {
        if !req.delete_sources {
            assert(views(delete@) =~= Seq::<Seq<char>>::empty());
        }
    }
    Consolidation {
        response: ConsolidateResponse {
            summaries,
            consolidated_count: items.len(),
            sources_deleted: req.delete_sources,
        },
        delete,
    }
}

/// Folds the events found for a request into a summary with a random id, made
/// now.
pub fn run_consolidation(req: &ConsolidateRequest, hits: Vec<Scored<MemoryItem>>) -> (r:
    Consolidation)
    ensures
        exists|id: Seq<char>, now: i64|
            is_random_id(id) && #[trigger] consolidated(*req, views(hits@), id, now, r),
{
    let id = random_id();
    let now: i64 = now_ms();
    let ghost fresh = id@;
    let r = consolidate_at(req, hits, id, now);
    assert(consolidated(*req, views(hits@), fresh, now, r));
    r
}

/// A summary names exactly the events it is made of, in their order.
pub proof fn law_summary_names_its_events(
    req: ConsolidateRequest,
    items: Seq<ItemModel>,
    id: Seq<char>,
    now_ms: i64,
)
    ensures
        provenance_of(summary_of(req, items, id, now_ms).meta) == ids_of(items),
{
    text_list_members(ids_of(items));
}

/// A summary is as important as the most important of its events. What is not a
/// number counts for nothing.
pub proof fn law_summary_is_as_important(items: Seq<ItemModel>)
    ensures
        !max_importance(items).is_nan(),
        Float(ZERO).at_most(max_importance(items)),
        forall|i: int|
            0 <= i < items.len() && !(#[trigger] items[i]).importance.is_nan()
                ==> items[i].importance.at_most(max_importance(items)),
        max_importance(items) == Float(ZERO) || exists|i: int|
            0 <= i < items.len() && (#[trigger] items[i]).importance == max_importance(items),
    decreases items.len(),
{
    if items.len() > 0 {
        let front = items.drop_last();
        law_summary_is_as_important(front);
        assert forall|i: int|
            0 <= i < items.len() && !(
            #[trigger] items[i]).importance.is_nan() implies items[i].importance.at_most(
            max_importance(items),
        ) by {
            if i < front.len() {
                assert(front[i] == items[i]);
            }
        }
        if max_importance(items) != Float(ZERO) {
            if max_importance(items) == items.last().importance {
                assert(items[items.len() - 1].importance == max_importance(items));
            } else {
                let i = choose|i: int|
                    0 <= i < front.len() && (#[trigger] front[i]).importance == max_importance(
                        front,
                    );
                assert(items[i] == front[i]);
            }
        }
    }
}

/// What is folded is every hit that is at least as important as the threshold, in
/// their order, and no other.
pub proof fn law_important_events_are_folded(hits: Seq<Hit>, threshold: Float) -> (places: Seq<int>)
    ensures
        important(hits, threshold).len() == places.len(),
        forall|a: int, b: int|
            0 <= a < b < places.len() ==> #[trigger] places[a] < #[trigger] places[b],
        forall|a: int|
            0 <= a < places.len() ==> 0 <= #[trigger] places[a] < hits.len() && important(
                hits,
                threshold,
            )[a] == hits[places[a]].item && threshold.at_most(hits[places[a]].item.importance),
        forall|k: int|
            0 <= k < hits.len() && threshold.at_most((#[trigger] hits[k]).item.importance)
                ==> places.contains(k),
    decreases hits.len(),
{
    if hits.len() == 0 {
        Seq::empty()
    } else {
        let front = hits.drop_last();
        let before = law_important_events_are_folded(front, threshold);
        let places = if threshold.at_most(hits.last().item.importance) {
            before.push(hits.len() - 1)
        } else {
            before
        };
        assert forall|k: int|
            0 <= k < hits.len() && threshold.at_most(
                (#[trigger] hits[k]).item.importance,
            ) implies places.contains(k) by {
            if k < front.len() {
                assert(front[k] == hits[k]);
                let a = before.index_of(k);
                assert(places[a] == k);
            } else {
                assert(places[before.len() as int] == k);
            }
        }
        places
    }
}

/// How many characters of an event's text a summary tells: all of them, up to 120.
pub open spec fn told(item: ItemModel) -> int {
    if content_text(item.content).len() <= 120 {
        content_text(item.content).len() as int
    } else {
        120
    }
}

/// A digest tells every event: the first characters of each event's text, up to
/// 120, stand in the digest one after another.
pub proof fn law_digest_tells_every_event(items: Seq<ItemModel>) -> (starts: Seq<int>)
    ensures
        starts.len() == items.len(),
        forall|i: int|
            0 <= i < items.len() ==> 0 <= #[trigger] starts[i] && starts[i] + told(items[i])
                <= digest(items).len() && digest(items).subrange(
                starts[i],
                starts[i] + told(items[i]),
            ) == content_text(items[i].content).subrange(0, told(items[i])),
        forall|i: int, j: int|
            0 <= i < j < items.len() ==> #[trigger] starts[i] + told(items[i])
                <= #[trigger] starts[j],
    decreases items.len(),
{
    if items.len() == 0 {
        Seq::empty()
    } else {
        let front = items.drop_last();
        let before = law_digest_tells_every_event(front);
        let so_far = digest(front);
        let all = digest(items);
        let text = content_text(items.last().content);
        let n = told(items.last());
        let start = digest_grows(items);
        let starts = before.push(start);
        assert forall|i: int| 0 <= i < items.len() implies 0 <= #[trigger] starts[i] && starts[i]
            + told(items[i]) <= all.len() && all.subrange(starts[i], starts[i] + told(items[i]))
            == content_text(items[i].content).subrange(0, told(items[i])) by {
            if i < front.len() {
                assert(front[i] == items[i]);
                assert(starts[i] == before[i]);
                same_inside(so_far, all, starts[i], starts[i] + told(items[i]));
            }
        }
        assert forall|i: int, j: int| 0 <= i < j < items.len() implies #[trigger] starts[i] + told(
            items[i],
        ) <= #[trigger] starts[j] by {
            assert(front[i] == items[i]);
            assert(starts[i] == before[i]);
            if j < front.len() {
                assert(starts[j] == before[j]);
            }
        }
        starts
    }
}

proof fn same_inside(short: Seq<char>, long: Seq<char>, from: int, to: int)
    requires
        0 <= from <= to <= short.len() <= long.len(),
        long.subrange(0, short.len() as int) == short,
    ensures
        long.subrange(from, to) == short.subrange(from, to),
{
    assert forall|i: int| 0 <= i < to - from implies long.subrange(from, to)[i] == short.subrange(
        from,
        to,
    )[i] by {
        assert(long.subrange(0, short.len() as int)[from + i] == short[from + i]);
    }
    assert(long.subrange(from, to) =~= short.subrange(from, to));
}

/// One more event leaves the digest of the others in front, and adds its own text
/// behind.
proof fn digest_grows(items: Seq<ItemModel>) -> (start: int)
    requires
        items.len() > 0,
    ensures
        digest(items.drop_last()).len() <= start,
        start + told(items.last()) == digest(items).len(),
        digest(items).subrange(0, digest(items.drop_last()).len() as int) == digest(
            items.drop_last(),
        ),
        digest(items).subrange(start, start + told(items.last())) == content_text(
            items.last().content,
        ).subrange(0, told(items.last())),
        start == if digest(items.drop_last()).len() == 0 {
            0
        } else {
            digest(items.drop_last()).len() + 2
        },
        digest(items.drop_last()).len() > 0 ==> digest(items).subrange(start - 2, start) == seq![
            ';',
            ' ',
        ],
{
    reveal_strlit("; ");
    assert("; "@ =~= seq![';', ' ']);
    let so_far = digest(items.drop_last());
    let all = digest(items);
    let text = content_text(items.last().content);
    let snippet = first_chars(text, 120);
    assert(text.subrange(0, told(items.last())) =~= snippet);
    if so_far.len() == 0 {
        assert(all =~= snippet);
        assert(all.subrange(0, 0) =~= so_far);
        assert(all.subrange(0, told(items.last())) =~= snippet);
        0
    } else {
        let start = so_far.len() as int + 2;
        assert(all == so_far + "; "@ + snippet);
        assert(all.subrange(0, so_far.len() as int) =~= so_far);
        assert(all.subrange(start, start + told(items.last())) =~= snippet);
        assert(all.subrange(start - 2, start) =~= "; "@);
        start
    }
}

/// Where no text is empty, a digest is made of what it tells of each event, with a
/// semicolon and a space between neighbours, and of nothing else.
pub proof fn law_digest_tells_nothing_else(items: Seq<ItemModel>) -> (starts: Seq<int>)
    requires
        forall|i: int| 0 <= i < items.len() ==> content_text((#[trigger] items[i]).content).len() > 0,
    ensures
        starts.len() == items.len(),
        items.len() > 0 ==> starts[0] == 0 && digest(items).len() == starts.last() + told(
            items.last(),
        ),
        forall|i: int|
            1 <= i < items.len() ==> #[trigger] starts[i] == starts[i - 1] + told(items[i - 1]) + 2
                && starts[i] <= digest(items).len() && digest(items).subrange(
                starts[i] - 2,
                starts[i],
            ) == seq![';', ' '],
        items.len() == 0 ==> digest(items).len() == 0,
    decreases items.len(),
{
    if items.len() == 0 {
        Seq::empty()
    } else {
        let front = items.drop_last();
        assert forall|i: int| 0 <= i < front.len() implies content_text(
            (#[trigger] front[i]).content,
        ).len() > 0 by {
            assert(front[i] == items[i]);
        }
        let before = law_digest_tells_nothing_else(front);
        let so_far = digest(front);
        let all = digest(items);
        let start = digest_grows(items);
        let starts = before.push(start);
        if front.len() > 0 {
            assert(content_text(front[front.len() - 1].content).len() > 0);
            if front.len() > 1 {
                assert(before[front.len() - 1] == before[front.len() - 2] + told(
                    front[front.len() - 2],
                ) + 2);
                starts_are_inside(front, before, front.len() - 1);
            }
        }
        assert forall|i: int| 1 <= i < items.len() implies #[trigger] starts[i] == starts[i - 1]
            + told(items[i - 1]) + 2 && starts[i] <= all.len() && all.subrange(
            starts[i] - 2,
            starts[i],
        ) == seq![';', ' '] by {
            assert(front[i - 1] == items[i - 1]);
            assert(starts[i - 1] == before[i - 1]);
            starts_are_inside(front, before, i - 1);
            if i < front.len() {
                assert(starts[i] == before[i]);
                same_inside(so_far, all, starts[i] - 2, starts[i]);
            }
        }
        starts
    }
}

proof fn starts_are_inside(items: Seq<ItemModel>, starts: Seq<int>, i: int)
    requires
        starts.len() == items.len(),
        0 <= i < items.len(),
        starts[0] == 0,
        forall|i: int|
            1 <= i < items.len() ==> #[trigger] starts[i] == starts[i - 1] + told(items[i - 1]) + 2,
    ensures
        0 <= starts[i],
    decreases i,
{
    if i > 0 {
        starts_are_inside(items, starts, i - 1);
        assert(starts[i] == starts[i - 1] + told(items[i - 1]) + 2);
    }
}

/// A summary says how many events it folds and of which window, and tells the
/// first 120 characters of every event's text, or all of it. It belongs to the scope
/// that was asked for.
pub proof fn law_summary_tells_every_event(
    req: ConsolidateRequest,
    items: Seq<ItemModel>,
    id: Seq<char>,
    now_ms: i64,
    i: int,
)
    requires
        0 <= i < items.len(),
    ensures
        summary_of(req, items, id, now_ms).content matches ContentModel::Text(text) && {
            &&& occurs(
                text,
                if content_text(items[i].content).len() <= 120 {
                    content_text(items[i].content)
                } else {
                    content_text(items[i].content).take(120)
                },
            )
            &&& ("Consolidated "@ + decimal(items.len() as int) + " event(s) in window ["@
                + decimal(req.window_start_ms as int) + ", "@ + decimal(req.window_end_ms as int)
                + "]: "@).is_prefix_of(text)
        },
        summary_of(req, items, id, now_ms).kind == MemoryKind::Summary,
        summary_of(req, items, id, now_ms).id == id,
        summary_of(req, items, id, now_ms).created_at_ms == now_ms,
        summary_of(req, items, id, now_ms).scope.tenant_id == req.tenant_id@,
        summary_of(req, items, id, now_ms).scope.workspace_id == opt(req.workspace_id),
        summary_of(req, items, id, now_ms).scope.project_id == opt(req.project_id),
        summary_of(req, items, id, now_ms).scope.agent_id == opt(req.agent_id),
        summary_of(req, items, id, now_ms).scope.run_id == opt(req.run_id),
{
    let starts = law_digest_tells_every_event(items);
    let head = "Consolidated "@ + decimal(items.len() as int) + " event(s) in window ["@ + decimal(
        req.window_start_ms as int,
    ) + ", "@ + decimal(req.window_end_ms as int) + "]: "@;
    let all = digest(items);
    let text = content_text(items[i].content);
    let snippet = if text.len() <= 120 {
        text
    } else {
        text.take(120)
    };
    assert(text.subrange(0, told(items[i])) =~= snippet);
    assert(0 <= starts[i]);
    found_behind(head, all, snippet, starts[i]);
}

proof fn found_behind(head: Seq<char>, all: Seq<char>, part: Seq<char>, at: int)
    requires
        0 <= at,
        at + part.len() <= all.len(),
        all.subrange(at, at + part.len()) == part,
    ensures
        occurs(head + all, part),
        head.is_prefix_of(head + all),
{
    let whole = head + all;
    assert(whole.subrange(head.len() + at, head.len() + at + part.len()) =~= all.subrange(
        at,
        at + part.len(),
    ));
    assert(occurs_at(whole, part, head.len() + at));
    assert(whole.subrange(0, head.len() as int) =~= head);
}

/// A consolidation deletes the events that it folded, every one and no other, and
/// only where it was asked to; it makes one summary, of all that was folded, unless
/// nothing was important enough, and answers how many events that were.
pub proof fn law_consolidation_deletes_what_it_folded(
    req: ConsolidateRequest,
    hits: Seq<Hit>,
    id: Seq<char>,
    now_ms: i64,
    r: Consolidation,
) -> (places: Seq<int>)
    requires
        consolidated(req, hits, id, now_ms, r),
    ensures
        forall|a: int, b: int|
            0 <= a < b < places.len() ==> #[trigger] places[a] < #[trigger] places[b],
        forall|k: int|
            0 <= k < hits.len() && req.importance_threshold.at_most(
                (#[trigger] hits[k]).item.importance,
            ) ==> places.contains(k),
        forall|a: int|
            0 <= a < places.len() ==> 0 <= #[trigger] places[a] < hits.len()
                && req.importance_threshold.at_most(hits[places[a]].item.importance),
        r.response.consolidated_count == places.len(),
        r.response.summaries@.len() == if places.len() == 0 {
            0int
        } else {
            1
        },
        places.len() > 0 ==> provenance_of(r.response.summaries@[0]@.meta).len() == places.len(),
        forall|a: int|
            0 <= a < places.len() ==> provenance_of(r.response.summaries@[0]@.meta)[a]
                == hits[#[trigger] places[a]].item.id,
        r.response.sources_deleted == (req.delete_sources && places.len() > 0),
        !req.delete_sources ==> r.delete@.len() == 0,
        req.delete_sources ==> r.delete@.len() == places.len(),
        req.delete_sources ==> forall|a: int|
            0 <= a < places.len() ==> r.delete@[a]@ == hits[#[trigger] places[a]].item.id,
{
    let places = law_important_events_are_folded(hits, req.importance_threshold);
    let items = important(hits, req.importance_threshold);
    if items.len() > 0 {
        law_summary_names_its_events(req, items, id, now_ms);
        let summaries = views(r.response.summaries@);
        assert(summaries.len() == 1);
        assert(summaries[0] == summary_of(req, items, id, now_ms));
        assert(r.response.summaries@[0]@ == summaries[0]);
        if req.delete_sources {
            assert forall|a: int| 0 <= a < places.len() implies r.delete@[a]@
                == hits[#[trigger] places[a]].item.id by {
                assert(views(r.delete@)[a] == ids_of(items)[a]);
            }
        } else {
            assert(views(r.delete@).len() == 0);
        }
    }
    places
}

/// A consolidation is refused exactly where it names no tenant, or a window that ends
/// before it starts.
pub proof fn law_consolidations_name_tenant_and_window(req: ConsolidateRequest)
    ensures
        request_fault(req) is None <==> req.tenant_id@.len() > 0 && req.window_start_ms
            <= req.window_end_ms,
{
}

/// A summary notes its window in its metadata, is tagged as consolidated, comes from
/// the system and is sure.
pub proof fn law_summary_notes_its_window(
    req: ConsolidateRequest,
    items: Seq<ItemModel>,
    id: Seq<char>,
    now_ms: i64,
)
    ensures
        ({
            let summary = summary_of(req, items, id, now_ms);
            &&& summary.meta.contains_key("window_start_ms"@) && summary.meta["window_start_ms"@]
                == JsonTree::Int(req.window_start_ms as int)
            &&& summary.meta.contains_key("window_end_ms"@) && summary.meta["window_end_ms"@]
                == JsonTree::Int(req.window_end_ms as int)
            &&& summary.tags == seq!["consolidated"@]
            &&& summary.source == "system"@
            &&& summary.confidence == Float(0x3f80_0000)
            &&& summary.ttl_ms is None && summary.embedding is None
            &&& summary.importance == max_importance(items)
        }),
{
    reveal_strlit("window_start_ms");
    reveal_strlit("window_end_ms");
    reveal_strlit("provenance_ids");
    assert("window_start_ms"@.len() == 15 && "window_end_ms"@.len() == 13 && "provenance_ids"@.len()
        == 14);
}

} // verus!
