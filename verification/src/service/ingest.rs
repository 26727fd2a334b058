//! Ingestion from outside sources: requests for it, and the record of how each
//! source fared.
use crate::decimal::{decimal, usize_text};
use crate::memory::{ScopeKey, ScopeModel};
use crate::model::{copy_opt, opt, views};
use crate::order::{is_below, text_below, text_order_total, text_order_transitive};
use crate::service::error::{answer_of, ApiError, ApiIssue};
use crate::text::{ascii_lower, blank, cat, cat3, is_blank, same_text, to_chars};
use vstd::prelude::*;

verus! {

/// A request to ingest into a scope.
#[derive(Debug)]
pub struct IngestionRequest {
    pub tenant_id: String,
    pub workspace_id: Option<String>,
    pub project_id: Option<String>,
    pub agent_id: Option<String>,
    pub run_id: Option<String>,
}

/// How the ingestion from one source went.
#[derive(Debug)]
pub struct IngestionResponse {
    pub source: String,
    pub count: usize,
    pub message: String,
}

/// The scope that a request names.
pub open spec fn ingestion_scope(req: IngestionRequest) -> ScopeModel {
    ScopeModel {
        tenant_id: req.tenant_id@,
        workspace_id: opt(req.workspace_id),
        project_id: opt(req.project_id),
        agent_id: opt(req.agent_id),
        run_id: opt(req.run_id),
    }
}

/// The scope that a request names.
pub fn scope_from_request(req: &IngestionRequest) -> (r: ScopeKey)
    ensures
        r@ == ingestion_scope(*req),
{
    ScopeKey {
        tenant_id: req.tenant_id.clone(),
        workspace_id: copy_opt(&req.workspace_id),
        project_id: copy_opt(&req.project_id),
        agent_id: copy_opt(&req.agent_id),
        run_id: copy_opt(&req.run_id),
    }
}

/// Checks a request: it must name a tenant.
pub fn check_ingestion(req: &IngestionRequest) -> (r: Result<ScopeKey, ApiError>)
    ensures
        match r {
            Ok(scope) => !blank(req.tenant_id@) && scope@ == ingestion_scope(*req),
            Err(e) => blank(req.tenant_id@) && e@ == ApiIssue::BadRequest(
                "tenant_id is required and must be non-empty"@,
            ),
        },
{
    if is_blank(req.tenant_id.as_str()) {
        Err(ApiError::BadRequest("tenant_id is required and must be non-empty".to_owned()))
    } else {
        Ok(scope_from_request(req))
    }
}

/// The answer for a source from which `count` memories came.
pub fn ingested_response(source: &str, count: usize, tenant_id: &str) -> (r: IngestionResponse)
    ensures
        r.source@ == source@,
        r.count == count,
        r.message@ == "Ingested "@ + decimal(count as int) + " memories from "@ + source@
            + " (scope: "@ + tenant_id@ + ")"@,
{
    let mut message = cat3("Ingested ", usize_text(count).as_str(), " memories from ");
    message.push_str(source);
    message.push_str(" (scope: ");
    message.push_str(tenant_id);
    message.push_str(")");
    IngestionResponse { source: source.to_owned(), count, message }
}

/// The answer for a source that failed. What went wrong inside stays inside.
pub fn failed_response(source: &str, error: &ApiError) -> (r: IngestionResponse)
    ensures
        r.source@ == source@,
        r.count == 0,
        r.message@ == "Ingestion failed: "@ + answer_of(error@),
{
    IngestionResponse {
        source: source.to_owned(),
        count: 0,
        message: cat("Ingestion failed: ", error.answer().as_str()),
    }
}

/// How the last poll of a source went.
#[derive(Debug)]
pub struct SourcePollStatus {
    pub source: String,
    pub last_poll_at_ms: Option<i64>,
    pub last_count: usize,
    pub last_error: Option<String>,
}

/// The model of that status.
pub struct PollModel {
    pub source: Seq<char>,
    pub last_poll_at_ms: Option<i64>,
    pub last_count: usize,
    pub last_error: Option<Seq<char>>,
}

impl View for SourcePollStatus {
    type V = PollModel;

    open spec fn view(&self) -> PollModel {
        PollModel {
            source: self.source@,
            last_poll_at_ms: self.last_poll_at_ms,
            last_count: self.last_count,
            last_error: opt(self.last_error),
        }
    }
}

impl Clone for SourcePollStatus {
    fn clone(&self) -> (r: SourcePollStatus)
        ensures
            r@ == self@,
    {
        SourcePollStatus {
            source: self.source.clone(),
            last_poll_at_ms: self.last_poll_at_ms,
            last_count: self.last_count,
            last_error: copy_opt(&self.last_error),
        }
    }
}

/// How the sources fared when they were last polled: one status for each, in the
/// order of their names.
#[derive(Debug)]
pub struct IngestionPollTracker {
    last_poll_at_ms: Option<i64>,
    sources: Vec<SourcePollStatus>,
}

/// Statuses in the order of their sources, no source twice.
pub open spec fn sources_in_order(v: Seq<PollModel>) -> bool {
    forall|i: int, j: int|
        0 <= i < j < v.len() ==> text_below((#[trigger] v[i]).source, (#[trigger] v[j]).source)
}

/// `after` is `before` with `new` in place of what there was of its source.
pub open spec fn recorded(
    after: Seq<PollModel>,
    before: Seq<PollModel>,
    new: PollModel,
) -> bool {
    &&& sources_in_order(after)
    &&& forall|x: PollModel| #[trigger]
        after.contains(x) <==> x == new || (x.source != new.source && before.contains(x))
}

impl IngestionPollTracker {
    #[verifier::type_invariant]
    spec fn in_order(self) -> bool {
        sources_in_order(views(self.sources@))
    }

    /// The time of the last poll of any source.
    pub closed spec fn last_poll(&self) -> Option<i64> {
        self.last_poll_at_ms
    }

    /// The statuses of the sources that were polled.
    pub closed spec fn statuses(&self) -> Seq<PollModel> {
        views(self.sources@)
    }

    /// Nothing polled yet.
    pub fn new() -> (r: IngestionPollTracker)
        ensures
            r.last_poll() is None,
            r.statuses() == Seq::<PollModel>::empty(),
    {
        let r = IngestionPollTracker { last_poll_at_ms: None, sources: Vec::new() };
        assert(views(r.sources@) =~= Seq::<PollModel>::empty());
        r
    }

    fn record(&mut self, status: SourcePollStatus, at_ms: i64)
        ensures
            final(self).last_poll() == Some(at_ms),
            recorded(final(self).statuses(), old(self).statuses(), status@),
    {
        proof {
            use_type_invariant(&*self);
        }
        let mut sources: Vec<SourcePollStatus> = Vec::new();
        std::mem::swap(&mut sources, &mut self.sources);
        let ghost before = views(sources@);
        let ghost new = status@;
        let mut i: usize = 0;
        while i < sources.len() && is_below(
            sources[i].source.as_str(),
            status.source.as_str(),
        )
            invariant
                i <= sources@.len(),
                before == views(sources@),
                new == status@,
                forall|k: int|
                    0 <= k < i ==> text_below((#[trigger] before[k]).source, new.source),
            decreases sources@.len() - i,
        {
            assert(before[i as int] == sources@[i as int]@);
            i += 1;
        }
        proof {
            if i < sources@.len() {
                assert(before[i as int] == sources@[i as int]@);
            }
        }
        if i < sources.len() && same_text(sources[i].source.as_str(), status.source.as_str()) {
            sources.set(i, status);
            proof {
                replaced_in_order(before, i as int, new);
                assert(views(sources@) =~= before.update(i as int, new));
            }
        } else {
            sources.insert(i, status);
            proof {
                if i < before.len() {
                    text_order_total(before[i as int].source, new.source);
                }
                inserted_in_order(before, i as int, new);
                assert(views(sources@) =~= before.insert(i as int, new));
            }
        }
        self.sources = sources;
        self.last_poll_at_ms = Some(at_ms);
    }

    /// Notes that `count` memories came from `source`.
    pub fn record_success(&mut self, source: &str, count: usize, at_ms: i64)
        ensures
            final(self).last_poll() == Some(at_ms),
            recorded(
                final(self).statuses(),
                old(self).statuses(),
                (PollModel {
                    source: source@,
                    last_poll_at_ms: Some(at_ms),
                    last_count: count,
                    last_error: None,
                }),
            ),
    {
        self.record(
            SourcePollStatus {
                source: source.to_owned(),
                last_poll_at_ms: Some(at_ms),
                last_count: count,
                last_error: None,
            },
            at_ms,
        );
    }

    /// Notes that `source` failed. What went wrong inside stays inside.
    pub fn record_error(&mut self, source: &str, error: &ApiError, at_ms: i64)
        ensures
            final(self).last_poll() == Some(at_ms),
            recorded(
                final(self).statuses(),
                old(self).statuses(),
                (PollModel {
                    source: source@,
                    last_poll_at_ms: Some(at_ms),
                    last_count: 0,
                    last_error: Some(answer_of(error@)),
                }),
            ),
    {
        self.record(
            SourcePollStatus {
                source: source.to_owned(),
                last_poll_at_ms: Some(at_ms),
                last_count: 0,
                last_error: Some(error.answer()),
            },
            at_ms,
        );
    }

    /// The answer to a request for the state of ingestion.
    pub fn status(&self, sources: usize, poll_interval_secs: u64) -> (r: IngestionStatus)
        ensures
            r.sources == sources,
            r.poll_interval_secs == poll_interval_secs,
            r.last_poll_at_ms == self.last_poll(),
            views(r.source_status@) == self.statuses(),
            sources_in_order(views(r.source_status@)),
    {
        proof {
            use_type_invariant(self);
        }
        let mut source_status: Vec<SourcePollStatus> = Vec::new();
        let mut i: usize = 0;
        while i < self.sources.len()
            invariant
                i <= self.sources@.len(),
                source_status@.len() == i,
                forall|k: int|
                    0 <= k < i ==> (#[trigger] source_status@[k])@ == self.sources@[k]@,
            decreases self.sources@.len() - i,
        {
            source_status.push(self.sources[i].clone());
            i += 1;
        }
        assert(views(source_status@) =~= self.statuses());
        IngestionStatus {
            sources,
            poll_interval_secs,
            last_poll_at_ms: self.last_poll_at_ms,
            source_status,
        }
    }
}

proof fn replaced_in_order(before: Seq<PollModel>, at: int, new: PollModel)
    requires
        sources_in_order(before),
        0 <= at < before.len(),
        before[at].source == new.source,
    ensures
        recorded(before.update(at, new), before, new),
{
    let after = before.update(at, new);
    assert forall|i: int, j: int| 0 <= i < j < after.len() implies text_below(
        (#[trigger] after[i]).source,
        (#[trigger] after[j]).source,
    ) by {
        assert(text_below(before[i].source, before[j].source));
    }
    assert forall|x: PollModel| #[trigger]
        after.contains(x) <==> x == new || (x.source != new.source && before.contains(x)) by {
        if after.contains(x) && x != new {
            let k = after.index_of(x);
            assert(before[k] == x);
            if k < at {
                assert(text_below(before[k].source, before[at].source));
            } else {
                assert(text_below(before[at].source, before[k].source));
            }
            text_order_total(before[k].source, before[at].source);
            text_order_total(before[at].source, before[k].source);
        }
        if x == new {
            assert(after[at] == x);
        }
        if x.source != new.source && before.contains(x) {
            let k = before.index_of(x);
            assert(after[k] == x);
        }
    }
}

proof fn inserted_in_order(before: Seq<PollModel>, at: int, new: PollModel)
    requires
        sources_in_order(before),
        0 <= at <= before.len(),
        forall|k: int| 0 <= k < at ==> text_below((#[trigger] before[k]).source, new.source),
        at < before.len() ==> text_below(new.source, before[at].source),
    ensures
        recorded(before.insert(at, new), before, new),
{
    let after = before.insert(at, new);
    assert forall|k: int| at <= k < before.len() implies text_below(
        new.source,
        (#[trigger] before[k]).source,
    ) by {
        if k > at {
            assert(text_below(before[at].source, before[k].source));
            text_order_transitive(new.source, before[at].source, before[k].source);
        }
    }
    assert forall|i: int, j: int| 0 <= i < j < after.len() implies text_below(
        (#[trigger] after[i]).source,
        (#[trigger] after[j]).source,
    ) by {
        if i < at && j > at {
            assert(text_below(before[i].source, before[j - 1].source));
        } else if i < at && j < at {
            assert(text_below(before[i].source, before[j].source));
        } else if i > at {
            assert(text_below(before[i - 1].source, before[j - 1].source));
        } else if i == at {
            assert(after[j] == before[j - 1]);
        } else {
            assert(after[i] == before[i]);
        }
    }
    assert forall|x: PollModel| #[trigger]
        after.contains(x) <==> x == new || (x.source != new.source && before.contains(x)) by {
        if after.contains(x) && x != new {
            let k = after.index_of(x);
            if k < at {
                assert(before[k] == x);
                text_order_total(before[k].source, new.source);
            } else {
                assert(before[k - 1] == x);
                text_order_total(new.source, before[k - 1].source);
            }
        }
        if x == new {
            assert(after[at] == x);
        }
        if x.source != new.source && before.contains(x) {
            let k = before.index_of(x);
            if k < at {
                assert(after[k] == x);
            } else {
                assert(after[k + 1] == x);
            }
        }
    }
}

/// The state of ingestion.
#[derive(Debug)]
pub struct IngestionStatus {
    pub sources: usize,
    pub poll_interval_secs: u64,
    pub last_poll_at_ms: Option<i64>,
    pub source_status: Vec<SourcePollStatus>,
}

/// The environment variable that holds the address of a source.
pub open spec fn endpoint_variable_of(source_name: Seq<char>) -> Option<Seq<char>> {
    if source_name == "oxidizedrag"@ {
        Some("OXIDIZEDRAG_URL"@)
    } else if source_name == "oxidizedgraph"@ {
        Some("OXIDIZEDGRAPH_URL"@)
    } else if source_name == "datafabric"@ {
        Some("DATAFABRIC_URL"@)
    } else {
        None
    }
}

/// The environment variable that holds the address of a source.
pub fn endpoint_variable(source_name: &str) -> (r: Option<&'static str>)
    ensures
        opt(r) == endpoint_variable_of(source_name@),
{
    if same_text(source_name, "oxidizedrag") {
        Some("OXIDIZEDRAG_URL")
    } else if same_text(source_name, "oxidizedgraph") {
        Some("OXIDIZEDGRAPH_URL")
    } else if same_text(source_name, "datafabric") {
        Some("DATAFABRIC_URL")
    } else {
        None
    }
}

/// Whether a setting turns background polling off: `1`, or `true` in any case.
pub open spec fn turns_off(value: Option<Seq<char>>) -> bool {
    match value {
        Some(v) => v == "1"@ || v.map_values(|c: char| ascii_lower(c)) == "true"@,
        None => false,
    }
}

/// Whether a setting turns background polling off.
pub fn polling_disabled(value: &Option<String>) -> (r: bool)
    ensures
        r == turns_off(opt(*value)),
{
    match value {
        Some(v) => same_text(v.as_str(), "1") || is_true_word(v.as_str()),
        None => false,
    }
}

fn is_true_word(v: &str) -> (r: bool)
    ensures
        r == (v@.map_values(|c: char| ascii_lower(c)) == "true"@),
{
    proof {
        reveal_strlit("true");
    }
    let ghost lowered = v@.map_values(|c: char| ascii_lower(c));
    let chars = to_chars(v);
    if chars.len() != 4 {
        assert(lowered.len() != "true"@.len());
        return false;
    }
    let r = (chars[0] == 't' || chars[0] == 'T') && (chars[1] == 'r' || chars[1] == 'R') && (
    chars[2] == 'u' || chars[2] == 'U') && (chars[3] == 'e' || chars[3] == 'E');
    proof {
        assert(lowered[0] == ascii_lower(v@[0]));
        assert(lowered[1] == ascii_lower(v@[1]));
        assert(lowered[2] == ascii_lower(v@[2]));
        assert(lowered[3] == ascii_lower(v@[3]));
        if r {
            assert(lowered =~= "true"@);
        }
    }
    r
}

/// The settings of the scope into which the background poller ingests.
#[derive(Debug)]
pub struct IngestSettings {
    pub tenant_id: Option<String>,
    pub workspace_id: Option<String>,
    pub project_id: Option<String>,
    pub agent_id: Option<String>,
    pub run_id: Option<String>,
}

/// The scope into which the background poller ingests; its tenant is `default`
/// where none is set.
pub fn default_ingest_scope(settings: IngestSettings) -> (r: ScopeKey)
    ensures
        r@ == (ScopeModel {
            tenant_id: match settings.tenant_id {
                Some(t) => t@,
                None => "default"@,
            },
            workspace_id: opt(settings.workspace_id),
            project_id: opt(settings.project_id),
            agent_id: opt(settings.agent_id),
            run_id: opt(settings.run_id),
        }),
{
    ScopeKey {
        tenant_id: match settings.tenant_id {
            Some(t) => t,
            None => "default".to_owned(),
        },
        workspace_id: settings.workspace_id,
        project_id: settings.project_id,
        agent_id: settings.agent_id,
        run_id: settings.run_id,
    }
}

/// A poll of one source is recorded for that source alone: what was known of the
/// others stays.
pub proof fn law_poll_leaves_other_sources(
    after: Seq<PollModel>,
    before: Seq<PollModel>,
    new: PollModel,
    other: PollModel,
)
    requires
        recorded(after, before, new),
        other.source != new.source,
    ensures
        after.contains(other) == before.contains(other),
        after.contains(new),
{
}

/// A setting turns polling off exactly where it is `1` or, without regard to case,
/// `true`.
pub proof fn law_polling_is_turned_off_by_a_word(value: Seq<char>)
    ensures
        !turns_off(None),
        turns_off(Some(value)) <==> value == seq!['1'] || (value.len() == 4 && (value[0] == 't'
            || value[0] == 'T') && (value[1] == 'r' || value[1] == 'R') && (value[2] == 'u'
            || value[2] == 'U') && (value[3] == 'e' || value[3] == 'E')),
{
    reveal_strlit("1");
    reveal_strlit("true");
    assert("1"@ =~= seq!['1']);
    let lowered = value.map_values(|c: char| ascii_lower(c));
    assert("true"@.len() == 4 && lowered.len() == value.len());
    if value.len() == 4 {
        if lowered == "true"@ {
            assert(lowered[0] == 't' && lowered[1] == 'r' && lowered[2] == 'u' && lowered[3]
                == 'e');
        }
        assert(lowered[0] == ascii_lower(value[0]) && lowered[1] == ascii_lower(value[1])
            && lowered[2] == ascii_lower(value[2]) && lowered[3] == ascii_lower(value[3]));
        if (value[0] == 't' || value[0] == 'T') && (value[1] == 'r' || value[1] == 'R') && (value[2]
            == 'u' || value[2] == 'U') && (value[3] == 'e' || value[3] == 'E') {
            assert(lowered =~= "true"@);
        }
    }
}

/// The record of polls holds one status for each source that was polled, in the
/// order of their names, and of the source that was polled last the new one.
pub proof fn law_polls_are_recorded_once(
    after: Seq<PollModel>,
    before: Seq<PollModel>,
    new: PollModel,
)
    requires
        recorded(after, before, new),
    ensures
        after.contains(new),
        forall|x: PollModel| #[trigger] after.contains(x) && x.source == new.source ==> x == new,
        forall|x: PollModel| #[trigger]
            before.contains(x) && x.source != new.source ==> after.contains(x),
        forall|i: int, j: int|
            0 <= i < j < after.len() ==> (#[trigger] after[i]).source != (
            #[trigger] after[j]).source,
{
    assert forall|i: int, j: int| 0 <= i < j < after.len() implies (#[trigger] after[i]).source != (
    #[trigger] after[j]).source by {
        text_order_total(after[i].source, after[j].source);
    }
}

/// What is ingested on request goes into the scope that the request names, level by
/// level; each known source has the variable of its own name.
pub proof fn law_ingestion_keeps_to_the_request(req: IngestionRequest, source: Seq<char>)
    ensures
        ingestion_scope(req).tenant_id == req.tenant_id@,
        ingestion_scope(req).workspace_id == opt(req.workspace_id),
        ingestion_scope(req).project_id == opt(req.project_id),
        ingestion_scope(req).agent_id == opt(req.agent_id),
        ingestion_scope(req).run_id == opt(req.run_id),
        endpoint_variable_of(source) == Some("OXIDIZEDRAG_URL"@) <==> source == "oxidizedrag"@,
        endpoint_variable_of(source) == Some("OXIDIZEDGRAPH_URL"@) <==> source == "oxidizedgraph"@,
        endpoint_variable_of(source) == Some("DATAFABRIC_URL"@) <==> source == "datafabric"@,
        endpoint_variable_of(source) is Some ==> source == "oxidizedrag"@ || source
            == "oxidizedgraph"@ || source == "datafabric"@,
{
    reveal_strlit("OXIDIZEDRAG_URL");
    reveal_strlit("OXIDIZEDGRAPH_URL");
    reveal_strlit("DATAFABRIC_URL");
    assert("OXIDIZEDRAG_URL"@.len() == 15 && "OXIDIZEDGRAPH_URL"@.len() == 17
        && "DATAFABRIC_URL"@.len() == 14);
    reveal_strlit("oxidizedrag");
    reveal_strlit("oxidizedgraph");
    reveal_strlit("datafabric");
    assert("oxidizedrag"@.len() == 11 && "oxidizedgraph"@.len() == 13 && "datafabric"@.len() == 10);
}

} // verus!
