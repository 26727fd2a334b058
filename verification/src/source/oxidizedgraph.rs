//! The oxidizedgraph source: decisions and state transitions of agents'
//! workflows.
use crate::decimal::{decimal, law_decimals_differ, usize_text};
use crate::float::{Float, EIGHT_TENTHS, ONE, SIX_TENTHS};
use crate::json::{JsonMap, JsonTree};
use crate::memory::{ContentModel, ItemModel, MemoryItem, MemoryKind, ScopeKey, ScopeModel};
use crate::model::{opt, views};
use crate::source::ingestion::FetchFailure;
use crate::source::item::{level_or, put_text, sourced_item, text_or, three_texts, Draft};
use crate::text::{cat, cat3, same_beginning};
use vstd::prelude::*;

verus! {

/// A workflow's trace as oxidizedgraph gives it.
#[derive(Debug)]
pub struct WorkflowTrace {
    pub agent_id: String,
    pub run_id: String,
    pub decisions: Vec<Decision>,
    pub state_transitions: Vec<StateTransition>,
    pub timestamp: i64,
}

/// A decision that an agent took.
#[derive(Debug)]
pub struct Decision {
    pub id: String,
    pub decision_type: String,
    pub action: String,
    pub confidence: Float,
    pub reasoning: String,
    pub timestamp: i64,
}

/// A step from one state of a workflow to another.
#[derive(Debug)]
pub struct StateTransition {
    pub from_state: String,
    pub to_state: String,
    pub trigger: String,
    pub timestamp: i64,
}

/// The name of a memory of a run: who ran, which run, what it is, and which one.
pub open spec fn run_memory_id(scope: ScopeModel, what: Seq<char>, which: Seq<char>) -> Seq<char> {
    "oxidizedgraph:"@ + level_or(scope.agent_id, "default"@) + ":"@ + level_or(
        scope.run_id,
        "latest"@,
    ) + what + which
}

fn name_run_memory(scope: &ScopeKey, what: &str, which: &str) -> (r: String)
    ensures
        r@ == run_memory_id(scope@, what@, which@),
{
    let mut out = cat3("oxidizedgraph:", text_or(&scope.agent_id, "default"), ":");
    out.push_str(text_or(&scope.run_id, "latest"));
    out.push_str(what);
    out.push_str(which);
    out
}

/// The memory of a decision.
pub open spec fn decision_memory(d: Decision, scope: ScopeModel) -> ItemModel {
    sourced_item(
        "oxidizedgraph"@,
        scope,
        run_memory_id(scope, ":decision:"@, d.id@),
        MemoryKind::Fact,
        d.timestamp,
        "Decision: "@ + d.decision_type@ + " - "@ + d.action@,
        Map::empty().insert("type"@, JsonTree::Text("decision"@)).insert(
            "decision_type"@,
            JsonTree::Text(d.decision_type@),
        ).insert("action"@, JsonTree::Text(d.action@)).insert(
            "reasoning"@,
            JsonTree::Text(d.reasoning@),
        ),
        seq!["workflow"@, "decision"@, "oxidizedgraph"@],
        Float(EIGHT_TENTHS),
        d.confidence,
    )
}

/// The memory of the transition in place `index`.
pub open spec fn transition_memory(t: StateTransition, index: int, scope: ScopeModel) -> ItemModel {
    sourced_item(
        "oxidizedgraph"@,
        scope,
        run_memory_id(scope, ":transition:"@, decimal(index)),
        MemoryKind::Event,
        t.timestamp,
        "State transition: "@ + t.from_state@ + " → "@ + t.to_state@ + " ("@ + t.trigger@ + ")"@,
        Map::empty().insert("type"@, JsonTree::Text("state_transition"@)).insert(
            "from"@,
            JsonTree::Text(t.from_state@),
        ).insert("to"@, JsonTree::Text(t.to_state@)).insert(
            "trigger"@,
            JsonTree::Text(t.trigger@),
        ),
        seq!["state"@, "transition"@, "oxidizedgraph"@],
        Float(SIX_TENTHS),
        Float(ONE),
    )
}

/// The memories of a trace: those of its decisions, and those of its transitions.
pub open spec fn trace_memories(trace: WorkflowTrace, scope: ScopeModel) -> Seq<ItemModel> {
    Seq::new(trace.decisions@.len(), |i: int| decision_memory(trace.decisions@[i], scope))
        + Seq::new(
        trace.state_transitions@.len(),
        |i: int| transition_memory(trace.state_transitions@[i], i, scope),
    )
}

/// Makes the memory of a decision.
pub fn memory_of_decision(d: &Decision, scope: &ScopeKey) -> (r: MemoryItem)
    ensures
        r@ == decision_memory(*d, scope@),
{
    let mut details = JsonMap::new();
    put_text(&mut details, "type", "decision");
    put_text(&mut details, "decision_type", d.decision_type.as_str());
    put_text(&mut details, "action", d.action.as_str());
    put_text(&mut details, "reasoning", d.reasoning.as_str());
    let mut text = cat3("Decision: ", d.decision_type.as_str(), " - ");
    text.push_str(d.action.as_str());
    Draft {
        id: name_run_memory(scope, ":decision:", d.id.as_str()),
        scope: scope.clone(),
        kind: MemoryKind::Fact,
        created_at_ms: d.timestamp,
        text,
        details,
        tags: three_texts("workflow", "decision", "oxidizedgraph"),
        importance: Float(EIGHT_TENTHS),
        confidence: d.confidence,
    }.into_item("oxidizedgraph")
}

/// Makes the memory of the transition in place `index`.
pub fn memory_of_transition(t: &StateTransition, index: usize, scope: &ScopeKey) -> (r: MemoryItem)
    ensures
        r@ == transition_memory(*t, index as int, scope@),
{
    let mut details = JsonMap::new();
    put_text(&mut details, "type", "state_transition");
    put_text(&mut details, "from", t.from_state.as_str());
    put_text(&mut details, "to", t.to_state.as_str());
    put_text(&mut details, "trigger", t.trigger.as_str());
    let mut text = cat3("State transition: ", t.from_state.as_str(), " → ");
    text.push_str(t.to_state.as_str());
    text.push_str(" (");
    text.push_str(t.trigger.as_str());
    text.push_str(")");
    Draft {
        id: name_run_memory(scope, ":transition:", usize_text(index).as_str()),
        scope: scope.clone(),
        kind: MemoryKind::Event,
        created_at_ms: t.timestamp,
        text,
        details,
        tags: three_texts("state", "transition", "oxidizedgraph"),
        importance: Float(SIX_TENTHS),
        confidence: Float(ONE),
    }.into_item("oxidizedgraph")
}

/// The oxidizedgraph source.
#[derive(Debug)]
pub struct OxidizedGraphSource {
    /// Where oxidizedgraph is reached.
    pub endpoint: String,
    /// The key that it asks for, where it asks for one.
    pub api_key: Option<String>,
}

impl OxidizedGraphSource {
    /// The source at an address, without a key.
    pub fn new(endpoint: String) -> (r: OxidizedGraphSource)
        ensures
            r.endpoint@ == endpoint@,
            r.api_key is None,
    {
        OxidizedGraphSource { endpoint, api_key: None }
    }

    /// The same source with a key.
    pub fn with_api_key(self, key: String) -> (r: OxidizedGraphSource)
        ensures
            r.endpoint@ == self.endpoint@,
            opt(r.api_key) == Some(key@),
    {
        OxidizedGraphSource { endpoint: self.endpoint, api_key: Some(key) }
    }

    /// The name of the source.
    pub fn source_id(&self) -> (r: &'static str)
        ensures
            r@ == "oxidizedgraph"@,
    {
        "oxidizedgraph"
    }

    /// What the source offers.
    pub fn description(&self) -> (r: &'static str)
        ensures
            r@
                == "Agent workflow executions, decisions, and state transitions from oxidizedgraph"@,
    {
        "Agent workflow executions, decisions, and state transitions from oxidizedgraph"
    }

    /// Where the trace of a scope's run is asked for.
    pub fn traces_url(&self, scope: &ScopeKey) -> (r: String)
        ensures
            r@ == self.endpoint@ + "/v1/traces?agent="@ + level_or(scope@.agent_id, "default"@)
                + "&run="@ + level_or(scope@.run_id, "latest"@),
    {
        let mut url = cat3(
            self.endpoint.as_str(),
            "/v1/traces?agent=",
            text_or(&scope.agent_id, "default"),
        );
        url.push_str("&run=");
        url.push_str(text_or(&scope.run_id, "latest"));
        url
    }

    /// Where the source's health is asked for.
    pub fn health_url(&self) -> (r: String)
        ensures
            r@ == self.endpoint@ + "/v1/health"@,
    {
        cat(self.endpoint.as_str(), "/v1/health")
    }

    /// The memories that the source's answer holds.
    pub fn fetch_memories(&self, scope: &ScopeKey, trace: Result<WorkflowTrace, FetchFailure>) -> (r:
        Result<Vec<MemoryItem>, String>)
        ensures
            match (r, trace) {
                (Ok(memories), Ok(t)) => views(memories@) == trace_memories(t, scope@),
                (Err(e), Err(FetchFailure::Parse(m))) => e@
                    == "Failed to parse oxidizedgraph response: "@ + m@,
                (Err(e), Err(FetchFailure::Call(m))) => e@ == "Failed to call oxidizedgraph API: "@
                    + m@,
                _ => false,
            },
    {
        let trace = match trace {
            Ok(t) => t,
            Err(FetchFailure::Parse(m)) => {
                return Err(cat("Failed to parse oxidizedgraph response: ", m.as_str()));
            },
            Err(FetchFailure::Call(m)) => {
                return Err(cat("Failed to call oxidizedgraph API: ", m.as_str()));
            },
        };
        let ghost whole = trace_memories(trace, scope@);
        let mut out: Vec<MemoryItem> = Vec::new();
        for i in 0..trace.decisions.len()
            invariant
                whole == trace_memories(trace, scope@),
                out@.len() == i,
                forall|k: int| 0 <= k < i ==> (#[trigger] out@[k])@ == whole[k],
        {
            out.push(memory_of_decision(&trace.decisions[i], scope));
        }
        for i in 0..trace.state_transitions.len()
            invariant
                whole == trace_memories(trace, scope@),
                out@.len() == trace.decisions@.len() + i,
                forall|k: int| 0 <= k < out@.len() ==> (#[trigger] out@[k])@ == whole[k],
        {
            out.push(memory_of_transition(&trace.state_transitions[i], i, scope));
        }
        assert(views(out@) =~= whole);
        Ok(out)
    }
}

/// Every decision and every transition becomes one memory, the decisions first, in
/// their order, each in the scope that was asked for and at its own moment:
/// decisions as facts that are as sure as the agent was, transitions as events.
pub proof fn law_traces_become_memories(trace: WorkflowTrace, scope: ScopeModel)
    ensures
        trace_memories(trace, scope).len() == trace.decisions@.len()
            + trace.state_transitions@.len(),
        forall|i: int|
            0 <= i < trace.decisions@.len() ==> {
                let memory = #[trigger] trace_memories(trace, scope)[i];
                &&& memory.scope == scope
                &&& memory.kind == MemoryKind::Fact
                &&& memory.created_at_ms == trace.decisions@[i].timestamp
                &&& memory.confidence == trace.decisions@[i].confidence
                &&& memory.source == "oxidizedgraph"@
                &&& trace.decisions@[i].id@.is_suffix_of(memory.id)
            },
        forall|i: int|
            0 <= i < trace.state_transitions@.len() ==> {
                let memory = trace_memories(trace, scope)[trace.decisions@.len() + i];
                &&& memory.scope == scope
                &&& memory.kind == MemoryKind::Event
                &&& memory.created_at_ms == (#[trigger] trace.state_transitions@[i]).timestamp
                &&& memory.source == "oxidizedgraph"@
                &&& decimal(i).is_suffix_of(memory.id)
            },
{
    let all = trace_memories(trace, scope);
    assert forall|i: int| 0 <= i < trace.decisions@.len() implies trace.decisions@[i].id@.is_suffix_of(
        (#[trigger] all[i]).id,
    ) by {
        let id = all[i].id;
        let which = trace.decisions@[i].id@;
        assert(id.subrange(id.len() - which.len(), id.len() as int) =~= which);
    }
    assert forall|i: int| 0 <= i < trace.state_transitions@.len() implies decimal(i).is_suffix_of(
        all[trace.decisions@.len() + i].id,
    ) && all[trace.decisions@.len() + i].created_at_ms == (
    #[trigger] trace.state_transitions@[i]).timestamp by {
        let id = all[trace.decisions@.len() + i].id;
        assert(id.subrange(id.len() - decimal(i).len(), id.len() as int) =~= decimal(i));
    }
}

/// A decision's memory tells what was decided and holds why; a transition's tells
/// from which state to which, and what set it off.
pub proof fn law_trace_memories_tell_what_happened(
    d: Decision,
    t: StateTransition,
    index: int,
    scope: ScopeModel,
)
    ensures
        decision_memory(d, scope).content matches ContentModel::TextJson { text, json } && {
            &&& text == "Decision: "@ + d.decision_type@ + " - "@ + d.action@
            &&& json.field("decision_type"@) == Some(JsonTree::Text(d.decision_type@))
            &&& json.field("action"@) == Some(JsonTree::Text(d.action@))
            &&& json.field("reasoning"@) == Some(JsonTree::Text(d.reasoning@))
        },
        transition_memory(t, index, scope).content matches ContentModel::TextJson { text, json } && {
            &&& text == "State transition: "@ + t.from_state@ + " → "@ + t.to_state@ + " ("@
                + t.trigger@ + ")"@
            &&& json.field("from"@) == Some(JsonTree::Text(t.from_state@))
            &&& json.field("to"@) == Some(JsonTree::Text(t.to_state@))
            &&& json.field("trigger"@) == Some(JsonTree::Text(t.trigger@))
        },
        decision_memory(d, scope).importance == Float(0x3f4c_cccd),
        transition_memory(t, index, scope).importance == Float(0x3f19_999a),
{
    reveal_strlit("type");
    reveal_strlit("decision_type");
    reveal_strlit("action");
    reveal_strlit("reasoning");
    reveal_strlit("from");
    reveal_strlit("to");
    reveal_strlit("trigger");
    assert("type"@.len() == 4 && "decision_type"@.len() == 13 && "action"@.len() == 6
        && "reasoning"@.len() == 9 && "from"@.len() == 4 && "to"@.len() == 2 && "trigger"@.len()
        == 7);
    assert("type"@[0] == 't' && "from"@[0] == 'f');
}

/// Different decisions of a run become different memories, and so do different
/// transitions; a decision and a transition never share a name.
pub proof fn law_trace_memories_have_different_names(
    a: Decision,
    b: Decision,
    t: StateTransition,
    u: StateTransition,
    i: int,
    j: int,
    scope: ScopeModel,
)
    ensures
        a.id@ != b.id@ ==> decision_memory(a, scope).id != decision_memory(b, scope).id,
        i != j ==> transition_memory(t, i, scope).id != transition_memory(u, j, scope).id,
        decision_memory(a, scope).id != transition_memory(t, i, scope).id,
{
    let front = "oxidizedgraph:"@ + level_or(scope.agent_id, "default"@) + ":"@ + level_or(
        scope.run_id,
        "latest"@,
    );
    same_beginning(front + ":decision:"@, a.id@, b.id@);
    same_beginning(front + ":transition:"@, decimal(i), decimal(j));
    law_decimals_differ(i, j);
    reveal_strlit(":decision:");
    reveal_strlit(":transition:");
    assert(decision_memory(a, scope).id[front.len() as int + 1] == 'd');
    assert(transition_memory(t, i, scope).id[front.len() as int + 1] == 't');
}

/// The memories of a run are named after its agent and its run, or after words that
/// stand for them where they are not given.
pub proof fn law_trace_memories_name_their_run(
    d: Decision,
    t: StateTransition,
    index: int,
    scope: ScopeModel,
)
    ensures
        ({
            let agent = match scope.agent_id {
                Some(agent) => agent,
                None => "default"@,
            };
            let run = match scope.run_id {
                Some(run) => run,
                None => "latest"@,
            };
            let front = "oxidizedgraph:"@ + agent + ":"@ + run;
            &&& decision_memory(d, scope).id == front + ":decision:"@ + d.id@
            &&& transition_memory(t, index, scope).id == front + ":transition:"@ + decimal(index)
        }),
{
}

} // verus!
