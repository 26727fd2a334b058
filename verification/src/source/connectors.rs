//! Connectors that poll recent activity: queries of oxidizedRAG, executions of
//! oxidizedgraph and tasks of data-fabric.
use crate::decimal::{decimal, i64_text};
use crate::float::{
    Float, EIGHTY_FIVE_HUNDREDTHS, EIGHT_TENTHS, NINETY_FIVE_HUNDREDTHS, NINE_TENTHS, SEVEN_TENTHS,
    SIX_TENTHS,
};
use crate::json::{tree_cases, Json, JsonMap, JsonTree};
use crate::memory::{ContentModel, ItemModel, MemoryItem, MemoryKind, ScopeKey, ScopeModel};
use crate::model::{opt, views};
use crate::source::item::{put_text, sourced_item, two_texts, Draft};
use crate::text::{cat, cat3};
use vstd::prelude::*;

verus! {

/// How a source is polled.
#[derive(Debug)]
pub struct SourceConfig {
    pub source_id: String,
    pub source_type: String,
    pub endpoint: String,
    pub api_key: Option<String>,
    pub poll_interval_secs: u64,
    pub enabled: bool,
}

/// A request to a source: where it goes and the `Authorization` header it
/// carries.
#[derive(Debug)]
pub struct PollRequest {
    pub url: String,
    pub authorization: String,
}

/// Whether `r` is the request for `path` under a configuration, which must hold a
/// key; without one, the failure is `missing`.
pub open spec fn is_request(
    r: Result<PollRequest, String>,
    config: SourceConfig,
    path: Seq<char>,
    missing: Seq<char>,
) -> bool {
    match (r, config.api_key) {
        (Ok(q), Some(key)) => q.url@ == config.endpoint@ + path && q.authorization@ == "Bearer "@
            + key@,
        (Err(e), None) => e@ == missing,
        _ => false,
    }
}

fn request(config: &SourceConfig, path: &str, missing: String) -> (r: Result<PollRequest, String>)
    ensures
        is_request(r, *config, path@, missing@),
{
    match &config.api_key {
        Some(key) => Ok(
            PollRequest {
                url: cat(config.endpoint.as_str(), path),
                authorization: cat("Bearer ", key.as_str()),
            },
        ),
        None => Err(missing),
    }
}

/// The request for a source's health.
pub fn health_request(config: &SourceConfig) -> (r: Result<PollRequest, String>)
    ensures
        is_request(r, *config, "/api/v1/health"@, "No API key"@),
{
    request(config, "/api/v1/health", "No API key".to_owned())
}

/// Whether a source is healthy, by the status with which it answered; one that
/// did not answer is not.
pub fn is_healthy(status: Option<u16>) -> (r: bool)
    ensures
        r == match status {
            Some(s) => 200 <= s < 300,
            None => false,
        },
{
    match status {
        Some(s) => 200 <= s && s < 300,
        None => false,
    }
}

/// The scope of what connectors find.
pub open spec fn system_scope(workspace: Seq<char>, run_id: Option<Seq<char>>) -> ScopeModel {
    ScopeModel {
        tenant_id: "system"@,
        workspace_id: Some(workspace),
        project_id: None,
        agent_id: None,
        run_id,
    }
}

fn make_system_scope(workspace: &str, run_id: Option<String>) -> (r: ScopeKey)
    ensures
        r@ == system_scope(workspace@, opt(run_id)),
{
    ScopeKey {
        tenant_id: "system".to_owned(),
        workspace_id: Some(workspace.to_owned()),
        project_id: None,
        agent_id: None,
        run_id,
    }
}

/// A query that oxidizedRAG answered.
#[derive(Debug)]
pub struct RAGQueryResult {
    pub query: String,
    pub results: Vec<RAGCodeResult>,
    pub timestamp: i64,
}

/// A piece of code that answered it.
#[derive(Debug)]
pub struct RAGCodeResult {
    pub file_path: String,
    pub snippet: String,
    pub pattern: String,
    pub confidence: Float,
}

/// The memory of a piece of code.
pub open spec fn code_memory(
    result: RAGCodeResult,
    query: Seq<char>,
    timestamp: i64,
    now_ms: i64,
) -> ItemModel {
    sourced_item(
        "oxidizedRAG"@,
        system_scope("code"@, None),
        "rag-"@ + decimal(timestamp as int) + "-"@ + result.file_path@,
        MemoryKind::Fact,
        now_ms,
        "Code pattern: "@ + result.pattern@ + " in "@ + result.file_path@,
        Map::empty().insert("source"@, JsonTree::Text("oxidizedRAG"@)).insert(
            "file_path"@,
            JsonTree::Text(result.file_path@),
        ).insert("pattern"@, JsonTree::Text(result.pattern@)).insert(
            "snippet"@,
            JsonTree::Text(result.snippet@),
        ).insert("query"@, JsonTree::Text(query)),
        seq!["code"@, "pattern"@],
        Float(SEVEN_TENTHS),
        result.confidence,
    )
}

/// The memories of one query.
pub open spec fn query_memories(q: RAGQueryResult, now_ms: i64) -> Seq<ItemModel> {
    Seq::new(q.results@.len(), |i: int| code_memory(q.results@[i], q.query@, q.timestamp, now_ms))
}

/// The memories of some queries, one query after the other.
pub open spec fn rag_memories(queries: Seq<RAGQueryResult>, now_ms: i64) -> Seq<ItemModel>
    decreases queries.len(),
{
    if queries.len() == 0 {
        Seq::empty()
    } else {
        rag_memories(queries.drop_last(), now_ms) + query_memories(queries.last(), now_ms)
    }
}

fn memory_of_code(result: &RAGCodeResult, query: &str, timestamp: i64, now_ms: i64) -> (r:
    MemoryItem)
    ensures
        r@ == code_memory(*result, query@, timestamp, now_ms),
{
    let mut details = JsonMap::new();
    put_text(&mut details, "source", "oxidizedRAG");
    put_text(&mut details, "file_path", result.file_path.as_str());
    put_text(&mut details, "pattern", result.pattern.as_str());
    put_text(&mut details, "snippet", result.snippet.as_str());
    put_text(&mut details, "query", query);
    let mut id = cat3("rag-", i64_text(timestamp).as_str(), "-");
    id.push_str(result.file_path.as_str());
    let mut text = cat3("Code pattern: ", result.pattern.as_str(), " in ");
    text.push_str(result.file_path.as_str());
    Draft {
        id,
        scope: make_system_scope("code", None),
        kind: MemoryKind::Fact,
        created_at_ms: now_ms,
        text,
        details,
        tags: two_texts("code", "pattern"),
        importance: Float(SEVEN_TENTHS),
        confidence: result.confidence,
    }.into_item("oxidizedRAG")
}

/// The connector for oxidizedRAG.
#[derive(Debug)]
pub struct OxidizedRAGConnector {}

impl OxidizedRAGConnector {
    pub fn new() -> (r: OxidizedRAGConnector)
        ensures
            r == (OxidizedRAGConnector {  }),
    {
        OxidizedRAGConnector {  }
    }

    /// The connector's name.
    pub fn name(&self) -> (r: &'static str)
        ensures
            r@ == "oxidizedRAG"@,
    {
        "oxidizedRAG"
    }

    /// The request for recent queries.
    pub fn recent_request(&self, config: &SourceConfig) -> (r: Result<PollRequest, String>)
        ensures
            is_request(
                r,
                *config,
                "/api/v1/queries/recent"@,
                "API key required for oxidizedRAG"@,
            ),
    {
        request(
            config,
            "/api/v1/queries/recent",
            "API key required for oxidizedRAG".to_owned(),
        )
    }

    /// The memories of the queries that it answered with, made at `now_ms`.
    pub fn memories(&self, queries: &Vec<RAGQueryResult>, now_ms: i64) -> (r: Vec<MemoryItem>)
        ensures
            views(r@) == rag_memories(queries@, now_ms),
    {
        let mut out: Vec<MemoryItem> = Vec::new();
        assert(queries@.take(0) =~= Seq::<RAGQueryResult>::empty());
        assert(views(out@) =~= Seq::<ItemModel>::empty());
        for n in 0..queries.len()
            invariant
                views(out@) == rag_memories(queries@.take(n as int), now_ms),
        {
            let q = &queries[n];
            let ghost before = views(out@);
            let ghost here = query_memories(*q, now_ms);
            assert(before + here.take(0) =~= before);
            for i in 0..q.results.len()
                invariant
                    here == query_memories(*q, now_ms),
                    views(out@) == before + here.take(i as int),
            {
                let item = memory_of_code(&q.results[i], q.query.as_str(), q.timestamp, now_ms);
                let ghost so_far = views(out@);
                let ghost model = item@;
                out.push(item);
                assert(views(out@) =~= so_far.push(model));
                assert(before + here.take(i + 1) =~= (before + here.take(i as int)).push(
                    here[i as int],
                ));
            }
            proof {
                assert(here.take(here.len() as int) =~= here);
                assert(queries@.take(n + 1).drop_last() =~= queries@.take(n as int));
            }
        }
        assert(queries@.take(queries@.len() as int) =~= queries@);
        out
    }
}

impl Default for OxidizedRAGConnector {
    fn default() -> (r: OxidizedRAGConnector)
        ensures
            r == (OxidizedRAGConnector {  }),
    {
        OxidizedRAGConnector::new()
    }
}

/// An execution of a workflow.
#[derive(Debug)]
pub struct WorkflowExecution {
    pub workflow_id: String,
    pub execution_id: String,
    pub status: String,
    pub decisions: Vec<WorkflowDecision>,
    pub timestamp: i64,
}

/// A decision taken in it.
#[derive(Debug)]
pub struct WorkflowDecision {
    pub decision_id: String,
    pub description: String,
    pub approved: bool,
    pub timestamp: i64,
}

/// The memory of a decision in an execution. What was approved matters more.
pub open spec fn workflow_memory(
    e: WorkflowExecution,
    d: WorkflowDecision,
    now_ms: i64,
) -> ItemModel {
    sourced_item(
        "oxidizedgraph"@,
        system_scope("workflow"@, Some(e.execution_id@)),
        "graph-"@ + e.execution_id@ + "-"@ + d.decision_id@,
        MemoryKind::Fact,
        now_ms,
        "Workflow decision: "@ + d.description@ + " ("@ + (if d.approved {
            "approved"@
        } else {
            "rejected"@
        }) + ")"@,
        Map::empty().insert("source"@, JsonTree::Text("oxidizedgraph"@)).insert(
            "workflow_id"@,
            JsonTree::Text(e.workflow_id@),
        ).insert("execution_id"@, JsonTree::Text(e.execution_id@)).insert(
            "decision_id"@,
            JsonTree::Text(d.decision_id@),
        ).insert("description"@, JsonTree::Text(d.description@)).insert(
            "approved"@,
            JsonTree::Bool(d.approved),
        ).insert("status"@, JsonTree::Text(e.status@)),
        seq!["workflow"@, "decision"@],
        if d.approved {
            Float(EIGHT_TENTHS)
        } else {
            Float(SIX_TENTHS)
        },
        Float(NINETY_FIVE_HUNDREDTHS),
    )
}

/// The memories of one execution.
pub open spec fn execution_memories(e: WorkflowExecution, now_ms: i64) -> Seq<ItemModel> {
    Seq::new(e.decisions@.len(), |i: int| workflow_memory(e, e.decisions@[i], now_ms))
}

/// The memories of some executions, one execution after the other.
pub open spec fn graph_memories(executions: Seq<WorkflowExecution>, now_ms: i64) -> Seq<ItemModel>
    decreases executions.len(),
{
    if executions.len() == 0 {
        Seq::empty()
    } else {
        graph_memories(executions.drop_last(), now_ms) + execution_memories(
            executions.last(),
            now_ms,
        )
    }
}

fn memory_of_workflow(e: &WorkflowExecution, d: &WorkflowDecision, now_ms: i64) -> (r: MemoryItem)
    ensures
        r@ == workflow_memory(*e, *d, now_ms),
{
    broadcast use tree_cases;

    let mut details = JsonMap::new();
    put_text(&mut details, "source", "oxidizedgraph");
    put_text(&mut details, "workflow_id", e.workflow_id.as_str());
    put_text(&mut details, "execution_id", e.execution_id.as_str());
    put_text(&mut details, "decision_id", d.decision_id.as_str());
    put_text(&mut details, "description", d.description.as_str());
    details.insert("approved".to_owned(), Json::Bool(d.approved));
    put_text(&mut details, "status", e.status.as_str());
    let mut id = cat3("graph-", e.execution_id.as_str(), "-");
    id.push_str(d.decision_id.as_str());
    let mut text = cat3("Workflow decision: ", d.description.as_str(), " (");
    text.push_str(
        if d.approved {
            "approved"
        } else {
            "rejected"
        },
    );
    text.push_str(")");
    Draft {
        id,
        scope: make_system_scope("workflow", Some(e.execution_id.clone())),
        kind: MemoryKind::Fact,
        created_at_ms: now_ms,
        text,
        details,
        tags: two_texts("workflow", "decision"),
        importance: if d.approved {
            Float(EIGHT_TENTHS)
        } else {
            Float(SIX_TENTHS)
        },
        confidence: Float(NINETY_FIVE_HUNDREDTHS),
    }.into_item("oxidizedgraph")
}

/// The connector for oxidizedgraph.
#[derive(Debug)]
pub struct OxidizedGraphConnector {}

impl OxidizedGraphConnector {
    pub fn new() -> (r: OxidizedGraphConnector)
        ensures
            r == (OxidizedGraphConnector {  }),
    {
        OxidizedGraphConnector {  }
    }

    /// The connector's name.
    pub fn name(&self) -> (r: &'static str)
        ensures
            r@ == "oxidizedgraph"@,
    {
        "oxidizedgraph"
    }

    /// The request for recent executions.
    pub fn recent_request(&self, config: &SourceConfig) -> (r: Result<PollRequest, String>)
        ensures
            is_request(
                r,
                *config,
                "/api/v1/executions/recent"@,
                "API key required for oxidizedgraph"@,
            ),
    {
        request(
            config,
            "/api/v1/executions/recent",
            "API key required for oxidizedgraph".to_owned(),
        )
    }

    /// The memories of the executions that it answered with, made at `now_ms`.
    pub fn memories(&self, executions: &Vec<WorkflowExecution>, now_ms: i64) -> (r: Vec<MemoryItem>)
        ensures
            views(r@) == graph_memories(executions@, now_ms),
    {
        let mut out: Vec<MemoryItem> = Vec::new();
        assert(executions@.take(0) =~= Seq::<WorkflowExecution>::empty());
        assert(views(out@) =~= Seq::<ItemModel>::empty());
        for n in 0..executions.len()
            invariant
                views(out@) == graph_memories(executions@.take(n as int), now_ms),
        {
            let e = &executions[n];
            let ghost before = views(out@);
            let ghost here = execution_memories(*e, now_ms);
            assert(before + here.take(0) =~= before);
            for i in 0..e.decisions.len()
                invariant
                    here == execution_memories(*e, now_ms),
                    views(out@) == before + here.take(i as int),
            {
                let item = memory_of_workflow(e, &e.decisions[i], now_ms);
                let ghost so_far = views(out@);
                let ghost model = item@;
                out.push(item);
                assert(views(out@) =~= so_far.push(model));
                assert(before + here.take(i + 1) =~= (before + here.take(i as int)).push(
                    here[i as int],
                ));
            }
            proof {
                assert(here.take(here.len() as int) =~= here);
                assert(executions@.take(n + 1).drop_last() =~= executions@.take(n as int));
            }
        }
        assert(executions@.take(executions@.len() as int) =~= executions@);
        out
    }
}

impl Default for OxidizedGraphConnector {
    fn default() -> (r: OxidizedGraphConnector)
        ensures
            r == (OxidizedGraphConnector {  }),
    {
        OxidizedGraphConnector::new()
    }
}

/// A task with the decisions taken on it.
#[derive(Debug)]
pub struct TaskActivity {
    pub task_id: String,
    pub description: String,
    pub status: String,
    pub decisions: Vec<TaskDecision>,
    pub timestamp: i64,
}

/// A decision taken on a task.
#[derive(Debug)]
pub struct TaskDecision {
    pub decision_id: String,
    pub content: String,
    pub outcome: String,
}

/// The memory of a decision on a task.
pub open spec fn task_decision_memory(t: TaskActivity, d: TaskDecision, now_ms: i64) -> ItemModel {
    sourced_item(
        "data-fabric"@,
        system_scope("tasks"@, Some(t.task_id@)),
        "df-"@ + t.task_id@ + "-"@ + d.decision_id@,
        MemoryKind::Fact,
        now_ms,
        "Task decision: "@ + d.content@ + " ("@ + d.outcome@ + ")"@,
        Map::empty().insert("source"@, JsonTree::Text("data-fabric"@)).insert(
            "task_id"@,
            JsonTree::Text(t.task_id@),
        ).insert("decision_id"@, JsonTree::Text(d.decision_id@)).insert(
            "description"@,
            JsonTree::Text(t.description@),
        ).insert("decision_content"@, JsonTree::Text(d.content@)).insert(
            "outcome"@,
            JsonTree::Text(d.outcome@),
        ).insert("task_status"@, JsonTree::Text(t.status@)),
        seq!["task"@, "knowledge"@],
        Float(EIGHTY_FIVE_HUNDREDTHS),
        Float(NINE_TENTHS),
    )
}

/// The memories of one task.
pub open spec fn task_memories(t: TaskActivity, now_ms: i64) -> Seq<ItemModel> {
    Seq::new(t.decisions@.len(), |i: int| task_decision_memory(t, t.decisions@[i], now_ms))
}

/// The memories of some tasks, one task after the other.
pub open spec fn fabric_memories(tasks: Seq<TaskActivity>, now_ms: i64) -> Seq<ItemModel>
    decreases tasks.len(),
{
    if tasks.len() == 0 {
        Seq::empty()
    } else {
        fabric_memories(tasks.drop_last(), now_ms) + task_memories(tasks.last(), now_ms)
    }
}

fn memory_of_task_decision(t: &TaskActivity, d: &TaskDecision, now_ms: i64) -> (r: MemoryItem)
    ensures
        r@ == task_decision_memory(*t, *d, now_ms),
{
    let mut details = JsonMap::new();
    put_text(&mut details, "source", "data-fabric");
    put_text(&mut details, "task_id", t.task_id.as_str());
    put_text(&mut details, "decision_id", d.decision_id.as_str());
    put_text(&mut details, "description", t.description.as_str());
    put_text(&mut details, "decision_content", d.content.as_str());
    put_text(&mut details, "outcome", d.outcome.as_str());
    put_text(&mut details, "task_status", t.status.as_str());
    let mut id = cat3("df-", t.task_id.as_str(), "-");
    id.push_str(d.decision_id.as_str());
    let mut text = cat3("Task decision: ", d.content.as_str(), " (");
    text.push_str(d.outcome.as_str());
    text.push_str(")");
    Draft {
        id,
        scope: make_system_scope("tasks", Some(t.task_id.clone())),
        kind: MemoryKind::Fact,
        created_at_ms: now_ms,
        text,
        details,
        tags: two_texts("task", "knowledge"),
        importance: Float(EIGHTY_FIVE_HUNDREDTHS),
        confidence: Float(NINE_TENTHS),
    }.into_item("data-fabric")
}

/// The connector for data-fabric.
#[derive(Debug)]
pub struct DataFabricConnector {}

impl DataFabricConnector {
    pub fn new() -> (r: DataFabricConnector)
        ensures
            r == (DataFabricConnector {  }),
    {
        DataFabricConnector {  }
    }

    /// The connector's name.
    pub fn name(&self) -> (r: &'static str)
        ensures
            r@ == "data-fabric"@,
    {
        "data-fabric"
    }

    /// The request for recent tasks.
    pub fn recent_request(&self, config: &SourceConfig) -> (r: Result<PollRequest, String>)
        ensures
            is_request(
                r,
                *config,
                "/api/v1/tasks/recent"@,
                "API key required for data-fabric"@,
            ),
    {
        request(config, "/api/v1/tasks/recent", "API key required for data-fabric".to_owned())
    }

    /// The memories of the tasks that it answered with, made at `now_ms`.
    pub fn memories(&self, tasks: &Vec<TaskActivity>, now_ms: i64) -> (r: Vec<MemoryItem>)
        ensures
            views(r@) == fabric_memories(tasks@, now_ms),
    {
        let mut out: Vec<MemoryItem> = Vec::new();
        assert(tasks@.take(0) =~= Seq::<TaskActivity>::empty());
        assert(views(out@) =~= Seq::<ItemModel>::empty());
        for n in 0..tasks.len()
            invariant
                views(out@) == fabric_memories(tasks@.take(n as int), now_ms),
        {
            let t = &tasks[n];
            let ghost before = views(out@);
            let ghost here = task_memories(*t, now_ms);
            assert(before + here.take(0) =~= before);
            for i in 0..t.decisions.len()
                invariant
                    here == task_memories(*t, now_ms),
                    views(out@) == before + here.take(i as int),
            {
                let item = memory_of_task_decision(t, &t.decisions[i], now_ms);
                let ghost so_far = views(out@);
                let ghost model = item@;
                out.push(item);
                assert(views(out@) =~= so_far.push(model));
                assert(before + here.take(i + 1) =~= (before + here.take(i as int)).push(
                    here[i as int],
                ));
            }
            proof {
                assert(here.take(here.len() as int) =~= here);
                assert(tasks@.take(n + 1).drop_last() =~= tasks@.take(n as int));
            }
        }
        assert(tasks@.take(tasks@.len() as int) =~= tasks@);
        out
    }
}

impl Default for DataFabricConnector {
    fn default() -> (r: DataFabricConnector)
        ensures
            r == (DataFabricConnector {  }),
    {
        DataFabricConnector::new()
    }
}

/// Every piece of code that answered a query becomes a memory, behind those of what came before it.
pub proof fn law_rag_memories_miss_nothing(
    queries: Seq<RAGQueryResult>,
    now_ms: i64,
    i: int,
    j: int,
) -> (place: int)
    requires
        0 <= i < queries.len(),
        0 <= j < queries[i].results@.len(),
    ensures
        0 <= place < rag_memories(queries, now_ms).len(),
        ({
            let memory = rag_memories(queries, now_ms)[place];
            memory.id == "rag-"@ + decimal(queries[i].timestamp as int) + "-"@
            + queries[i].results@[j].file_path@ && memory.kind == MemoryKind::Fact
            && memory.created_at_ms == now_ms && memory.confidence
            == queries[i].results@[j].confidence && memory.scope.tenant_id == "system"@
            && memory.scope.workspace_id == Some("code"@) && memory.scope.run_id is None
        }),
        place == rag_memories(queries.take(i), now_ms).len() + j,
    decreases queries.len(),
{
    let front = queries.drop_last();
    let before = rag_memories(front, now_ms);
    if i == queries.len() - 1 {
        assert(queries.take(i) =~= front);
        before.len() as int + j
    } else {
        assert(front[i] == queries[i]);
        assert(front.take(i) =~= queries.take(i));
        let place = law_rag_memories_miss_nothing(front, now_ms, i, j);
        assert(rag_memories(queries, now_ms)[place] == before[place]);
        place
    }
}

/// Nothing else becomes a memory: there are as many as there are parts in all.
pub proof fn law_rag_memories_add_nothing(queries: Seq<RAGQueryResult>, now_ms: i64, i: int)
    requires
        0 <= i < queries.len(),
    ensures
        rag_memories(queries.take(i + 1), now_ms).len() == rag_memories(
            queries.take(i),
            now_ms,
        ).len() + queries[i].results@.len(),
        rag_memories(queries.take(0), now_ms).len() == 0,
{
    assert(queries.take(i + 1).drop_last() =~= queries.take(i));
    assert(queries.take(i + 1).last() == queries[i]);
}

/// Every decision of an execution becomes a memory, behind those of what came before it.
pub proof fn law_graph_memories_miss_nothing(
    executions: Seq<WorkflowExecution>,
    now_ms: i64,
    i: int,
    j: int,
) -> (place: int)
    requires
        0 <= i < executions.len(),
        0 <= j < executions[i].decisions@.len(),
    ensures
        0 <= place < graph_memories(executions, now_ms).len(),
        ({
            let memory = graph_memories(executions, now_ms)[place];
            memory.id == "graph-"@ + executions[i].execution_id@ + "-"@
            + executions[i].decisions@[j].decision_id@ && memory.kind == MemoryKind::Fact
            && memory.created_at_ms == now_ms && memory.scope.tenant_id == "system"@
            && memory.scope.workspace_id == Some("workflow"@) && memory.scope.run_id == Some(
            executions[i].execution_id@,
        ) && memory.importance == if executions[i].decisions@[j].approved {
            Float(0x3f4c_cccd)
        } else {
            Float(0x3f19_999a)
        }
        }),
        place == graph_memories(executions.take(i), now_ms).len() + j,
    decreases executions.len(),
{
    let front = executions.drop_last();
    let before = graph_memories(front, now_ms);
    if i == executions.len() - 1 {
        assert(executions.take(i) =~= front);
        before.len() as int + j
    } else {
        assert(front[i] == executions[i]);
        assert(front.take(i) =~= executions.take(i));
        let place = law_graph_memories_miss_nothing(front, now_ms, i, j);
        assert(graph_memories(executions, now_ms)[place] == before[place]);
        place
    }
}

/// Nothing else becomes a memory: there are as many as there are parts in all.
pub proof fn law_graph_memories_add_nothing(executions: Seq<WorkflowExecution>, now_ms: i64, i: int)
    requires
        0 <= i < executions.len(),
    ensures
        graph_memories(executions.take(i + 1), now_ms).len() == graph_memories(
            executions.take(i),
            now_ms,
        ).len() + executions[i].decisions@.len(),
        graph_memories(executions.take(0), now_ms).len() == 0,
{
    assert(executions.take(i + 1).drop_last() =~= executions.take(i));
    assert(executions.take(i + 1).last() == executions[i]);
}

/// Every decision on a task becomes a memory, behind those of what came before it.
pub proof fn law_fabric_memories_miss_nothing(
    tasks: Seq<TaskActivity>,
    now_ms: i64,
    i: int,
    j: int,
) -> (place: int)
    requires
        0 <= i < tasks.len(),
        0 <= j < tasks[i].decisions@.len(),
    ensures
        0 <= place < fabric_memories(tasks, now_ms).len(),
        ({
            let memory = fabric_memories(tasks, now_ms)[place];
            memory.id == "df-"@ + tasks[i].task_id@ + "-"@
            + tasks[i].decisions@[j].decision_id@ && memory.kind == MemoryKind::Fact
            && memory.created_at_ms == now_ms && memory.scope.tenant_id == "system"@
            && memory.scope.workspace_id == Some("tasks"@) && memory.scope.run_id == Some(
            tasks[i].task_id@,
        )
        }),
        place == fabric_memories(tasks.take(i), now_ms).len() + j,
    decreases tasks.len(),
{
    let front = tasks.drop_last();
    let before = fabric_memories(front, now_ms);
    if i == tasks.len() - 1 {
        assert(tasks.take(i) =~= front);
        before.len() as int + j
    } else {
        assert(front[i] == tasks[i]);
        assert(front.take(i) =~= tasks.take(i));
        let place = law_fabric_memories_miss_nothing(front, now_ms, i, j);
        assert(fabric_memories(tasks, now_ms)[place] == before[place]);
        place
    }
}

/// Nothing else becomes a memory: there are as many as there are parts in all.
pub proof fn law_fabric_memories_add_nothing(tasks: Seq<TaskActivity>, now_ms: i64, i: int)
    requires
        0 <= i < tasks.len(),
    ensures
        fabric_memories(tasks.take(i + 1), now_ms).len() == fabric_memories(
            tasks.take(i),
            now_ms,
        ).len() + tasks[i].decisions@.len(),
        fabric_memories(tasks.take(0), now_ms).len() == 0,
{
    assert(tasks.take(i + 1).drop_last() =~= tasks.take(i));
    assert(tasks.take(i + 1).last() == tasks[i]);
}

/// The memory of a piece of code tells the pattern and the file, and holds the
/// snippet and the query; that of a decision tells it and how it went.
pub proof fn law_connector_memories_tell_what_was_found(
    c: RAGCodeResult,
    query: Seq<char>,
    timestamp: i64,
    e: WorkflowExecution,
    d: WorkflowDecision,
    t: TaskActivity,
    o: TaskDecision,
    now_ms: i64,
)
    ensures
        code_memory(c, query, timestamp, now_ms).content matches ContentModel::TextJson {
            text,
            json,
        } && text == "Code pattern: "@ + c.pattern@ + " in "@ + c.file_path@ && json.field(
            "snippet"@,
        ) == Some(JsonTree::Text(c.snippet@)) && json.field("query"@) == Some(
            JsonTree::Text(query),
        ),
        workflow_memory(e, d, now_ms).content matches ContentModel::TextJson { text, json } && text
            == "Workflow decision: "@ + d.description@ + " ("@ + (if d.approved {
            "approved"@
        } else {
            "rejected"@
        }) + ")"@ && json.field("approved"@) == Some(JsonTree::Bool(d.approved)),
        task_decision_memory(t, o, now_ms).content matches ContentModel::TextJson { text, json }
            && text == "Task decision: "@ + o.content@ + " ("@ + o.outcome@ + ")"@ && json.field(
            "outcome"@,
        ) == Some(JsonTree::Text(o.outcome@)),
{
    reveal_strlit("snippet");
    reveal_strlit("query");
    reveal_strlit("approved");
    reveal_strlit("status");
    reveal_strlit("outcome");
    reveal_strlit("task_status");
    assert("snippet"@.len() == 7 && "query"@.len() == 5 && "approved"@.len() == 8 && "status"@.len()
        == 6 && "outcome"@.len() == 7 && "task_status"@.len() == 11);
}

/// A request goes to the address of its source, with its key; without a key there is
/// none.
pub proof fn law_requests_carry_the_key(
    r: Result<PollRequest, String>,
    config: SourceConfig,
    path: Seq<char>,
    missing: Seq<char>,
)
    requires
        is_request(r, config, path, missing),
    ensures
        r is Ok <==> config.api_key is Some,
        r matches Ok(q) ==> config.endpoint@.is_prefix_of(q.url@) && path.is_suffix_of(q.url@)
            && q.url@.len() == config.endpoint@.len() + path.len(),
        r matches Ok(q) ==> (config.api_key matches Some(key) && q.authorization@ == "Bearer "@
            + key@),
        r matches Err(e) ==> e@ == missing,
{
    if let Ok(q) = r {
        let url = q.url@;
        assert(url.subrange(0, config.endpoint@.len() as int) =~= config.endpoint@);
        assert(url.subrange(url.len() - path.len(), url.len() as int) =~= path);
    }
}

} // verus!
