//! The data-fabric source: task records and validated facts.
use crate::decimal::{decimal, i64_text};
use crate::float::{
    law_tenths_grow, tenths, Float, EIGHT_TENTHS, HALF, NINE_TENTHS, ONE, SEVEN_TENTHS, SIX_TENTHS, ZERO,
};
use crate::json::{JsonMap, JsonTree};
use crate::memory::{ContentModel, ItemModel, MemoryItem, MemoryKind, ScopeKey, ScopeModel};
use crate::model::{opt, views};
use crate::source::ingestion::FetchFailure;
use crate::source::item::{
    four_texts, level_or, put_int, put_text, sourced_item, text_or, Draft,
};
use crate::text::{cat, cat3, same_beginning, same_text};
use vstd::prelude::*;

verus! {

/// A priority, held between 0 and 10.
pub open spec fn bounded_priority(priority: i32) -> int {
    if priority < 0 {
        0
    } else if priority > 10 {
        10
    } else {
        priority as int
    }
}

/// The importance of a task of a priority: a tenth for each step from 0 to 10.
/// Priorities beyond either end count as that end.
pub fn priority_to_importance(priority: i32) -> (r: Float)
    ensures
        r == tenths(bounded_priority(priority)),
        r.in_unit(),
{
    if priority <= 0 {
        Float(ZERO)
    } else if priority == 1 {
        Float(0x3dcc_cccd)
    } else if priority == 2 {
        Float(0x3e4c_cccd)
    } else if priority == 3 {
        Float(0x3e99_999a)
    } else if priority == 4 {
        Float(0x3ecc_cccd)
    } else if priority == 5 {
        Float(HALF)
    } else if priority == 6 {
        Float(SIX_TENTHS)
    } else if priority == 7 {
        Float(SEVEN_TENTHS)
    } else if priority == 8 {
        Float(EIGHT_TENTHS)
    } else if priority == 9 {
        Float(NINE_TENTHS)
    } else {
        Float(ONE)
    }
}

/// The confidence of a fact for which the source claims `upstream`.
pub open spec fn fact_confidence(upstream: Float) -> Float {
    if upstream.is_nan() {
        Float(SEVEN_TENTHS)
    } else {
        upstream.greater(Float(SEVEN_TENTHS)).unit()
    }
}

/// The confidence of a fact for which the source claims `upstream`: that, but at
/// least 0.7 and at most 1, and 0.7 where the claim is not a number.
pub fn floor_fact_confidence(upstream: Float) -> (r: Float)
    ensures
        r == fact_confidence(upstream),
        Float(SEVEN_TENTHS).at_most(r),
        r.at_most(Float(ONE)),
        Float(SEVEN_TENTHS).at_most(upstream) && upstream.at_most(Float(ONE)) ==> r == upstream,
{
    let cleaned = if upstream.nan() {
        Float(SEVEN_TENTHS)
    } else {
        upstream
    };
    cleaned.max(Float(SEVEN_TENTHS)).clamp_unit()
}

/// A task as data-fabric gives it.
#[derive(Debug)]
pub struct TaskRecord {
    pub id: String,
    pub task_type: String,
    pub status: String,
    pub title: String,
    pub description: String,
    pub started_at: i64,
    pub completed_at: Option<i64>,
    pub owner: String,
    pub priority: i32,
}

/// A fact as data-fabric gives it.
#[derive(Debug)]
pub struct FactRecord {
    pub id: String,
    pub content: String,
    pub category: String,
    pub validation_status: String,
    pub created_at: i64,
    pub confidence: Float,
}

/// The memory of a task: a fact once it is completed, until that an event, and
/// less sure.
pub open spec fn task_memory(task: TaskRecord, scope: ScopeModel) -> ItemModel {
    let completed = task.status@ == "completed"@;
    sourced_item(
        "datafabric"@,
        scope,
        "datafabric:task:"@ + task.id@,
        if completed {
            MemoryKind::Fact
        } else {
            MemoryKind::Event
        },
        task.started_at,
        task.task_type@ + ": "@ + task.title@,
        Map::empty().insert("type"@, JsonTree::Text("task"@)).insert(
            "task_type"@,
            JsonTree::Text(task.task_type@),
        ).insert("status"@, JsonTree::Text(task.status@)).insert(
            "title"@,
            JsonTree::Text(task.title@),
        ).insert("description"@, JsonTree::Text(task.description@)).insert(
            "priority"@,
            JsonTree::Int(task.priority as int),
        ).insert("owner"@, JsonTree::Text(task.owner@)),
        seq![
            "task"@,
            task.task_type@,
            "priority:"@ + decimal(task.priority as int),
            "datafabric"@,
        ],
        tenths(bounded_priority(task.priority)),
        if completed {
            Float(ONE)
        } else {
            Float(SEVEN_TENTHS)
        },
    )
}

/// The memory of a fact.
pub open spec fn fact_memory(fact: FactRecord, scope: ScopeModel) -> ItemModel {
    sourced_item(
        "datafabric"@,
        scope,
        "datafabric:fact:"@ + fact.id@,
        MemoryKind::Fact,
        fact.created_at,
        fact.content@,
        Map::empty().insert("type"@, JsonTree::Text("fact"@)).insert(
            "category"@,
            JsonTree::Text(fact.category@),
        ).insert("validation_status"@, JsonTree::Text(fact.validation_status@)),
        seq!["fact"@, fact.category@, "validated"@, "datafabric"@],
        Float(EIGHT_TENTHS),
        fact_confidence(fact.confidence),
    )
}

/// Makes the memory of a task.
pub fn memory_of_task(task: &TaskRecord, scope: &ScopeKey) -> (r: MemoryItem)
    ensures
        r@ == task_memory(*task, scope@),
{
    let completed = same_text(task.status.as_str(), "completed");
    let mut details = JsonMap::new();
    put_text(&mut details, "type", "task");
    put_text(&mut details, "task_type", task.task_type.as_str());
    put_text(&mut details, "status", task.status.as_str());
    put_text(&mut details, "title", task.title.as_str());
    put_text(&mut details, "description", task.description.as_str());
    put_int(&mut details, "priority", task.priority as i64);
    put_text(&mut details, "owner", task.owner.as_str());
    let priority = cat("priority:", i64_text(task.priority as i64).as_str());
    Draft {
        id: cat("datafabric:task:", task.id.as_str()),
        scope: scope.clone(),
        kind: if completed {
            MemoryKind::Fact
        } else {
            MemoryKind::Event
        },
        created_at_ms: task.started_at,
        text: cat3(task.task_type.as_str(), ": ", task.title.as_str()),
        details,
        tags: four_texts("task", task.task_type.as_str(), priority.as_str(), "datafabric"),
        importance: priority_to_importance(task.priority),
        confidence: if completed {
            Float(ONE)
        } else {
            Float(SEVEN_TENTHS)
        },
    }.into_item("datafabric")
}

/// Makes the memory of a fact.
pub fn memory_of_fact(fact: &FactRecord, scope: &ScopeKey) -> (r: MemoryItem)
    ensures
        r@ == fact_memory(*fact, scope@),
{
    let mut details = JsonMap::new();
    put_text(&mut details, "type", "fact");
    put_text(&mut details, "category", fact.category.as_str());
    put_text(&mut details, "validation_status", fact.validation_status.as_str());
    Draft {
        id: cat("datafabric:fact:", fact.id.as_str()),
        scope: scope.clone(),
        kind: MemoryKind::Fact,
        created_at_ms: fact.created_at,
        text: fact.content.clone(),
        details,
        tags: four_texts("fact", fact.category.as_str(), "validated", "datafabric"),
        importance: Float(EIGHT_TENTHS),
        confidence: floor_fact_confidence(fact.confidence),
    }.into_item("datafabric")
}

/// The memories of some tasks and facts: those of the tasks first.
pub open spec fn all_memories(
    tasks: Seq<TaskRecord>,
    facts: Seq<FactRecord>,
    scope: ScopeModel,
) -> Seq<ItemModel> {
    Seq::new(tasks.len(), |i: int| task_memory(tasks[i], scope)) + Seq::new(
        facts.len(),
        |i: int| fact_memory(facts[i], scope),
    )
}

/// The data-fabric source.
#[derive(Debug)]
pub struct DataFabricSource {
    /// Where data-fabric is reached.
    pub endpoint: String,
    /// The key that it asks for, where it asks for one.
    pub api_key: Option<String>,
}

impl DataFabricSource {
    /// The source at an address, without a key.
    pub fn new(endpoint: String) -> (r: DataFabricSource)
        ensures
            r.endpoint@ == endpoint@,
            r.api_key is None,
    {
        DataFabricSource { endpoint, api_key: None }
    }

    /// The same source with a key.
    pub fn with_api_key(self, key: String) -> (r: DataFabricSource)
        ensures
            r.endpoint@ == self.endpoint@,
            opt(r.api_key) == Some(key@),
    {
        DataFabricSource { endpoint: self.endpoint, api_key: Some(key) }
    }

    /// The name of the source.
    pub fn source_id(&self) -> (r: &'static str)
        ensures
            r@ == "datafabric"@,
    {
        "datafabric"
    }

    /// What the source offers.
    pub fn description(&self) -> (r: &'static str)
        ensures
            r@ == "Task records, modifications, and validated facts from data-fabric"@,
    {
        "Task records, modifications, and validated facts from data-fabric"
    }

    /// Where the tasks of a scope's workspace are asked for, from a moment on
    /// where one is given.
    pub fn tasks_url(&self, scope: &ScopeKey, since: Option<i64>) -> (r: String)
        ensures
            r@ == self.endpoint@ + "/v1/tasks?workspace="@ + level_or(
                scope@.workspace_id,
                "default"@,
            ) + match since {
                Some(ts) => "&since="@ + decimal(ts as int),
                None => Seq::empty(),
            },
    {
        let mut url = cat3(
            self.endpoint.as_str(),
            "/v1/tasks?workspace=",
            text_or(&scope.workspace_id, "default"),
        );
        let ghost plain = url@;
        match since {
            Some(ts) => {
                url.push_str(cat("&since=", i64_text(ts).as_str()).as_str());
            },
            None => {
                assert(plain + Seq::<char>::empty() =~= plain);
            },
        }
        url
    }

    /// Where the facts of a scope's workspace are asked for.
    pub fn facts_url(&self, scope: &ScopeKey) -> (r: String)
        ensures
            r@ == self.endpoint@ + "/v1/facts?workspace="@ + level_or(
                scope@.workspace_id,
                "default"@,
            ),
    {
        cat3(
            self.endpoint.as_str(),
            "/v1/facts?workspace=",
            text_or(&scope.workspace_id, "default"),
        )
    }

    /// Where the source's health is asked for.
    pub fn health_url(&self) -> (r: String)
        ensures
            r@ == self.endpoint@ + "/v1/health"@,
    {
        cat(self.endpoint.as_str(), "/v1/health")
    }

    /// The memories that the source's answers hold. Tasks must have been had;
    /// facts may be missing.
    pub fn fetch_memories(
        &self,
        scope: &ScopeKey,
        tasks: Result<Vec<TaskRecord>, FetchFailure>,
        facts: Option<Vec<FactRecord>>,
    ) -> (r: Result<Vec<MemoryItem>, String>)
        ensures
            match (r, tasks) {
                (Ok(memories), Ok(t)) => views(memories@) == all_memories(
                    t@,
                    match facts {
                        Some(f) => f@,
                        None => Seq::empty(),
                    },
                    scope@,
                ),
                (Err(e), Err(FetchFailure::Parse(m))) => e@
                    == "Failed to parse data-fabric tasks response: "@ + m@,
                (Err(e), Err(FetchFailure::Call(m))) => e@ == "Failed to call data-fabric API: "@
                    + m@,
                _ => false,
            },
    {
        let tasks = match tasks {
            Ok(t) => t,
            Err(FetchFailure::Parse(m)) => {
                return Err(cat("Failed to parse data-fabric tasks response: ", m.as_str()));
            },
            Err(FetchFailure::Call(m)) => {
                return Err(cat("Failed to call data-fabric API: ", m.as_str()));
            },
        };
        let facts = match facts {
            Some(f) => f,
            None => Vec::new(),
        };
        let ghost whole = all_memories(tasks@, facts@, scope@);
        let mut out: Vec<MemoryItem> = Vec::new();
        for i in 0..tasks.len()
            invariant
                whole == all_memories(tasks@, facts@, scope@),
                out@.len() == i,
                forall|k: int| 0 <= k < i ==> (#[trigger] out@[k])@ == whole[k],
        {
            out.push(memory_of_task(&tasks[i], scope));
        }
        for i in 0..facts.len()
            invariant
                whole == all_memories(tasks@, facts@, scope@),
                out@.len() == tasks@.len() + i,
                forall|k: int| 0 <= k < out@.len() ==> (#[trigger] out@[k])@ == whole[k],
        {
            out.push(memory_of_fact(&facts[i], scope));
        }
        assert(views(out@) =~= whole);
        Ok(out)
    }
}

/// Every task and every fact becomes one memory, the tasks first, in their order,
/// each in the scope that was asked for, under its own id and at its own moment.
pub proof fn law_records_become_memories(
    tasks: Seq<TaskRecord>,
    facts: Seq<FactRecord>,
    scope: ScopeModel,
)
    ensures
        all_memories(tasks, facts, scope).len() == tasks.len() + facts.len(),
        forall|i: int|
            0 <= i < tasks.len() ==> {
                let memory = #[trigger] all_memories(tasks, facts, scope)[i];
                &&& memory.id == "datafabric:task:"@ + tasks[i].id@
                &&& memory.scope == scope
                &&& memory.created_at_ms == tasks[i].started_at
                &&& memory.source == "datafabric"@
            },
        forall|i: int|
            0 <= i < facts.len() ==> {
                let memory = all_memories(tasks, facts, scope)[tasks.len() + i];
                &&& memory.id == "datafabric:fact:"@ + (#[trigger] facts[i]).id@
                &&& memory.scope == scope
                &&& memory.created_at_ms == facts[i].created_at
                &&& memory.source == "datafabric"@
                &&& memory.kind == MemoryKind::Fact
            },
{
}

/// A task's memory tells its type and title, and holds its description, status,
/// owner and priority; it is a sure fact once the task is completed and an event
/// until that.
pub proof fn law_task_memory_tells_its_task(task: TaskRecord, scope: ScopeModel)
    ensures
        task_memory(task, scope).content matches ContentModel::TextJson { text, json } && {
            &&& text == task.task_type@ + ": "@ + task.title@
            &&& json.field("description"@) == Some(JsonTree::Text(task.description@))
            &&& json.field("title"@) == Some(JsonTree::Text(task.title@))
            &&& json.field("task_type"@) == Some(JsonTree::Text(task.task_type@))
            &&& json.field("status"@) == Some(JsonTree::Text(task.status@))
            &&& json.field("owner"@) == Some(JsonTree::Text(task.owner@))
            &&& json.field("priority"@) == Some(JsonTree::Int(task.priority as int))
        },
        task.status@ == "completed"@ ==> task_memory(task, scope).kind == MemoryKind::Fact
            && task_memory(task, scope).confidence == Float(0x3f80_0000),
        task.status@ != "completed"@ ==> task_memory(task, scope).kind == MemoryKind::Event
            && task_memory(task, scope).confidence.below(Float(0x3f80_0000)),
        task_memory(task, scope).tags.contains(task.task_type@),
        task_memory(task, scope).tags.contains("priority:"@ + decimal(task.priority as int)),
{
    reveal_strlit("type");
    reveal_strlit("task_type");
    reveal_strlit("status");
    reveal_strlit("title");
    reveal_strlit("description");
    reveal_strlit("priority");
    reveal_strlit("owner");
    assert("type"@.len() == 4 && "task_type"@.len() == 9 && "status"@.len() == 6 && "title"@.len()
        == 5 && "description"@.len() == 11 && "priority"@.len() == 8 && "owner"@.len() == 5);
    assert("title"@[0] == 't' && "owner"@[0] == 'o');
    let tags = task_memory(task, scope).tags;
    assert(tags[1] == task.task_type@);
    assert(tags[2] == "priority:"@ + decimal(task.priority as int));
}

/// A fact's memory tells its content, under its category, and is at least as sure as
/// 0.7 and as the source says, but never more than sure.
pub proof fn law_fact_memory_tells_its_fact(fact: FactRecord, scope: ScopeModel)
    ensures
        fact_memory(fact, scope).content matches ContentModel::TextJson { text, json } && {
            &&& text == fact.content@
            &&& json.field("category"@) == Some(JsonTree::Text(fact.category@))
            &&& json.field("validation_status"@) == Some(JsonTree::Text(fact.validation_status@))
        },
        fact_memory(fact, scope).tags.contains(fact.category@),
        Float(SEVEN_TENTHS).at_most(fact_memory(fact, scope).confidence),
        fact_memory(fact, scope).confidence.at_most(Float(0x3f80_0000)),
        Float(SEVEN_TENTHS).at_most(fact.confidence) && fact.confidence.at_most(Float(0x3f80_0000))
            ==> fact_memory(fact, scope).confidence == fact.confidence,
        !fact.confidence.is_nan() && Float(0x3f80_0000).below(fact.confidence) ==> fact_memory(
            fact,
            scope,
        ).confidence == Float(0x3f80_0000),
{
    reveal_strlit("type");
    reveal_strlit("category");
    reveal_strlit("validation_status");
    assert("type"@.len() == 4 && "category"@.len() == 8 && "validation_status"@.len() == 17);
    let tags = fact_memory(fact, scope).tags;
    assert(tags[1] == fact.category@);
}

/// Different records become different memories: two tasks, two facts, or a task and
/// a fact.
pub proof fn law_different_records_have_different_names(
    a: TaskRecord,
    b: TaskRecord,
    c: FactRecord,
    d: FactRecord,
    scope: ScopeModel,
)
    ensures
        a.id@ != b.id@ ==> task_memory(a, scope).id != task_memory(b, scope).id,
        c.id@ != d.id@ ==> fact_memory(c, scope).id != fact_memory(d, scope).id,
        task_memory(a, scope).id != fact_memory(c, scope).id,
{
    same_beginning("datafabric:task:"@, a.id@, b.id@);
    same_beginning("datafabric:fact:"@, c.id@, d.id@);
    reveal_strlit("datafabric:task:");
    reveal_strlit("datafabric:fact:");
    assert(task_memory(a, scope).id[11] == 't' && fact_memory(c, scope).id[11] == 'f');
}

/// A task of higher priority is more important, from 0 up to 10; beyond these ends
/// nothing changes.
pub proof fn law_importance_follows_priority(a: TaskRecord, b: TaskRecord, scope: ScopeModel)
    ensures
        0 <= a.priority < b.priority <= 10 ==> task_memory(a, scope).importance.below(
            task_memory(b, scope).importance,
        ),
        a.priority <= 0 ==> task_memory(a, scope).importance == Float(0),
        a.priority >= 10 ==> task_memory(a, scope).importance == Float(0x3f80_0000),
        a.priority == 5 ==> task_memory(a, scope).importance == Float(0x3f00_0000),
{
    if 0 <= a.priority < b.priority <= 10 {
        law_tenths_grow(a.priority as int, b.priority as int);
    }
}

} // verus!
