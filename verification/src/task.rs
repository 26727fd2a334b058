//! Tasks and checkpoints: records that are stored as memories of their own
//! kinds, with their fields in the JSON content.
use crate::facts::{make_text_list, read_text_members, text_list, text_list_members, text_members};
use crate::float::{Float, HALF};
use crate::json::{copy_json, tree_cases, Json, JsonMap, JsonTree};
use crate::memory::{
    fresh_item, kind_name, now_ms, Content, ContentModel, ItemModel, MemoryId, MemoryItem,
    MemoryKind, ScopeKey, ScopeModel,
};
use crate::model::{copy_texts, views};
use crate::text::{cat, cat3, same_text};
use vstd::prelude::*;

verus! {

/// The metadata key under which a checkpoint names its task.
pub const META_TASK_ID: &'static str = "task_id";

/// What the tag of a task's checkpoints starts with.
pub const TAG_TASK_PREFIX: &'static str = "task:";

/// The tag by which the checkpoints of a task are found.
pub fn task_tag(task_id: &str) -> (r: String)
    ensures
        r@ == TAG_TASK_PREFIX@ + task_id@,
{
    cat(TAG_TASK_PREFIX, task_id)
}

/// How far a task has got.
#[derive(Debug, Clone, Copy, PartialEq, Eq, Hash, Structural)]
pub enum TaskStatus {
    Pending,
    InProgress,
    Blocked,
    Completed,
    Failed,
}

/// The word for a status.
pub open spec fn status_text(status: TaskStatus) -> Seq<char> {
    match status {
        TaskStatus::Pending => "pending"@,
        TaskStatus::InProgress => "in_progress"@,
        TaskStatus::Blocked => "blocked"@,
        TaskStatus::Completed => "completed"@,
        TaskStatus::Failed => "failed"@,
    }
}

/// The status that a word names.
pub open spec fn status_named(word: Seq<char>) -> Option<TaskStatus> {
    if word == "pending"@ {
        Some(TaskStatus::Pending)
    } else if word == "in_progress"@ {
        Some(TaskStatus::InProgress)
    } else if word == "blocked"@ {
        Some(TaskStatus::Blocked)
    } else if word == "completed"@ {
        Some(TaskStatus::Completed)
    } else if word == "failed"@ {
        Some(TaskStatus::Failed)
    } else {
        None
    }
}

/// The variant name that a JSON value gives: a text, or the single key of an
/// object whose value is null.
pub open spec fn variant_name(value: JsonTree) -> Option<Seq<char>> {
    match value {
        JsonTree::Text(t) => Some(t),
        JsonTree::Object(m) => {
            let key = m.dom().choose();
            if m.dom() == Set::<Seq<char>>::empty().insert(key) && m[key] is Null {
                Some(key)
            } else {
                None
            }
        },
        _ => None,
    }
}

/// The status that a JSON value gives.
pub open spec fn status_of(value: JsonTree) -> Option<TaskStatus> {
    match variant_name(value) {
        Some(word) => status_named(word),
        None => None,
    }
}

impl TaskStatus {
    /// The word for this status.
    pub fn as_str(&self) -> (r: &'static str)
        ensures
            r@ == status_text(*self),
    {
        match self {
            TaskStatus::Pending => "pending",
            TaskStatus::InProgress => "in_progress",
            TaskStatus::Blocked => "blocked",
            TaskStatus::Completed => "completed",
            TaskStatus::Failed => "failed",
        }
    }

    /// Reads a status.
    pub fn parse(word: &str) -> (r: Option<TaskStatus>)
        ensures
            r == status_named(word@),
    {
        if same_text(word, "pending") {
            Some(TaskStatus::Pending)
        } else if same_text(word, "in_progress") {
            Some(TaskStatus::InProgress)
        } else if same_text(word, "blocked") {
            Some(TaskStatus::Blocked)
        } else if same_text(word, "completed") {
            Some(TaskStatus::Completed)
        } else if same_text(word, "failed") {
            Some(TaskStatus::Failed)
        } else {
            None
        }
    }
}

/// The word for a status reads back as that status.
pub proof fn law_status_reads_back(status: TaskStatus)
    ensures
        status_named(status_text(status)) == Some(status),
{
    reveal_strlit("pending");
    reveal_strlit("in_progress");
    reveal_strlit("blocked");
    reveal_strlit("completed");
    reveal_strlit("failed");
    assert(status_text(status)[0] == 'p' || status_text(status)[0] == 'i' || status_text(status)[0]
        == 'b' || status_text(status)[0] == 'c' || status_text(status)[0] == 'f');
}

fn single_null_key(map: &JsonMap) -> (r: Option<String>)
    ensures
        match r {
            Some(k) => variant_name(JsonTree::Object(map@)) == Some(k@),
            None => variant_name(JsonTree::Object(map@)) is None,
        },
{
    let n: usize = map.len();
    let ghost chosen = map@.dom().choose();
    if n != 1 {
        proof {
            if map@.dom() == Set::<Seq<char>>::empty().insert(chosen) {
                assert(map@.contains_key(chosen));
                assert(map.keys().contains(chosen));
                if n >= 2 {
                    assert(map.keys().contains(map.keys()[0]));
                    assert(map.keys().contains(map.keys()[1]));
                    assert(map@.contains_key(map.keys()[0]));
                    assert(map@.contains_key(map.keys()[1]));
                    assert(false);
                }
            }
        }
        return None;
    }
    let e = map.entry(0);
    proof {
        assert(map.keys().contains(map.keys()[0]));
        assert forall|k: Seq<char>| map@.contains_key(k) implies k == map.keys()[0] by {
            assert(map.keys().contains(k));
        }
        assert(map@.dom() =~= Set::<Seq<char>>::empty().insert(map.keys()[0]));
        assert(map@.dom().contains(map.keys()[0]));
        assert(chosen == map.keys()[0]);
    }
    broadcast use tree_cases;

    match e.1 {
        Json::Null => Some(e.0.to_owned()),
        _ => None,
    }
}

fn read_status(value: &Json) -> (r: Option<TaskStatus>)
    ensures
        r == status_of(value@),
{
    match value.as_text() {
        Some(word) => TaskStatus::parse(word),
        None => match value.as_object() {
            Some(m) => match single_null_key(m) {
                Some(word) => TaskStatus::parse(word.as_str()),
                None => None,
            },
            None => None,
        },
    }
}

/// A task: what is to be done, how far it has got and what it waits for.
#[derive(Debug)]
pub struct TaskRecord {
    pub id: MemoryId,
    pub scope: ScopeKey,
    pub status: TaskStatus,
    pub description: String,
    pub depends_on: Vec<String>,
    pub importance: Float,
}

/// The model of a task.
pub struct TaskModel {
    pub id: Seq<char>,
    pub scope: ScopeModel,
    pub status: TaskStatus,
    pub description: Seq<char>,
    pub depends_on: Seq<Seq<char>>,
    pub importance: Float,
}

impl View for TaskRecord {
    type V = TaskModel;

    open spec fn view(&self) -> TaskModel {
        TaskModel {
            id: self.id@,
            scope: self.scope@,
            status: self.status,
            description: self.description@,
            depends_on: views(self.depends_on@),
            importance: self.importance,
        }
    }
}

impl Clone for TaskRecord {
    fn clone(&self) -> (r: TaskRecord)
        ensures
            r@ == self@,
    {
        TaskRecord {
            id: self.id.clone(),
            scope: self.scope.clone(),
            status: self.status,
            description: self.description.clone(),
            depends_on: copy_texts(&self.depends_on),
            importance: self.importance,
        }
    }
}

/// A snapshot of a task's execution, from which it can be taken up again.
#[derive(Debug)]
pub struct CheckpointRecord {
    pub id: MemoryId,
    pub scope: ScopeKey,
    pub task_id: String,
    pub step: i64,
    pub scratchpad: Json,
    pub importance: Float,
}

/// The model of a checkpoint.
pub struct CheckpointModel {
    pub id: Seq<char>,
    pub scope: ScopeModel,
    pub task_id: Seq<char>,
    pub step: i64,
    pub scratchpad: JsonTree,
    pub importance: Float,
}

impl View for CheckpointRecord {
    type V = CheckpointModel;

    open spec fn view(&self) -> CheckpointModel {
        CheckpointModel {
            id: self.id@,
            scope: self.scope@,
            task_id: self.task_id@,
            step: self.step,
            scratchpad: self.scratchpad@,
            importance: self.importance,
        }
    }
}

impl Clone for CheckpointRecord {
    fn clone(&self) -> (r: CheckpointRecord)
        ensures
            r@ == self@,
    {
        CheckpointRecord {
            id: self.id.clone(),
            scope: self.scope.clone(),
            task_id: self.task_id.clone(),
            step: self.step,
            scratchpad: copy_json(&self.scratchpad),
            importance: self.importance,
        }
    }
}

/// Why a memory is no task or no checkpoint.
#[derive(Debug, PartialEq, Eq)]
pub enum TaskParseError {
    WrongKind { expected: MemoryKind, actual: MemoryKind },
    NotJsonContent { got: &'static str },
    MissingField(&'static str),
    WrongFieldType(&'static str),
}

/// The model of that error.
pub enum TaskIssue {
    WrongKind { expected: MemoryKind, actual: MemoryKind },
    NotJsonContent { got: Seq<char> },
    MissingField { field: Seq<char> },
    WrongFieldType { field: Seq<char> },
}

impl View for TaskParseError {
    type V = TaskIssue;

    open spec fn view(&self) -> TaskIssue {
        match self {
            TaskParseError::WrongKind { expected, actual } => TaskIssue::WrongKind {
                expected: *expected,
                actual: *actual,
            },
            TaskParseError::NotJsonContent { got } => TaskIssue::NotJsonContent { got: got@ },
            TaskParseError::MissingField(field) => TaskIssue::MissingField { field: field@ },
            TaskParseError::WrongFieldType(field) => TaskIssue::WrongFieldType { field: field@ },
        }
    }
}

/// What is wrong, in words.
pub open spec fn task_issue_text(issue: TaskIssue) -> Seq<char> {
    match issue {
        TaskIssue::WrongKind { expected, actual } => "wrong memory kind: expected "@ + kind_name(
            expected,
        ) + ", got "@ + kind_name(actual),
        TaskIssue::NotJsonContent { got } => "content is not Content::Json (was "@ + got + ")"@,
        TaskIssue::MissingField { field } => "missing required field: "@ + field,
        TaskIssue::WrongFieldType { field } => "field "@ + field + " has wrong type"@,
    }
}

impl TaskParseError {
    /// What is wrong, in words.
    pub fn to_string(&self) -> (r: String)
        ensures
            r@ == task_issue_text(self@),
    {
        match self {
            TaskParseError::WrongKind { expected, actual } => {
                let mut out = cat3("wrong memory kind: expected ", expected.name(), ", got ");
                out.push_str(actual.name());
                out
            },
            TaskParseError::NotJsonContent { got } => cat3(
                "content is not Content::Json (was ",
                got,
                ")",
            ),
            TaskParseError::MissingField(field) => cat("missing required field: ", field),
            TaskParseError::WrongFieldType(field) => cat3("field ", field, " has wrong type"),
        }
    }
}

/// The JSON content of a memory of the right kind.
pub open spec fn json_content(item: ItemModel, kind: MemoryKind) -> Result<JsonTree, TaskIssue> {
    if item.kind != kind {
        Err(TaskIssue::WrongKind { expected: kind, actual: item.kind })
    } else {
        match item.content {
            ContentModel::Json(j) => Ok(j),
            ContentModel::Text(_) => Err(TaskIssue::NotJsonContent { got: "text"@ }),
            ContentModel::TextJson { .. } => Err(TaskIssue::NotJsonContent { got: "text_json"@ }),
        }
    }
}

fn read_json_content(item: &MemoryItem, kind: MemoryKind) -> (r: Result<&Json, TaskParseError>)
    ensures
        match (r, json_content(item@, kind)) {
            (Ok(j), Ok(t)) => j@ == t,
            (Err(e), Err(f)) => e@ == f,
            _ => false,
        },
{
    if item.kind != kind {
        return Err(TaskParseError::WrongKind { expected: kind, actual: item.kind });
    }
    match &item.content {
        Content::Json(j) => Ok(j),
        Content::Text(_) => Err(TaskParseError::NotJsonContent { got: "text" }),
        Content::TextJson { .. } => Err(TaskParseError::NotJsonContent { got: "text_json" }),
    }
}

/// The texts in the list under `depends_on`; none where there is no list.
pub open spec fn depends_on_of(body: JsonTree) -> Seq<Seq<char>> {
    match body.field("depends_on"@) {
        Some(v) => match v.as_list() {
            Some(l) => text_members(l),
            None => Seq::empty(),
        },
        None => Seq::empty(),
    }
}

/// The text under `field`, if there is one.
pub open spec fn text_under(body: JsonTree, field: Seq<char>) -> Option<Seq<char>> {
    match body.field(field) {
        Some(v) => v.as_text(),
        None => None,
    }
}

/// The task that a memory stands for.
pub open spec fn task_of(item: ItemModel) -> Result<TaskModel, TaskIssue> {
    match json_content(item, MemoryKind::Task) {
        Err(e) => Err(e),
        Ok(body) => match body.field("status"@) {
            None => Err(TaskIssue::MissingField { field: "status"@ }),
            Some(v) => match status_of(v) {
                None => Err(TaskIssue::WrongFieldType { field: "status"@ }),
                Some(status) => match text_under(body, "description"@) {
                    None => Err(TaskIssue::MissingField { field: "description"@ }),
                    Some(description) => Ok(
                        TaskModel {
                            id: item.id,
                            scope: item.scope,
                            status,
                            description,
                            depends_on: depends_on_of(body),
                            importance: item.importance,
                        },
                    ),
                },
            },
        },
    }
}

/// The content of a task's memory.
pub open spec fn task_body(task: TaskModel) -> JsonTree {
    JsonTree::Object(
        Map::empty().insert("status"@, JsonTree::Text(status_text(task.status))).insert(
            "description"@,
            JsonTree::Text(task.description),
        ).insert("depends_on"@, text_list(task.depends_on)),
    )
}

/// The memory that stands for a task.
pub open spec fn task_item(task: TaskModel, source: Seq<char>, created_at_ms: i64) -> ItemModel {
    ItemModel {
        importance: task.importance,
        ..fresh_item(
            task.id,
            task.scope,
            MemoryKind::Task,
            ContentModel::Json(task_body(task)),
            source,
            created_at_ms,
        )
    }
}

impl TaskRecord {
    /// A task that waits for nothing, of middling importance.
    pub fn new(id: MemoryId, scope: ScopeKey, status: TaskStatus, description: String) -> (r: TaskRecord)
        ensures
            r@ == (TaskModel {
                id: id@,
                scope: scope@,
                status,
                description: description@,
                depends_on: Seq::empty(),
                importance: Float(HALF),
            }),
    {
        let r = TaskRecord {
            id,
            scope,
            status,
            description,
            depends_on: Vec::new(),
            importance: Float(HALF),
        };
        assert(views(r.depends_on@) =~= Seq::<Seq<char>>::empty());
        r
    }

    /// The same task, waiting for `depends_on`.
    pub fn with_depends_on(self, depends_on: Vec<String>) -> (r: TaskRecord)
        ensures
            r@ == (TaskModel { depends_on: views(depends_on@), ..self@ }),
    {
        TaskRecord { depends_on, ..self }
    }

    /// The same task with its importance brought into 0 to 1.
    pub fn with_importance(self, importance: Float) -> (r: TaskRecord)
        ensures
            r@ == (TaskModel { importance: importance.unit(), ..self@ }),
    {
        TaskRecord { importance: importance.clamp_unit(), ..self }
    }

    /// The memory that stands for the task, made now.
    pub fn into_memory_item(self, source: String) -> (r: MemoryItem)
        ensures
            r@ == task_item(self@, source@, r.created_at_ms),
    {
        self.into_memory_item_at(source, now_ms())
    }

    /// The memory that stands for the task, made at `created_at_ms`.
    pub fn into_memory_item_at(self, source: String, created_at_ms: i64) -> (r: MemoryItem)
        ensures
            r@ == task_item(self@, source@, created_at_ms),
    {
        broadcast use tree_cases;

        let mut body = JsonMap::new();
        body.insert("status".to_owned(), Json::text(self.status.as_str()));
        body.insert("description".to_owned(), Json::text(self.description.as_str()));
        body.insert("depends_on".to_owned(), make_text_list(&self.depends_on));
        let mut item = MemoryItem::new_at(
            self.id,
            self.scope,
            MemoryKind::Task,
            Content::Json(Json::Object(body)),
            source,
            created_at_ms,
        );
        item.importance = self.importance;
        item
    }

    /// Reads the task out of a memory.
    pub fn try_from_memory_item(item: &MemoryItem) -> (r: Result<TaskRecord, TaskParseError>)
        ensures
            match (r, task_of(item@)) {
                (Ok(t), Ok(m)) => t@ == m,
                (Err(e), Err(f)) => e@ == f,
                _ => false,
            },
    {
        let body = match read_json_content(item, MemoryKind::Task) {
            Ok(j) => j,
            Err(e) => return Err(e),
        };
        let status = match body.get("status") {
            None => return Err(TaskParseError::MissingField("status")),
            Some(v) => match read_status(v) {
                None => return Err(TaskParseError::WrongFieldType("status")),
                Some(s) => s,
            },
        };
        let description = match body.get("description") {
            None => return Err(TaskParseError::MissingField("description")),
            Some(v) => match v.as_text() {
                None => return Err(TaskParseError::MissingField("description")),
                Some(t) => t.to_owned(),
            },
        };
        let depends_on: Vec<String> = match body.get("depends_on") {
            Some(v) => match v.as_list() {
                Some(l) => read_text_members(l),
                None => Vec::new(),
            },
            None => Vec::new(),
        };
        assert(views(depends_on@) =~= depends_on_of(body@));
        Ok(
            TaskRecord {
                id: item.id.clone(),
                scope: item.scope.clone(),
                status,
                description,
                depends_on,
                importance: item.importance,
            },
        )
    }
}

/// The checkpoint that a memory stands for.
pub open spec fn checkpoint_of(item: ItemModel) -> Result<CheckpointModel, TaskIssue> {
    match json_content(item, MemoryKind::Checkpoint) {
        Err(e) => Err(e),
        Ok(body) => match text_under(JsonTree::Object(item.meta), META_TASK_ID@) {
            None => Err(TaskIssue::MissingField { field: "meta.task_id"@ }),
            Some(task_id) => match (match body.field("step"@) {
                Some(v) => v.as_i64(),
                None => None,
            }) {
                None => Err(TaskIssue::MissingField { field: "step"@ }),
                Some(step) => match body.field("scratchpad"@) {
                    None => Err(TaskIssue::MissingField { field: "scratchpad"@ }),
                    Some(scratchpad) => Ok(
                        CheckpointModel {
                            id: item.id,
                            scope: item.scope,
                            task_id,
                            step,
                            scratchpad,
                            importance: item.importance,
                        },
                    ),
                },
            },
        },
    }
}

/// The content of a checkpoint's memory.
pub open spec fn checkpoint_body(c: CheckpointModel) -> JsonTree {
    JsonTree::Object(
        Map::empty().insert("step"@, JsonTree::Int(c.step as int)).insert(
            "scratchpad"@,
            c.scratchpad,
        ),
    )
}

/// The memory that stands for a checkpoint: tagged with its task, and naming it
/// in the metadata.
pub open spec fn checkpoint_item(
    c: CheckpointModel,
    source: Seq<char>,
    created_at_ms: i64,
) -> ItemModel {
    ItemModel {
        importance: c.importance,
        tags: seq![TAG_TASK_PREFIX@ + c.task_id],
        meta: Map::<Seq<char>, JsonTree>::empty().insert(
            META_TASK_ID@,
            JsonTree::Text(c.task_id),
        ),
        ..fresh_item(
            c.id,
            c.scope,
            MemoryKind::Checkpoint,
            ContentModel::Json(checkpoint_body(c)),
            source,
            created_at_ms,
        )
    }
}

impl CheckpointRecord {
    /// A checkpoint of middling importance.
    pub fn new(
        id: MemoryId,
        scope: ScopeKey,
        task_id: String,
        step: i64,
        scratchpad: Json,
    ) -> (r: CheckpointRecord)
        ensures
            r@ == (CheckpointModel {
                id: id@,
                scope: scope@,
                task_id: task_id@,
                step,
                scratchpad: scratchpad@,
                importance: Float(HALF),
            }),
    {
        CheckpointRecord { id, scope, task_id, step, scratchpad, importance: Float(HALF) }
    }

    /// The same checkpoint with its importance brought into 0 to 1.
    pub fn with_importance(self, importance: Float) -> (r: CheckpointRecord)
        ensures
            r@ == (CheckpointModel { importance: importance.unit(), ..self@ }),
    {
        CheckpointRecord { importance: importance.clamp_unit(), ..self }
    }

    /// The memory that stands for this checkpoint, made now.
    pub fn into_memory_item(self, source: String) -> (r: MemoryItem)
        ensures
            r@ == checkpoint_item(self@, source@, r.created_at_ms),
    {
        self.into_memory_item_at(source, now_ms())
    }

    /// The memory that stands for this checkpoint, made at `created_at_ms`.
    pub fn into_memory_item_at(self, source: String, created_at_ms: i64) -> (r: MemoryItem)
        ensures
            r@ == checkpoint_item(self@, source@, created_at_ms),
    {
        broadcast use tree_cases;

        let mut body = JsonMap::new();
        body.insert("step".to_owned(), Json::from_i64(self.step));
        body.insert("scratchpad".to_owned(), copy_json(&self.scratchpad));
        let mut item = MemoryItem::new_at(
            self.id,
            self.scope,
            MemoryKind::Checkpoint,
            Content::Json(Json::Object(body)),
            source,
            created_at_ms,
        );
        item.importance = self.importance;
        let mut tags: Vec<String> = Vec::new();
        tags.push(task_tag(self.task_id.as_str()));
        assert(views(tags@) =~= seq![TAG_TASK_PREFIX@ + self.task_id@]);
        item.tags = tags;
        let mut meta = JsonMap::new();
        meta.insert(META_TASK_ID.to_owned(), Json::text(self.task_id.as_str()));
        item.meta = meta;
        item
    }

    /// Reads the checkpoint out of a memory.
    pub fn try_from_memory_item(item: &MemoryItem) -> (r: Result<CheckpointRecord, TaskParseError>)
        ensures
            match (r, checkpoint_of(item@)) {
                (Ok(t), Ok(m)) => t@ == m,
                (Err(e), Err(f)) => e@ == f,
                _ => false,
            },
    {
        let body = match read_json_content(item, MemoryKind::Checkpoint) {
            Ok(j) => j,
            Err(e) => return Err(e),
        };
        let task_id = match item.meta.get(META_TASK_ID) {
            None => return Err(TaskParseError::MissingField("meta.task_id")),
            Some(v) => match v.as_text() {
                None => return Err(TaskParseError::MissingField("meta.task_id")),
                Some(t) => t.to_owned(),
            },
        };
        let step: i64 = match body.get("step") {
            None => return Err(TaskParseError::MissingField("step")),
            Some(v) => match v.as_i64() {
                None => return Err(TaskParseError::MissingField("step")),
                Some(n) => n,
            },
        };
        let scratchpad = match body.get("scratchpad") {
            None => return Err(TaskParseError::MissingField("scratchpad")),
            Some(v) => copy_json(v),
        };
        Ok(
            CheckpointRecord {
                id: item.id.clone(),
                scope: item.scope.clone(),
                task_id,
                step,
                scratchpad,
                importance: item.importance,
            },
        )
    }
}

/// A task stored as a memory reads back as that task, whoever stores it and
/// whenever.
pub proof fn law_task_reads_back(task: TaskModel, source: Seq<char>, created_at_ms: i64)
    ensures
        task_of(task_item(task, source, created_at_ms)) == Ok::<TaskModel, TaskIssue>(task),
{
    reveal_strlit("status");
    reveal_strlit("description");
    reveal_strlit("depends_on");
    assert("status"@.len() == 6 && "description"@.len() == 11 && "depends_on"@.len() == 10);
    law_status_reads_back(task.status);
    text_list_members(task.depends_on);
}

/// A checkpoint stored as a memory reads back as that checkpoint, whoever
/// stores it and whenever.
pub proof fn law_checkpoint_reads_back(c: CheckpointModel, source: Seq<char>, created_at_ms: i64)
    ensures
        checkpoint_of(checkpoint_item(c, source, created_at_ms)) == Ok::<
            CheckpointModel,
            TaskIssue,
        >(c),
{
    reveal_strlit("step");
    reveal_strlit("scratchpad");
    assert("step"@.len() == 4 && "scratchpad"@.len() == 10);
}

/// Only its word names a status.
pub proof fn law_only_its_word_names_a_status(word: Seq<char>)
    ensures
        status_named(word) matches Some(status) ==> word == status_text(status),
{
}

/// The task that is read out of a memory is the one that the memory holds: of its id,
/// scope and importance, with the status and the description under these keys, and
/// with the texts under `depends_on` where a list stands there. A memory of another
/// kind, or whose content is not JSON, holds none.
pub proof fn law_tasks_are_read_from_their_fields(item: ItemModel)
    ensures
        task_of(item) matches Ok(task) ==> {
            &&& item.kind == MemoryKind::Task
            &&& task.id == item.id && task.scope == item.scope && task.importance
                == item.importance
            &&& item.content matches ContentModel::Json(body) && body.field("description"@) == Some(
                JsonTree::Text(task.description),
            ) && (body.field("status"@) matches Some(v) && (v is Text ==> v == JsonTree::Text(
                status_text(task.status),
            ))) && match body.field("depends_on"@) {
                Some(JsonTree::List(l)) => task.depends_on == text_members(l),
                _ => task.depends_on.len() == 0,
            }
        },
        item.kind != MemoryKind::Task || !(item.content is Json) ==> task_of(item) is Err,
{
    if let ContentModel::Json(body) = item.content {
        if let Some(v) = body.field("status"@) {
            if let JsonTree::Text(word) = v {
                law_only_its_word_names_a_status(word);
            }
        }
    }
}

/// The checkpoint that is read out of a memory is the one that the memory holds: of
/// its id, scope and importance, of the task that the metadata names, with the step
/// and the scratchpad under these keys.
pub proof fn law_checkpoints_are_read_from_their_fields(item: ItemModel)
    ensures
        checkpoint_of(item) matches Ok(c) ==> {
            &&& item.kind == MemoryKind::Checkpoint
            &&& c.id == item.id && c.scope == item.scope && c.importance == item.importance
            &&& item.meta.contains_key("task_id"@) && item.meta["task_id"@] == JsonTree::Text(
                c.task_id,
            )
            &&& item.content matches ContentModel::Json(body) && body.field("step"@) == Some(
                JsonTree::Int(c.step as int),
            ) && body.field("scratchpad"@) == Some(c.scratchpad)
        },
        item.kind != MemoryKind::Checkpoint || !(item.content is Json) ==> checkpoint_of(item) is Err,
{
}

/// A checkpoint is stored under its id, in its scope and as important as it is, with
/// the tag and the name of its task, and as made at the given moment; a task
/// likewise, under its own id.
pub proof fn law_tasks_and_checkpoints_are_stored_as_they_are(
    c: CheckpointModel,
    task: TaskModel,
    source: Seq<char>,
    created_at_ms: i64,
)
    ensures
        ({
            let item = checkpoint_item(c, source, created_at_ms);
            &&& item.id == c.id && item.scope == c.scope && item.kind == MemoryKind::Checkpoint
            &&& item.importance == c.importance && item.source == source && item.created_at_ms
                == created_at_ms
            &&& item.tags == seq!["task:"@ + c.task_id]
            &&& item.ttl_ms is None
        }),
        ({
            let item = task_item(task, source, created_at_ms);
            &&& item.id == task.id && item.scope == task.scope && item.kind == MemoryKind::Task
            &&& item.importance == task.importance && item.source == source && item.created_at_ms
                == created_at_ms
            &&& item.ttl_ms is None
        }),
{
}

} // verus!
