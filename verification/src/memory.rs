//! Memory items: what an agent remembers, where it belongs and how it is
//! weighed.
use crate::float::{Float, HALF, ONE};
use crate::json::{copy_json, copy_map, Json, JsonMap, JsonTree};
use crate::model::{copy_opt, copy_texts, opt, views};
use crate::text::same_text;
use vstd::prelude::*;

verus! {

/// The name of a memory item.
#[derive(Debug, PartialEq, Eq, Hash)]
pub struct MemoryId(pub String);

impl View for MemoryId {
    type V = Seq<char>;

    open spec fn view(&self) -> Seq<char> {
        self.0@
    }
}

impl Clone for MemoryId {
    fn clone(&self) -> (r: MemoryId)
        ensures
            r@ == self@,
    {
        MemoryId(self.0.clone())
    }
}

/// What sort of memory an item is.
#[derive(Debug, Clone, Copy, PartialEq, Eq, Hash, Structural)]
pub enum MemoryKind {
    /// Something that happened.
    Event,
    /// A condensed account of events.
    Summary,
    /// A durable claim.
    Fact,
    /// A rule on how to behave.
    Preference,
    /// Work to do or in progress.
    Task,
    /// A snapshot of an agent's state at a pause.
    Checkpoint,
}

/// A word that names no memory kind.
#[derive(Debug, PartialEq, Eq)]
pub struct ParseMemoryKindError(pub String);

/// The word for a kind: its name in lower case.
pub open spec fn kind_text(kind: MemoryKind) -> Seq<char> {
    match kind {
        MemoryKind::Event => "event"@,
        MemoryKind::Summary => "summary"@,
        MemoryKind::Fact => "fact"@,
        MemoryKind::Preference => "preference"@,
        MemoryKind::Task => "task"@,
        MemoryKind::Checkpoint => "checkpoint"@,
    }
}

/// The kind that a word names: the name in lower case or with a capital.
pub open spec fn kind_of(s: Seq<char>) -> Option<MemoryKind> {
    if s == "event"@ || s == "Event"@ {
        Some(MemoryKind::Event)
    } else if s == "summary"@ || s == "Summary"@ {
        Some(MemoryKind::Summary)
    } else if s == "fact"@ || s == "Fact"@ {
        Some(MemoryKind::Fact)
    } else if s == "preference"@ || s == "Preference"@ {
        Some(MemoryKind::Preference)
    } else if s == "task"@ || s == "Task"@ {
        Some(MemoryKind::Task)
    } else if s == "checkpoint"@ || s == "Checkpoint"@ {
        Some(MemoryKind::Checkpoint)
    } else {
        None
    }
}

/// The name of a kind, with a capital.
pub open spec fn kind_name(kind: MemoryKind) -> Seq<char> {
    match kind {
        MemoryKind::Event => "Event"@,
        MemoryKind::Summary => "Summary"@,
        MemoryKind::Fact => "Fact"@,
        MemoryKind::Preference => "Preference"@,
        MemoryKind::Task => "Task"@,
        MemoryKind::Checkpoint => "Checkpoint"@,
    }
}

impl MemoryKind {
    /// The name of this kind, with a capital.
    pub fn name(&self) -> (r: &'static str)
        ensures
            r@ == kind_name(*self),
    {
        match self {
            MemoryKind::Event => "Event",
            MemoryKind::Summary => "Summary",
            MemoryKind::Fact => "Fact",
            MemoryKind::Preference => "Preference",
            MemoryKind::Task => "Task",
            MemoryKind::Checkpoint => "Checkpoint",
        }
    }

    /// The word for this kind, the same wherever kinds are written.
    pub fn as_str(&self) -> (r: &'static str)
        ensures
            r@ == kind_text(*self),
    {
        match self {
            MemoryKind::Event => "event",
            MemoryKind::Summary => "summary",
            MemoryKind::Fact => "fact",
            MemoryKind::Preference => "preference",
            MemoryKind::Task => "task",
            MemoryKind::Checkpoint => "checkpoint",
        }
    }

    /// The word for this kind.
    pub fn to_string(&self) -> (r: String)
        ensures
            r@ == kind_text(*self),
    {
        self.as_str().to_owned()
    }

    /// Reads a kind.
    pub fn from_str(s: &str) -> (r: Result<MemoryKind, ParseMemoryKindError>)
        ensures
            match r {
                Ok(kind) => kind_of(s@) == Some(kind),
                Err(e) => kind_of(s@) is None && e.0@ == s@,
            },
    {
        if same_text(s, "event") || same_text(s, "Event") {
            Ok(MemoryKind::Event)
        } else if same_text(s, "summary") || same_text(s, "Summary") {
            Ok(MemoryKind::Summary)
        } else if same_text(s, "fact") || same_text(s, "Fact") {
            Ok(MemoryKind::Fact)
        } else if same_text(s, "preference") || same_text(s, "Preference") {
            Ok(MemoryKind::Preference)
        } else if same_text(s, "task") || same_text(s, "Task") {
            Ok(MemoryKind::Task)
        } else if same_text(s, "checkpoint") || same_text(s, "Checkpoint") {
            Ok(MemoryKind::Checkpoint)
        } else {
            Err(ParseMemoryKindError(s.to_owned()))
        }
    }
}

impl ParseMemoryKindError {
    /// What went wrong, in words.
    pub fn to_string(&self) -> (r: String)
        ensures
            r@ == "unknown memory kind: "@ + self.0@,
    {
        let mut out = "unknown memory kind: ".to_owned();
        out.push_str(self.0.as_str());
        out
    }
}

/// The word for a kind reads back as that kind.
pub proof fn law_kind_reads_back(kind: MemoryKind)
    ensures
        kind_of(kind_text(kind)) == Some(kind),
{
    reveal_strlit("event");
    reveal_strlit("Event");
    reveal_strlit("summary");
    reveal_strlit("Summary");
    reveal_strlit("fact");
    reveal_strlit("Fact");
    reveal_strlit("preference");
    reveal_strlit("Preference");
    reveal_strlit("task");
    reveal_strlit("Task");
    reveal_strlit("checkpoint");
    reveal_strlit("Checkpoint");
    assert(kind_text(kind)[0] == 'e' || kind_text(kind)[0] == 's' || kind_text(kind)[0] == 'f'
        || kind_text(kind)[0] == 'p' || kind_text(kind)[0] == 't' || kind_text(kind)[0] == 'c');
}

/// Where a memory belongs: a tenant, and within it as narrow a place as is set.
#[derive(Debug, PartialEq, Eq)]
pub struct ScopeKey {
    pub tenant_id: String,
    pub workspace_id: Option<String>,
    pub project_id: Option<String>,
    pub agent_id: Option<String>,
    pub run_id: Option<String>,
}

/// The model of a scope.
pub struct ScopeModel {
    pub tenant_id: Seq<char>,
    pub workspace_id: Option<Seq<char>>,
    pub project_id: Option<Seq<char>>,
    pub agent_id: Option<Seq<char>>,
    pub run_id: Option<Seq<char>>,
}

impl View for ScopeKey {
    type V = ScopeModel;

    open spec fn view(&self) -> ScopeModel {
        ScopeModel {
            tenant_id: self.tenant_id@,
            workspace_id: opt(self.workspace_id),
            project_id: opt(self.project_id),
            agent_id: opt(self.agent_id),
            run_id: opt(self.run_id),
        }
    }
}

impl Clone for ScopeKey {
    fn clone(&self) -> (r: ScopeKey)
        ensures
            r@ == self@,
    {
        ScopeKey {
            tenant_id: self.tenant_id.clone(),
            workspace_id: copy_opt(&self.workspace_id),
            project_id: copy_opt(&self.project_id),
            agent_id: copy_opt(&self.agent_id),
            run_id: copy_opt(&self.run_id),
        }
    }
}

/// What a memory says.
#[derive(Debug)]
pub enum Content {
    Text(String),
    Json(Json),
    TextJson { text: String, json: Json },
}

/// The model of a content.
pub enum ContentModel {
    Text(Seq<char>),
    Json(JsonTree),
    TextJson { text: Seq<char>, json: JsonTree },
}

impl View for Content {
    type V = ContentModel;

    open spec fn view(&self) -> ContentModel {
        match self {
            Content::Text(t) => ContentModel::Text(t@),
            Content::Json(j) => ContentModel::Json(j@),
            Content::TextJson { text, json } => ContentModel::TextJson {
                text: text@,
                json: json@,
            },
        }
    }
}

impl Clone for Content {
    fn clone(&self) -> (r: Content)
        ensures
            r@ == self@,
    {
        match self {
            Content::Text(t) => Content::Text(t.clone()),
            Content::Json(j) => Content::Json(copy_json(j)),
            Content::TextJson { text, json } => Content::TextJson {
                text: text.clone(),
                json: copy_json(json),
            },
        }
    }
}

/// One memory.
#[derive(Debug)]
pub struct MemoryItem {
    pub id: MemoryId,
    pub scope: ScopeKey,
    pub kind: MemoryKind,
    pub created_at_ms: i64,
    pub content: Content,
    pub tags: Vec<String>,
    /// How much it matters, from 0 to 1.
    pub importance: Float,
    /// How far it is to be trusted, from 0 to 1.
    pub confidence: Float,
    /// Who it comes from: a user, a tool, an agent, the system.
    pub source: String,
    /// How long it lives, where it does not live for good.
    pub ttl_ms: Option<i64>,
    pub meta: JsonMap,
    pub embedding: Option<Vec<Float>>,
    pub embedding_model: Option<String>,
}

/// The model of a memory.
pub struct ItemModel {
    pub id: Seq<char>,
    pub scope: ScopeModel,
    pub kind: MemoryKind,
    pub created_at_ms: i64,
    pub content: ContentModel,
    pub tags: Seq<Seq<char>>,
    pub importance: Float,
    pub confidence: Float,
    pub source: Seq<char>,
    pub ttl_ms: Option<i64>,
    pub meta: Map<Seq<char>, JsonTree>,
    pub embedding: Option<Seq<Float>>,
    pub embedding_model: Option<Seq<char>>,
}

impl View for MemoryItem {
    type V = ItemModel;

    open spec fn view(&self) -> ItemModel {
        ItemModel {
            id: self.id@,
            scope: self.scope@,
            kind: self.kind,
            created_at_ms: self.created_at_ms,
            content: self.content@,
            tags: views(self.tags@),
            importance: self.importance,
            confidence: self.confidence,
            source: self.source@,
            ttl_ms: self.ttl_ms,
            meta: self.meta@,
            embedding: opt(self.embedding),
            embedding_model: opt(self.embedding_model),
        }
    }
}

/// A copy of an optional vector.
pub fn copy_embedding(e: &Option<Vec<Float>>) -> (r: Option<Vec<Float>>)
    ensures
        opt(r) == opt(*e),
{
    match e {
        Some(v) => {
            let copied = v.clone();
            assert(copied@ == v@);
            Some(copied)
        },
        None => None,
    }
}

impl Clone for MemoryItem {
    fn clone(&self) -> (r: MemoryItem)
        ensures
            r@ == self@,
    {
        MemoryItem {
            id: self.id.clone(),
            scope: self.scope.clone(),
            kind: self.kind,
            created_at_ms: self.created_at_ms,
            content: self.content.clone(),
            tags: copy_texts(&self.tags),
            importance: self.importance,
            confidence: self.confidence,
            source: self.source.clone(),
            ttl_ms: self.ttl_ms,
            meta: copy_map(&self.meta),
            embedding: copy_embedding(&self.embedding),
            embedding_model: copy_opt(&self.embedding_model),
        }
    }
}

/// `chrono::Utc::now`: the time of the clock, in milliseconds since the epoch.
/// Nothing is known of it.
#[verifier::external_body]
pub(crate) fn now_ms() -> (r: i64) {
    chrono::Utc::now().timestamp_millis()
}

/// The form of a random id: 36 characters, hexadecimal digits in lower case
/// with four hyphens between them.
pub open spec fn is_random_id(s: Seq<char>) -> bool {
    &&& s.len() == 36
    &&& forall|i: int|
        0 <= i < 36 ==> if i == 8 || i == 13 || i == 18 || i == 23 {
            #[trigger] s[i] == '-'
        } else {
            '0' <= s[i] <= '9' || 'a' <= s[i] <= 'f'
        }
}

/// `uuid::Uuid::new_v4` and its `to_string`: a random id, of which nothing is
/// known but its form.
#[verifier::external_body]
pub(crate) fn random_id() -> (r: String)
    ensures
        is_random_id(r@),
{
    uuid::Uuid::new_v4().to_string()
}

impl MemoryItem {
    /// A memory made now, with middling importance and full confidence.
    pub fn new(
        id: MemoryId,
        scope: ScopeKey,
        kind: MemoryKind,
        content: Content,
        source: String,
    ) -> (r: MemoryItem)
        ensures
            r@ == fresh_item(id@, scope@, kind, content@, source@, r.created_at_ms),
    {
        MemoryItem::new_at(id, scope, kind, content, source, now_ms())
    }

    /// A memory made at `created_at_ms`.
    pub fn new_at(
        id: MemoryId,
        scope: ScopeKey,
        kind: MemoryKind,
        content: Content,
        source: String,
        created_at_ms: i64,
    ) -> (r: MemoryItem)
        ensures
            r@ == fresh_item(id@, scope@, kind, content@, source@, created_at_ms),
    {
        let r = MemoryItem {
            id,
            scope,
            kind,
            created_at_ms,
            content,
            tags: Vec::new(),
            importance: Float(HALF),
            confidence: Float(ONE),
            source,
            ttl_ms: None,
            meta: JsonMap::new(),
            embedding: None,
            embedding_model: None,
        };
        assert(views(r.tags@) == Seq::<Seq<char>>::empty());
        r
    }
}

/// A memory as it is made: nothing set that was not given.
pub open spec fn fresh_item(
    id: Seq<char>,
    scope: ScopeModel,
    kind: MemoryKind,
    content: ContentModel,
    source: Seq<char>,
    created_at_ms: i64,
) -> ItemModel {
    ItemModel {
        id,
        scope,
        kind,
        created_at_ms,
        content,
        tags: Seq::empty(),
        importance: Float(HALF),
        confidence: Float(ONE),
        source,
        ttl_ms: None,
        meta: Map::empty(),
        embedding: None,
        embedding_model: None,
    }
}

/// A thing with the score by which it is ranked.
#[derive(Debug)]
pub struct Scored<T> {
    pub score: Float,
    pub item: T,
}

/// The model of a scored thing.
pub struct ScoredModel<V> {
    pub score: Float,
    pub item: V,
}

impl<T: View> View for Scored<T> {
    type V = ScoredModel<T::V>;

    open spec fn view(&self) -> ScoredModel<T::V> {
        ScoredModel { score: self.score, item: self.item@ }
    }
}

/// Only its name, in lower case or with a capital, names a kind; and no two kinds
/// have the same.
pub proof fn law_only_its_name_names_a_kind(word: Seq<char>, kind: MemoryKind)
    ensures
        kind_of(word) == Some(kind) <==> word == kind_text(kind) || word == kind_name(kind),
        kind_text(kind) == match kind {
            MemoryKind::Event => "event"@,
            MemoryKind::Summary => "summary"@,
            MemoryKind::Fact => "fact"@,
            MemoryKind::Preference => "preference"@,
            MemoryKind::Task => "task"@,
            MemoryKind::Checkpoint => "checkpoint"@,
        },
{
    reveal_strlit("event");
    reveal_strlit("Event");
    reveal_strlit("summary");
    reveal_strlit("Summary");
    reveal_strlit("fact");
    reveal_strlit("Fact");
    reveal_strlit("preference");
    reveal_strlit("Preference");
    reveal_strlit("task");
    reveal_strlit("Task");
    reveal_strlit("checkpoint");
    reveal_strlit("Checkpoint");
    assert("event"@.len() == 5 && "summary"@.len() == 7 && "preference"@.len() == 10
        && "checkpoint"@.len() == 10);
    assert("fact"@[0] == 'f' && "task"@[0] == 't' && "Fact"@[0] == 'F' && "Task"@[0] == 'T');
    assert("preference"@[0] == 'p' && "checkpoint"@[0] == 'c' && "Preference"@[0] == 'P'
        && "Checkpoint"@[0] == 'C');
    assert("event"@[0] == 'e' && "Event"@[0] == 'E' && "summary"@[0] == 's' && "Summary"@[0]
        == 'S');
}

/// A new memory is what it was made of, with an importance of one half and full
/// confidence; it lasts, and has no tags, no metadata and no embedding.
pub proof fn law_new_memories_are_plain(
    id: Seq<char>,
    scope: ScopeModel,
    kind: MemoryKind,
    content: ContentModel,
    source: Seq<char>,
    created_at_ms: i64,
)
    ensures
        ({
            let item = fresh_item(id, scope, kind, content, source, created_at_ms);
            &&& item.id == id && item.scope == scope && item.kind == kind && item.content == content
            &&& item.source == source && item.created_at_ms == created_at_ms
            &&& item.importance == Float(0x3f00_0000) && item.confidence == Float(0x3f80_0000)
            &&& item.tags.len() == 0 && item.ttl_ms is None && item.embedding is None
                && item.embedding_model is None
            &&& forall|k: Seq<char>| !(#[trigger] item.meta.contains_key(k))
        }),
{
}

} // verus!
