//! The messages of the gRPC service: how they become memories and queries, and
//! what is answered.
use crate::float::Float;
use crate::json::{json_parsed, json_text, parse_json, to_json_text, Json, JsonMap, JsonTree};
use crate::memory::{
    Content, ContentModel, ItemModel, MemoryId, MemoryItem, MemoryKind, Scored, ScopeKey,
    ScopeModel,
};
use crate::model::{opt, views};
use crate::query::{Query, QueryModel};
use crate::service::error::{answer_of, ApiError, ApiIssue};
use crate::text::{cat, cat3};
use vstd::prelude::*;

verus! {

/// Why a call failed.
#[derive(Debug)]
pub enum GrpcStatus {
    InvalidArgument(String),
    NotFound(String),
    Internal(String),
}

/// The model of a failure.
pub enum StatusModel {
    InvalidArgument(Seq<char>),
    NotFound(Seq<char>),
    Internal(Seq<char>),
}

impl View for GrpcStatus {
    type V = StatusModel;

    open spec fn view(&self) -> StatusModel {
        match self {
            GrpcStatus::InvalidArgument(m) => StatusModel::InvalidArgument(m@),
            GrpcStatus::NotFound(m) => StatusModel::NotFound(m@),
            GrpcStatus::Internal(m) => StatusModel::Internal(m@),
        }
    }
}

/// The kind of a memory in a message.
#[derive(Debug, Clone, Copy, PartialEq, Eq, Structural)]
pub enum WireKind {
    Unspecified,
    Event,
    Summary,
    Fact,
    Preference,
    Task,
    Checkpoint,
}

/// The kind that a message means; an event where it does not say, or says what is
/// not known.
pub open spec fn kind_of_wire(kind: Option<WireKind>) -> MemoryKind {
    match kind {
        Some(WireKind::Summary) => MemoryKind::Summary,
        Some(WireKind::Fact) => MemoryKind::Fact,
        Some(WireKind::Preference) => MemoryKind::Preference,
        Some(WireKind::Task) => MemoryKind::Task,
        Some(WireKind::Checkpoint) => MemoryKind::Checkpoint,
        _ => MemoryKind::Event,
    }
}

/// A kind as a message holds it.
pub open spec fn wire_of_kind(kind: MemoryKind) -> WireKind {
    match kind {
        MemoryKind::Event => WireKind::Event,
        MemoryKind::Summary => WireKind::Summary,
        MemoryKind::Fact => WireKind::Fact,
        MemoryKind::Preference => WireKind::Preference,
        MemoryKind::Task => WireKind::Task,
        MemoryKind::Checkpoint => WireKind::Checkpoint,
    }
}

/// Reads the kind that a message means.
pub fn kind_from_wire(kind: Option<WireKind>) -> (r: MemoryKind)
    ensures
        r == kind_of_wire(kind),
{
    match kind {
        Some(WireKind::Summary) => MemoryKind::Summary,
        Some(WireKind::Fact) => MemoryKind::Fact,
        Some(WireKind::Preference) => MemoryKind::Preference,
        Some(WireKind::Task) => MemoryKind::Task,
        Some(WireKind::Checkpoint) => MemoryKind::Checkpoint,
        _ => MemoryKind::Event,
    }
}

/// Writes a kind as a message holds it.
pub fn kind_to_wire(kind: MemoryKind) -> (r: WireKind)
    ensures
        r == wire_of_kind(kind),
{
    match kind {
        MemoryKind::Event => WireKind::Event,
        MemoryKind::Summary => WireKind::Summary,
        MemoryKind::Fact => WireKind::Fact,
        MemoryKind::Preference => WireKind::Preference,
        MemoryKind::Task => WireKind::Task,
        MemoryKind::Checkpoint => WireKind::Checkpoint,
    }
}

/// A kind goes through a message unchanged.
pub proof fn law_kind_goes_through(kind: MemoryKind)
    ensures
        kind_of_wire(Some(wire_of_kind(kind))) == kind,
{
}

/// The content of a memory in a message, where JSON is text.
#[derive(Debug)]
pub enum WireContent {
    Text(String),
    Json(String),
    TextJson { text: String, json: String },
}

/// The model of such a content.
pub enum WireContentModel {
    Text(Seq<char>),
    Json(Seq<char>),
    TextJson { text: Seq<char>, json: Seq<char> },
}

impl View for WireContent {
    type V = WireContentModel;

    open spec fn view(&self) -> WireContentModel {
        match self {
            WireContent::Text(t) => WireContentModel::Text(t@),
            WireContent::Json(j) => WireContentModel::Json(j@),
            WireContent::TextJson { text, json } => WireContentModel::TextJson {
                text: text@,
                json: json@,
            },
        }
    }
}

/// The JSON of a message's content.
pub open spec fn content_json(text: Seq<char>) -> Result<JsonTree, StatusModel> {
    match json_parsed(text) {
        Ok(tree) => Ok(tree),
        Err(e) => Err(StatusModel::InvalidArgument("Invalid JSON content: "@ + e)),
    }
}

/// The content that a message means, which it must say.
pub open spec fn content_of_wire(content: Option<WireContentModel>) -> Result<
    ContentModel,
    StatusModel,
> {
    match content {
        None => Err(StatusModel::InvalidArgument("Content type must be specified"@)),
        Some(WireContentModel::Text(t)) => Ok(ContentModel::Text(t)),
        Some(WireContentModel::Json(j)) => match content_json(j) {
            Ok(tree) => Ok(ContentModel::Json(tree)),
            Err(e) => Err(e),
        },
        Some(WireContentModel::TextJson { text, json }) => match content_json(json) {
            Ok(tree) => Ok(ContentModel::TextJson { text, json: tree }),
            Err(e) => Err(e),
        },
    }
}

/// A content as a message holds it.
pub open spec fn wire_of_content(content: ContentModel) -> WireContentModel {
    match content {
        ContentModel::Text(t) => WireContentModel::Text(t),
        ContentModel::Json(j) => WireContentModel::Json(json_text(j)),
        ContentModel::TextJson { text, json } => WireContentModel::TextJson {
            text,
            json: json_text(json),
        },
    }
}

/// Whether the JSON of a content can be told exactly by its text: it has no
/// numbers but integers, is not too deeply nested, and holds in no object the key
/// that the parser keeps for itself.
pub open spec fn content_is_plain(content: ContentModel) -> bool {
    match content {
        ContentModel::Text(_) => true,
        ContentModel::Json(j) => j.plain(127),
        ContentModel::TextJson { json, .. } => json.plain(127),
    }
}

fn parse_content(text: &str) -> (r: Result<Json, GrpcStatus>)
    ensures
        match (r, content_json(text@)) {
            (Ok(j), Ok(t)) => j@ == t,
            (Err(e), Err(f)) => e@ == f,
            _ => false,
        },
{
    match parse_json(text) {
        Ok(j) => Ok(j),
        Err(e) => Err(GrpcStatus::InvalidArgument(cat("Invalid JSON content: ", e.as_str()))),
    }
}

/// Reads the content that a message means.
pub fn content_from_wire(content: Option<WireContent>) -> (r: Result<Content, GrpcStatus>)
    ensures
        match (r, content_of_wire(opt(content))) {
            (Ok(c), Ok(m)) => c@ == m,
            (Err(e), Err(f)) => e@ == f,
            _ => false,
        },
{
    match content {
        None => Err(GrpcStatus::InvalidArgument("Content type must be specified".to_owned())),
        Some(WireContent::Text(t)) => Ok(Content::Text(t)),
        Some(WireContent::Json(text)) => match parse_content(text.as_str()) {
            Ok(j) => Ok(Content::Json(j)),
            Err(e) => Err(e),
        },
        Some(WireContent::TextJson { text, json }) => match parse_content(json.as_str()) {
            Ok(j) => Ok(Content::TextJson { text, json: j }),
            Err(e) => Err(e),
        },
    }
}

/// Writes a content as a message holds it. One whose JSON its text can tell reads
/// back unchanged.
pub fn content_to_wire(content: &Content) -> (r: WireContent)
    ensures
        r@ == wire_of_content(content@),
        content_is_plain(content@) ==> content_of_wire(Some(r@)) == Ok::<
            ContentModel,
            StatusModel,
        >(content@),
{
    match content {
        Content::Text(t) => WireContent::Text(t.clone()),
        Content::Json(j) => WireContent::Json(to_json_text(j)),
        Content::TextJson { text, json } => WireContent::TextJson {
            text: text.clone(),
            json: to_json_text(json),
        },
    }
}

/// A memory in a message. Metadata are JSON texts by key.
#[derive(Debug)]
pub struct WireItem {
    pub id: String,
    pub scope: Option<ScopeKey>,
    /// None where the message holds a number that stands for no kind.
    pub kind: Option<WireKind>,
    pub created_at_ms: i64,
    /// None where the message has no content; none inside where it does not say
    /// of which type.
    pub content: Option<Option<WireContent>>,
    pub tags: Vec<String>,
    pub importance: Float,
    pub confidence: Float,
    pub source: String,
    pub ttl_ms: Option<i64>,
    pub meta: Vec<(String, String)>,
    pub embedding: Vec<Float>,
    pub embedding_model: Option<String>,
}

/// The model of a memory in a message.
pub struct WireItemModel {
    pub id: Seq<char>,
    pub scope: Option<ScopeModel>,
    pub kind: Option<WireKind>,
    pub created_at_ms: i64,
    pub content: Option<Option<WireContentModel>>,
    pub tags: Seq<Seq<char>>,
    pub importance: Float,
    pub confidence: Float,
    pub source: Seq<char>,
    pub ttl_ms: Option<i64>,
    pub meta: Seq<(Seq<char>, Seq<char>)>,
    pub embedding: Seq<Float>,
    pub embedding_model: Option<Seq<char>>,
}

impl View for WireItem {
    type V = WireItemModel;

    open spec fn view(&self) -> WireItemModel {
        WireItemModel {
            id: self.id@,
            scope: opt(self.scope),
            kind: self.kind,
            created_at_ms: self.created_at_ms,
            content: match self.content {
                Some(c) => Some(opt(c)),
                None => None,
            },
            tags: views(self.tags@),
            importance: self.importance,
            confidence: self.confidence,
            source: self.source@,
            ttl_ms: self.ttl_ms,
            meta: views(self.meta@),
            embedding: self.embedding@,
            embedding_model: opt(self.embedding_model),
        }
    }
}

/// The metadata that a message means: each text must be JSON.
pub open spec fn meta_of_wire(meta: Seq<(Seq<char>, Seq<char>)>) -> Result<
    Map<Seq<char>, JsonTree>,
    StatusModel,
>
    decreases meta.len(),
{
    if meta.len() == 0 {
        Ok(Map::empty())
    } else {
        match meta_of_wire(meta.drop_last()) {
            Err(e) => Err(e),
            Ok(m) => match json_parsed(meta.last().1) {
                Ok(tree) => Ok(m.insert(meta.last().0, tree)),
                Err(e) => Err(
                    StatusModel::InvalidArgument(
                        "Invalid JSON in meta field '"@ + meta.last().0 + "': "@ + e,
                    ),
                ),
            },
        }
    }
}

/// The memory that a message means. It must have a scope and a content, of a
/// known type, and all its JSON must be JSON.
pub open spec fn item_of_wire(item: WireItemModel) -> Result<ItemModel, StatusModel> {
    match (item.scope, item.content) {
        (None, _) => Err(StatusModel::InvalidArgument("Scope key must be specified"@)),
        (_, None) => Err(StatusModel::InvalidArgument("Content must be specified"@)),
        (Some(scope), Some(content)) => match meta_of_wire(item.meta) {
            Err(e) => Err(e),
            Ok(meta) => match content_of_wire(content) {
                Err(e) => Err(e),
                Ok(content) => Ok(
                    ItemModel {
                        id: item.id,
                        scope,
                        kind: kind_of_wire(item.kind),
                        created_at_ms: item.created_at_ms,
                        content,
                        tags: item.tags,
                        importance: item.importance,
                        confidence: item.confidence,
                        source: item.source,
                        ttl_ms: item.ttl_ms,
                        meta,
                        embedding: if item.embedding.len() == 0 {
                            None
                        } else {
                            Some(item.embedding)
                        },
                        embedding_model: item.embedding_model,
                    },
                ),
            },
        },
    }
}

fn meta_from_wire(meta: &Vec<(String, String)>) -> (r: Result<JsonMap, GrpcStatus>)
    ensures
        match (r, meta_of_wire(views(meta@))) {
            (Ok(m), Ok(t)) => m@ == t,
            (Err(e), Err(f)) => e@ == f,
            _ => false,
        },
{
    let ghost all = views(meta@);
    let mut out = JsonMap::new();
    assert(all.take(0) =~= Seq::<(Seq<char>, Seq<char>)>::empty());
    for n in 0..meta.len()
        invariant
            all == views(meta@),
            meta_of_wire(all.take(n as int)) == Ok::<Map<Seq<char>, JsonTree>, StatusModel>(out@),
    {
        proof {
            assert(all[n as int] == meta@[n as int]@);
            assert(all.take(n + 1).drop_last() =~= all.take(n as int));
            assert(all.take(n + 1).last() == all[n as int]);
        }
        match parse_json(meta[n].1.as_str()) {
            Ok(j) => {
                out.insert(meta[n].0.clone(), j);
            },
            Err(e) => {
                let mut text = cat3("Invalid JSON in meta field '", meta[n].0.as_str(), "': ");
                text.push_str(e.as_str());
                proof {
                    meta_failure_stays(all, n + 1);
                }
                return Err(GrpcStatus::InvalidArgument(text));
            },
        }
    }
    assert(all.take(all.len() as int) =~= all);
    Ok(out)
}

/// What is wrong with the first metadata is wrong with all of them.
proof fn meta_failure_stays(meta: Seq<(Seq<char>, Seq<char>)>, n: int)
    requires
        0 <= n <= meta.len(),
        meta_of_wire(meta.take(n)) is Err,
    ensures
        meta_of_wire(meta) == meta_of_wire(meta.take(n)),
    decreases meta.len(),
{
    if n == meta.len() {
        assert(meta.take(n) =~= meta);
    } else {
        let front = meta.drop_last();
        assert(front.take(n) =~= meta.take(n));
        meta_failure_stays(front, n);
    }
}

/// Reads the memory that a message means.
pub fn item_from_wire(item: WireItem) -> (r: Result<MemoryItem, GrpcStatus>)
    ensures
        match (r, item_of_wire(item@)) {
            (Ok(i), Ok(m)) => i@ == m,
            (Err(e), Err(f)) => e@ == f,
            _ => false,
        },
{
    let scope = match item.scope {
        Some(s) => s,
        None => {
            return Err(GrpcStatus::InvalidArgument("Scope key must be specified".to_owned()));
        },
    };
    let content = match item.content {
        Some(c) => c,
        None => {
            return Err(GrpcStatus::InvalidArgument("Content must be specified".to_owned()));
        },
    };
    let meta = match meta_from_wire(&item.meta) {
        Ok(m) => m,
        Err(e) => return Err(e),
    };
    let content = match content_from_wire(content) {
        Ok(c) => c,
        Err(e) => return Err(e),
    };
    Ok(
        MemoryItem {
            id: MemoryId(item.id),
            scope,
            kind: kind_from_wire(item.kind),
            created_at_ms: item.created_at_ms,
            content,
            tags: item.tags,
            importance: item.importance,
            confidence: item.confidence,
            source: item.source,
            ttl_ms: item.ttl_ms,
            meta,
            embedding: if item.embedding.len() == 0 {
                None
            } else {
                Some(item.embedding)
            },
            embedding_model: item.embedding_model,
        },
    )
}

/// Whether the texts are those of the metadata, each once, in any order.
pub open spec fn is_wire_meta(
    texts: Seq<(Seq<char>, Seq<char>)>,
    meta: Map<Seq<char>, JsonTree>,
) -> bool {
    &&& forall|i: int, j: int|
        0 <= i < j < texts.len() ==> (#[trigger] texts[i]).0 != (#[trigger] texts[j]).0
    &&& forall|i: int|
        0 <= i < texts.len() ==> meta.contains_key((#[trigger] texts[i]).0) && texts[i].1
            == json_text(meta[texts[i].0])
    &&& forall|k: Seq<char>| #[trigger]
        meta.contains_key(k) ==> exists|i: int| 0 <= i < texts.len() && (#[trigger] texts[i]).0 == k
}

/// Whether `wire` is a message that holds an item.
pub open spec fn holds_item(wire: WireItemModel, item: ItemModel) -> bool {
    &&& is_wire_meta(wire.meta, item.meta)
    &&& wire == WireItemModel {
        id: item.id,
        scope: Some(item.scope),
        kind: Some(wire_of_kind(item.kind)),
        created_at_ms: item.created_at_ms,
        content: Some(Some(wire_of_content(item.content))),
        tags: item.tags,
        importance: item.importance,
        confidence: item.confidence,
        source: item.source,
        ttl_ms: item.ttl_ms,
        meta: wire.meta,
        embedding: match item.embedding {
            Some(e) => e,
            None => Seq::empty(),
        },
        embedding_model: item.embedding_model,
    }
}

/// Whether a message can tell an item exactly: its JSON can be told by its text,
/// and an embedding, where it has one, is not empty.
pub open spec fn item_is_plain(item: ItemModel) -> bool {
    &&& content_is_plain(item.content)
    &&& forall|k: Seq<char>| #[trigger] item.meta.contains_key(k) ==> item.meta[k].plain(127)
    &&& item.embedding matches Some(e) ==> e.len() > 0
}

fn meta_to_wire(meta: &JsonMap) -> (r: Vec<(String, String)>)
    ensures
        is_wire_meta(views(r@), meta@),
        (forall|k: Seq<char>| #[trigger] meta@.contains_key(k) ==> meta@[k].plain(127))
            ==> meta_of_wire(views(r@)) == Ok::<Map<Seq<char>, JsonTree>, StatusModel>(meta@),
{
    let count: usize = meta.len();
    let ghost keys = meta.keys();
    let ghost plain = forall|k: Seq<char>| #[trigger]
        meta@.contains_key(k) ==> meta@[k].plain(127);
    let ghost mut read: Map<Seq<char>, JsonTree> = Map::empty();
    let mut out: Vec<(String, String)> = Vec::new();
    assert(views(out@) =~= Seq::<(Seq<char>, Seq<char>)>::empty());
    for n in 0..count
        invariant
            count == keys.len(),
            keys == meta.keys(),
            keys.no_duplicates(),
            forall|k: Seq<char>| meta@.contains_key(k) <==> #[trigger] keys.contains(k),
            plain == forall|k: Seq<char>| #[trigger]
                meta@.contains_key(k) ==> meta@[k].plain(127),
            out@.len() == n,
            forall|i: int|
                0 <= i < n ==> (#[trigger] views(out@)[i]) == (keys[i], json_text(meta@[keys[i]])),
            plain ==> meta_of_wire(views(out@)) == Ok::<Map<Seq<char>, JsonTree>, StatusModel>(
                read,
            ),
            forall|k: Seq<char>| #[trigger]
                read.contains_key(k) <==> keys.take(n as int).contains(k),
            forall|k: Seq<char>| #[trigger] read.contains_key(k) ==> read[k] == meta@[k],
    {
        let ghost before = views(out@);
        let (key, value) = meta.entry(n);
        let text = to_json_text(value);
        let ghost pair = (key@, text@);
        out.push((key.to_owned(), text));
        proof {
            let after = views(out@);
            assert(after =~= before.push(pair));
            assert(after.drop_last() =~= before);
            let longer = keys.take(n + 1);
            let shorter = keys.take(n as int);
            assert forall|k: Seq<char>| longer.contains(k) <==> shorter.contains(k) || k
                == key@ by {
                if longer.contains(k) && k != key@ {
                    let i = longer.index_of(k);
                    assert(shorter[i] == k);
                }
                if shorter.contains(k) {
                    let i = shorter.index_of(k);
                    assert(longer[i] == k);
                }
                assert(longer[n as int] == key@);
            }
            read = read.insert(key@, value@);
        }
    }
    proof {
        let texts = views(out@);
        assert(keys.take(keys.len() as int) =~= keys);
        assert forall|i: int, j: int| 0 <= i < j < texts.len() implies (#[trigger] texts[i]).0 != (
        #[trigger] texts[j]).0 by {
            assert(keys[i] != keys[j]);
        }
        assert forall|i: int| 0 <= i < texts.len() implies meta@.contains_key(
            (#[trigger] texts[i]).0,
        ) && texts[i].1 == json_text(meta@[texts[i].0]) by {
            assert(keys.contains(keys[i]));
        }
        assert forall|k: Seq<char>| #[trigger] meta@.contains_key(k) implies exists|i: int|
            0 <= i < texts.len() && (#[trigger] texts[i]).0 == k by {
            assert(keys.contains(k));
            let i = keys.index_of(k);
            assert(texts[i].0 == k);
        }
        if plain {
            assert(read =~= meta@) by {
                assert forall|k: Seq<char>| read.contains_key(k) <==> meta@.contains_key(k) by {
                    assert(keys.contains(k) <==> meta@.contains_key(k));
                }
            }
        }
    }
    out
}

/// Writes a memory as a message. One that a message can tell exactly reads back
/// unchanged.
pub fn item_to_wire(item: MemoryItem) -> (r: WireItem)
    ensures
        holds_item(r@, item@),
        item_is_plain(item@) ==> item_of_wire(r@) == Ok::<ItemModel, StatusModel>(item@),
{
    let meta = meta_to_wire(&item.meta);
    let content = content_to_wire(&item.content);
    let embedding = match item.embedding {
        Some(e) => e,
        None => Vec::new(),
    };
    let r = WireItem {
        id: item.id.0,
        scope: Some(item.scope),
        kind: Some(kind_to_wire(item.kind)),
        created_at_ms: item.created_at_ms,
        content: Some(Some(content)),
        tags: item.tags,
        importance: item.importance,
        confidence: item.confidence,
        source: item.source,
        ttl_ms: item.ttl_ms,
        meta,
        embedding,
        embedding_model: item.embedding_model,
    };
    proof {
        law_kind_goes_through(item.kind);
    }
    r
}

/// A query in a message.
#[derive(Debug)]
pub struct WireQuery {
    pub scope: Option<ScopeKey>,
    pub text: String,
    pub kinds: Vec<Option<WireKind>>,
    pub tags_any: Vec<String>,
    pub limit: u32,
    pub since_ms: Option<i64>,
    pub until_ms: Option<i64>,
}

/// The query that a message means: it must have a scope, and lists that are empty
/// do not restrict it.
pub open spec fn query_of_wire(q: WireQuery) -> Result<QueryModel, StatusModel> {
    match opt(q.scope) {
        None => Err(StatusModel::InvalidArgument("Scope key must be specified"@)),
        Some(scope) => Ok(
            QueryModel {
                scope,
                text: q.text@,
                kinds: if q.kinds@.len() == 0 {
                    None
                } else {
                    Some(Seq::new(q.kinds@.len(), |i: int| kind_of_wire(q.kinds@[i])))
                },
                tags_any: if q.tags_any@.len() == 0 {
                    None
                } else {
                    Some(views(q.tags_any@))
                },
                limit: q.limit as usize,
                since_ms: q.since_ms,
                until_ms: q.until_ms,
                cursor: None,
            },
        ),
    }
}

/// Reads the query that a message means.
pub fn query_from_wire(q: WireQuery) -> (r: Result<Query, GrpcStatus>)
    ensures
        match (r, query_of_wire(q)) {
            (Ok(a), Ok(m)) => a@ == m,
            (Err(e), Err(f)) => e@ == f,
            _ => false,
        },
{
    let scope = match q.scope {
        Some(s) => s,
        None => {
            return Err(GrpcStatus::InvalidArgument("Scope key must be specified".to_owned()));
        },
    };
    let kinds = if q.kinds.len() == 0 {
        None
    } else {
        let mut kinds: Vec<MemoryKind> = Vec::new();
        for i in 0..q.kinds.len()
            invariant
                kinds@.len() == i,
                forall|k: int| 0 <= k < i ==> (#[trigger] kinds@[k]) == kind_of_wire(q.kinds@[k]),
        {
            kinds.push(kind_from_wire(q.kinds[i]));
        }
        assert(kinds@ =~= Seq::new(q.kinds@.len(), |i: int| kind_of_wire(q.kinds@[i])));
        Some(kinds)
    };
    let tags_any = if q.tags_any.len() == 0 {
        None
    } else {
        Some(q.tags_any)
    };
    Ok(
        Query {
            scope,
            text: q.text,
            kinds,
            tags_any,
            limit: q.limit as usize,
            since_ms: q.since_ms,
            until_ms: q.until_ms,
            cursor: None,
        },
    )
}

/// A memory's name in a message, with the scope that it must lie in where one is
/// given.
#[derive(Debug)]
pub struct WireId {
    pub id: String,
    pub scope: Option<ScopeKey>,
}

/// Which memory a call is about.
#[derive(Debug)]
pub enum Lookup {
    /// The one of this id, if it lies within the scope.
    Within { id: MemoryId, scope: ScopeKey },
    /// The one of this id, whatever its scope.
    ById { id: MemoryId },
}

/// The model of a lookup.
pub enum LookupModel {
    Within { id: Seq<char>, scope: ScopeModel },
    ById { id: Seq<char> },
}

impl View for Lookup {
    type V = LookupModel;

    open spec fn view(&self) -> LookupModel {
        match self {
            Lookup::Within { id, scope } => LookupModel::Within { id: id@, scope: scope@ },
            Lookup::ById { id } => LookupModel::ById { id: id@ },
        }
    }
}

/// The lookup that a message asks for: within its scope where it names one.
pub open spec fn lookup_of(id: Seq<char>, scope: Option<ScopeModel>) -> LookupModel {
    match scope {
        Some(scope) => LookupModel::Within { id, scope },
        None => LookupModel::ById { id },
    }
}

/// The lookup that a message asks for, to read a memory or to delete it.
pub fn lookup(message: WireId) -> (r: Lookup)
    ensures
        r@ == lookup_of(message.id@, opt(message.scope)),
{
    let id = MemoryId(message.id);
    match message.scope {
        Some(scope) => Lookup::Within { id, scope },
        None => Lookup::ById { id },
    }
}

/// A memory to write, and the answer once that is done.
#[derive(Debug)]
pub struct WritePlan {
    pub item: MemoryItem,
    pub reply: WireId,
}

/// Plans the write that a message asks for; the answer names the memory and its
/// scope.
pub fn write_plan(item: WireItem) -> (r: Result<WritePlan, GrpcStatus>)
    ensures
        match (r, item_of_wire(item@)) {
            (Ok(plan), Ok(m)) => {
                &&& plan.item@ == m
                &&& plan.reply.id@ == m.id
                &&& opt(plan.reply.scope) == Some(m.scope)
            },
            (Err(e), Err(f)) => e@ == f,
            _ => false,
        },
{
    match item_from_wire(item) {
        Ok(item) => {
            let reply = WireId { id: item.id.0.clone(), scope: Some(item.scope.clone()) };
            Ok(WritePlan { item, reply })
        },
        Err(e) => Err(e),
    }
}

/// What was being done when the store failed.
#[derive(Debug, Clone, Copy, PartialEq, Eq, Structural)]
pub enum RpcAction {
    Write,
    Retrieve,
    Query,
    Delete,
    Recall,
    ReadStream,
}

/// What went wrong, before the reason.
pub open spec fn action_text(action: RpcAction) -> Seq<char> {
    match action {
        RpcAction::Write => "Failed to write memory: "@,
        RpcAction::Retrieve => "Failed to retrieve memory: "@,
        RpcAction::Query => "Failed to query memories: "@,
        RpcAction::Delete => "Failed to delete memory: "@,
        RpcAction::Recall => "Failed to recall memories: "@,
        RpcAction::ReadStream => "Stream error: "@,
    }
}

/// The failure that a client is told of: why the store failed stays inside, but
/// the client's own stream is its own affair.
pub open spec fn failure_of(action: RpcAction, reason: Seq<char>) -> StatusModel {
    StatusModel::Internal(
        action_text(action) + if action == RpcAction::ReadStream {
            reason
        } else {
            answer_of(ApiIssue::Internal(reason))
        },
    )
}

/// The answer where the store, or the stream of requests, failed.
pub fn failure(action: RpcAction, reason: String) -> (r: GrpcStatus)
    ensures
        r@ == failure_of(action, reason@),
{
    let what = match action {
        RpcAction::Write => "Failed to write memory: ",
        RpcAction::Retrieve => "Failed to retrieve memory: ",
        RpcAction::Query => "Failed to query memories: ",
        RpcAction::Delete => "Failed to delete memory: ",
        RpcAction::Recall => "Failed to recall memories: ",
        RpcAction::ReadStream => return GrpcStatus::Internal(
            cat("Stream error: ", reason.as_str()),
        ),
    };
    GrpcStatus::Internal(cat(what, ApiError::Internal(reason).answer().as_str()))
}

/// Whatever made the store fail, the client is told the same.
pub proof fn law_store_failure_is_opaque(action: RpcAction, a: Seq<char>, b: Seq<char>)
    requires
        action != RpcAction::ReadStream,
    ensures
        failure_of(action, a) == failure_of(action, b),
{
}

/// Whether `r` answers a lookup: with the memory that was found, with `missing`
/// where there was none, and with the store's failure.
pub open spec fn answers_lookup(
    r: Result<WireItem, GrpcStatus>,
    found: Result<Option<MemoryItem>, String>,
    missing: Seq<char>,
) -> bool {
    match (r, found) {
        (Ok(wire), Ok(Some(item))) => holds_item(wire@, item@),
        (Err(e), Ok(None)) => e@ == StatusModel::NotFound(missing),
        (Err(e), Err(reason)) => e@ == failure_of(RpcAction::Retrieve, reason@),
        _ => false,
    }
}

fn lookup_reply(found: Result<Option<MemoryItem>, String>, missing: String) -> (r: Result<
    WireItem,
    GrpcStatus,
>)
    ensures
        answers_lookup(r, found, missing@),
{
    match found {
        Ok(Some(item)) => Ok(item_to_wire(item)),
        Ok(None) => Err(GrpcStatus::NotFound(missing)),
        Err(reason) => Err(failure(RpcAction::Retrieve, reason)),
    }
}

/// The answer to a request for one memory.
pub fn get_reply(found: Result<Option<MemoryItem>, String>) -> (r: Result<WireItem, GrpcStatus>)
    ensures
        answers_lookup(r, found, "Memory item not found"@),
{
    lookup_reply(found, "Memory item not found".to_owned())
}

/// The answer to one request in a stream of requests for memories.
pub fn bulk_get_reply(id: &MemoryId, found: Result<Option<MemoryItem>, String>) -> (r: Result<
    WireItem,
    GrpcStatus,
>)
    ensures
        answers_lookup(r, found, "Memory item not found: "@ + id@),
{
    lookup_reply(found, cat("Memory item not found: ", id.0.as_str()))
}

/// A scored memory in a message.
#[derive(Debug)]
pub struct WireScored {
    pub score: Float,
    pub item: WireItem,
}

/// The answers to a query: what was found, in its order.
pub fn scored_replies(results: Vec<Scored<MemoryItem>>) -> (r: Vec<WireScored>)
    ensures
        r@.len() == results@.len(),
        forall|i: int|
            0 <= i < r@.len() ==> (#[trigger] r@[i]).score == results@[i].score && holds_item(
                r@[i].item@,
                results@[i].item@,
            ),
{
    let mut out: Vec<WireScored> = Vec::new();
    for hit in it: results
        invariant
            it.seq() == results@,
            out@.len() == it.index(),
            forall|i: int|
                0 <= i < out@.len() ==> (#[trigger] out@[i]).score == results@[i].score
                    && holds_item(out@[i].item@, results@[i].item@),
    {
        out.push(WireScored { score: hit.score, item: item_to_wire(hit.item) });
    }
    out
}

/// A message means the memory that it says: of its id, scope, moment, text and
/// numbers. It must have a scope and a content; an empty embedding means none.
pub proof fn law_messages_mean_what_they_say(wire: WireItemModel)
    ensures
        item_of_wire(wire) matches Ok(item) ==> {
            &&& Some(item.scope) == wire.scope
            &&& item.id == wire.id && item.created_at_ms == wire.created_at_ms
            &&& item.tags == wire.tags && item.source == wire.source && item.ttl_ms == wire.ttl_ms
            &&& item.importance == wire.importance && item.confidence == wire.confidence
            &&& item.embedding_model == wire.embedding_model
            &&& wire.embedding.len() == 0 ==> item.embedding is None
            &&& wire.embedding.len() > 0 ==> item.embedding == Some(wire.embedding)
            &&& wire.content matches Some(Some(WireContentModel::Text(t))) ==> item.content
                == ContentModel::Text(t)
            &&& wire.content matches Some(Some(WireContentModel::TextJson { text, .. })) ==> (
            item.content matches ContentModel::TextJson { text: held, .. } && held == text)
        },
        wire.scope is None || wire.content is None ==> item_of_wire(wire) is Err,
{
}

/// A message that holds a memory says of it what it is: its id, scope, moment, kind,
/// text and numbers, each where it belongs.
pub proof fn law_messages_hold_their_memory(wire: WireItemModel, item: ItemModel)
    requires
        holds_item(wire, item),
    ensures
        wire.id == item.id && wire.scope == Some(item.scope) && wire.created_at_ms
            == item.created_at_ms,
        wire.tags == item.tags && wire.source == item.source && wire.ttl_ms == item.ttl_ms,
        wire.importance == item.importance && wire.confidence == item.confidence,
        wire.kind matches Some(kind) && kind_of_wire(Some(kind)) == item.kind,
        item.embedding matches Some(e) ==> wire.embedding == e,
        item.embedding is None ==> wire.embedding.len() == 0,
        wire.embedding_model == item.embedding_model,
        item.content matches ContentModel::Text(t) ==> wire.content == Some(
            Some(WireContentModel::Text(t)),
        ),
        forall|k: Seq<char>| #[trigger]
            item.meta.contains_key(k) ==> wire.meta.contains((k, json_text(item.meta[k]))),
        forall|i: int|
            0 <= i < wire.meta.len() ==> item.meta.contains_key((#[trigger] wire.meta[i]).0),
{
    law_kind_goes_through(item.kind);
    assert forall|k: Seq<char>| #[trigger] item.meta.contains_key(k) implies wire.meta.contains(
        (k, json_text(item.meta[k])),
    ) by {
        let i = choose|i: int| 0 <= i < wire.meta.len() && (#[trigger] wire.meta[i]).0 == k;
        assert(wire.meta[i] == (k, json_text(item.meta[k])));
    }
}

/// A message means the query that it says: within its scope, which it must name, for
/// its text, kinds, tags and times and with its limit. Kinds and tags that are not
/// named do not restrict it.
pub proof fn law_query_messages_mean_what_they_say(q: WireQuery)
    ensures
        q.scope is None ==> query_of_wire(q) is Err,
        q.scope matches Some(scope) ==> (query_of_wire(q) matches Ok(m) && {
            &&& m.scope == scope@
            &&& m.text == q.text@ && m.limit == q.limit && m.since_ms == q.since_ms && m.until_ms
                == q.until_ms && m.cursor is None
            &&& q.kinds@.len() == 0 ==> m.kinds is None
            &&& q.kinds@.len() > 0 ==> (m.kinds matches Some(kinds) && kinds.len()
                == q.kinds@.len() && forall|i: int|
                0 <= i < kinds.len() ==> #[trigger] kinds[i] == kind_of_wire(q.kinds@[i]))
            &&& q.tags_any@.len() == 0 ==> m.tags_any is None
            &&& q.tags_any@.len() > 0 ==> m.tags_any == Some(views(q.tags_any@))
        }),
{
}

/// A lookup is made within the scope that a message names, of the id that it names;
/// only a message without a scope is looked up by its id alone.
pub proof fn law_lookups_keep_to_their_scope(id: Seq<char>, scope: ScopeModel)
    ensures
        lookup_of(id, Some(scope)) == (LookupModel::Within { id, scope }),
        lookup_of(id, None) == (LookupModel::ById { id }),
{
}

/// The metadata of a message are read key by key: each text must be JSON, and of two
/// under the same key the later counts.
pub proof fn law_meta_messages_are_read_by_key(meta: Seq<(Seq<char>, Seq<char>)>, i: int)
    requires
        0 <= i < meta.len(),
        forall|k: int| i < k < meta.len() ==> (#[trigger] meta[k]).0 != meta[i].0,
    ensures
        meta_of_wire(meta) matches Ok(m) ==> m.contains_key(meta[i].0) && (json_parsed(
            meta[i].1,
        ) matches Ok(tree) && m[meta[i].0] == tree),
        json_parsed(meta[i].1) is Err ==> meta_of_wire(meta) is Err,
    decreases meta.len(),
{
    if i < meta.len() - 1 {
        let front = meta.drop_last();
        assert(front[i] == meta[i]);
        assert forall|k: int| i < k < front.len() implies (#[trigger] front[k]).0 != front[i].0 by {
            assert(front[k] == meta[k]);
        }
        law_meta_messages_are_read_by_key(front, i);
        assert(meta[meta.len() - 1].0 != meta[i].0);
    }
}

/// A message means an event where it says so, does not say, or says what is not
/// known, and nowhere else.
pub proof fn law_unknown_kinds_are_events(kind: Option<WireKind>)
    ensures
        kind_of_wire(kind) == MemoryKind::Event <==> kind is None || kind == Some(
            WireKind::Unspecified,
        ) || kind == Some(WireKind::Event),
{
}

/// The content of a message is read as what it says it is: a text as that text, JSON
/// as what its text parses to; JSON that does not parse, and a content of no known
/// type, are refused.
pub proof fn law_contents_are_read_by_their_type(text: Seq<char>, json: Seq<char>)
    ensures
        content_of_wire(None) matches Err(e) && e is InvalidArgument,
        content_of_wire(Some(WireContentModel::Text(text))) == Ok::<ContentModel, StatusModel>(
            ContentModel::Text(text),
        ),
        json_parsed(json) matches Ok(tree) ==> {
            &&& content_of_wire(Some(WireContentModel::Json(json))) == Ok::<
                ContentModel,
                StatusModel,
            >(ContentModel::Json(tree))
            &&& content_of_wire(Some(WireContentModel::TextJson { text, json })) == Ok::<
                ContentModel,
                StatusModel,
            >(ContentModel::TextJson { text, json: tree })
        },
        json_parsed(json) is Err ==> {
            &&& content_of_wire(Some(WireContentModel::Json(json))) is Err
            &&& content_of_wire(Some(WireContentModel::TextJson { text, json })) is Err
        },
{
}

} // verus!
