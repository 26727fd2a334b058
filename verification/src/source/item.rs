//! Memories that come from a source.
use crate::float::Float;
use crate::json::{tree_cases, Json, JsonMap, JsonTree};
use crate::memory::{
    Content, ContentModel, ItemModel, MemoryId, MemoryItem, MemoryKind, ScopeKey, ScopeModel,
};
use crate::model::views;
use vstd::prelude::*;

verus! {

/// A memory that comes from a source: a text with details, lasting, and not yet
/// embedded.
pub open spec fn sourced_item(
    source: Seq<char>,
    scope: ScopeModel,
    id: Seq<char>,
    kind: MemoryKind,
    created_at_ms: i64,
    text: Seq<char>,
    details: Map<Seq<char>, JsonTree>,
    tags: Seq<Seq<char>>,
    importance: Float,
    confidence: Float,
) -> ItemModel {
    ItemModel {
        id,
        scope,
        kind,
        created_at_ms,
        content: ContentModel::TextJson { text, json: JsonTree::Object(details) },
        tags,
        importance,
        confidence,
        source,
        ttl_ms: None,
        meta: Map::empty(),
        embedding: None,
        embedding_model: None,
    }
}

/// What is said of a memory that comes from a source.
pub(crate) struct Draft {
    pub id: String,
    pub scope: ScopeKey,
    pub kind: MemoryKind,
    pub created_at_ms: i64,
    pub text: String,
    pub details: JsonMap,
    pub tags: Vec<String>,
    pub importance: Float,
    pub confidence: Float,
}

impl Draft {
    /// The memory from a source of which this is said.
    pub(crate) fn into_item(self, source: &str) -> (r: MemoryItem)
        ensures
            r@ == sourced_item(
                source@,
                self.scope@,
                self.id@,
                self.kind,
                self.created_at_ms,
                self.text@,
                self.details@,
                views(self.tags@),
                self.importance,
                self.confidence,
            ),
    {
        broadcast use tree_cases;

        MemoryItem {
            id: MemoryId(self.id),
            scope: self.scope,
            kind: self.kind,
            created_at_ms: self.created_at_ms,
            content: Content::TextJson { text: self.text, json: Json::Object(self.details) },
            tags: self.tags,
            importance: self.importance,
            confidence: self.confidence,
            source: source.to_owned(),
            ttl_ms: None,
            meta: JsonMap::new(),
            embedding: None,
            embedding_model: None,
        }
    }
}

/// Puts a text under a key.
pub(crate) fn put_text(details: &mut JsonMap, key: &str, value: &str)
    ensures
        final(details)@ == old(details)@.insert(key@, JsonTree::Text(value@)),
{
    details.insert(key.to_owned(), Json::text(value));
}

/// Puts an integer under a key.
pub(crate) fn put_int(details: &mut JsonMap, key: &str, value: i64)
    ensures
        final(details)@ == old(details)@.insert(key@, JsonTree::Int(value as int)),
{
    details.insert(key.to_owned(), Json::from_i64(value));
}

/// Two texts as a list.
pub(crate) fn two_texts(a: &str, b: &str) -> (r: Vec<String>)
    ensures
        views(r@) == seq![a@, b@],
{
    let mut out: Vec<String> = Vec::new();
    out.push(a.to_owned());
    out.push(b.to_owned());
    assert(views(out@) =~= seq![a@, b@]);
    out
}

/// Three texts as a list.
pub(crate) fn three_texts(a: &str, b: &str, c: &str) -> (r: Vec<String>)
    ensures
        views(r@) == seq![a@, b@, c@],
{
    let mut out = two_texts(a, b);
    let ghost before = views(out@);
    out.push(c.to_owned());
    assert(views(out@) =~= before.push(c@));
    assert(views(out@) =~= seq![a@, b@, c@]);
    out
}

/// Four texts as a list.
pub(crate) fn four_texts(a: &str, b: &str, c: &str, d: &str) -> (r: Vec<String>)
    ensures
        views(r@) == seq![a@, b@, c@, d@],
{
    let mut out = three_texts(a, b, c);
    let ghost before = views(out@);
    out.push(d.to_owned());
    assert(views(out@) =~= before.push(d@));
    assert(views(out@) =~= seq![a@, b@, c@, d@]);
    out
}

/// A level of a scope, or a word that stands for it where it is not given.
pub open spec fn level_or(level: Option<Seq<char>>, other: Seq<char>) -> Seq<char> {
    match level {
        Some(l) => l,
        None => other,
    }
}

/// A level of a scope, or a word that stands for it.
pub(crate) fn text_or<'a>(level: &'a Option<String>, other: &'a str) -> (r: &'a str)
    ensures
        r@ == level_or(crate::model::opt(*level), other@),
{
    match level {
        Some(l) => l.as_str(),
        None => other,
    }
}

/// A memory from a source holds what is said of it, each where it belongs: it lasts,
/// is not embedded and has no metadata.
pub proof fn law_sourced_items_hold_what_is_said(
    source: Seq<char>,
    scope: ScopeModel,
    id: Seq<char>,
    kind: MemoryKind,
    created_at_ms: i64,
    text: Seq<char>,
    details: Map<Seq<char>, JsonTree>,
    tags: Seq<Seq<char>>,
    importance: Float,
    confidence: Float,
)
    ensures
        ({
            let item = sourced_item(
                source,
                scope,
                id,
                kind,
                created_at_ms,
                text,
                details,
                tags,
                importance,
                confidence,
            );
            &&& item.source == source && item.scope == scope && item.id == id && item.kind == kind
            &&& item.created_at_ms == created_at_ms && item.tags == tags
            &&& item.importance == importance && item.confidence == confidence
            &&& item.content == (ContentModel::TextJson { text, json: JsonTree::Object(details) })
            &&& item.ttl_ms is None && item.embedding is None && item.embedding_model is None
            &&& forall|k: Seq<char>| !(#[trigger] item.meta.contains_key(k))
        }),
{
}

} // verus!
