//! Rows: how memories are laid out in the database.
use crate::json::{copy_json, tree_cases, Json, JsonMap, JsonTree};
use crate::json::copy_map;
use crate::memory::{
    copy_embedding, kind_of, kind_text, law_kind_reads_back, Content, ContentModel, ItemModel,
    MemoryId, MemoryItem, MemoryKind, ScopeKey, ScopeModel,
};
use crate::float::Float;
use crate::model::{copy_opt, copy_texts, opt, views};
use crate::text::{blank, is_blank};
use vstd::prelude::*;

verus! {

/// A memory as a row.
#[derive(Debug)]
pub struct StoredItem {
    pub id: String,
    pub tenant_id: String,
    pub workspace_id: Option<String>,
    pub project_id: Option<String>,
    pub agent_id: Option<String>,
    pub run_id: Option<String>,
    pub kind: String,
    pub created_at_ms: i64,
    pub content_text: Option<String>,
    pub content_json: Option<Json>,
    pub importance: Float,
    pub confidence: Float,
    pub source: String,
    pub ttl_ms: Option<i64>,
    pub meta: Json,
    pub tags: Vec<String>,
    pub embedding: Option<Vec<Float>>,
    pub embedding_model: Option<String>,
}

/// The model of a row.
pub struct RowModel {
    pub id: Seq<char>,
    pub scope: ScopeModel,
    pub kind: Seq<char>,
    pub created_at_ms: i64,
    pub content_text: Option<Seq<char>>,
    pub content_json: Option<JsonTree>,
    pub importance: Float,
    pub confidence: Float,
    pub source: Seq<char>,
    pub ttl_ms: Option<i64>,
    pub meta: JsonTree,
    pub tags: Seq<Seq<char>>,
    pub embedding: Option<Seq<Float>>,
    pub embedding_model: Option<Seq<char>>,
}

impl View for StoredItem {
    type V = RowModel;

    open spec fn view(&self) -> RowModel {
        RowModel {
            id: self.id@,
            scope: ScopeModel {
                tenant_id: self.tenant_id@,
                workspace_id: opt(self.workspace_id),
                project_id: opt(self.project_id),
                agent_id: opt(self.agent_id),
                run_id: opt(self.run_id),
            },
            kind: self.kind@,
            created_at_ms: self.created_at_ms,
            content_text: opt(self.content_text),
            content_json: opt(self.content_json),
            importance: self.importance,
            confidence: self.confidence,
            source: self.source@,
            ttl_ms: self.ttl_ms,
            meta: self.meta@,
            tags: views(self.tags@),
            embedding: opt(self.embedding),
            embedding_model: opt(self.embedding_model),
        }
    }
}

/// The row of a memory.
pub open spec fn row_of(item: ItemModel) -> RowModel {
    RowModel {
        id: item.id,
        scope: item.scope,
        kind: kind_text(item.kind),
        created_at_ms: item.created_at_ms,
        content_text: match item.content {
            ContentModel::Text(t) => Some(t),
            ContentModel::Json(_) => None,
            ContentModel::TextJson { text, .. } => Some(text),
        },
        content_json: match item.content {
            ContentModel::Text(_) => None,
            ContentModel::Json(j) => Some(j),
            ContentModel::TextJson { json, .. } => Some(json),
        },
        importance: item.importance,
        confidence: item.confidence,
        source: item.source,
        ttl_ms: item.ttl_ms,
        meta: JsonTree::Object(item.meta),
        tags: item.tags,
        embedding: item.embedding,
        embedding_model: item.embedding_model,
    }
}

/// The memory that a row holds. A row without content holds an empty text, one
/// of an unknown kind an event, and metadata that are no object count as none.
pub open spec fn item_of(row: RowModel) -> ItemModel {
    ItemModel {
        id: row.id,
        scope: row.scope,
        kind: match kind_of(row.kind) {
            Some(kind) => kind,
            None => MemoryKind::Event,
        },
        created_at_ms: row.created_at_ms,
        content: match (row.content_text, row.content_json) {
            (Some(t), None) => ContentModel::Text(t),
            (None, Some(j)) => ContentModel::Json(j),
            (Some(t), Some(j)) => ContentModel::TextJson { text: t, json: j },
            (None, None) => ContentModel::Text(Seq::empty()),
        },
        tags: row.tags,
        importance: row.importance,
        confidence: row.confidence,
        source: row.source,
        ttl_ms: row.ttl_ms,
        meta: match row.meta {
            JsonTree::Object(m) => m,
            _ => Map::empty(),
        },
        embedding: row.embedding,
        embedding_model: row.embedding_model,
    }
}

/// Lays out a memory as a row, whatever its tenant.
pub fn lay_out(item: &MemoryItem) -> (r: StoredItem)
    ensures
        r@ == row_of(item@),
{
    broadcast use tree_cases;

    let content_text: Option<String> = match &item.content {
        Content::Text(t) => Some(t.clone()),
        Content::Json(_) => None,
        Content::TextJson { text, .. } => Some(text.clone()),
    };
    let content_json: Option<Json> = match &item.content {
        Content::Text(_) => None,
        Content::Json(j) => Some(copy_json(j)),
        Content::TextJson { json, .. } => Some(copy_json(json)),
    };
    StoredItem {
        id: item.id.0.clone(),
        tenant_id: item.scope.tenant_id.clone(),
        workspace_id: copy_opt(&item.scope.workspace_id),
        project_id: copy_opt(&item.scope.project_id),
        agent_id: copy_opt(&item.scope.agent_id),
        run_id: copy_opt(&item.scope.run_id),
        kind: item.kind.to_string(),
        created_at_ms: item.created_at_ms,
        content_text,
        content_json,
        importance: item.importance,
        confidence: item.confidence,
        source: item.source.clone(),
        ttl_ms: item.ttl_ms,
        meta: Json::Object(copy_map(&item.meta)),
        tags: copy_texts(&item.tags),
        embedding: copy_embedding(&item.embedding),
        embedding_model: copy_opt(&item.embedding_model),
    }
}

/// Lays out a memory as a row; it must name a tenant.
pub fn stored_item_from_memory_item(item: &MemoryItem) -> (r: Result<StoredItem, String>)
    ensures
        match r {
            Ok(row) => !blank(item@.scope.tenant_id) && row@ == row_of(item@),
            Err(e) => blank(item@.scope.tenant_id) && e@ == "tenant_id is required"@,
        },
{
    if is_blank(item.scope.tenant_id.as_str()) {
        return Err("tenant_id is required".to_owned());
    }
    Ok(lay_out(item))
}

/// Reads the memory out of a row.
pub fn stored_item_to_memory(s: StoredItem) -> (r: MemoryItem)
    ensures
        r@ == item_of(s@),
{
    broadcast use tree_cases;

    let content = match (s.content_text, s.content_json) {
        (Some(text), None) => Content::Text(text),
        (None, Some(json)) => Content::Json(json),
        (Some(text), Some(json)) => Content::TextJson { text, json },
        (None, None) => Content::Text(String::new()),
    };
    let kind = match MemoryKind::from_str(s.kind.as_str()) {
        Ok(k) => k,
        Err(_) => MemoryKind::Event,
    };
    let meta = match s.meta {
        Json::Object(m) => m,
        _ => JsonMap::new(),
    };
    MemoryItem {
        id: MemoryId(s.id),
        scope: ScopeKey {
            tenant_id: s.tenant_id,
            workspace_id: s.workspace_id,
            project_id: s.project_id,
            agent_id: s.agent_id,
            run_id: s.run_id,
        },
        kind,
        created_at_ms: s.created_at_ms,
        content,
        tags: s.tags,
        importance: s.importance,
        confidence: s.confidence,
        source: s.source,
        ttl_ms: s.ttl_ms,
        meta,
        embedding: s.embedding,
        embedding_model: s.embedding_model,
    }
}

/// A memory laid out as a row reads back as that memory, every field of it.
pub proof fn law_row_reads_back(item: ItemModel)
    ensures
        item_of(row_of(item)) == item,
{
    law_kind_reads_back(item.kind);
}

/// Whether something made at `created_at_ms` with the lifetime `ttl_ms` is over
/// at `now_ms`. A lifetime that ends beyond the last moment there is never ends.
pub open spec fn expired(created_at_ms: i64, ttl_ms: Option<i64>, now_ms: i64) -> bool {
    match ttl_ms {
        Some(ttl) => i64::MIN <= created_at_ms + ttl <= i64::MAX && created_at_ms + ttl <= now_ms,
        None => false,
    }
}

/// Whether a lifetime is over.
pub fn is_expired(created_at_ms: i64, ttl_ms: Option<i64>, now_ms: i64) -> (r: bool)
    ensures
        r == expired(created_at_ms, ttl_ms, now_ms),
{
    match ttl_ms {
        Some(ttl) => match created_at_ms.checked_add(ttl) {
            Some(expires_at) => expires_at <= now_ms,
            None => false,
        },
        None => false,
    }
}

/// What is over stays over.
pub proof fn law_expiry_is_final(created_at_ms: i64, ttl_ms: Option<i64>, now_ms: i64, later_ms: i64)
    requires
        now_ms <= later_ms,
        expired(created_at_ms, ttl_ms, now_ms),
    ensures
        expired(created_at_ms, ttl_ms, later_ms),
{
}

/// The memory that a lookup by id finds in the rows: the first, unless its
/// lifetime is over.
pub open spec fn found_in(rows: Seq<RowModel>, now_ms: i64) -> Option<ItemModel> {
    if rows.len() == 0 || expired(rows[0].created_at_ms, rows[0].ttl_ms, now_ms) {
        None
    } else {
        Some(item_of(rows[0]))
    }
}

/// The memory that a lookup by id and scope finds.
pub fn scoped_item(rows: Vec<StoredItem>, now_ms: i64) -> (r: Option<MemoryItem>)
    ensures
        opt(r) == found_in(views(rows@), now_ms),
{
    let mut rows = rows;
    if rows.len() == 0 {
        return None;
    }
    assert(views(rows@)[0] == rows@[0]@);
    let first = rows.swap_remove(0);
    if is_expired(first.created_at_ms, first.ttl_ms, now_ms) {
        None
    } else {
        Some(stored_item_to_memory(first))
    }
}

/// The memories of the rows whose lifetime is not over, in their order.
pub open spec fn live_items(rows: Seq<RowModel>, now_ms: i64) -> Seq<ItemModel>
    decreases rows.len(),
{
    if rows.len() == 0 {
        Seq::empty()
    } else {
        let before = live_items(rows.drop_last(), now_ms);
        let last = rows.last();
        if expired(last.created_at_ms, last.ttl_ms, now_ms) {
            before
        } else {
            before.push(item_of(last))
        }
    }
}

/// Reads the memories out of rows, without those whose lifetime is over.
pub fn live_memories(rows: Vec<StoredItem>, now_ms: i64) -> (r: Vec<MemoryItem>)
    ensures
        views(r@) == live_items(views(rows@), now_ms),
{
    let ghost all = views(rows@);
    let mut out: Vec<MemoryItem> = Vec::new();
    assert(all.take(0) =~= Seq::<RowModel>::empty());
    assert(views(out@) =~= Seq::<ItemModel>::empty());
    for row in it: rows
        invariant
            it.seq() == rows@,
            all == views(rows@),
            views(out@) == live_items(all.take(it.index()), now_ms),
    {
        let ghost i = it.index();
        let ghost before = views(out@);
        proof {
            assert(all[i] == row@);
            assert(all.take(i + 1).drop_last() =~= all.take(i));
            assert(all.take(i + 1).last() == row@);
        }
        if !is_expired(row.created_at_ms, row.ttl_ms, now_ms) {
            let ghost model = item_of(row@);
            out.push(stored_item_to_memory(row));
            assert(views(out@) =~= before.push(model));
        }
    }
    assert(all.take(all.len() as int) =~= all);
    out
}

/// Every memory that is read out of rows alive is that of a row whose lifetime is
/// not over.
pub proof fn law_live_items_live(rows: Seq<RowModel>, now_ms: i64, item: ItemModel)
    requires
        live_items(rows, now_ms).contains(item),
    ensures
        exists|i: int|
            0 <= i < rows.len() && item == item_of(#[trigger] rows[i]) && !expired(
                rows[i].created_at_ms,
                rows[i].ttl_ms,
                now_ms,
            ),
    decreases rows.len(),
{
    let front = rows.drop_last();
    let last = rows.last();
    if !expired(last.created_at_ms, last.ttl_ms, now_ms) && item == item_of(last) {
        assert(rows[rows.len() - 1] == last);
    } else {
        let k = live_items(rows, now_ms).index_of(item);
        assert(live_items(front, now_ms)[k] == item);
        law_live_items_live(front, now_ms, item);
        let i = choose|i: int|
            0 <= i < front.len() && item == item_of(#[trigger] front[i]) && !expired(
                front[i].created_at_ms,
                front[i].ttl_ms,
                now_ms,
            );
        assert(rows[i] == front[i]);
    }
}

/// The first `limit` members of a list, or all of it.
pub open spec fn at_most_first<V>(s: Seq<V>, limit: nat) -> Seq<V> {
    if s.len() <= limit {
        s
    } else {
        s.take(limit as int)
    }
}

/// The memories that a query shows: those whose lifetime is not over, at most
/// `limit`.
pub fn query_items(rows: Vec<StoredItem>, now_ms: i64, limit: usize) -> (r: Vec<MemoryItem>)
    ensures
        views(r@) == at_most_first(live_items(views(rows@), now_ms), limit as nat),
{
    let mut out = live_memories(rows, now_ms);
    let ghost full = views(out@);
    out.truncate(limit);
    assert(views(out@) =~= at_most_first(full, limit as nat));
    out
}

/// Reads the memories out of rows.
pub fn memories_of(rows: Vec<StoredItem>) -> (r: Vec<MemoryItem>)
    ensures
        views(r@) == views(rows@).map_values(|row: RowModel| item_of(row)),
{
    let ghost all = views(rows@);
    let mut out: Vec<MemoryItem> = Vec::new();
    for row in it: rows
        invariant
            it.seq() == rows@,
            all == views(rows@),
            out@.len() == it.index(),
            forall|k: int| 0 <= k < it.index() ==> (#[trigger] out@[k])@ == item_of(all[k]),
    {
        assert(all[it.index()] == row@);
        out.push(stored_item_to_memory(row));
    }
    assert(views(out@) =~= all.map_values(|row: RowModel| item_of(row)));
    out
}

/// The memories read out of rows alive are those of the rows whose lifetime is not
/// over, in their order, each with the id, scope and moment of its row. A row
/// without a lifetime is never over; one with a lifetime is over once the moment it
/// was made and its lifetime add up to no more than now.
pub proof fn law_live_rows_are_read(rows: Seq<RowModel>, now_ms: i64) -> (places: Seq<int>)
    ensures
        live_items(rows, now_ms).len() == places.len(),
        forall|a: int, b: int|
            0 <= a < b < places.len() ==> #[trigger] places[a] < #[trigger] places[b],
        forall|a: int|
            0 <= a < places.len() ==> {
                &&& 0 <= #[trigger] places[a] < rows.len()
                &&& live_items(rows, now_ms)[a].id == rows[places[a]].id
                &&& live_items(rows, now_ms)[a].scope == rows[places[a]].scope
                &&& live_items(rows, now_ms)[a].created_at_ms == rows[places[a]].created_at_ms
                &&& live_items(rows, now_ms)[a].ttl_ms == rows[places[a]].ttl_ms
                &&& live_items(rows, now_ms)[a].importance == rows[places[a]].importance
                &&& live_items(rows, now_ms)[a].tags == rows[places[a]].tags
                &&& live_items(rows, now_ms)[a].embedding == rows[places[a]].embedding
                &&& rows[places[a]].ttl_ms matches Some(ttl) ==> !(i64::MIN
                    <= rows[places[a]].created_at_ms + ttl <= now_ms)
            },
        forall|k: int|
            0 <= k < rows.len() && ((#[trigger] rows[k]).ttl_ms matches Some(ttl) ==> !(i64::MIN
                <= rows[k].created_at_ms + ttl <= now_ms)) ==> places.contains(k),
    decreases rows.len(),
{
    if rows.len() == 0 {
        Seq::empty()
    } else {
        let front = rows.drop_last();
        let before = law_live_rows_are_read(front, now_ms);
        let last = rows.last();
        let places = if expired(last.created_at_ms, last.ttl_ms, now_ms) {
            before
        } else {
            before.push(rows.len() - 1)
        };
        assert forall|k: int|
            0 <= k < rows.len() && ((#[trigger] rows[k]).ttl_ms matches Some(ttl) ==> !(i64::MIN
                <= rows[k].created_at_ms + ttl <= now_ms)) implies places.contains(k) by {
            if k < front.len() {
                assert(front[k] == rows[k]);
                let a = before.index_of(k);
                assert(places[a] == k);
            } else {
                assert(places[before.len() as int] == k);
            }
        }
        places
    }
}

/// A lookup by id gives the memory of the first row if its lifetime is not over,
/// and none otherwise; a query gives at most as many as were asked for, and those
/// are the first of the memories that live.
pub proof fn law_lookup_gives_the_first_live_row(rows: Seq<RowModel>, now_ms: i64)
    ensures
        rows.len() == 0 ==> found_in(rows, now_ms) is None,
        rows.len() > 0 && (rows[0].ttl_ms matches Some(ttl) ==> rows[0].created_at_ms + ttl
            > now_ms) ==> (found_in(rows, now_ms) matches Some(item) && item.id == rows[0].id
            && item.scope == rows[0].scope && item.created_at_ms == rows[0].created_at_ms),
        rows.len() > 0 && (rows[0].ttl_ms matches Some(ttl) && i64::MIN <= rows[0].created_at_ms
            + ttl <= now_ms) ==> found_in(rows, now_ms) is None,
{
}

/// The first so many of a list: each at its place, as many as there are up to that
/// many.
pub proof fn law_first_are_the_first<V>(s: Seq<V>, limit: nat)
    ensures
        at_most_first(s, limit).len() == if s.len() <= limit {
            s.len()
        } else {
            limit
        },
        forall|i: int| 0 <= i < at_most_first(s, limit).len() ==> #[trigger] at_most_first(
            s,
            limit,
        )[i] == s[i],
{
}

/// A row holds what its memory holds: under the same id and scope, with its kind in
/// words, its text where it has one and its JSON where it has one.
pub proof fn law_row_holds_its_memory(item: ItemModel)
    ensures
        row_of(item).id == item.id,
        row_of(item).scope == item.scope,
        row_of(item).created_at_ms == item.created_at_ms,
        row_of(item).importance == item.importance,
        row_of(item).confidence == item.confidence,
        row_of(item).ttl_ms == item.ttl_ms,
        row_of(item).source == item.source,
        row_of(item).tags == item.tags,
        row_of(item).meta == JsonTree::Object(item.meta),
        row_of(item).embedding == item.embedding,
        row_of(item).embedding_model == item.embedding_model,
        item.content matches ContentModel::Text(t) ==> row_of(item).content_text == Some(t)
            && row_of(item).content_json is None,
        item.content matches ContentModel::Json(j) ==> row_of(item).content_text is None && row_of(
            item,
        ).content_json == Some(j),
        item.content matches ContentModel::TextJson { text, json } ==> row_of(item).content_text
            == Some(text) && row_of(item).content_json == Some(json),
{
}

/// The memory that is read out of a row is what the row says: under its id, in its
/// scope, of its kind where that is known, with its text and its JSON where it has
/// them, and with its metadata where these are an object.
pub proof fn law_memory_is_what_its_row_says(row: RowModel)
    ensures
        ({
            let item = item_of(row);
            &&& item.id == row.id && item.scope == row.scope && item.created_at_ms
                == row.created_at_ms
            &&& item.importance == row.importance && item.confidence == row.confidence
            &&& item.source == row.source && item.ttl_ms == row.ttl_ms && item.tags == row.tags
            &&& item.embedding == row.embedding && item.embedding_model == row.embedding_model
            &&& kind_of(row.kind) matches Some(kind) ==> item.kind == kind
            &&& kind_of(row.kind) is None ==> item.kind == MemoryKind::Event
            &&& row.meta matches JsonTree::Object(m) ==> item.meta == m
            &&& match (row.content_text, row.content_json) {
                (Some(t), None) => item.content == ContentModel::Text(t),
                (None, Some(j)) => item.content == ContentModel::Json(j),
                (Some(t), Some(j)) => item.content == (ContentModel::TextJson { text: t, json: j }),
                (None, None) => item.content matches ContentModel::Text(t) && t.len() == 0,
            }
        }),
{
}

} // verus!
