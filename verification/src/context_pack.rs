//! Context packs: the memories that fit in an agent's token budget, sorted by
//! the use they have.
use crate::float::Float;
use crate::json::{json_text, to_json_text};
use crate::memory::{Content, ContentModel, ItemModel, MemoryItem, MemoryKind, Scored, ScoredModel};
use crate::model::views;
use crate::query::Query;
use crate::text::{first_chars, take_chars, to_chars};
use vstd::prelude::*;

verus! {

/// What one memory is taken to cost.
pub const TOKENS_PER_ITEM: usize = 150;

/// The budget where none is given.
pub const DEFAULT_BUDGET_TOKENS: usize = 3000;

/// How much of a memory a citation shows.
pub const PREVIEW_CHARS: usize = 120;

/// A request for a context pack.
#[derive(Debug)]
pub struct ContextPackRequest {
    pub query: Query,
    pub budget_tokens: Option<usize>,
}

/// A reference to a memory in a pack.
#[derive(Debug)]
pub struct Citation {
    pub memory_id: String,
    pub source: String,
    pub kind: MemoryKind,
    pub created_at_ms: i64,
    pub score: Float,
    pub preview: String,
}

/// The model of a citation.
pub struct CitationModel {
    pub memory_id: Seq<char>,
    pub source: Seq<char>,
    pub kind: MemoryKind,
    pub created_at_ms: i64,
    pub score: Float,
    pub preview: Seq<char>,
}

impl View for Citation {
    type V = CitationModel;

    open spec fn view(&self) -> CitationModel {
        CitationModel {
            memory_id: self.memory_id@,
            source: self.source@,
            kind: self.kind,
            created_at_ms: self.created_at_ms,
            score: self.score,
            preview: self.preview@,
        }
    }
}

/// Memories within a token budget.
#[derive(Debug)]
pub struct ContextPack {
    pub highlights: Vec<Scored<MemoryItem>>,
    pub summaries: Vec<Scored<MemoryItem>>,
    pub facts: Vec<Scored<MemoryItem>>,
    pub citations: Vec<Citation>,
    pub estimated_tokens: usize,
    pub budget_tokens: usize,
}

/// A scored memory.
pub type Hit = ScoredModel<ItemModel>;

/// The text of a content: its own, or that of its JSON where it has none.
pub open spec fn content_text(content: ContentModel) -> Seq<char> {
    match content {
        ContentModel::Text(t) => t,
        ContentModel::TextJson { text, .. } => text,
        ContentModel::Json(j) => json_text(j),
    }
}

/// The text of a content.
pub fn read_content_text(content: &Content) -> (r: String)
    ensures
        r@ == content_text(content@),
{
    match content {
        Content::Text(t) => t.clone(),
        Content::TextJson { text, .. } => text.clone(),
        Content::Json(j) => to_json_text(j),
    }
}

/// `text` cut to `max_len` characters, with an ellipsis where something is
/// missing.
pub open spec fn shortened(text: Seq<char>, max_len: nat) -> Seq<char> {
    if text.len() <= max_len {
        text
    } else {
        first_chars(text, max_len) + "…"@
    }
}

/// Cuts `text` to `max_len` characters.
pub fn shorten(text: String, max_len: usize) -> (r: String)
    ensures
        r@ == shortened(text@, max_len as nat),
{
    if to_chars(text.as_str()).len() <= max_len {
        text
    } else {
        let mut out = take_chars(text.as_str(), max_len);
        out.push_str("…");
        out
    }
}

/// A short view of a content.
pub fn content_preview(content: &Content, max_len: usize) -> (r: String)
    ensures
        r@ == shortened(content_text(content@), max_len as nat),
{
    shorten(read_content_text(content), max_len)
}

/// The parts of a pack.
#[derive(Debug, Clone, Copy, PartialEq, Eq, Structural)]
pub enum Bucket {
    Highlights,
    Summaries,
    Facts,
}

/// The part of a pack that a kind of memory belongs to.
pub open spec fn bucket_of(kind: MemoryKind) -> Bucket {
    match kind {
        MemoryKind::Event | MemoryKind::Task => Bucket::Highlights,
        MemoryKind::Summary | MemoryKind::Checkpoint => Bucket::Summaries,
        MemoryKind::Fact | MemoryKind::Preference => Bucket::Facts,
    }
}

/// The part of a pack that a kind of memory belongs to.
pub fn bucket(kind: MemoryKind) -> (r: Bucket)
    ensures
        r == bucket_of(kind),
{
    match kind {
        MemoryKind::Event | MemoryKind::Task => Bucket::Highlights,
        MemoryKind::Summary | MemoryKind::Checkpoint => Bucket::Summaries,
        MemoryKind::Fact | MemoryKind::Preference => Bucket::Facts,
    }
}

/// The hits that belong to one part, in the order they came.
pub open spec fn in_bucket(hits: Seq<Hit>, b: Bucket) -> Seq<Hit>
    decreases hits.len(),
{
    if hits.len() == 0 {
        Seq::empty()
    } else if bucket_of(hits.last().item.kind) == b {
        in_bucket(hits.drop_last(), b).push(hits.last())
    } else {
        in_bucket(hits.drop_last(), b)
    }
}

/// The budget that counts: the one given, or else the default, and at least the
/// cost of one memory.
pub open spec fn effective_budget(budget_tokens: Option<usize>) -> usize {
    let asked = match budget_tokens {
        Some(b) => b,
        None => DEFAULT_BUDGET_TOKENS,
    };
    if asked < TOKENS_PER_ITEM {
        TOKENS_PER_ITEM
    } else {
        asked
    }
}

/// The hits that fit in a budget: the first ones.
pub open spec fn affordable(hits: Seq<Hit>, budget_tokens: Option<usize>) -> Seq<Hit> {
    let n = effective_budget(budget_tokens) as int / TOKENS_PER_ITEM as int;
    if hits.len() <= n {
        hits
    } else {
        hits.take(n)
    }
}

/// The reference to a hit.
pub open spec fn citation_of(hit: Hit) -> CitationModel {
    CitationModel {
        memory_id: hit.item.id,
        source: hit.item.source,
        kind: hit.item.kind,
        created_at_ms: hit.item.created_at_ms,
        score: hit.score,
        preview: shortened(content_text(hit.item.content), PREVIEW_CHARS as nat),
    }
}

/// Sorts scored memories into a pack that keeps within the budget.
pub fn build_context_pack(
    items: Vec<Scored<MemoryItem>>,
    budget_tokens: Option<usize>,
) -> (r: ContextPack)
    ensures
        ({
            let kept = affordable(views(items@), budget_tokens);
            &&& views(r.highlights@) == in_bucket(kept, Bucket::Highlights)
            &&& views(r.summaries@) == in_bucket(kept, Bucket::Summaries)
            &&& views(r.facts@) == in_bucket(kept, Bucket::Facts)
            &&& views(r.citations@) == kept.map_values(|h: Hit| citation_of(h))
            &&& r.estimated_tokens == kept.len() * TOKENS_PER_ITEM
            &&& r.budget_tokens == effective_budget(budget_tokens)
        }),
        r.estimated_tokens <= r.budget_tokens,
        r.citations@.len() <= items@.len(),
        forall|k: int|
            0 <= k < r.citations@.len() ==> (#[trigger] r.citations@[k]).memory_id@
                == items@[k].item.id@ && r.citations@[k].score == items@[k].score,
{
    let asked: usize = match budget_tokens {
        Some(b) => b,
        None => DEFAULT_BUDGET_TOKENS,
    };
    let budget: usize = if asked < TOKENS_PER_ITEM {
        TOKENS_PER_ITEM
    } else {
        asked
    };
    let max_items: usize = budget / TOKENS_PER_ITEM;
    let ghost all = views(items@);
    let mut items = items;
    items.truncate(max_items);
    let ghost kept = views(items@);
    assert(kept =~= affordable(all, budget_tokens));
    let mut highlights: Vec<Scored<MemoryItem>> = Vec::new();
    let mut summaries: Vec<Scored<MemoryItem>> = Vec::new();
    let mut facts: Vec<Scored<MemoryItem>> = Vec::new();
    let mut citations: Vec<Citation> = Vec::new();
    let included: usize = items.len();
    assert(kept.take(0) =~= Seq::<Hit>::empty());
    assert(views(highlights@) =~= Seq::<Hit>::empty());
    for scored in it: items
        invariant
            it.seq() == items@,
            kept == views(items@),
            views(highlights@) == in_bucket(kept.take(it.index()), Bucket::Highlights),
            views(summaries@) == in_bucket(kept.take(it.index()), Bucket::Summaries),
            views(facts@) == in_bucket(kept.take(it.index()), Bucket::Facts),
            views(citations@) == kept.take(it.index()).map_values(|h: Hit| citation_of(h)),
    {
        let ghost i = it.index();
        let ghost hit = scored@;
        let ghost before = (views(highlights@), views(summaries@), views(facts@), views(citations@));
        proof {
            assert(kept[i] == hit);
            assert(kept.take(i + 1).drop_last() =~= kept.take(i));
            assert(kept.take(i + 1).last() == hit);
        }
        citations.push(
            Citation {
                memory_id: scored.item.id.0.clone(),
                source: scored.item.source.clone(),
                kind: scored.item.kind,
                created_at_ms: scored.item.created_at_ms,
                score: scored.score,
                preview: content_preview(&scored.item.content, PREVIEW_CHARS),
            },
        );
        proof {
            assert(views(citations@) =~= before.3.push(citation_of(hit)));
            assert(kept.take(i + 1).map_values(|h: Hit| citation_of(h)) =~= before.3.push(
                citation_of(hit),
            ));
        }
        match bucket(scored.item.kind) {
            Bucket::Highlights => {
                highlights.push(scored);
                assert(views(highlights@) =~= before.0.push(hit));
            },
            Bucket::Summaries => {
                summaries.push(scored);
                assert(views(summaries@) =~= before.1.push(hit));
            },
            Bucket::Facts => {
                facts.push(scored);
                assert(views(facts@) =~= before.2.push(hit));
            },
        }
    }
    assert(kept.take(kept.len() as int) =~= kept);
    assert forall|k: int| 0 <= k < citations@.len() implies (
    #[trigger] citations@[k]).memory_id@ == all[k].item.id && citations@[k].score
        == all[k].score by {
        assert(views(citations@)[k] == citation_of(kept[k]));
        assert(kept[k] == all[k]);
    }
    assert(included * TOKENS_PER_ITEM <= budget) by (nonlinear_arith)
        requires
            included <= budget / TOKENS_PER_ITEM,
            TOKENS_PER_ITEM == 150,
    ;
    ContextPack {
        highlights,
        summaries,
        facts,
        citations,
        estimated_tokens: included * TOKENS_PER_ITEM,
        budget_tokens: budget,
    }
}

/// Every hit goes to exactly one part of a pack: the parts together are as many
/// as the hits.
pub proof fn law_buckets_partition(hits: Seq<Hit>)
    ensures
        in_bucket(hits, Bucket::Highlights).len() + in_bucket(hits, Bucket::Summaries).len()
            + in_bucket(hits, Bucket::Facts).len() == hits.len(),
        forall|b: Bucket, i: int|
            0 <= i < in_bucket(hits, b).len() ==> {
                &&& bucket_of((#[trigger] in_bucket(hits, b)[i]).item.kind) == b
                &&& hits.contains(in_bucket(hits, b)[i])
            },
    decreases hits.len(),
{
    if hits.len() > 0 {
        let front = hits.drop_last();
        law_buckets_partition(front);
        assert forall|b: Bucket, i: int| 0 <= i < in_bucket(hits, b).len() implies {
            &&& bucket_of((#[trigger] in_bucket(hits, b)[i]).item.kind) == b
            &&& hits.contains(in_bucket(hits, b)[i])
        } by {
            if i < in_bucket(front, b).len() {
                assert(in_bucket(hits, b)[i] == in_bucket(front, b)[i]);
                let k = front.index_of(in_bucket(front, b)[i]);
                assert(hits[k] == front[k]);
            } else {
                assert(in_bucket(hits, b)[i] == hits.last());
                assert(hits[hits.len() - 1] == hits.last());
            }
        }
    }
}

/// What a pack keeps is what stands first: as many hits as there are, up to one for
/// every 150 tokens of the budget, and one at least; each at the place that it had.
/// Without a budget there are 3000 tokens.
pub proof fn law_pack_keeps_what_comes_first(hits: Seq<Hit>, budget_tokens: Option<usize>)
    ensures
        affordable(hits, budget_tokens).len() <= hits.len(),
        forall|k: int|
            0 <= k < affordable(hits, budget_tokens).len() ==> #[trigger] affordable(
                hits,
                budget_tokens,
            )[k] == hits[k],
        budget_tokens matches Some(b) ==> b >= 150 ==> effective_budget(budget_tokens) == b,
        budget_tokens matches Some(b) ==> b < 150 ==> effective_budget(budget_tokens) == 150,
        budget_tokens is None ==> effective_budget(budget_tokens) == 3000,
        affordable(hits, budget_tokens).len() * 150 <= effective_budget(budget_tokens),
        affordable(hits, budget_tokens).len() < hits.len() ==> (affordable(
            hits,
            budget_tokens,
        ).len() + 1) * 150 > effective_budget(budget_tokens),
        hits.len() > 0 ==> affordable(hits, budget_tokens).len() > 0,
{
}

/// Where the scores of the hits never rise, nothing that a pack leaves out has a
/// greater score than something that it keeps.
pub proof fn law_pack_leaves_out_the_least(
    hits: Seq<Hit>,
    budget_tokens: Option<usize>,
    kept: int,
    left: int,
)
    requires
        forall|i: int, j: int|
            0 <= i < j < hits.len() ==> (#[trigger] hits[j]).score.at_most(
                (#[trigger] hits[i]).score,
            ),
        0 <= kept < affordable(hits, budget_tokens).len(),
        affordable(hits, budget_tokens).len() <= left < hits.len(),
    ensures
        hits[left].score.at_most(affordable(hits, budget_tokens)[kept].score),
{
    assert(hits[left].score.at_most(hits[kept].score));
}

/// Each part of a pack holds the hits of its kinds, in the order they came:
/// highlights events and tasks, summaries summaries and checkpoints, and facts
/// facts and preferences.
pub proof fn law_parts_hold_their_kinds(hits: Seq<Hit>, b: Bucket) -> (places: Seq<int>)
    ensures
        in_bucket(hits, b).len() == places.len(),
        forall|x: int, y: int|
            0 <= x < y < places.len() ==> #[trigger] places[x] < #[trigger] places[y],
        forall|x: int|
            0 <= x < places.len() ==> 0 <= #[trigger] places[x] < hits.len() && in_bucket(
                hits,
                b,
            )[x] == hits[places[x]] && match b {
                Bucket::Highlights => hits[places[x]].item.kind == MemoryKind::Event
                    || hits[places[x]].item.kind == MemoryKind::Task,
                Bucket::Summaries => hits[places[x]].item.kind == MemoryKind::Summary
                    || hits[places[x]].item.kind == MemoryKind::Checkpoint,
                Bucket::Facts => hits[places[x]].item.kind == MemoryKind::Fact
                    || hits[places[x]].item.kind == MemoryKind::Preference,
            },
        forall|k: int|
            0 <= k < hits.len() && match b {
                Bucket::Highlights => (#[trigger] hits[k]).item.kind == MemoryKind::Event
                    || hits[k].item.kind == MemoryKind::Task,
                Bucket::Summaries => hits[k].item.kind == MemoryKind::Summary || hits[k].item.kind
                    == MemoryKind::Checkpoint,
                Bucket::Facts => hits[k].item.kind == MemoryKind::Fact || hits[k].item.kind
                    == MemoryKind::Preference,
            } ==> places.contains(k),
    decreases hits.len(),
{
    if hits.len() == 0 {
        Seq::empty()
    } else {
        let front = hits.drop_last();
        let before = law_parts_hold_their_kinds(front, b);
        let places = if bucket_of(hits.last().item.kind) == b {
            before.push(hits.len() - 1)
        } else {
            before
        };
        assert forall|k: int| 0 <= k < hits.len() && bucket_of((#[trigger] hits[k]).item.kind)
            == b implies places.contains(k) by {
            if k < front.len() {
                assert(front[k] == hits[k]);
                let x = before.index_of(k);
                assert(places[x] == k);
            } else {
                assert(places[before.len() as int] == k);
            }
        }
        places
    }
}

/// A citation names its memory, and shows its text: the whole of it up to 120
/// characters, else its first 120 characters and an ellipsis.
pub proof fn law_citation_tells_its_memory(hit: Hit)
    ensures
        citation_of(hit).memory_id == hit.item.id,
        citation_of(hit).source == hit.item.source,
        citation_of(hit).kind == hit.item.kind,
        citation_of(hit).created_at_ms == hit.item.created_at_ms,
        citation_of(hit).score == hit.score,
        content_text(hit.item.content).len() <= 120 ==> citation_of(hit).preview == content_text(
            hit.item.content,
        ),
        content_text(hit.item.content).len() > 120 ==> {
            &&& citation_of(hit).preview.len() == 121
            &&& citation_of(hit).preview.take(120) == content_text(hit.item.content).take(120)
            &&& citation_of(hit).preview[120] == '…'
        },
        hit.item.content matches ContentModel::Text(t) ==> content_text(hit.item.content) == t,
        hit.item.content matches ContentModel::TextJson { text, .. } ==> content_text(
            hit.item.content,
        ) == text,
        hit.item.content matches ContentModel::Json(j) ==> content_text(hit.item.content)
            == json_text(j),
{
    reveal_strlit("…");
    let text = content_text(hit.item.content);
    if text.len() > 120 {
        assert(citation_of(hit).preview.take(120) =~= text.take(120));
    }
}

/// A text cut to a length: itself where it is no longer, else its first characters,
/// that many, and an ellipsis.
pub proof fn law_shortening_cuts_the_end(text: Seq<char>, max_len: nat)
    ensures
        text.len() <= max_len ==> shortened(text, max_len) == text,
        text.len() > max_len ==> shortened(text, max_len) == text.take(max_len as int).push('…'),
{
    reveal_strlit("…");
    if text.len() > max_len {
        assert(shortened(text, max_len) =~= text.take(max_len as int).push('…'));
    }
}

} // verus!
