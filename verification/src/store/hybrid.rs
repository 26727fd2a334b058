//! Recall by words and by meaning: the places that memories take in the two
//! rankings, and the merging of the two into one.
use crate::float::Float;
use crate::memory::{
    ItemModel, MemoryId, MemoryItem, ScopeKey, ScopeModel, Scored, ScoredModel,
};
use crate::model::{filter_places, holds_text, opt, views};
use crate::order::{
    all_numbers, best, best_or_full, is_best, law_best_are_best, law_greater_scores_come_first,
    scores_fall,
};
use crate::store::rows::{
    law_live_rows_are_read, live_items, live_memories, RowModel, StoredItem,
};
use crate::store::sql::{scope_matches, within};
use crate::text::same_text;
use vstd::prelude::*;

verus! {

/// Where a memory stands in the rankings by words and by meaning.
#[derive(Debug)]
pub struct RankedResult {
    pub id: String,
    pub lexical_rank: Option<u32>,
    pub semantic_rank: Option<u32>,
    pub lexical_score: Option<Float>,
    pub semantic_score: Option<Float>,
}

/// The model of such a standing.
pub struct RankedModel {
    pub id: Seq<char>,
    pub lexical_rank: Option<u32>,
    pub semantic_rank: Option<u32>,
    pub lexical_score: Option<Float>,
    pub semantic_score: Option<Float>,
}

impl View for RankedResult {
    type V = RankedModel;

    open spec fn view(&self) -> RankedModel {
        RankedModel {
            id: self.id@,
            lexical_rank: self.lexical_rank,
            semantic_rank: self.semantic_rank,
            lexical_score: self.lexical_score,
            semantic_score: self.semantic_score,
        }
    }
}

/// A memory's id with its score.
pub type IdHit = ScoredModel<Seq<char>>;

/// The last place that an id has in a ranking.
pub open spec fn last_place(hits: Seq<IdHit>, id: Seq<char>) -> Option<int>
    decreases hits.len(),
{
    if hits.len() == 0 {
        None
    } else if hits.last().item == id {
        Some(hits.len() - 1)
    } else {
        last_place(hits.drop_last(), id)
    }
}

/// A place in a ranking, as its rank.
pub open spec fn rank_at(place: Option<int>) -> Option<u32> {
    match place {
        Some(p) => Some((p % 0x1_0000_0000) as u32),
        None => None,
    }
}

/// The score at a place in a ranking.
pub open spec fn score_at(hits: Seq<IdHit>, place: Option<int>) -> Option<Float> {
    match place {
        Some(p) => Some(hits[p].score),
        None => None,
    }
}

/// Where an id stands in two rankings.
pub open spec fn standing(
    lexical: Seq<IdHit>,
    semantic: Seq<IdHit>,
    id: Seq<char>,
) -> RankedModel {
    RankedModel {
        id,
        lexical_rank: rank_at(last_place(lexical, id)),
        semantic_rank: rank_at(last_place(semantic, id)),
        lexical_score: score_at(lexical, last_place(lexical, id)),
        semantic_score: score_at(semantic, last_place(semantic, id)),
    }
}

/// Whether an id occurs in a ranking.
pub open spec fn ranks(hits: Seq<IdHit>, id: Seq<char>) -> bool {
    exists|i: int| 0 <= i < hits.len() && (#[trigger] hits[i]).item == id
}

/// The last place of an id is one where it occurs; it has one if it occurs at
/// all.
proof fn last_place_is_a_place(hits: Seq<IdHit>, id: Seq<char>)
    ensures
        ranks(hits, id) <==> last_place(hits, id) is Some,
        last_place(hits, id) matches Some(p) ==> 0 <= p < hits.len() && hits[p].item == id,
    decreases hits.len(),
{
    if hits.len() > 0 {
        let front = hits.drop_last();
        last_place_is_a_place(front, id);
        if ranks(hits, id) && hits.last().item != id {
            let i = choose|i: int| 0 <= i < hits.len() && (#[trigger] hits[i]).item == id;
            assert(front[i].item == id);
        }
        if hits.last().item == id {
            assert(hits[hits.len() - 1].item == id);
        }
        if ranks(front, id) {
            let i = choose|i: int| 0 <= i < front.len() && (#[trigger] front[i]).item == id;
            assert(hits[i].item == id);
        }
    }
}

/// Whether an id is that of some standing.
pub open spec fn stands_in(results: Seq<RankedModel>, id: Seq<char>) -> bool {
    exists|i: int| 0 <= i < results.len() && (#[trigger] results[i]).id == id
}

/// Finds the rank and the score of an id.
fn find_standing(hits: &Vec<Scored<String>>, id: &str) -> (r: (Option<u32>, Option<Float>))
    ensures
        r.0 == rank_at(last_place(views(hits@), id@)),
        r.1 == score_at(views(hits@), last_place(views(hits@), id@)),
{
    let ghost all = views(hits@);
    let mut i: usize = hits.len();
    assert(all.take(i as int) =~= all);
    while i > 0
        invariant
            i <= hits@.len(),
            all == views(hits@),
            last_place(all, id@) == last_place(all.take(i as int), id@),
        decreases i,
    {
        let ghost front = all.take(i as int);
        i -= 1;
        proof {
            assert(front.last() == hits@[i as int]@);
            assert(front.drop_last() =~= all.take(i as int));
        }
        if same_text(hits[i].item.as_str(), id) {
            assert(last_place(all, id@) == Some(i as int));
            let rank: u64 = i as u64 % 0x1_0000_0000;
            return (Some(rank as u32), Some(hits[i].score));
        }
    }
    (None, None)
}

/// Adds the ids of a ranking that are not yet there.
fn add_ids(ids: &mut Vec<String>, hits: &Vec<Scored<String>>)
    requires
        views(old(ids)@).no_duplicates(),
    ensures
        views(final(ids)@).no_duplicates(),
        forall|id: Seq<char>|
            #![trigger views(final(ids)@).contains(id)]
            views(final(ids)@).contains(id) <==> views(old(ids)@).contains(id) || ranks(
                views(hits@),
                id,
            ),
{
    let ghost all = views(hits@);
    let ghost first = views(ids@);
    for n in 0..hits.len()
        invariant
            all == views(hits@),
            views(ids@).no_duplicates(),
            forall|id: Seq<char>|
                #![trigger views(ids@).contains(id)]
                views(ids@).contains(id) <==> first.contains(id) || ranks(all.take(n as int), id),
    {
        let ghost before = views(ids@);
        let ghost here = hits@[n as int].item@;
        proof {
            assert(all[n as int].item == here);
            assert forall|id: Seq<char>| ranks(all.take(n + 1), id) <==> (ranks(
                all.take(n as int),
                id,
            ) || id == here) by {
                let shorter = all.take(n as int);
                let longer = all.take(n + 1);
                if ranks(longer, id) && id != here {
                    let i = choose|i: int|
                        0 <= i < longer.len() && (#[trigger] longer[i]).item == id;
                    assert(shorter[i].item == id);
                }
                if ranks(shorter, id) {
                    let i = choose|i: int|
                        0 <= i < shorter.len() && (#[trigger] shorter[i]).item == id;
                    assert(longer[i].item == id);
                }
                assert(longer[n as int].item == here);
            }
        }
        if !holds_text(&*ids, hits[n].item.as_str()) {
            ids.push(hits[n].item.clone());
            proof {
                let after = views(ids@);
                assert(after =~= before.push(here));
                assert forall|id: Seq<char>| #[trigger] after.contains(id) <==> before.contains(id)
                    || id == here by {
                    if before.contains(id) {
                        let i = before.index_of(id);
                        assert(after[i] == id);
                    }
                    assert(after[before.len() as int] == here);
                }
            }
        }
    }
    assert(all.take(all.len() as int) =~= all);
}

/// Says where each memory that occurs in either ranking stands in both: each
/// once, whatever the order. Where an id occurs twice in a ranking, its last
/// place counts.
pub fn fuse_ranks(lexical: &Vec<Scored<String>>, semantic: &Vec<Scored<String>>) -> (r: Vec<
    RankedResult,
>)
    ensures
        forall|i: int|
            0 <= i < r@.len() ==> (#[trigger] r@[i])@ == standing(
                views(lexical@),
                views(semantic@),
                r@[i].id@,
            ),
        forall|i: int, j: int|
            0 <= i < j < r@.len() ==> (#[trigger] r@[i]).id@ != (#[trigger] r@[j]).id@,
        forall|id: Seq<char>| #[trigger]
            stands_in(views(r@), id) <==> ranks(views(lexical@), id) || ranks(
                views(semantic@),
                id,
            ),
{
    let mut ids: Vec<String> = Vec::new();
    assert(views(ids@) =~= Seq::<Seq<char>>::empty());
    add_ids(&mut ids, lexical);
    add_ids(&mut ids, semantic);
    let ghost names = views(ids@);
    let mut out: Vec<RankedResult> = Vec::new();
    for n in 0..ids.len()
        invariant
            names == views(ids@),
            out@.len() == n,
            forall|i: int|
                0 <= i < n ==> (#[trigger] out@[i])@ == standing(
                    views(lexical@),
                    views(semantic@),
                    names[i],
                ),
    {
        let (lexical_rank, lexical_score) = find_standing(lexical, ids[n].as_str());
        let (semantic_rank, semantic_score) = find_standing(semantic, ids[n].as_str());
        assert(names[n as int] == ids@[n as int]@);
        out.push(
            RankedResult {
                id: ids[n].clone(),
                lexical_rank,
                semantic_rank,
                lexical_score,
                semantic_score,
            },
        );
    }
    proof {
        assert forall|i: int| 0 <= i < out@.len() implies (#[trigger] out@[i]).id@ == names[i] by {
            assert(out@[i]@.id == names[i]);
        }
        assert forall|i: int, j: int| 0 <= i < j < out@.len() implies (#[trigger] out@[i]).id@ != (
        #[trigger] out@[j]).id@ by {
            assert(names[i] != names[j]);
        }
        let results = views(out@);
        assert forall|id: Seq<char>| #[trigger] stands_in(results, id) <==> ranks(
            views(lexical@),
            id,
        ) || ranks(views(semantic@), id) by {
            if names.contains(id) {
                let i = names.index_of(id);
                assert(results[i].id == out@[i].id@);
            }
            if stands_in(results, id) {
                let i = choose|i: int| 0 <= i < results.len() && (#[trigger] results[i]).id == id;
                assert(out@[i].id@ == names[i]);
            }
        }
    }
    out
}

/// A memory that stands in neither ranking has no rank and no score in them, and
/// one that stands in a ranking has the rank and the score of a place where it
/// occurs there.
pub proof fn law_standing_is_a_place(lexical: Seq<IdHit>, semantic: Seq<IdHit>, id: Seq<char>)
    ensures
        standing(lexical, semantic, id).lexical_rank is Some <==> ranks(lexical, id),
        standing(lexical, semantic, id).semantic_rank is Some <==> ranks(semantic, id),
        lexical.len() <= 0x1_0000_0000 ==> (standing(lexical, semantic, id).lexical_rank matches Some(
            p,
        ) ==> p < lexical.len() && lexical[p as int].item == id && standing(
            lexical,
            semantic,
            id,
        ).lexical_score == Some(lexical[p as int].score)),
        semantic.len() <= 0x1_0000_0000 ==> (standing(
            lexical,
            semantic,
            id,
        ).semantic_rank matches Some(p) ==> p < semantic.len() && semantic[p as int].item == id
            && standing(lexical, semantic, id).semantic_score == Some(semantic[p as int].score)),
{
    last_place_is_a_place(lexical, id);
    last_place_is_a_place(semantic, id);
}

/// The ids of some standings, each with the score it was given.
pub open spec fn scored_ids(ranked: Seq<RankedModel>, scores: Seq<Float>) -> Seq<IdHit> {
    Seq::new(ranked.len(), |i: int| ScoredModel { score: scores[i], item: ranked[i].id })
}

/// Merges the two rankings by the score that each memory's standing was given:
/// the best `limit` of them, from the greatest score down.
pub fn merge_results_with_rrf(ranked: Vec<RankedResult>, scores: &Vec<Float>, limit: usize) -> (r:
    Vec<Scored<String>>)
    requires
        ranked@.len() == scores@.len(),
    ensures
        is_best(views(r@), scored_ids(views(ranked@), scores@), limit as nat),
{
    let ghost all = views(ranked@);
    let mut hits: Vec<Scored<String>> = Vec::new();
    let mut n: usize = 0;
    for one in it: ranked
        invariant
            it.seq() == ranked@,
            all == views(ranked@),
            ranked@.len() == scores@.len(),
            n == it.index(),
            n == hits@.len(),
            n <= ranked@.len(),
            forall|i: int|
                0 <= i < n ==> (#[trigger] hits@[i])@ == scored_ids(all, scores@)[i],
    {
        assert(all[n as int] == one@);
        assert(n < scores.len());
        hits.push(Scored { score: scores[n], item: one.id });
        n += 1;
    }
    assert(views(hits@) =~= scored_ids(all, scores@));
    best(hits, limit)
}

/// The hits of a search by words: each row's id, with its importance as its
/// score.
pub open spec fn hits_of_rows(rows: Seq<RowModel>) -> Seq<IdHit> {
    Seq::new(
        rows.len(),
        |i: int| ScoredModel { score: rows[i].importance, item: rows[i].id },
    )
}

/// Reads the hits of a search by words.
pub fn lexical_hits(rows: Vec<StoredItem>) -> (r: Vec<Scored<String>>)
    ensures
        views(r@) == hits_of_rows(views(rows@)),
        r@.len() == rows@.len(),
        forall|i: int|
            0 <= i < r@.len() ==> (#[trigger] r@[i]).item@ == rows@[i].id@ && r@[i].score
                == rows@[i].importance,
{
    let ghost all = views(rows@);
    let mut hits: Vec<Scored<String>> = Vec::new();
    for row in it: rows
        invariant
            it.seq() == rows@,
            all == views(rows@),
            hits@.len() == it.index(),
            forall|i: int| 0 <= i < hits@.len() ==> (#[trigger] hits@[i])@ == hits_of_rows(all)[i],
    {
        assert(all[it.index()] == row@);
        hits.push(Scored { score: row.importance, item: row.id });
    }
    assert(views(hits@) =~= hits_of_rows(all));
    assert forall|i: int| 0 <= i < hits@.len() implies (#[trigger] hits@[i]).item@ == rows@[i].id@
        && hits@[i].score == rows@[i].importance by {
        assert(hits@[i]@ == hits_of_rows(all)[i]);
        assert(all[i] == rows@[i]@);
    }
    hits
}

/// The last of some items that has the given id.
pub open spec fn last_item(items: Seq<ItemModel>, id: Seq<char>) -> Option<ItemModel>
    decreases items.len(),
{
    if items.len() == 0 {
        None
    } else if items.last().id == id {
        Some(items.last())
    } else {
        last_item(items.drop_last(), id)
    }
}

/// The items that hits stand for, in the order of the hits, each with the score
/// of its hit. A hit whose item is missing, or was given before, is left out.
pub open spec fn hydrated(hits: Seq<IdHit>, items: Seq<ItemModel>) -> Seq<ScoredModel<ItemModel>>
    decreases hits.len(),
{
    if hits.len() == 0 {
        Seq::empty()
    } else {
        let front = hits.drop_last();
        let hit = hits.last();
        match last_item(items, hit.item) {
            Some(item) if !ranks(front, hit.item) => hydrated(front, items).push(
                ScoredModel { score: hit.score, item },
            ),
            _ => hydrated(front, items),
        }
    }
}

fn find_item<'a>(items: &'a Vec<MemoryItem>, id: &str) -> (r: Option<&'a MemoryItem>)
    ensures
        match r {
            Some(item) => last_item(views(items@), id@) == Some(item@),
            None => last_item(views(items@), id@) is None,
        },
{
    let ghost all = views(items@);
    let mut i: usize = items.len();
    assert(all.take(i as int) =~= all);
    while i > 0
        invariant
            i <= items@.len(),
            all == views(items@),
            last_item(all, id@) == last_item(all.take(i as int), id@),
        decreases i,
    {
        let ghost front = all.take(i as int);
        i -= 1;
        proof {
            assert(front.last() == items@[i as int]@);
            assert(front.drop_last() =~= all.take(i as int));
        }
        if same_text(items[i].id.0.as_str(), id) {
            return Some(&items[i]);
        }
    }
    None
}

/// Whether an id is one of the first `n` hits.
fn occurs_before(hits: &Vec<Scored<String>>, n: usize, id: &str) -> (r: bool)
    requires
        n <= hits@.len(),
    ensures
        r == ranks(views(hits@).take(n as int), id@),
{
    let ghost front = views(hits@).take(n as int);
    for i in 0..n
        invariant
            n <= hits@.len(),
            front == views(hits@).take(n as int),
            forall|k: int| 0 <= k < i ==> (#[trigger] front[k]).item != id@,
    {
        assert(front[i as int] == hits@[i as int]@);
        if same_text(hits[i].item.as_str(), id) {
            return true;
        }
    }
    false
}

/// Turns hits into the items that they stand for.
pub fn hydrate(hits: &Vec<Scored<String>>, items: &Vec<MemoryItem>) -> (r: Vec<Scored<MemoryItem>>)
    ensures
        views(r@) == hydrated(views(hits@), views(items@)),
{
    let ghost all = views(hits@);
    let ghost found = views(items@);
    let mut out: Vec<Scored<MemoryItem>> = Vec::new();
    assert(all.take(0) =~= Seq::<IdHit>::empty());
    assert(views(out@) =~= Seq::<ScoredModel<ItemModel>>::empty());
    for n in 0..hits.len()
        invariant
            all == views(hits@),
            found == views(items@),
            views(out@) == hydrated(all.take(n as int), found),
    {
        let ghost before = views(out@);
        proof {
            assert(all[n as int] == hits@[n as int]@);
            assert(all.take(n + 1).drop_last() =~= all.take(n as int));
            assert(all.take(n + 1).last() == hits@[n as int]@);
        }
        if !occurs_before(hits, n, hits[n].item.as_str()) {
            match find_item(items, hits[n].item.as_str()) {
                Some(item) => {
                    let hit = Scored { score: hits[n].score, item: item.clone() };
                    let ghost model = hit@;
                    out.push(hit);
                    assert(views(out@) =~= before.push(model));
                },
                None => {},
            }
        }
    }
    assert(all.take(all.len() as int) =~= all);
    out
}

/// The items that lie within a scope, in their order.
pub open spec fn items_within(items: Seq<ItemModel>, scope: ScopeModel) -> Seq<ItemModel> {
    items.filter(|item: ItemModel| within(item.scope, scope))
}

fn keep_within(items: Vec<MemoryItem>, scope: &ScopeKey) -> (r: Vec<MemoryItem>)
    ensures
        views(r@) == items_within(views(items@), scope@),
{
    reveal(Seq::filter);
    let ghost all = views(items@);
    let ghost inside = |item: ItemModel| within(item.scope, scope@);
    let mut out: Vec<MemoryItem> = Vec::new();
    assert(all.take(0) =~= Seq::<ItemModel>::empty());
    assert(views(out@) =~= Seq::<ItemModel>::empty());
    for item in it: items
        invariant
            it.seq() == items@,
            all == views(items@),
            inside == (|item: ItemModel| within(item.scope, scope@)),
            views(out@) == all.take(it.index()).filter(inside),
    {
        let ghost i = it.index();
        let ghost before = views(out@);
        let ghost model = item@;
        proof {
            reveal(Seq::filter);
            assert(all[i] == model);
            assert(all.take(i + 1).drop_last() =~= all.take(i));
            assert(all.take(i + 1).last() == model);
        }
        if scope_matches(&item.scope, scope) {
            out.push(item);
            assert(views(out@) =~= before.push(model));
        }
    }
    assert(all.take(all.len() as int) =~= all);
    out
}

/// What a recall by meaning gives for its hits and the rows that were fetched for
/// them: the items of the hits, in the order of the hits, without those whose
/// lifetime is over and those outside the scope.
pub open spec fn recalled(
    hits: Seq<IdHit>,
    rows: Seq<RowModel>,
    scope: ScopeModel,
    now_ms: i64,
) -> Seq<ScoredModel<ItemModel>> {
    hydrated(hits, items_within(live_items(rows, now_ms), scope))
}

/// Turns the hits of a recall by meaning into the items that they stand for.
pub fn vector_recall(
    hits: &Vec<Scored<String>>,
    rows: Vec<StoredItem>,
    scope: &ScopeKey,
    now_ms: i64,
) -> (r: Vec<Scored<MemoryItem>>)
    ensures
        views(r@) == recalled(views(hits@), views(rows@), scope@, now_ms),
{
    hydrate(hits, &keep_within(live_memories(rows, now_ms), scope))
}

proof fn last_item_is_one(items: Seq<ItemModel>, id: Seq<char>)
    ensures
        match last_item(items, id) {
            Some(item) => items.contains(item) && item.id == id,
            None => forall|i: int| 0 <= i < items.len() ==> (#[trigger] items[i]).id != id,
        },
    decreases items.len(),
{
    if items.len() > 0 {
        let front = items.drop_last();
        last_item_is_one(front, id);
        if items.last().id == id {
            assert(items[items.len() - 1] == items.last());
        } else {
            match last_item(front, id) {
                Some(item) => {
                    let i = front.index_of(item);
                    assert(items[i] == item);
                },
                None => {
                    assert forall|i: int| 0 <= i < items.len() implies (
                    #[trigger] items[i]).id != id by {
                        if i < front.len() {
                            assert(front[i] == items[i]);
                        }
                    }
                },
            }
        }
    }
}

/// Hydrated hits are hits: each stands for one, with its score, and later ones
/// for later hits.
proof fn hydrated_are_hits(hits: Seq<IdHit>, items: Seq<ItemModel>) -> (places: Seq<int>)
    ensures
        places.len() == hydrated(hits, items).len(),
        places.len() <= hits.len(),
        forall|k: int|
            0 <= k < places.len() ==> 0 <= #[trigger] places[k] < hits.len() && hydrated(
                hits,
                items,
            )[k].score == hits[places[k]].score && hydrated(hits, items)[k].item.id
                == hits[places[k]].item && items.contains(hydrated(hits, items)[k].item),
        forall|j: int, k: int| 0 <= j < k < places.len() ==> places[j] < places[k],
    decreases hits.len(),
{
    if hits.len() == 0 {
        Seq::empty()
    } else {
        let front = hits.drop_last();
        let hit = hits.last();
        let before = hydrated_are_hits(front, items);
        last_item_is_one(items, hit.item);
        match last_item(items, hit.item) {
            Some(item) if !ranks(front, hit.item) => before.push(hits.len() - 1),
            _ => before,
        }
    }
}

/// A recall by meaning gives no more than it was asked for; where the scores are
/// numbers, they never rise; and every memory that it gives lies within the scope
/// that was asked for, down to the run, and comes from a row whose lifetime is not
/// over.
pub proof fn law_recall_keeps_to_its_scope(
    picked: Seq<IdHit>,
    hits: Seq<IdHit>,
    limit: nat,
    rows: Seq<RowModel>,
    scope: ScopeModel,
    now_ms: i64,
)
    requires
        is_best(picked, hits, limit),
    ensures
        recalled(picked, rows, scope, now_ms).len() <= limit,
        all_numbers(hits) ==> scores_fall(recalled(picked, rows, scope, now_ms)),
        forall|k: int|
            0 <= k < recalled(picked, rows, scope, now_ms).len() ==> within(
                (#[trigger] recalled(picked, rows, scope, now_ms)[k]).item.scope,
                scope,
            ),
        forall|k: int|
            0 <= k < recalled(picked, rows, scope, now_ms).len() ==> live_items(
                rows,
                now_ms,
            ).contains((#[trigger] recalled(picked, rows, scope, now_ms)[k]).item),
{
    broadcast use vstd::seq_lib::group_filter_ensures;

    law_best_are_best(picked, hits, limit);
    let live = live_items(rows, now_ms);
    let inside = |item: ItemModel| within(item.scope, scope);
    let items = items_within(live, scope);
    let out = recalled(picked, rows, scope, now_ms);
    let places = hydrated_are_hits(picked, items);
    assert forall|k: int| 0 <= k < out.len() implies within(
        (#[trigger] out[k]).item.scope,
        scope,
    ) && live.contains(out[k].item) by {
        assert(0 <= places[k] < picked.len());
        let i = items.index_of(out[k].item);
        assert(inside(items[i]));
        live.lemma_filter_contains_rev(inside, out[k].item);
    }
    if all_numbers(hits) {
        assert forall|i: int, j: int| 0 <= i < j < out.len() implies (
        #[trigger] out[j]).score.at_most((#[trigger] out[i]).score) by {
            assert(places[i] < places[j]);
        }
    }
}

/// The hits for which an item was found, each as its item with its score.
pub open spec fn found_hits(
    hits: Seq<IdHit>,
    found: Seq<Option<ItemModel>>,
) -> Seq<ScoredModel<ItemModel>>
    decreases hits.len(),
{
    if hits.len() == 0 {
        Seq::empty()
    } else {
        let before = found_hits(hits.drop_last(), found);
        match found[hits.len() - 1] {
            Some(item) => before.push(ScoredModel { score: hits.last().score, item }),
            None => before,
        }
    }
}

/// Keeps the hits for which a scoped lookup found an item.
pub fn keep_found(hits: &Vec<Scored<String>>, found: Vec<Option<MemoryItem>>) -> (r: Vec<
    Scored<MemoryItem>,
>)
    requires
        hits@.len() == found@.len(),
    ensures
        views(r@) == found_hits(
            views(hits@),
            Seq::new(found@.len(), |i: int| opt(found@[i])),
        ),
{
    let ghost all = views(hits@);
    let ghost items = Seq::new(found@.len(), |i: int| opt(found@[i]));
    let mut out: Vec<Scored<MemoryItem>> = Vec::new();
    let mut n: usize = 0;
    assert(all.take(0) =~= Seq::<IdHit>::empty());
    assert(views(out@) =~= Seq::<ScoredModel<ItemModel>>::empty());
    for one in it: found
        invariant
            it.seq() == found@,
            all == views(hits@),
            items == Seq::new(found@.len(), |i: int| opt(found@[i])),
            hits@.len() == found@.len(),
            n == it.index(),
            n <= hits@.len(),
            views(out@) == found_hits(all.take(n as int), items),
    {
        let ghost before = views(out@);
        proof {
            assert(all.take(n + 1).drop_last() =~= all.take(n as int));
            assert(all.take(n + 1).last() == hits@[n as int]@);
            assert(items[n as int] == opt(one));
            assert(n < hits.len());
        }
        match one {
            Some(item) => {
                let hit = Scored { score: hits[n].score, item };
                let ghost model = hit@;
                out.push(hit);
                assert(views(out@) =~= before.push(model));
            },
            None => {},
        }
        n += 1;
    }
    assert(all.take(all.len() as int) =~= all);
    out
}

/// Whether a fact is close enough to another to be worth flagging: its
/// similarity is not under the threshold, and it is not the one left out.
pub open spec fn is_close(
    hit: ScoredModel<ItemModel>,
    exclude_id: Option<Seq<char>>,
    threshold: Float,
) -> bool {
    !hit.score.below(threshold) && exclude_id != Some(hit.item.id)
}

/// Those of some facts that are close enough, in their order.
pub open spec fn close_hits(
    hits: Seq<ScoredModel<ItemModel>>,
    exclude_id: Option<Seq<char>>,
    threshold: Float,
) -> Seq<ScoredModel<ItemModel>> {
    hits.filter(|hit: ScoredModel<ItemModel>| is_close(hit, exclude_id, threshold))
}

/// Picks the facts that may conflict with a new one in meaning, by the
/// similarity that each was given: those close enough, from the closest down, at
/// most `max`. Without an embedding of the new fact there are none.
pub fn find_semantic_fact_conflicts(
    query_embedding: &Vec<Float>,
    candidates: Vec<Scored<MemoryItem>>,
    exclude_id: &Option<MemoryId>,
    threshold: Float,
    max: usize,
) -> (r: Vec<Scored<MemoryItem>>)
    ensures
        if query_embedding@.len() == 0 || max == 0 {
            r@.len() == 0
        } else {
            is_best(
                views(r@),
                close_hits(views(candidates@), opt(*exclude_id), threshold),
                max as nat,
            )
        },
{
    if query_embedding.len() == 0 || max == 0 {
        return Vec::new();
    }
    let ghost all = views(candidates@);
    let ghost close = |hit: ScoredModel<ItemModel>| is_close(hit, opt(*exclude_id), threshold);
    let mut kept: Vec<Scored<MemoryItem>> = Vec::new();
    assert(all.take(0).filter(close) =~= Seq::<ScoredModel<ItemModel>>::empty()) by {
        reveal(Seq::filter);
    }
    assert(views(kept@) =~= Seq::<ScoredModel<ItemModel>>::empty());
    for hit in it: candidates
        invariant
            it.seq() == candidates@,
            all == views(candidates@),
            close == |hit: ScoredModel<ItemModel>| is_close(hit, opt(*exclude_id), threshold),
            views(kept@) == all.take(it.index()).filter(close),
    {
        let ghost i = it.index();
        let ghost before = views(kept@);
        let ghost model = hit@;
        proof {
            reveal(Seq::filter);
            assert(all[i] == model);
            assert(all.take(i + 1).drop_last() =~= all.take(i));
            assert(all.take(i + 1).last() == model);
        }
        let excluded = match exclude_id {
            Some(id) => same_text(hit.item.id.0.as_str(), id.0.as_str()),
            None => false,
        };
        if !hit.score.less(threshold) && !excluded {
            kept.push(hit);
            assert(views(kept@) =~= before.push(model));
        }
    }
    assert(all.take(all.len() as int) =~= all);
    best(kept, max)
}

/// The facts picked as possible conflicts are candidates; none is the one left
/// out; and none is less similar than the threshold.
pub proof fn law_conflicts_are_close(
    picked: Seq<ScoredModel<ItemModel>>,
    candidates: Seq<ScoredModel<ItemModel>>,
    exclude_id: Option<Seq<char>>,
    threshold: Float,
    max: nat,
)
    requires
        is_best(picked, close_hits(candidates, exclude_id, threshold), max),
    ensures
        forall|hit: ScoredModel<ItemModel>| #[trigger]
            picked.contains(hit) ==> candidates.contains(hit) && is_close(
                hit,
                exclude_id,
                threshold,
            ),
        picked.len() <= max,
{
    let close = |hit: ScoredModel<ItemModel>| is_close(hit, exclude_id, threshold);
    law_best_are_best(picked, candidates.filter(close), max);
    assert forall|hit: ScoredModel<ItemModel>| #[trigger] picked.contains(hit) implies candidates.contains(
    hit) && is_close(hit, exclude_id, threshold) by {
        candidates.lemma_filter_contains_rev(close, hit);
        let i = candidates.filter(close).index_of(hit);
        broadcast use vstd::seq_lib::group_filter_ensures;

        assert(close(candidates.filter(close)[i]));
    }
}

proof fn last_place_is_last(hits: Seq<IdHit>, id: Seq<char>, place: int)
    requires
        0 <= place < hits.len(),
        hits[place].item == id,
        forall|k: int| place < k < hits.len() ==> (#[trigger] hits[k]).item != id,
    ensures
        last_place(hits, id) == Some(place),
    decreases hits.len(),
{
    if place < hits.len() - 1 {
        assert(hits[hits.len() - 1].item != id);
        let front = hits.drop_last();
        assert forall|k: int| place < k < front.len() implies (#[trigger] front[k]).item != id by {
            assert(front[k] == hits[k]);
        }
        last_place_is_last(front, id, place);
    }
}

/// A memory's rank in a ranking is the place where it stands, counted from 0, and
/// its score there is the score of that place; of a memory that stands twice, the
/// later place. This holds of the ranking by words and of that by meaning.
pub proof fn law_rank_is_the_place(
    lexical: Seq<IdHit>,
    semantic: Seq<IdHit>,
    id: Seq<char>,
    place: u32,
)
    ensures
        place < lexical.len() && lexical[place as int].item == id && (forall|k: int|
            place < k < lexical.len() ==> (#[trigger] lexical[k]).item != id) ==> standing(
            lexical,
            semantic,
            id,
        ).lexical_rank == Some(place) && standing(lexical, semantic, id).lexical_score == Some(
            lexical[place as int].score,
        ),
        place < semantic.len() && semantic[place as int].item == id && (forall|k: int|
            place < k < semantic.len() ==> (#[trigger] semantic[k]).item != id) ==> standing(
            lexical,
            semantic,
            id,
        ).semantic_rank == Some(place) && standing(lexical, semantic, id).semantic_score == Some(
            semantic[place as int].score,
        ),
        standing(lexical, semantic, id).id == id,
{
    if place < lexical.len() && lexical[place as int].item == id && (forall|k: int|
        place < k < lexical.len() ==> (#[trigger] lexical[k]).item != id) {
        last_place_is_last(lexical, id, place as int);
    }
    if place < semantic.len() && semantic[place as int].item == id && (forall|k: int|
        place < k < semantic.len() ==> (#[trigger] semantic[k]).item != id) {
        last_place_is_last(semantic, id, place as int);
    }
}

/// The hits of a search by words keep the order of the rows, each with the id and
/// the importance of its row. So the scores fall where the importances do, and a
/// row whose id does not come again has its place as its rank: the first row has
/// rank 0.
pub proof fn law_words_keep_the_order_of_rows(rows: Seq<RowModel>, semantic: Seq<IdHit>)
    ensures
        hits_of_rows(rows).len() == rows.len(),
        forall|i: int|
            0 <= i < rows.len() ==> (#[trigger] hits_of_rows(rows)[i]).item == rows[i].id
                && hits_of_rows(rows)[i].score == rows[i].importance,
        (forall|i: int, j: int|
            0 <= i < j < rows.len() ==> (#[trigger] rows[j]).importance.at_most(
                (#[trigger] rows[i]).importance,
            )) ==> (forall|i: int, j: int|
            0 <= i < j < rows.len() ==> (#[trigger] hits_of_rows(rows)[j]).score.at_most(
                (#[trigger] hits_of_rows(rows)[i]).score,
            )),
        forall|i: u32|
            i < rows.len() && (forall|k: int|
                i < k < rows.len() ==> (#[trigger] rows[k]).id != rows[i as int].id)
                ==> (#[trigger] standing(
                hits_of_rows(rows),
                semantic,
                rows[i as int].id,
            )).lexical_rank == Some(i),
{
    let hits = hits_of_rows(rows);
    if forall|i: int, j: int|
        0 <= i < j < rows.len() ==> (#[trigger] rows[j]).importance.at_most(
            (#[trigger] rows[i]).importance,
        ) {
        assert forall|i: int, j: int| 0 <= i < j < rows.len() implies (
        #[trigger] hits[j]).score.at_most((#[trigger] hits[i]).score) by {
            assert(rows[j].importance.at_most(rows[i].importance));
        }
    }
    assert forall|i: u32|
        i < rows.len() && (forall|k: int|
            i < k < rows.len() ==> (
            #[trigger] rows[k]).id != rows[i as int].id) implies (#[trigger] standing(
        hits,
        semantic,
        rows[i as int].id,
    )).lexical_rank == Some(i) by {
        assert(hits[i as int].item == rows[i as int].id);
        assert forall|k: int| i < k < hits.len() implies (
        #[trigger] hits[k]).item != rows[i as int].id by {
            assert(hits[k].item == rows[k].id);
        }
        law_rank_is_the_place(hits, semantic, rows[i as int].id, i);
    }
}

/// What the fused ranking holds is the id of a standing, with the score that this
/// standing was given.
pub proof fn law_fused_hits_are_standings(
    merged: Seq<IdHit>,
    ranked: Seq<RankedModel>,
    scores: Seq<Float>,
    limit: nat,
    k: int,
)
    requires
        ranked.len() == scores.len(),
        is_best(merged, scored_ids(ranked, scores), limit),
        0 <= k < merged.len(),
    ensures
        exists|i: int|
            0 <= i < ranked.len() && (#[trigger] ranked[i]).id == merged[k].item && scores[i]
                == merged[k].score,
{
    let hits = scored_ids(ranked, scores);
    law_best_are_best(merged, hits, limit);
    assert(merged.contains(merged[k]));
    let i = hits.index_of(merged[k]);
    assert(ranked[i].id == merged[k].item);
}

/// The fused ranking holds as many of the standings as there are, up to as many as
/// were asked for; and where the scores are numbers, the greater stands before the
/// lesser, and none is left out that scores more than one that was kept.
pub proof fn law_fusion_keeps_the_greatest(
    merged: Seq<IdHit>,
    ranked: Seq<RankedModel>,
    scores: Seq<Float>,
    limit: nat,
)
    requires
        ranked.len() == scores.len(),
        is_best(merged, scored_ids(ranked, scores), limit),
    ensures
        merged.len() == if ranked.len() <= limit {
            ranked.len()
        } else {
            limit
        },
        (forall|i: int| 0 <= i < scores.len() ==> !(#[trigger] scores[i]).is_nan()) ==> {
            &&& forall|i: int, j: int|
                0 <= i < j < merged.len() ==> (#[trigger] merged[j]).score.at_most(
                    (#[trigger] merged[i]).score,
                )
            &&& forall|i: int, k: int|
                0 <= i < ranked.len() && 0 <= k < merged.len() && (
                #[trigger] merged[k]).score.below(#[trigger] scores[i]) ==> exists|m: int|
                    0 <= m < k && (#[trigger] merged[m]).item == ranked[i].id && merged[m].score
                        == scores[i]
        },
{
    let hits = scored_ids(ranked, scores);
    law_best_are_best(merged, hits, limit);
    if forall|i: int| 0 <= i < scores.len() ==> !(#[trigger] scores[i]).is_nan() {
        assert forall|i: int| 0 <= i < hits.len() implies !(#[trigger] hits[i]).score.is_nan() by {
            assert(!scores[i].is_nan());
        }
        law_greater_scores_come_first(merged, hits, limit);
        assert forall|i: int, k: int|
            0 <= i < ranked.len() && 0 <= k < merged.len() && (#[trigger] merged[k]).score.below(
                #[trigger] scores[i],
            ) implies exists|m: int|
            0 <= m < k && (#[trigger] merged[m]).item == ranked[i].id && merged[m].score
                == scores[i] by {
            assert(hits[i].score.key() > merged[k].score.key());
            let m = choose|m: int| 0 <= m < k && merged[m] == hits[i];
            assert(merged[m].item == ranked[i].id);
        }
    }
}

proof fn hydrated_misses_nothing(hits: Seq<IdHit>, items: Seq<ItemModel>, k: int, i: int)
    requires
        0 <= k < hits.len(),
        0 <= i < items.len(),
        items[i].id == hits[k].item,
        forall|j: int| 0 <= j < k ==> (#[trigger] hits[j]).item != hits[k].item,
    ensures
        exists|m: int|
            0 <= m < hydrated(hits, items).len() && (#[trigger] hydrated(hits, items)[m]).item.id
                == hits[k].item && hydrated(hits, items)[m].score == hits[k].score,
    decreases hits.len(),
{
    let front = hits.drop_last();
    let before = hydrated(front, items);
    let after = hydrated(hits, items);
    last_item_is_one(items, hits[k].item);
    if k == hits.len() - 1 {
        if ranks(front, hits[k].item) {
            let j = choose|j: int|
                0 <= j < front.len() && (#[trigger] front[j]).item == hits[k].item;
            assert(hits[j].item == hits[k].item);
        }
        assert(after[before.len() as int].item.id == hits[k].item);
    } else {
        assert(front[k] == hits[k]);
        assert forall|j: int| 0 <= j < k implies (#[trigger] front[j]).item != front[k].item by {
            assert(front[j] == hits[j]);
        }
        hydrated_misses_nothing(front, items, k, i);
        let m = choose|m: int|
            0 <= m < before.len() && (#[trigger] before[m]).item.id == hits[k].item
                && before[m].score == hits[k].score;
        assert(after[m] == before[m]);
    }
}

proof fn hydrated_once(hits: Seq<IdHit>, items: Seq<ItemModel>)
    ensures
        forall|a: int, b: int|
            0 <= a < b < hydrated(hits, items).len() ==> (
            #[trigger] hydrated(hits, items)[a]).item.id != (
            #[trigger] hydrated(hits, items)[b]).item.id,
    decreases hits.len(),
{
    if hits.len() > 0 {
        let front = hits.drop_last();
        hydrated_once(front, items);
        let places = hydrated_are_hits(front, items);
        last_item_is_one(items, hits.last().item);
        let before = hydrated(front, items);
        let after = hydrated(hits, items);
        assert forall|a: int, b: int| 0 <= a < b < after.len() implies (
        #[trigger] after[a]).item.id != (#[trigger] after[b]).item.id by {
            assert(after[a] == before[a]);
            if b < before.len() {
                assert(after[b] == before[b]);
            } else {
                assert(front[places[a]].item == before[a].item.id);
            }
        }
    }
}

/// Every hit for which there is an item is answered: with an item of its id, once,
/// and with the score of the first hit of that id. Nothing else is answered, and
/// later answers are for later hits.
pub proof fn law_hits_become_their_items(hits: Seq<IdHit>, items: Seq<ItemModel>) -> (places: Seq<
    int,
>)
    ensures
        hydrated(hits, items).len() == places.len(),
        forall|a: int, b: int|
            0 <= a < b < places.len() ==> #[trigger] places[a] < #[trigger] places[b],
        forall|a: int|
            0 <= a < places.len() ==> 0 <= #[trigger] places[a] < hits.len() && hydrated(
                hits,
                items,
            )[a].score == hits[places[a]].score && hydrated(hits, items)[a].item.id
                == hits[places[a]].item && items.contains(hydrated(hits, items)[a].item),
        forall|a: int, b: int|
            0 <= a < b < hydrated(hits, items).len() ==> (
            #[trigger] hydrated(hits, items)[a]).item.id != (
            #[trigger] hydrated(hits, items)[b]).item.id,
        forall|k: int, i: int|
            0 <= k < hits.len() && 0 <= i < items.len() && (#[trigger] items[i]).id == (
            #[trigger] hits[k]).item && (forall|j: int|
                0 <= j < k ==> (#[trigger] hits[j]).item != hits[k].item) ==> exists|m: int|
                0 <= m < hydrated(hits, items).len() && (
                #[trigger] hydrated(hits, items)[m]).item.id == hits[k].item && hydrated(
                    hits,
                    items,
                )[m].score == hits[k].score,
{
    hydrated_once(hits, items);
    assert forall|k: int, i: int|
        0 <= k < hits.len() && 0 <= i < items.len() && (#[trigger] items[i]).id == (
        #[trigger] hits[k]).item && (forall|j: int|
            0 <= j < k ==> (#[trigger] hits[j]).item != hits[k].item) implies exists|m: int|
        0 <= m < hydrated(hits, items).len() && (#[trigger] hydrated(hits, items)[m]).item.id
            == hits[k].item && hydrated(hits, items)[m].score == hits[k].score by {
        hydrated_misses_nothing(hits, items, k, i);
    }
    hydrated_are_hits(hits, items)
}

/// A recall by meaning misses nothing: where the first hit of an id is that of a
/// fetched row whose lifetime is not over, of the tenant that was asked for and, at
/// each level that was set, of that level too, the answer holds a memory of that
/// id, with the score of that hit. A level that was left open excludes nothing.
pub proof fn law_recall_misses_nothing(
    hits: Seq<IdHit>,
    rows: Seq<RowModel>,
    scope: ScopeModel,
    now_ms: i64,
    k: int,
    i: int,
)
    requires
        0 <= k < hits.len(),
        0 <= i < rows.len(),
        rows[i].id == hits[k].item,
        forall|j: int| 0 <= j < k ==> (#[trigger] hits[j]).item != hits[k].item,
        rows[i].ttl_ms matches Some(ttl) ==> rows[i].created_at_ms + ttl > now_ms,
        rows[i].scope.tenant_id == scope.tenant_id,
        scope.workspace_id is Some ==> rows[i].scope.workspace_id == scope.workspace_id,
        scope.project_id is Some ==> rows[i].scope.project_id == scope.project_id,
        scope.agent_id is Some ==> rows[i].scope.agent_id == scope.agent_id,
        scope.run_id is Some ==> rows[i].scope.run_id == scope.run_id,
    ensures
        exists|m: int|
            0 <= m < recalled(hits, rows, scope, now_ms).len() && (
            #[trigger] recalled(hits, rows, scope, now_ms)[m]).item.id == hits[k].item && recalled(
                hits,
                rows,
                scope,
                now_ms,
            )[m].score == hits[k].score,
{
    let live = live_items(rows, now_ms);
    let inside = |item: ItemModel| within(item.scope, scope);
    let live_places = law_live_rows_are_read(rows, now_ms);
    let a = live_places.index_of(i);
    assert(live[a].id == rows[i].id && live[a].scope == rows[i].scope);
    assert(inside(live[a]));
    let places = filter_places(live, inside);
    let b = places.index_of(a);
    let items = items_within(live, scope);
    assert(items[b] == live[a]);
    hydrated_misses_nothing(hits, items, k, b);
    let out = recalled(hits, rows, scope, now_ms);
    assert(out == hydrated(hits, items));
    let m = choose|m: int|
        0 <= m < hydrated(hits, items).len() && (#[trigger] hydrated(hits, items)[m]).item.id
            == hits[k].item && hydrated(hits, items)[m].score == hits[k].score;
    assert(out[m].item.id == hits[k].item);
}

/// What a recall by meaning gives is of the tenant that was asked for, and of every
/// level that was set.
pub proof fn law_recall_is_of_its_tenant(
    hits: Seq<IdHit>,
    rows: Seq<RowModel>,
    scope: ScopeModel,
    now_ms: i64,
    m: int,
)
    requires
        0 <= m < recalled(hits, rows, scope, now_ms).len(),
    ensures
        recalled(hits, rows, scope, now_ms)[m].item.scope.tenant_id == scope.tenant_id,
        scope.workspace_id is Some ==> recalled(
            hits,
            rows,
            scope,
            now_ms,
        )[m].item.scope.workspace_id == scope.workspace_id,
        scope.project_id is Some ==> recalled(hits, rows, scope, now_ms)[m].item.scope.project_id
            == scope.project_id,
        scope.agent_id is Some ==> recalled(hits, rows, scope, now_ms)[m].item.scope.agent_id
            == scope.agent_id,
        scope.run_id is Some ==> recalled(hits, rows, scope, now_ms)[m].item.scope.run_id
            == scope.run_id,
{
    let live = live_items(rows, now_ms);
    let inside = |item: ItemModel| within(item.scope, scope);
    let items = items_within(live, scope);
    let places = hydrated_are_hits(hits, items);
    let kept = filter_places(live, inside);
    assert(0 <= places[m] < hits.len());
    let i = items.index_of(recalled(hits, rows, scope, now_ms)[m].item);
    assert(0 <= kept[i] < live.len());
    assert(inside(live[kept[i]]));
}

/// A fused search answers with the memory that was found for each hit, in the
/// order of the hits, each with the score of its hit; a hit for which none was
/// found is left out, and no other.
pub proof fn law_found_hits_keep_their_order(
    hits: Seq<IdHit>,
    found: Seq<Option<ItemModel>>,
) -> (places: Seq<int>)
    requires
        hits.len() <= found.len(),
    ensures
        found_hits(hits, found).len() == places.len(),
        forall|a: int, b: int|
            0 <= a < b < places.len() ==> #[trigger] places[a] < #[trigger] places[b],
        forall|a: int|
            0 <= a < places.len() ==> 0 <= #[trigger] places[a] < hits.len() && found[places[a]]
                == Some(found_hits(hits, found)[a].item) && found_hits(hits, found)[a].score
                == hits[places[a]].score,
        forall|k: int|
            0 <= k < hits.len() && (#[trigger] found[k]) is Some ==> places.contains(k),
    decreases hits.len(),
{
    if hits.len() == 0 {
        Seq::empty()
    } else {
        let front = hits.drop_last();
        let before = law_found_hits_keep_their_order(front, found);
        let places = match found[hits.len() - 1] {
            Some(_) => before.push(hits.len() - 1),
            None => before,
        };
        assert forall|k: int|
            0 <= k < hits.len() && (#[trigger] found[k]) is Some implies places.contains(k) by {
            if k < front.len() {
                let a = before.index_of(k);
                assert(places[a] == k);
            } else {
                assert(places[before.len() as int] == k);
            }
        }
        places
    }
}

/// None of the facts picked as possible conflicts is less similar than the
/// threshold, and none is the one left out.
pub proof fn law_no_conflict_is_far(
    picked: Seq<ScoredModel<ItemModel>>,
    candidates: Seq<ScoredModel<ItemModel>>,
    exclude_id: Option<Seq<char>>,
    threshold: Float,
    max: nat,
    k: int,
)
    requires
        is_best(picked, close_hits(candidates, exclude_id, threshold), max),
        0 <= k < picked.len(),
    ensures
        !picked[k].score.below(threshold),
        match exclude_id {
            Some(id) => picked[k].item.id != id,
            None => true,
        },
        candidates.contains(picked[k]),
{
    law_conflicts_are_close(picked, candidates, exclude_id, threshold, max);
    assert(picked.contains(picked[k]));
}

/// Where the similarities are numbers, a fact that is not under the threshold, and
/// not the one left out, is picked, unless as many as were asked for were and none
/// of them is less similar.
pub proof fn law_conflicts_miss_nothing_close(
    picked: Seq<ScoredModel<ItemModel>>,
    candidates: Seq<ScoredModel<ItemModel>>,
    exclude_id: Option<Seq<char>>,
    threshold: Float,
    max: nat,
    i: int,
)
    requires
        is_best(picked, close_hits(candidates, exclude_id, threshold), max),
        0 <= i < candidates.len(),
        forall|k: int| 0 <= k < candidates.len() ==> !(#[trigger] candidates[k]).score.is_nan(),
        !candidates[i].score.below(threshold),
        match exclude_id {
            Some(id) => candidates[i].item.id != id,
            None => true,
        },
    ensures
        picked.contains(candidates[i]) || (picked.len() == max && forall|k: int|
            0 <= k < picked.len() ==> !(#[trigger] picked[k]).score.below(candidates[i].score)),
{
    let close = |hit: ScoredModel<ItemModel>| is_close(hit, exclude_id, threshold);
    let hits = close_hits(candidates, exclude_id, threshold);
    assert(hits == candidates.filter(close));
    let places = filter_places(candidates, close);
    assert(close(candidates[i]));
    let a = places.index_of(i);
    assert(hits[a] == candidates[i]);
    assert(all_numbers(hits)) by {
        assert forall|k: int| 0 <= k < hits.len() implies !(
        #[trigger] hits[k]).score.is_nan() by {
            assert(0 <= places[k] < candidates.len());
        }
    }
    best_or_full(picked, hits, max, candidates[i]);
}

/// An id is in a ranking exactly where it is the id of one of its hits, and among the
/// standings exactly where one of them is its.
pub proof fn law_ranked_ids_are_those_of_hits(
    hits: Seq<IdHit>,
    results: Seq<RankedModel>,
    id: Seq<char>,
)
    ensures
        ranks(hits, id) <==> exists|i: int| 0 <= i < hits.len() && (#[trigger] hits[i]).item == id,
        stands_in(results, id) <==> exists|i: int|
            0 <= i < results.len() && (#[trigger] results[i]).id == id,
{
}

/// Where more than one item has the id of a hit, the last of them is given.
pub proof fn law_the_last_item_of_an_id_is_given(items: Seq<ItemModel>, id: Seq<char>, i: int)
    requires
        0 <= i < items.len(),
        items[i].id == id,
        forall|k: int| i < k < items.len() ==> (#[trigger] items[k]).id != id,
    ensures
        last_item(items, id) == Some(items[i]),
    decreases items.len(),
{
    if i < items.len() - 1 {
        assert(items[items.len() - 1].id != id);
        let front = items.drop_last();
        assert forall|k: int| i < k < front.len() implies (#[trigger] front[k]).id != id by {
            assert(front[k] == items[k]);
        }
        law_the_last_item_of_an_id_is_given(front, id, i);
    }
}

} // verus!
