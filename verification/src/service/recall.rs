//! Ranking what a recall by words found.
use crate::float::Float;
use crate::json::{json_text, to_json_text};
use crate::memory::{Content, ContentModel, ItemModel, MemoryItem, Scored, ScoredModel};
use crate::model::{filter_places, views};
use crate::order::{
    all_numbers, best, best_or_full, is_best, law_best_are_best, law_greater_scores_come_first,
    scores_fall,
};
use crate::query::Query;
use crate::text::{
    cat3, find, from_chars, lowercase, occurs, occurs_at, same_text, to_chars, to_lowercase,
};
use vstd::prelude::*;

verus! {

/// How many candidates are ranked for each result that was asked for.
pub const CANDIDATE_MULTIPLIER: usize = 5;

/// The most candidates that are ranked.
pub const MAX_RECALL_CANDIDATES: usize = 1000;

/// How many candidates to fetch for a recall of `limit` memories.
pub open spec fn candidates_for(limit: usize) -> int {
    let wanted = if limit < 1 {
        1
    } else {
        limit as int
    };
    if wanted * CANDIDATE_MULTIPLIER < MAX_RECALL_CANDIDATES {
        wanted * CANDIDATE_MULTIPLIER
    } else {
        MAX_RECALL_CANDIDATES as int
    }
}

/// How many candidates to fetch for a recall of `limit` memories: five for each,
/// and for one at least, but no more than a thousand.
pub fn recall_candidate_limit(limit: usize) -> (r: usize)
    ensures
        r == candidates_for(limit),
{
    let wanted: usize = if limit < 1 {
        1
    } else {
        limit
    };
    if wanted >= MAX_RECALL_CANDIDATES / CANDIDATE_MULTIPLIER {
        MAX_RECALL_CANDIDATES
    } else {
        wanted * CANDIDATE_MULTIPLIER
    }
}

/// The text in which an item is searched.
pub open spec fn searched_text(content: ContentModel) -> Seq<char> {
    match content {
        ContentModel::Text(t) => t,
        ContentModel::Json(j) => json_text(j),
        ContentModel::TextJson { text, json } => text + " "@ + json_text(json),
    }
}

/// The text in which an item is searched: its words, and its JSON written out.
pub fn item_to_text(item: &MemoryItem) -> (r: String)
    ensures
        r@ == searched_text(item@.content),
{
    match &item.content {
        Content::Text(t) => t.clone(),
        Content::Json(j) => to_json_text(j),
        Content::TextJson { text, json } => cat3(text.as_str(), " ", to_json_text(json).as_str()),
    }
}

/// How a text matches the words that are searched for.
#[derive(Debug, Clone, Copy, PartialEq, Eq, Structural)]
pub enum TextMatch {
    /// The words do not occur in it.
    Nothing,
    /// It is those words and nothing else.
    Whole,
    /// They occur in it, `position` bytes from its start, for the first time; the
    /// text takes `length` bytes.
    Part { position: usize, length: usize },
}

/// How many bytes a text takes.
pub open spec fn byte_len(s: Seq<char>) -> int {
    vstd::utf8::encode_utf8(s).len() as int
}

/// `needle` occurs in `hay` at character `at`, and at none before.
pub open spec fn occurs_first(hay: Seq<char>, needle: Seq<char>, at: int) -> bool {
    occurs_at(hay, needle, at) && forall|k: int| 0 <= k < at ==> !occurs_at(hay, needle, k)
}

/// Whether `m` says how words match a text, both in lower case.
pub open spec fn is_match(m: TextMatch, content: Seq<char>, query: Seq<char>) -> bool {
    match m {
        TextMatch::Nothing => content != query && !occurs(content, query),
        TextMatch::Whole => content == query,
        TextMatch::Part { position, length } => content != query && length == byte_len(content)
            && exists|at: int| #[trigger]
            occurs_first(content, query, at) && position == byte_len(content.take(at)),
    }
}

/// Finds how words match a text, both in lower case.
pub fn match_lowered(content: &str, query: &str) -> (r: TextMatch)
    ensures
        is_match(r, content@, query@),
{
    if same_text(content, query) {
        return TextMatch::Whole;
    }
    match find(content, query) {
        None => TextMatch::Nothing,
        Some(at) => {
            let chars = to_chars(content);
            let front = from_chars(&chars, 0, at);
            assert(front@ =~= content@.take(at as int));
            assert(occurs_first(content@, query@, at as int));
            let position: usize = front.as_str().as_bytes().len();
            let length: usize = content.as_bytes().len();
            assert(position == byte_len(content@.take(at as int)));
            assert(length == byte_len(content@));
            TextMatch::Part { position, length }
        },
    }
}

/// Whether `m` says how words match a text, without regard to case. Nothing
/// matches where either is empty.
pub open spec fn matches_text(m: TextMatch, content: Seq<char>, query: Seq<char>) -> bool {
    if query.len() == 0 || content.len() == 0 {
        m == TextMatch::Nothing
    } else {
        is_match(m, lowercase(content), lowercase(query))
    }
}

/// Finds how words match a text, without regard to case.
pub fn text_match(content: &str, query: &str) -> (r: TextMatch)
    ensures
        matches_text(r, content@, query@),
{
    if query.is_empty() || content.is_empty() {
        return TextMatch::Nothing;
    }
    let lowered = to_lowercase(query);
    match_lowered(to_lowercase(content).as_str(), lowered.as_str())
}

/// Finds how words match each of the candidates.
pub fn match_results(results: &Vec<Scored<MemoryItem>>, query: &str) -> (r: Vec<TextMatch>)
    ensures
        r@.len() == results@.len(),
        forall|i: int|
            0 <= i < r@.len() ==> matches_text(
                #[trigger] r@[i],
                searched_text(results@[i]@.item.content),
                query@,
            ),
{
    let mut out: Vec<TextMatch> = Vec::new();
    for i in 0..results.len()
        invariant
            out@.len() == i,
            forall|k: int|
                0 <= k < i ==> matches_text(
                    #[trigger] out@[k],
                    searched_text(results@[k]@.item.content),
                    query@,
                ),
    {
        let text = item_to_text(&results[i].item);
        out.push(text_match(text.as_str(), query));
    }
    out
}

/// The candidates with their scores: the weight each was given, and nothing
/// where the words do not occur in it.
pub open spec fn weighed(
    results: Seq<ScoredModel<ItemModel>>,
    matches: Seq<TextMatch>,
    weights: Seq<Float>,
) -> Seq<ScoredModel<ItemModel>> {
    Seq::new(
        results.len(),
        |i: int|
            ScoredModel {
                score: if matches[i] == TextMatch::Nothing {
                    Float(crate::float::ZERO)
                } else {
                    weights[i]
                },
                item: results[i].item,
            },
    )
}

/// The candidates with a score above zero, in their order.
pub open spec fn relevant(hits: Seq<ScoredModel<ItemModel>>) -> Seq<ScoredModel<ItemModel>> {
    hits.filter(|hit: ScoredModel<ItemModel>| Float(crate::float::ZERO).below(hit.score))
}

/// At least one.
pub open spec fn one_at_least(limit: usize) -> nat {
    if limit < 1 {
        1
    } else {
        limit as nat
    }
}

/// Ranks what a recall found by how it matches the query's words and the weight
/// it was given, and keeps the best. Without words, everything stays as it was.
/// `matches` says how the words match each candidate, as `match_results` finds.
pub fn rank_recall_results(
    q: &Query,
    results: Vec<Scored<MemoryItem>>,
    matches: &Vec<TextMatch>,
    weights: &Vec<Float>,
) -> (r: Vec<Scored<MemoryItem>>)
    requires
        results@.len() == matches@.len() == weights@.len(),
        forall|i: int|
            0 <= i < matches@.len() ==> matches_text(
                #[trigger] matches@[i],
                searched_text(results@[i]@.item.content),
                q@.text,
            ),
    ensures
        if q@.text.len() == 0 {
            r == results
        } else {
            is_best(
                views(r@),
                relevant(weighed(views(results@), matches@, weights@)),
                one_at_least(q.limit),
            )
        },
{
    if q.text.as_str().is_empty() {
        return results;
    }
    let max: usize = if q.limit < 1 {
        1
    } else {
        q.limit
    };
    let ghost above = |hit: ScoredModel<ItemModel>| Float(crate::float::ZERO).below(hit.score);
    let ghost all = weighed(views(results@), matches@, weights@);
    let mut kept: Vec<Scored<MemoryItem>> = Vec::new();
    assert(all.take(0).filter(above) =~= Seq::<ScoredModel<ItemModel>>::empty()) by {
        reveal(Seq::filter);
    }
    assert(views(kept@) =~= Seq::<ScoredModel<ItemModel>>::empty());
    let mut n: usize = 0;
    for result in it: results
        invariant
            it.seq() == results@,
            results@.len() == matches@.len() == weights@.len(),
            all == weighed(views(results@), matches@, weights@),
            above == |hit: ScoredModel<ItemModel>| Float(crate::float::ZERO).below(hit.score),
            n == it.index(),
            n <= results@.len(),
            views(kept@) == all.take(n as int).filter(above),
    {
        let ghost before = views(kept@);
        assert(n < matches.len());
        let score = match matches[n] {
            TextMatch::Nothing => Float(crate::float::ZERO),
            _ => weights[n],
        };
        let hit = Scored { score, item: result.item };
        let ghost model = hit@;
        proof {
            reveal(Seq::filter);
            assert(views(results@)[n as int] == result@);
            assert(all[n as int] == model);
            assert(all.take(n + 1).drop_last() =~= all.take(n as int));
            assert(all.take(n + 1).last() == model);
        }
        if Float(crate::float::ZERO).less(hit.score) {
            kept.push(hit);
            assert(views(kept@) =~= before.push(model));
        }
        n += 1;
    }
    assert(all.take(all.len() as int) =~= all);
    best(kept, max)
}

/// A recall by words gives no more than it was asked for, and nothing in which
/// the words do not occur; where the weights are numbers, the heavier comes
/// first.
pub proof fn law_recall_is_relevant(
    ranked: Seq<ScoredModel<ItemModel>>,
    results: Seq<ScoredModel<ItemModel>>,
    text: Seq<char>,
    matches: Seq<TextMatch>,
    weights: Seq<Float>,
    limit: usize,
)
    requires
        results.len() == matches.len() == weights.len(),
        forall|i: int|
            0 <= i < matches.len() ==> matches_text(
                #[trigger] matches[i],
                searched_text(results[i].item.content),
                text,
            ),
        is_best(ranked, relevant(weighed(results, matches, weights)), one_at_least(limit)),
    ensures
        ranked.len() <= one_at_least(limit),
        forall|hit: ScoredModel<ItemModel>| #[trigger]
            ranked.contains(hit) ==> occurs(
                lowercase(searched_text(hit.item.content)),
                lowercase(text),
            ) && exists|i: int|
                0 <= i < results.len() && (#[trigger] results[i]).item == hit.item && weights[i]
                    == hit.score,
        (forall|i: int| 0 <= i < weights.len() ==> !(#[trigger] weights[i]).is_nan())
            ==> scores_fall(ranked),
{
    let above = |hit: ScoredModel<ItemModel>| Float(crate::float::ZERO).below(hit.score);
    let hits = weighed(results, matches, weights);
    let kept = hits.filter(above);
    law_best_are_best(ranked, kept, one_at_least(limit));
    broadcast use vstd::seq_lib::group_filter_ensures;

    assert forall|hit: ScoredModel<ItemModel>| #[trigger] ranked.contains(hit) implies occurs(
        lowercase(searched_text(hit.item.content)),
        lowercase(text),
    ) && exists|i: int|
        0 <= i < results.len() && (#[trigger] results[i]).item == hit.item && weights[i]
            == hit.score by {
        let k = kept.index_of(hit);
        assert(above(kept[k]));
        hits.lemma_filter_contains_rev(above, hit);
        let i = hits.index_of(hit);
        assert(results[i].item == hit.item);
        let content = lowercase(searched_text(hit.item.content));
        let words = lowercase(text);
        assert(matches[i] != TextMatch::Nothing);
        assert(is_match(matches[i], content, words));
        if matches[i] == TextMatch::Whole {
            assert(content.subrange(0, words.len() as int) =~= words);
            assert(occurs_at(content, words, 0));
        } else {
            let at = choose|at: int| occurs_first(content, words, at);
            assert(occurs_at(content, words, at));
        }
    }
    if forall|i: int| 0 <= i < weights.len() ==> !(#[trigger] weights[i]).is_nan() {
        assert forall|k: int| 0 <= k < kept.len() implies !(#[trigger] kept[k]).score.is_nan() by {
            assert(above(kept[k]));
        }
    }
}

/// What is searched of a content: its text, and its JSON written out, both where it
/// has both.
pub proof fn law_all_of_a_content_is_searched(content: ContentModel)
    ensures
        content matches ContentModel::Text(t) ==> searched_text(content) == t,
        content matches ContentModel::Json(j) ==> searched_text(content) == json_text(j),
        content matches ContentModel::TextJson { text, json } ==> {
            &&& text.is_prefix_of(searched_text(content))
            &&& json_text(json).is_suffix_of(searched_text(content))
            &&& searched_text(content).len() == text.len() + 1 + json_text(json).len()
        },
{
    if let ContentModel::TextJson { text, json } = content {
        let all = searched_text(content);
        reveal_strlit(" ");
        assert(all.subrange(0, text.len() as int) =~= text);
        assert(all.subrange(all.len() - json_text(json).len(), all.len() as int) =~= json_text(
            json,
        ));
    }
}

/// For each memory that is asked for five candidates are fetched, for one at least
/// and no more than a thousand.
pub proof fn law_candidates_are_enough(limit: usize)
    ensures
        1 <= limit <= 200 ==> candidates_for(limit) == 5 * limit,
        limit == 0 ==> candidates_for(limit) == 5,
        limit > 200 ==> candidates_for(limit) == 1000,
{
}

/// Words that do not occur in a text match nothing in it, and words that do match,
/// without regard to case.
pub proof fn law_words_match_where_they_occur(m: TextMatch, content: Seq<char>, words: Seq<char>)
    requires
        matches_text(m, content, words),
    ensures
        (m != TextMatch::Nothing) <==> words.len() > 0 && content.len() > 0 && occurs(
            lowercase(content),
            lowercase(words),
        ),
        m == TextMatch::Whole <==> words.len() > 0 && content.len() > 0 && lowercase(content)
            == lowercase(words),
{
    if words.len() > 0 && content.len() > 0 {
        let hay = lowercase(content);
        let needle = lowercase(words);
        if hay == needle {
            assert(hay.subrange(0, needle.len() as int) =~= needle);
            assert(occurs_at(hay, needle, 0));
        }
        if m is Part {
            let at = choose|at: int| #[trigger] occurs_first(hay, needle, at);
            assert(occurs_at(hay, needle, at));
        }
    }
}

/// A recall by words misses nothing: where the weights are numbers, a candidate in
/// which the words occur and whose weight is above zero is among the results, with
/// its weight as its score, unless as many as were asked for are there and none of
/// them weighs less.
pub proof fn law_recall_misses_nothing_relevant(
    ranked: Seq<ScoredModel<ItemModel>>,
    results: Seq<ScoredModel<ItemModel>>,
    text: Seq<char>,
    matches: Seq<TextMatch>,
    weights: Seq<Float>,
    limit: usize,
    i: int,
)
    requires
        results.len() == matches.len() == weights.len(),
        forall|k: int|
            0 <= k < matches.len() ==> matches_text(
                #[trigger] matches[k],
                searched_text(results[k].item.content),
                text,
            ),
        forall|k: int| 0 <= k < weights.len() ==> !(#[trigger] weights[k]).is_nan(),
        is_best(ranked, relevant(weighed(results, matches, weights)), one_at_least(limit)),
        0 <= i < results.len(),
        text.len() > 0,
        searched_text(results[i].item.content).len() > 0,
        occurs(lowercase(searched_text(results[i].item.content)), lowercase(text)),
        Float(0).below(weights[i]),
    ensures
        ranked.contains(ScoredModel { score: weights[i], item: results[i].item }) || (
        ranked.len() >= limit && ranked.len() >= 1 && forall|k: int|
            0 <= k < ranked.len() ==> !(#[trigger] ranked[k]).score.below(weights[i])),
{
    let above = |hit: ScoredModel<ItemModel>| Float(crate::float::ZERO).below(hit.score);
    let hits = weighed(results, matches, weights);
    let kept = relevant(hits);
    assert(kept == hits.filter(above));
    let hit = ScoredModel { score: weights[i], item: results[i].item };
    law_words_match_where_they_occur(
        matches[i],
        searched_text(results[i].item.content),
        text,
    );
    assert(hits[i] == hit);
    let places = filter_places(hits, above);
    assert(above(hits[i]));
    let a = places.index_of(i);
    assert(kept[a] == hit);
    assert(kept.contains(hit));
    assert(all_numbers(kept)) by {
        assert forall|k: int| 0 <= k < kept.len() implies !(
        #[trigger] kept[k]).score.is_nan() by {
            assert(above(hits[places[k]]));
        }
    }
    best_or_full(ranked, kept, one_at_least(limit), hit);
}

/// Memories of greater weight come first, and those of the same weight in the order
/// in which they were found.
pub proof fn law_heavier_memories_come_first(
    ranked: Seq<ScoredModel<ItemModel>>,
    results: Seq<ScoredModel<ItemModel>>,
    matches: Seq<TextMatch>,
    weights: Seq<Float>,
    limit: usize,
)
    requires
        results.len() == matches.len() == weights.len(),
        forall|k: int| 0 <= k < weights.len() ==> !(#[trigger] weights[k]).is_nan(),
        is_best(ranked, relevant(weighed(results, matches, weights)), one_at_least(limit)),
    ensures
        forall|i: int, j: int|
            0 <= i < j < ranked.len() ==> (#[trigger] ranked[i]).score.key() >= (
            #[trigger] ranked[j]).score.key(),
        limit >= 1 ==> ranked.len() <= limit,
        limit == 0 ==> ranked.len() <= 1,
{
    let above = |hit: ScoredModel<ItemModel>| Float(crate::float::ZERO).below(hit.score);
    let hits = weighed(results, matches, weights);
    let kept = relevant(hits);
    assert(kept == hits.filter(above));
    let places = filter_places(hits, above);
    assert forall|k: int| 0 <= k < kept.len() implies !(#[trigger] kept[k]).score.is_nan() by {
        assert(above(hits[places[k]]));
    }
    law_greater_scores_come_first(ranked, kept, one_at_least(limit));
}

/// Words that occur in a text but are not all of it are found where they occur first:
/// the position is that of the first occurrence, and the length that of the text,
/// both in bytes and in lower case.
pub proof fn law_match_tells_the_first_place(
    position: usize,
    length: usize,
    content: Seq<char>,
    words: Seq<char>,
)
    requires
        matches_text(TextMatch::Part { position, length }, content, words),
    ensures
        length == vstd::utf8::encode_utf8(lowercase(content)).len(),
        exists|at: int|
            {
                &&& #[trigger] occurs_at(lowercase(content), lowercase(words), at)
                &&& position == vstd::utf8::encode_utf8(lowercase(content).take(at)).len()
                &&& forall|k: int|
                    0 <= k < at ==> !occurs_at(lowercase(content), lowercase(words), k)
            },
        lowercase(content) != lowercase(words),
{
    let hay = lowercase(content);
    let needle = lowercase(words);
    let at = choose|at: int| #[trigger]
        occurs_first(hay, needle, at) && position == byte_len(hay.take(at));
    assert(occurs_at(hay, needle, at));
}

} // verus!
