//! Listing memories: reading the filters of a request and cutting the result
//! into pages.
use crate::context_pack::Hit;
use crate::decimal::{parse_i64, parse_usize, read_signed, read_unsigned};
use crate::memory::{kind_of, ItemModel, MemoryItem, MemoryKind, Scored, ScopeModel};
use crate::model::{opt, views};
use crate::order::{text_below, text_order_total};
use crate::query::{base64_text, cursor_position, cursor_text, Query, QueryModel};
use crate::service::error::ApiError;
use crate::service::params::{owned_param, param, scope_from_params, scope_of, Params, ParamsModel};
use crate::text::{
    blank, law_pieces_make_up_the_text, law_trimming_takes_the_ends, lowercase, pieces, split,
    to_lowercase, trim, trimmed,
};
use vstd::prelude::*;

verus! {

/// The kinds that words name; nothing where one of them names none.
pub open spec fn kinds_named(words: Seq<Seq<char>>) -> Option<Seq<MemoryKind>>
    decreases words.len(),
{
    if words.len() == 0 {
        Some(Seq::empty())
    } else {
        match (kinds_named(words.drop_last()), kind_of(words.last())) {
            (Some(kinds), Some(kind)) => Some(kinds.push(kind)),
            _ => None,
        }
    }
}

/// The words of a list with commas, trimmed and in lower case.
pub open spec fn words_of(s: Seq<char>) -> Seq<Seq<char>> {
    pieces(s, ',').map_values(|p: Seq<char>| lowercase(trimmed(p)))
}

/// Reads a list of kinds with commas between them. White space and case do not
/// matter. A word that names no kind spoils the whole list.
pub fn parse_kinds(kinds_str: &str) -> (r: Option<Vec<MemoryKind>>)
    ensures
        opt(r) == kinds_named(words_of(kinds_str@)),
{
    let parts = split(kinds_str, ',');
    let ghost words = words_of(kinds_str@);
    let mut out: Vec<MemoryKind> = Vec::new();
    let mut i: usize = 0;
    assert(words.take(0) =~= Seq::<Seq<char>>::empty());
    assert(out@ =~= Seq::<MemoryKind>::empty());
    while i < parts.len()
        invariant
            i <= parts@.len(),
            views(parts@) == pieces(kinds_str@, ','),
            words == words_of(kinds_str@),
            kinds_named(words.take(i as int)) == Some(out@),
        decreases parts@.len() - i,
    {
        proof {
            assert(pieces(kinds_str@, ',')[i as int] == parts@[i as int]@);
            assert(words.take(i + 1).drop_last() =~= words.take(i as int));
            assert(words.take(i + 1).last() == lowercase(trimmed(parts@[i as int]@)));
        }
        let word = to_lowercase(trim(parts[i].as_str()).as_str());
        match MemoryKind::from_str(word.as_str()) {
            Ok(kind) => {
                out.push(kind);
            },
            Err(_) => {
                proof {
                    unnamed_prefix(words, i + 1);
                }
                return None;
            },
        }
        i += 1;
    }
    assert(words.take(words.len() as int) =~= words);
    Some(out)
}

proof fn unnamed_prefix(words: Seq<Seq<char>>, n: int)
    requires
        0 <= n <= words.len(),
        kinds_named(words.take(n)) is None,
    ensures
        kinds_named(words) is None,
    decreases words.len() - n,
{
    if n < words.len() {
        assert(words.take(n + 1).drop_last() =~= words.take(n));
        unnamed_prefix(words, n + 1);
    } else {
        assert(words.take(n) =~= words);
    }
}

/// Where kinds are read, there is one for each word.
pub proof fn law_kinds_follow_words(words: Seq<Seq<char>>)
    ensures
        match kinds_named(words) {
            Some(kinds) => {
                &&& kinds.len() == words.len()
                &&& forall|i: int|
                    0 <= i < words.len() ==> kind_of(words[i]) == Some(#[trigger] kinds[i])
            },
            None => exists|i: int|
                0 <= i < words.len() && kind_of(#[trigger] words[i]) is None,
        },
    decreases words.len(),
{
    if words.len() > 0 {
        let front = words.drop_last();
        law_kinds_follow_words(front);
        match kinds_named(words) {
            Some(kinds) => {
                assert forall|i: int| 0 <= i < words.len() implies kind_of(words[i]) == Some(
                    #[trigger] kinds[i],
                ) by {
                    if i < front.len() {
                        assert(front[i] == words[i]);
                        assert(kinds[i] == kinds_named(front).unwrap()[i]);
                    }
                }
            },
            None => {
                if kinds_named(front) is None {
                    let i = choose|i: int|
                        0 <= i < front.len() && kind_of(#[trigger] front[i]) is None;
                    assert(words[i] == front[i]);
                } else {
                    assert(words[words.len() - 1] == words.last());
                }
            },
        }
    }
}

/// The words that are not empty, trimmed, in their order.
pub open spec fn kept_tags(words: Seq<Seq<char>>) -> Seq<Seq<char>>
    decreases words.len(),
{
    if words.len() == 0 {
        Seq::empty()
    } else {
        let before = kept_tags(words.drop_last());
        let tag = trimmed(words.last());
        if tag.len() == 0 {
            before
        } else {
            before.push(tag)
        }
    }
}

/// The tags in a list with commas; nothing where there is none.
pub open spec fn tags_of(s: Seq<char>) -> Option<Seq<Seq<char>>> {
    let tags = kept_tags(pieces(s, ','));
    if tags.len() == 0 {
        None
    } else {
        Some(tags)
    }
}

/// Reads a list of tags with commas between them.
pub fn parse_tags(tags_str: &str) -> (r: Option<Vec<String>>)
    ensures
        match r {
            Some(v) => tags_of(tags_str@) == Some(views(v@)),
            None => tags_of(tags_str@) is None,
        },
{
    let parts = split(tags_str, ',');
    let ghost words = pieces(tags_str@, ',');
    let mut out: Vec<String> = Vec::new();
    let mut i: usize = 0;
    assert(words.take(0) =~= Seq::<Seq<char>>::empty());
    assert(views(out@) =~= Seq::<Seq<char>>::empty());
    while i < parts.len()
        invariant
            i <= parts@.len(),
            views(parts@) == words,
            views(out@) == kept_tags(words.take(i as int)),
        decreases parts@.len() - i,
    {
        let ghost before = views(out@);
        proof {
            assert(words[i as int] == parts@[i as int]@);
            assert(words.take(i + 1).drop_last() =~= words.take(i as int));
            assert(words.take(i + 1).last() == parts@[i as int]@);
        }
        let tag = trim(parts[i].as_str());
        let ghost t = tag@;
        if !tag.as_str().is_empty() {
            out.push(tag);
            assert(views(out@) =~= before.push(t));
        }
        i += 1;
    }
    assert(words.take(words.len() as int) =~= words);
    if out.len() == 0 {
        None
    } else {
        Some(out)
    }
}

/// The most memories that one page shows.
pub const MAX_PAGE: usize = 100;

/// The page size where none is asked for.
pub const DEFAULT_PAGE: usize = 10;

/// The page size that a parameter asks for.
pub open spec fn limit_of(value: Option<Seq<char>>) -> usize {
    match value {
        Some(v) => match read_unsigned(v) {
            Some(n) if n <= usize::MAX => if n <= MAX_PAGE {
                n as usize
            } else {
                MAX_PAGE
            },
            _ => DEFAULT_PAGE,
        },
        None => DEFAULT_PAGE,
    }
}

/// Reads a page size: at most 100, and 10 where none is given or it is no
/// number.
pub fn parse_limit(value: Option<&str>) -> (r: usize)
    ensures
        r == limit_of(opt(value)),
        r <= MAX_PAGE,
{
    match value {
        Some(v) => match parse_usize(v) {
            Some(n) => if n <= MAX_PAGE {
                n
            } else {
                MAX_PAGE
            },
            None => DEFAULT_PAGE,
        },
        None => DEFAULT_PAGE,
    }
}

/// The time that a parameter gives, if it is a 64-bit number.
pub open spec fn time_of(value: Option<Seq<char>>) -> Option<i64> {
    match value {
        Some(v) => match read_signed(v) {
            Some(n) if i64::MIN <= n <= i64::MAX => Some(n as i64),
            _ => None,
        },
        None => None,
    }
}

/// Reads a time.
pub fn parse_time(value: Option<&str>) -> (r: Option<i64>)
    ensures
        r == time_of(opt(value)),
{
    match value {
        Some(v) => parse_i64(v),
        None => None,
    }
}

/// The query behind a page. It asks for one memory more than the page shows, to
/// see whether there is another page.
pub open spec fn page_query(params: ParamsModel, scope: ScopeModel) -> QueryModel {
    QueryModel {
        scope,
        text: Seq::empty(),
        kinds: match param(params, "kinds"@) {
            Some(k) => kinds_named(words_of(k)),
            None => None,
        },
        tags_any: match param(params, "tags"@) {
            Some(t) => tags_of(t),
            None => None,
        },
        limit: (limit_of(param(params, "limit"@)) + 1) as usize,
        since_ms: time_of(param(params, "since_ms"@)),
        until_ms: time_of(param(params, "until_ms"@)),
        cursor: param(params, "cursor"@),
    }
}

/// Reads the query of a listing request.
pub fn list_query(params: &Params) -> (r: Result<Query, ApiError>)
    ensures
        match (r, scope_of(params@)) {
            (Ok(q), Ok(scope)) => q@ == page_query(params@, scope),
            (Err(e), Err(f)) => e@ == f,
            _ => false,
        },
{
    let scope = match scope_from_params(params) {
        Ok(s) => s,
        Err(e) => return Err(e),
    };
    let kinds: Option<Vec<MemoryKind>> = match params.get("kinds") {
        Some(k) => parse_kinds(k),
        None => None,
    };
    let tags_any: Option<Vec<String>> = match params.get("tags") {
        Some(t) => parse_tags(t),
        None => None,
    };
    let limit: usize = parse_limit(params.get("limit"));
    Ok(
        Query {
            scope,
            text: String::new(),
            kinds,
            tags_any,
            limit: limit + 1,
            since_ms: parse_time(params.get("since_ms")),
            until_ms: parse_time(params.get("until_ms")),
            cursor: owned_param(params, "cursor"),
        },
    )
}

/// A page of memories, and where the next one starts if there is one.
#[derive(Debug)]
pub struct PaginatedListResponse {
    pub items: Vec<MemoryItem>,
    pub next_cursor: Option<String>,
}

/// The memories of a page of at most `limit`.
pub open spec fn page_items(hits: Seq<Hit>, limit: nat) -> Seq<ItemModel> {
    let shown = if hits.len() <= limit {
        hits
    } else {
        hits.take(limit as int)
    };
    shown.map_values(|h: Hit| h.item)
}

/// Cuts the found memories to a page of at most `limit`. Where some are left
/// over, the page ends with a cursor at its last memory; a page of none has no
/// cursor.
pub fn paginate(results: Vec<Scored<MemoryItem>>, limit: usize) -> (r: PaginatedListResponse)
    ensures
        views(r.items@) == page_items(views(results@), limit as nat),
        match r.next_cursor {
            Some(c) => {
                &&& results@.len() > limit > 0
                &&& cursor_position(c@) == Some(
                    (
                        views(results@)[limit - 1].item.created_at_ms,
                        views(results@)[limit - 1].item.id,
                    ),
                )
                &&& c@ == base64_text(
                    vstd::utf8::encode_utf8(
                        cursor_text(
                            views(results@)[limit - 1].item.created_at_ms,
                            views(results@)[limit - 1].item.id,
                        ),
                    ),
                )
            },
            None => results@.len() <= limit || limit == 0,
        },
{
    let ghost all = views(results@);
    let mut results = results;
    let more = results.len() > limit;
    if more {
        results.truncate(limit);
    }
    let ghost shown = views(results@);
    proof {
        assert(shown =~= if all.len() <= limit {
            all
        } else {
            all.take(limit as int)
        });
    }
    let next_cursor: Option<String> = if more && results.len() > 0 {
        let last = &results[results.len() - 1];
        assert(shown[limit - 1] == last@);
        Some(Query::encode_cursor(last.item.created_at_ms, last.item.id.0.as_str()))
    } else {
        None
    };
    let mut items: Vec<MemoryItem> = Vec::new();
    for hit in it: results
        invariant
            it.seq() == results@,
            shown == views(results@),
            items@.len() == it.index(),
            forall|k: int| 0 <= k < it.index() ==> (#[trigger] items@[k])@ == shown[k].item,
    {
        assert(shown[it.index()] == hit@);
        items.push(hit.item);
    }
    assert(views(items@) =~= page_items(all, limit as nat));
    PaginatedListResponse { items, next_cursor }
}

/// A page shows no more than was asked for, and all of what was found where
/// there is no further page.
pub proof fn law_page_keeps_to_its_limit(hits: Seq<Hit>, limit: nat)
    ensures
        page_items(hits, limit).len() <= limit,
        hits.len() <= limit ==> page_items(hits, limit).len() == hits.len(),
        forall|i: int|
            0 <= i < page_items(hits, limit).len() ==> #[trigger] page_items(hits, limit)[i]
                == hits[i].item,
{
}

/// An item that comes after a position where the newest come first, and of those
/// made at the same time the greatest id: what the condition of a cursor lets
/// through.
pub open spec fn past(position: (i64, Seq<char>), item: ItemModel) -> bool {
    item.created_at_ms < position.0 || (item.created_at_ms == position.0 && text_below(
        item.id,
        position.1,
    ))
}

/// The position of an item.
pub open spec fn position(item: ItemModel) -> (i64, Seq<char>) {
    (item.created_at_ms, item.id)
}

/// Items in the order of a listing.
pub open spec fn newest_first(items: Seq<ItemModel>) -> bool {
    forall|i: int, j: int|
        0 <= i < j < items.len() ==> past(position(#[trigger] items[i]), #[trigger] items[j])
}

proof fn filter_is_suffix(items: Seq<ItemModel>, keep: spec_fn(ItemModel) -> bool, from: int)
    requires
        0 <= from <= items.len(),
        forall|k: int| 0 <= k < items.len() ==> keep(#[trigger] items[k]) == (from <= k),
    ensures
        items.filter(keep) == items.skip(from),
    decreases items.len(),
{
    reveal(Seq::filter);
    if items.len() == 0 {
        assert(items.filter(keep) =~= items.skip(from));
    } else {
        let front = items.drop_last();
        let at = if from < items.len() {
            from
        } else {
            from - 1
        };
        assert forall|k: int| 0 <= k < front.len() implies keep(#[trigger] front[k]) == (at <= k) by {
            assert(front[k] == items[k]);
        }
        filter_is_suffix(front, keep, at);
        assert(keep(items[items.len() - 1]) == (from <= items.len() - 1));
        assert(items.filter(keep) =~= items.skip(from));
    }
}

/// The pages of a listing go on where the one before stopped: what comes after the
/// last memory of a page is what the page did not show, no more and no less.
pub proof fn law_next_page_continues(items: Seq<ItemModel>, limit: nat)
    requires
        newest_first(items),
        0 < limit <= items.len(),
    ensures
        items.filter(|item: ItemModel| past(position(items[limit - 1]), item)) == items.skip(
            limit as int,
        ),
{
    let last = items[limit - 1];
    let keep = |item: ItemModel| past(position(last), item);
    assert forall|k: int| 0 <= k < items.len() implies keep(#[trigger] items[k]) == (limit <= k) by {
        text_order_total(items[k].id, last.id);
        if k < limit - 1 {
            assert(past(position(items[k]), last));
        } else if k > limit - 1 {
            assert(past(position(last), items[k]));
        }
    }
    filter_is_suffix(items, keep, limit as int);
}

/// The tags of a list are its words, trimmed, in their order, without those of
/// which nothing is left.
pub proof fn law_tags_are_the_words(words: Seq<Seq<char>>) -> (places: Seq<int>)
    ensures
        kept_tags(words).len() == places.len(),
        forall|a: int, b: int|
            0 <= a < b < places.len() ==> #[trigger] places[a] < #[trigger] places[b],
        forall|a: int|
            0 <= a < places.len() ==> 0 <= #[trigger] places[a] < words.len() && kept_tags(
                words,
            )[a] == trimmed(words[places[a]]) && !blank(words[places[a]]),
        forall|k: int| 0 <= k < words.len() && !blank(#[trigger] words[k]) ==> places.contains(k),
    decreases words.len(),
{
    if words.len() == 0 {
        Seq::empty()
    } else {
        let front = words.drop_last();
        let before = law_tags_are_the_words(front);
        law_trimming_takes_the_ends(words.last());
        let places = if trimmed(words.last()).len() == 0 {
            before
        } else {
            before.push(words.len() - 1)
        };
        assert forall|k: int| 0 <= k < words.len() && !blank(
            #[trigger] words[k],
        ) implies places.contains(k) by {
            if k < front.len() {
                assert(front[k] == words[k]);
                let a = before.index_of(k);
                assert(places[a] == k);
            } else {
                assert(places[before.len() as int] == k);
            }
        }
        places
    }
}

/// A list of tags filters exactly where it holds a word that is not blank; a list
/// of kinds filters by one kind for each of its words, trimmed and in lower case.
pub proof fn law_filters_are_the_words(s: Seq<char>)
    ensures
        tags_of(s) is None <==> forall|i: int|
            0 <= i < pieces(s, ',').len() ==> blank(#[trigger] pieces(s, ',')[i]),
        tags_of(s) matches Some(tags) ==> forall|i: int|
            0 <= i < tags.len() ==> (#[trigger] tags[i]).len() > 0 && !tags[i].contains(','),
        words_of(s).len() == pieces(s, ',').len(),
        forall|i: int|
            0 <= i < words_of(s).len() ==> #[trigger] words_of(s)[i] == lowercase(
                trimmed(pieces(s, ',')[i]),
            ),
{
    let words = pieces(s, ',');
    let places = law_tags_are_the_words(words);
    law_pieces_make_up_the_text(s, ',');
    let tags = kept_tags(words);
    if tags.len() > 0 {
        assert(!blank(words[places[0]]));
    } else {
        assert forall|i: int| 0 <= i < words.len() implies blank(#[trigger] words[i]) by {
            if !blank(words[i]) {
                assert(places.contains(i));
            }
        }
    }
    assert forall|i: int| 0 <= i < tags.len() implies (#[trigger] tags[i]).len() > 0
        && !tags[i].contains(',') by {
        let word = words[places[i]];
        let ends = law_trimming_takes_the_ends(word);
        assert(!word.contains(','));
        if tags[i].contains(',') {
            let k = tags[i].index_of(',');
            assert(word[ends.0 + k] == ',');
        }
    }
}

/// A page shows as many memories as were asked for, but no more than 100, and 10
/// where the number is missing or none; and the query behind it asks, within the
/// scope and from the cursor that were given, for one more than that.
pub proof fn law_page_size_is_what_was_asked(params: ParamsModel, scope: ScopeModel)
    ensures
        page_query(params, scope).scope == scope,
        page_query(params, scope).text.len() == 0,
        page_query(params, scope).limit == limit_of(param(params, "limit"@)) + 1,
        !params.contains_key("limit"@) ==> limit_of(param(params, "limit"@)) == 10,
        params.contains_key("limit"@) ==> (match read_unsigned(params["limit"@]) {
            Some(n) => n <= usize::MAX ==> limit_of(param(params, "limit"@)) == if n <= 100 {
                n
            } else {
                100
            },
            None => limit_of(param(params, "limit"@)) == 10,
        }),
        params.contains_key("cursor"@) ==> page_query(params, scope).cursor == Some(
            params["cursor"@],
        ),
        !params.contains_key("cursor"@) ==> page_query(params, scope).cursor is None,
        !params.contains_key("kinds"@) ==> page_query(params, scope).kinds is None,
        !params.contains_key("tags"@) ==> page_query(params, scope).tags_any is None,
        params.contains_key("since_ms"@) ==> (match read_signed(params["since_ms"@]) {
            Some(n) => i64::MIN <= n <= i64::MAX ==> page_query(params, scope).since_ms == Some(
                n as i64,
            ),
            None => page_query(params, scope).since_ms is None,
        }),
        params.contains_key("until_ms"@) ==> (match read_signed(params["until_ms"@]) {
            Some(n) => i64::MIN <= n <= i64::MAX ==> page_query(params, scope).until_ms == Some(
                n as i64,
            ),
            None => page_query(params, scope).until_ms is None,
        }),
        !params.contains_key("since_ms"@) ==> page_query(params, scope).since_ms is None,
        !params.contains_key("until_ms"@) ==> page_query(params, scope).until_ms is None,
{
}

/// What comes after a position is older, or as old with an id that stands before
/// it; nothing comes both before and after, and of two different items one comes
/// after the other.
pub proof fn law_listing_order_is_total(a: ItemModel, b: ItemModel)
    ensures
        a.created_at_ms > b.created_at_ms ==> past(position(a), b) && !past(position(b), a),
        a.created_at_ms == b.created_at_ms && a.id != b.id ==> past(position(a), b) != past(
            position(b),
            a,
        ),
        a.created_at_ms == b.created_at_ms && a.id == b.id ==> !past(position(a), b),
{
    text_order_total(a.id, b.id);
}

} // verus!
