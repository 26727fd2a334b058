//! Orders: texts by their characters, and ranked things by their scores.
use crate::memory::{Scored, ScoredModel};
use crate::model::views;
use crate::text::to_chars;
use vstd::prelude::*;

verus! {

/// `a` comes before `b` in the dictionary order of characters.
pub open spec fn text_below(a: Seq<char>, b: Seq<char>) -> bool
    decreases a.len(),
{
    if b.len() == 0 {
        false
    } else if a.len() == 0 {
        true
    } else if a[0] != b[0] {
        a[0] < b[0]
    } else {
        text_below(a.drop_first(), b.drop_first())
    }
}

/// Of two texts one comes before the other, or they are the same.
pub proof fn text_order_total(a: Seq<char>, b: Seq<char>)
    ensures
        a == b || text_below(a, b) || text_below(b, a),
        text_below(a, b) ==> a != b && !text_below(b, a),
    decreases a.len(),
{
    if a.len() > 0 && b.len() > 0 && a[0] == b[0] {
        text_order_total(a.drop_first(), b.drop_first());
        if a.drop_first() == b.drop_first() {
            assert(a =~= seq![a[0]] + a.drop_first());
            assert(b =~= seq![b[0]] + b.drop_first());
        }
    } else if a.len() == 0 && b.len() == 0 {
        assert(a =~= b);
    }
}

/// What comes before a text comes before whatever that text comes before.
pub proof fn text_order_transitive(a: Seq<char>, b: Seq<char>, c: Seq<char>)
    requires
        text_below(a, b),
        text_below(b, c),
    ensures
        text_below(a, c),
    decreases a.len(),
{
    if a.len() > 0 && a[0] == b[0] && b[0] == c[0] {
        text_order_transitive(a.drop_first(), b.drop_first(), c.drop_first());
    }
}

/// Whether `a` comes before `b`.
pub fn is_below(a: &str, b: &str) -> (r: bool)
    ensures
        r == text_below(a@, b@),
{
    let x = to_chars(a);
    let y = to_chars(b);
    let mut i: usize = 0;
    assert(x@.skip(0) =~= x@);
    assert(y@.skip(0) =~= y@);
    while i < x.len() && i < y.len()
        invariant
            i <= x@.len(),
            i <= y@.len(),
            x@ == a@,
            y@ == b@,
            text_below(a@, b@) == text_below(x@.skip(i as int), y@.skip(i as int)),
        decreases x@.len() - i,
    {
        proof {
            assert(x@.skip(i as int).drop_first() =~= x@.skip(i + 1));
            assert(y@.skip(i as int).drop_first() =~= y@.skip(i + 1));
        }
        if x[i] != y[i] {
            return x[i] < y[i];
        }
        i += 1;
    }
    i == x.len() && i < y.len()
}

/// The hits whose score has the given key, in their order.
pub open spec fn at_score<V>(hits: Seq<ScoredModel<V>>, key: int) -> Seq<ScoredModel<V>>
    decreases hits.len(),
{
    if hits.len() == 0 {
        Seq::empty()
    } else if hits.last().score.key() == key {
        at_score(hits.drop_last(), key).push(hits.last())
    } else {
        at_score(hits.drop_last(), key)
    }
}

/// Every score is a number.
pub open spec fn all_numbers<V>(hits: Seq<ScoredModel<V>>) -> bool {
    forall|i: int| 0 <= i < hits.len() ==> !(#[trigger] hits[i]).score.is_nan()
}

/// No hit stands before one with a greater score.
pub open spec fn scores_fall<V>(hits: Seq<ScoredModel<V>>) -> bool {
    forall|i: int, j: int|
        0 <= i < j < hits.len() ==> (#[trigger] hits[j]).score.at_most((#[trigger] hits[i]).score)
}

/// `ranked` holds the same hits as `hits`, from the greatest score down, and
/// hits of the same score in the order they had. Where some score is not a
/// number, their order is left open.
pub open spec fn is_ranking<V>(ranked: Seq<ScoredModel<V>>, hits: Seq<ScoredModel<V>>) -> bool {
    &&& ranked.len() == hits.len()
    &&& forall|key: int| #[trigger] at_score(ranked, key) == at_score(hits, key)
    &&& all_numbers(hits) ==> all_numbers(ranked) && scores_fall(ranked)
}

proof fn at_score_concat<V>(a: Seq<ScoredModel<V>>, b: Seq<ScoredModel<V>>, key: int)
    ensures
        at_score(a + b, key) == at_score(a, key) + at_score(b, key),
    decreases b.len(),
{
    if b.len() == 0 {
        assert(a + b =~= a);
        assert(at_score(a, key) + at_score(b, key) =~= at_score(a, key));
    } else {
        assert((a + b).drop_last() =~= a + b.drop_last());
        assert((a + b).last() == b.last());
        at_score_concat(a, b.drop_last(), key);
        assert(at_score(a, key) + at_score(b, key) =~= if b.last().score.key() == key {
            (at_score(a, key) + at_score(b.drop_last(), key)).push(b.last())
        } else {
            at_score(a, key) + at_score(b.drop_last(), key)
        });
    }
}

proof fn at_score_none<V>(hits: Seq<ScoredModel<V>>, key: int)
    requires
        forall|i: int| 0 <= i < hits.len() ==> (#[trigger] hits[i]).score.key() != key,
    ensures
        at_score(hits, key) == Seq::<ScoredModel<V>>::empty(),
    decreases hits.len(),
{
    if hits.len() > 0 {
        assert forall|i: int| 0 <= i < hits.drop_last().len() implies (
        #[trigger] hits.drop_last()[i]).score.key() != key by {
            assert(hits.drop_last()[i] == hits[i]);
        }
        at_score_none(hits.drop_last(), key);
        assert(hits[hits.len() - 1].score.key() != key);
    }
}

proof fn at_score_insert<V>(hits: Seq<ScoredModel<V>>, at: int, new: ScoredModel<V>, key: int)
    requires
        0 <= at <= hits.len(),
        forall|k: int| at <= k < hits.len() ==> (#[trigger] hits[k]).score.key() != new.score.key(),
    ensures
        at_score(hits.insert(at, new), key) == at_score(hits.push(new), key),
{
    let a = hits.take(at);
    let b = hits.skip(at);
    let one = seq![new];
    assert(hits =~= a + b);
    assert(hits.insert(at, new) =~= (a + one) + b);
    assert(hits.push(new) =~= (a + b) + one);
    at_score_concat(a + one, b, key);
    at_score_concat(a, one, key);
    at_score_concat(a + b, one, key);
    at_score_concat(a, b, key);
    assert(one.drop_last() =~= Seq::<ScoredModel<V>>::empty());
    assert(at_score(one.drop_last(), key) =~= Seq::<ScoredModel<V>>::empty());
    if key == new.score.key() {
        assert forall|i: int| 0 <= i < b.len() implies (#[trigger] b[i]).score.key() != key by {
            assert(b[i] == hits[at + i]);
        }
        at_score_none(b, key);
        assert(at_score(hits.insert(at, new), key) =~= at_score(hits.push(new), key));
    } else {
        assert(at_score(one, key) =~= Seq::<ScoredModel<V>>::empty());
        assert(at_score(hits.insert(at, new), key) =~= at_score(hits.push(new), key));
    }
}

/// Ranks hits by their scores.
pub fn rank<T: View>(hits: Vec<Scored<T>>) -> (r: Vec<Scored<T>>)
    ensures
        is_ranking(views(r@), views(hits@)),
{
    let ghost all = views(hits@);
    let mut out: Vec<Scored<T>> = Vec::new();
    assert(all.take(0) =~= Seq::<ScoredModel<T::V>>::empty());
    assert(views(out@) =~= Seq::<ScoredModel<T::V>>::empty());
    for hit in it: hits
        invariant
            it.seq() == hits@,
            all == views(hits@),
            is_ranking(views(out@), all.take(it.index())),
    {
        let ghost n = it.index();
        let ghost before = views(out@);
        let ghost new = hit@;
        let mut i: usize = out.len();
        while i > 0 && out[i - 1].score.less(hit.score)
            invariant
                i <= out@.len(),
                new == hit@,
                before == views(out@),
                forall|k: int|
                    i <= k < before.len() ==> (#[trigger] before[k]).score.below(new.score),
            decreases i,
        {
            i -= 1;
            assert(before[i as int] == out@[i as int]@);
        }
        proof {
            if i > 0 {
                assert(before[i - 1] == out@[i - 1]@);
            }
        }
        out.insert(i, hit);
        proof {
            let after = views(out@);
            assert(after =~= before.insert(i as int, new));
            assert(all[n] == new);
            assert(all.take(n + 1) =~= all.take(n).push(new));
            assert forall|key: int| #[trigger] at_score(after, key) == at_score(
                all.take(n + 1),
                key,
            ) by {
                at_score_insert(before, i as int, new, key);
                assert(at_score(before, key) == at_score(all.take(n), key));
                assert(before.push(new).drop_last() =~= before);
                assert(all.take(n + 1).drop_last() =~= all.take(n));
            }
            if all_numbers(all.take(n + 1)) {
                assert forall|k: int| 0 <= k < n implies !(
                #[trigger] all.take(n)[k]).score.is_nan() by {
                    assert(all.take(n + 1)[k] == all.take(n)[k]);
                }
                assert(!all.take(n + 1)[n].score.is_nan());
                assert forall|k: int| 0 <= k < after.len() implies !(
                #[trigger] after[k]).score.is_nan() by {
                    if k < i {
                        assert(after[k] == before[k]);
                    } else if k > i {
                        assert(after[k] == before[k - 1]);
                    }
                }
                assert forall|a: int, b: int| 0 <= a < b < after.len() implies (
                #[trigger] after[b]).score.at_most((#[trigger] after[a]).score) by {
                    if a < i && b == i {
                        assert(after[a] == before[a]);
                        assert(before[i - 1].score.at_most(before[a].score) || a == i - 1);
                    } else if a == i {
                        assert(after[b] == before[b - 1]);
                    } else {
                        let x = if a < i {
                            a
                        } else {
                            a - 1
                        };
                        let y = if b < i {
                            b
                        } else {
                            b - 1
                        };
                        assert(after[a] == before[x] && after[b] == before[y]);
                    }
                }
            }
        }
    }
    assert(all.take(all.len() as int) =~= all);
    out
}

/// The best of some hits: a ranking of them, cut after `max`.
pub open spec fn is_best<V>(
    best: Seq<ScoredModel<V>>,
    hits: Seq<ScoredModel<V>>,
    max: nat,
) -> bool {
    exists|ranked: Seq<ScoredModel<V>>|
        {
            &&& #[trigger] is_ranking(ranked, hits)
            &&& best == if ranked.len() <= max {
                ranked
            } else {
                ranked.take(max as int)
            }
        }
}

/// Ranks hits by their scores and keeps at most `max` of them.
pub fn best<T: View>(hits: Vec<Scored<T>>, max: usize) -> (r: Vec<Scored<T>>)
    ensures
        is_best(views(r@), views(hits@), max as nat),
{
    let mut ranked = rank(hits);
    let ghost full = views(ranked@);
    ranked.truncate(max);
    proof {
        assert(views(ranked@) =~= if full.len() <= max {
            full
        } else {
            full.take(max as int)
        });
    }
    ranked
}

proof fn at_score_member<V>(hits: Seq<ScoredModel<V>>, x: ScoredModel<V>)
    ensures
        hits.contains(x) <==> at_score(hits, x.score.key()).contains(x),
    decreases hits.len(),
{
    let key = x.score.key();
    if hits.len() > 0 {
        let front = hits.drop_last();
        at_score_member(front, x);
        let kept = at_score(hits, key);
        let kept_front = at_score(front, key);
        if hits.contains(x) {
            let i = hits.index_of(x);
            if i < front.len() {
                assert(front[i] == x);
                let k = kept_front.index_of(x);
                assert(kept[k] == x);
            } else {
                assert(kept[kept.len() - 1] == x);
            }
        }
        if kept.contains(x) {
            let k = kept.index_of(x);
            if k < kept_front.len() {
                assert(kept_front[k] == x);
                assert(front.contains(x));
                let i = front.index_of(x);
                assert(hits[i] == x);
            } else {
                assert(hits[hits.len() - 1] == x);
            }
        }
    }
}

/// A ranking holds every hit.
pub proof fn law_ranking_keeps_all<V>(
    ranked: Seq<ScoredModel<V>>,
    hits: Seq<ScoredModel<V>>,
    hit: ScoredModel<V>,
)
    requires
        is_ranking(ranked, hits),
    ensures
        hits.contains(hit) <==> ranked.contains(hit),
        ranked.len() == hits.len(),
{
    at_score_member(ranked, hit);
    at_score_member(hits, hit);
    assert(at_score(ranked, hit.score.key()) == at_score(hits, hit.score.key()));
}

/// The best hits are hits, no more than were asked for; and where all scores are
/// numbers, no hit that was left out beats one that was kept.
pub proof fn law_best_are_best<V>(
    best: Seq<ScoredModel<V>>,
    hits: Seq<ScoredModel<V>>,
    max: nat,
)
    requires
        is_best(best, hits, max),
    ensures
        best.len() == if hits.len() <= max {
            hits.len()
        } else {
            max
        },
        forall|x: ScoredModel<V>| #[trigger] best.contains(x) ==> hits.contains(x),
        all_numbers(hits) ==> scores_fall(best),
        all_numbers(hits) ==> forall|x: ScoredModel<V>, y: ScoredModel<V>|
            best.contains(x) && hits.contains(y) && !best.contains(y) ==> !(
            #[trigger] x.score.below(y.score)),
{
    let ranked = choose|ranked: Seq<ScoredModel<V>>|
        {
            &&& #[trigger] is_ranking(ranked, hits)
            &&& best == if ranked.len() <= max {
                ranked
            } else {
                ranked.take(max as int)
            }
        };
    assert forall|x: ScoredModel<V>| #[trigger] best.contains(x) implies hits.contains(x) by {
        let i = best.index_of(x);
        assert(ranked[i] == x);
        at_score_member(ranked, x);
        at_score_member(hits, x);
        assert(at_score(ranked, x.score.key()) == at_score(hits, x.score.key()));
    }
    if all_numbers(hits) {
        assert forall|i: int, j: int| 0 <= i < j < best.len() implies (
        #[trigger] best[j]).score.at_most((#[trigger] best[i]).score) by {
            assert(best[i] == ranked[i] && best[j] == ranked[j]);
        }
        assert forall|x: ScoredModel<V>, y: ScoredModel<V>|
            best.contains(x) && hits.contains(y) && !best.contains(y) implies !(
        #[trigger] x.score.below(y.score)) by {
            let i = best.index_of(x);
            assert(ranked[i] == x);
            at_score_member(ranked, y);
            at_score_member(hits, y);
            assert(at_score(ranked, y.score.key()) == at_score(hits, y.score.key()));
            let j = ranked.index_of(y);
            if j < best.len() {
                assert(best[j] == y);
            }
        }
    }
}

proof fn at_score_order<V>(hits: Seq<ScoredModel<V>>, key: int) -> (places: Seq<int>)
    ensures
        at_score(hits, key).len() == places.len(),
        forall|a: int, b: int|
            0 <= a < b < places.len() ==> #[trigger] places[a] < #[trigger] places[b],
        forall|a: int|
            0 <= a < places.len() ==> 0 <= #[trigger] places[a] < hits.len()
                && hits[places[a]].score.key() == key && at_score(hits, key)[a] == hits[places[a]],
        forall|k: int|
            0 <= k < hits.len() && (#[trigger] hits[k]).score.key() == key ==> places.contains(k),
    decreases hits.len(),
{
    if hits.len() == 0 {
        Seq::empty()
    } else {
        let front = hits.drop_last();
        let before = at_score_order(front, key);
        let places = if hits.last().score.key() == key {
            before.push(hits.len() - 1)
        } else {
            before
        };
        assert forall|k: int|
            0 <= k < hits.len() && (
            #[trigger] hits[k]).score.key() == key implies places.contains(k) by {
            if k < front.len() {
                assert(front[k].score.key() == key);
                let a = before.index_of(k);
                assert(places[a] == k);
            } else {
                assert(places[before.len() as int] == k);
            }
        }
        places
    }
}

/// The best hits keep, among those of the same score, the order that they had: the
/// first of two stands before the second in the hits too.
pub proof fn law_ties_keep_their_order<V>(
    best: Seq<ScoredModel<V>>,
    hits: Seq<ScoredModel<V>>,
    max: nat,
    a: int,
    b: int,
)
    requires
        is_best(best, hits, max),
        0 <= a < b < best.len(),
        best[a].score.key() == best[b].score.key(),
    ensures
        exists|i: int, j: int|
            0 <= i < j < hits.len() && #[trigger] hits[i] == best[a] && #[trigger] hits[j] == best[b],
{
    let ranked = choose|ranked: Seq<ScoredModel<V>>|
        {
            &&& #[trigger] is_ranking(ranked, hits)
            &&& best == if ranked.len() <= max {
                ranked
            } else {
                ranked.take(max as int)
            }
        };
    let key = best[a].score.key();
    assert(ranked[a] == best[a] && ranked[b] == best[b]);
    let there = at_score_order(ranked, key);
    let here = at_score_order(hits, key);
    assert(at_score(ranked, key) == at_score(hits, key));
    let x = there.index_of(a);
    let y = there.index_of(b);
    assert(there[x] == a && there[y] == b);
    assert(x < y) by {
        if x > y {
            assert(there[y] < there[x]);
        }
    }
    assert(here[x] < here[y]);
    assert(hits[here[x]] == best[a] && hits[here[y]] == best[b]);
}

/// The whole order of hits: where all scores are numbers, a hit with a greater
/// score than another stands before it, and is kept if the other is.
pub proof fn law_greater_scores_come_first<V>(
    best: Seq<ScoredModel<V>>,
    hits: Seq<ScoredModel<V>>,
    max: nat,
)
    requires
        is_best(best, hits, max),
        forall|i: int| 0 <= i < hits.len() ==> !(#[trigger] hits[i]).score.is_nan(),
    ensures
        best.len() == if hits.len() <= max {
            hits.len()
        } else {
            max
        },
        forall|i: int, j: int|
            0 <= i < j < best.len() ==> (#[trigger] best[i]).score.key() >= (
            #[trigger] best[j]).score.key(),
        forall|i: int, k: int|
            0 <= i < hits.len() && 0 <= k < best.len() && (#[trigger] hits[i]).score.key() > (
            #[trigger] best[k]).score.key() ==> exists|m: int| 0 <= m < k && best[m] == hits[i],
        forall|i: int| 0 <= i < best.len() ==> hits.contains(#[trigger] best[i]),
{
    law_best_are_best(best, hits, max);
    assert(all_numbers(hits));
    assert forall|i: int, j: int| 0 <= i < j < best.len() implies (
    #[trigger] best[i]).score.key() >= (#[trigger] best[j]).score.key() by {
        assert(best[j].score.at_most(best[i].score));
    }
    assert forall|i: int| 0 <= i < best.len() implies hits.contains(#[trigger] best[i]) by {
        assert(best.contains(best[i]));
    }
    assert forall|i: int, k: int|
        0 <= i < hits.len() && 0 <= k < best.len() && (#[trigger] hits[i]).score.key() > (
        #[trigger] best[k]).score.key() implies exists|m: int| 0 <= m < k && best[m] == hits[i] by {
        let x = best[k];
        let y = hits[i];
        assert(best.contains(x) && hits.contains(y));
        assert(hits.contains(x));
        let at = hits.index_of(x);
        assert(!hits[at].score.is_nan());
        assert(x.score.below(y.score));
        assert(best.contains(y));
        let m = best.index_of(y);
        assert(best[m] == y);
        if m >= k {
            assert(m != k);
        }
    }
}

/// Where the scores are numbers, a hit is among the best, or these are as many as
/// were asked for and none of them scores less.
pub proof fn best_or_full<V>(
    picked: Seq<ScoredModel<V>>,
    hits: Seq<ScoredModel<V>>,
    max: nat,
    hit: ScoredModel<V>,
)
    requires
        is_best(picked, hits, max),
        all_numbers(hits),
        hits.contains(hit),
    ensures
        picked.contains(hit) || (picked.len() == max && forall|k: int|
            0 <= k < picked.len() ==> !(#[trigger] picked[k]).score.below(hit.score)),
{
    law_best_are_best(picked, hits, max);
    if !picked.contains(hit) {
        if hits.len() <= max {
            let ranked = choose|ranked: Seq<ScoredModel<V>>|
                {
                    &&& #[trigger] is_ranking(ranked, hits)
                    &&& picked == if ranked.len() <= max {
                        ranked
                    } else {
                        ranked.take(max as int)
                    }
                };
            law_ranking_keeps_all(ranked, hits, hit);
        }
        assert forall|k: int| 0 <= k < picked.len() implies !(#[trigger] picked[k]).score.below(
            hit.score,
        ) by {
            assert(picked.contains(picked[k]));
        }
    }
}


proof fn at_score_counts<V>(hits: Seq<ScoredModel<V>>, x: ScoredModel<V>)
    ensures
        hits.to_multiset().count(x) == at_score(hits, x.score.key()).to_multiset().count(x),
    decreases hits.len(),
{
    broadcast use vstd::seq_lib::group_to_multiset_ensures;

    let key = x.score.key();
    if hits.len() > 0 {
        let front = hits.drop_last();
        at_score_counts(front, x);
        assert(hits =~= front.push(hits.last()));
    } else {
        assert(hits =~= Seq::<ScoredModel<V>>::empty());
        assert(at_score(hits, key) =~= Seq::<ScoredModel<V>>::empty());
    }
}

/// A ranking holds each hit as often as it was there.
pub proof fn law_ranking_loses_and_doubles_nothing<V>(
    ranked: Seq<ScoredModel<V>>,
    hits: Seq<ScoredModel<V>>,
)
    requires
        is_ranking(ranked, hits),
    ensures
        ranked.to_multiset() == hits.to_multiset(),
{
    assert forall|x: ScoredModel<V>| ranked.to_multiset().count(x) == hits.to_multiset().count(
        x,
    ) by {
        at_score_counts(ranked, x);
        at_score_counts(hits, x);
        assert(at_score(ranked, x.score.key()) == at_score(hits, x.score.key()));
    }
    assert(ranked.to_multiset() =~= hits.to_multiset());
}

} // verus!
