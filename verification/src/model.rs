//! Mathematical models of lists and optional values, and copies of them.
use vstd::prelude::*;

verus! {

/// The models of a list's members, in order.
pub open spec fn views<T: View>(v: Seq<T>) -> Seq<T::V> {
    Seq::new(v.len(), |i: int| v[i]@)
}

/// The model of an optional value.
pub open spec fn opt<T: View>(o: Option<T>) -> Option<T::V> {
    match o {
        Some(x) => Some(x@),
        None => None,
    }
}

/// A copy of an optional text.
pub fn copy_opt(o: &Option<String>) -> (r: Option<String>)
    ensures
        opt(r) == opt(*o),
{
    match o {
        Some(s) => Some(s.clone()),
        None => None,
    }
}

/// A copy of a list of texts.
pub fn copy_texts(v: &Vec<String>) -> (r: Vec<String>)
    ensures
        views(r@) == views(v@),
{
    let mut out: Vec<String> = Vec::new();
    let mut i: usize = 0;
    while i < v.len()
        invariant
            i <= v@.len(),
            views(out@) == views(v@).take(i as int),
        decreases v@.len() - i,
    {
        out.push(v[i].clone());
        proof {
            assert(views(out@) == views(v@).take(i as int).push(v@[i as int]@));
            assert(views(v@).take(i + 1) == views(v@).take(i as int).push(v@[i as int]@));
        }
        i += 1;
    }
    assert(views(v@).take(v@.len() as int) == views(v@));
    out
}

/// Whether `v` holds a text equal to `x`.
pub fn holds_text(v: &Vec<String>, x: &str) -> (r: bool)
    ensures
        r == views(v@).contains(x@),
{
    let mut i: usize = 0;
    while i < v.len()
        invariant
            i <= v@.len(),
            forall|k: int| 0 <= k < i ==> (#[trigger] views(v@)[k]) != x@,
        decreases v@.len() - i,
    {
        if crate::text::same_text(v[i].as_str(), x) {
            assert(views(v@)[i as int] == x@);
            return true;
        }
        i += 1;
    }
    false
}

/// What a filter keeps: the members that pass, each at its place, in their order.
pub proof fn filter_places<T>(s: Seq<T>, pass: spec_fn(T) -> bool) -> (places: Seq<int>)
    ensures
        s.filter(pass).len() == places.len(),
        forall|a: int, b: int|
            0 <= a < b < places.len() ==> #[trigger] places[a] < #[trigger] places[b],
        forall|a: int|
            0 <= a < places.len() ==> 0 <= #[trigger] places[a] < s.len() && pass(s[places[a]])
                && s.filter(pass)[a] == s[places[a]],
        forall|k: int|
            0 <= k < s.len() && pass(#[trigger] s[k]) ==> places.contains(k),
    decreases s.len(),
{
    reveal(Seq::filter);
    if s.len() == 0 {
        Seq::empty()
    } else {
        let front = s.drop_last();
        let before = filter_places(front, pass);
        let places = if pass(s.last()) {
            before.push(s.len() - 1)
        } else {
            before
        };
        assert forall|k: int| 0 <= k < s.len() && pass(#[trigger] s[k]) implies places.contains(
            k,
        ) by {
            if k < front.len() {
                assert(pass(front[k]));
                let a = before.index_of(k);
                assert(places[a] == k);
            } else {
                assert(places[before.len() as int] == k);
            }
        }
        places
    }
}

} // verus!
