//! Writing memories: what an item must hold before it is stored, and how a new
//! fact retires the facts that it contradicts.
use crate::facts::{
    fact_of, issue_text, law_conflict_hints_are_kept, law_semantic_conflict_once, preference_of,
    provenance_of, read_provenance_ids, read_version, record_semantic_conflict,
    semantic_conflicts_of, superseded_by_of, text_list_members, version_of, with_provenance,
    with_semantic_conflict, with_superseded_by, with_version, write_provenance_ids,
    write_superseded_by, write_version, FactModel, FactPayload, MetaModel, PayloadIssue,
    PreferencePayload, META_FACT, META_PREFERENCE, META_PROVENANCE_IDS, META_VERSION,
};
use crate::json::JsonTree;
use crate::memory::{ItemModel, MemoryId, MemoryItem, MemoryKind};
use crate::model::{opt, views};
use crate::service::error::{ApiError, ApiIssue};
use crate::text::{blank, cat, is_blank, same_text};
use vstd::prelude::*;

verus! {

/// An item that may be stored, and the fact it holds if it is one.
#[derive(Debug)]
pub struct Admitted {
    pub item: MemoryItem,
    pub fact: Option<FactPayload>,
}

/// Metadata with version 1 and an empty provenance, where it had none.
pub open spec fn with_defaults(meta: MetaModel) -> MetaModel {
    let versioned = if meta.contains_key(META_VERSION@) {
        meta
    } else {
        with_version(meta, 1)
    };
    if versioned.contains_key(META_PROVENANCE_IDS@) {
        versioned
    } else {
        with_provenance(versioned, Seq::empty())
    }
}

/// What becomes of an item that is to be written: it must name a tenant, and a
/// fact or a preference must hold its payload. It gets an id where it has none,
/// and the default metadata.
pub open spec fn admission(item: ItemModel, fresh_id: Seq<char>) -> Result<
    (ItemModel, Option<FactModel>),
    ApiIssue,
> {
    let stored = ItemModel {
        id: if item.id.len() == 0 {
            fresh_id
        } else {
            item.id
        },
        meta: with_defaults(item.meta),
        ..item
    };
    if blank(item.scope.tenant_id) {
        Err(ApiIssue::BadRequest("scope.tenant_id is required and must be non-empty"@))
    } else {
        match item.kind {
            MemoryKind::Fact => match fact_of(item.meta) {
                Err(e) => Err(
                    ApiIssue::BadRequest(
                        "invalid Fact payload: "@ + issue_text(e, "Fact"@, META_FACT@),
                    ),
                ),
                Ok(fact) => Ok((stored, Some(fact))),
            },
            MemoryKind::Preference => match preference_of(item.meta) {
                Err(e) => Err(
                    ApiIssue::BadRequest(
                        "invalid Preference payload: "@ + issue_text(
                            e,
                            "Preference"@,
                            META_PREFERENCE@,
                        ),
                    ),
                ),
                Ok(_) => Ok((stored, None)),
            },
            _ => Ok((stored, None)),
        }
    }
}

/// Checks and completes an item that is to be written; `fresh_id` is its id
/// where it has none.
pub fn admit_with_id(item: MemoryItem, fresh_id: String) -> (r: Result<Admitted, ApiError>)
    ensures
        match (r, admission(item@, fresh_id@)) {
            (Ok(a), Ok(m)) => a.item@ == m.0 && opt(a.fact) == m.1,
            (Err(e), Err(f)) => e@ == f,
            _ => false,
        },
{
    if is_blank(item.scope.tenant_id.as_str()) {
        return Err(
            ApiError::BadRequest("scope.tenant_id is required and must be non-empty".to_owned()),
        );
    }
    let fact: Option<FactPayload> = match item.kind {
        MemoryKind::Fact => match FactPayload::try_from_meta(&item.meta) {
            Ok(f) => Some(f),
            Err(e) => return Err(
                ApiError::BadRequest(cat("invalid Fact payload: ", e.to_string().as_str())),
            ),
        },
        MemoryKind::Preference => match PreferencePayload::try_from_meta(&item.meta) {
            Ok(_) => None,
            Err(e) => return Err(
                ApiError::BadRequest(cat("invalid Preference payload: ", e.to_string().as_str())),
            ),
        },
        _ => None,
    };
    let mut item = item;
    if item.id.0.as_str().is_empty() {
        item.id = MemoryId(fresh_id);
    }
    if !item.meta.contains_key(META_VERSION) {
        write_version(&mut item.meta, 1);
    }
    if !item.meta.contains_key(META_PROVENANCE_IDS) {
        let none: Vec<MemoryId> = Vec::new();
        assert(views(none@) =~= Seq::<Seq<char>>::empty());
        write_provenance_ids(&mut item.meta, &none);
    }
    Ok(Admitted { item, fact })
}

/// Whether the new fact `item`, which claims `object`, retires the active fact
/// `old` on the same subject and predicate. Neither the item itself nor a fact
/// that claims the same is retired.
pub open spec fn retires(item: ItemModel, object: Seq<char>, old: ItemModel) -> bool {
    &&& old.id != item.id
    &&& match fact_of(old.meta) {
        Ok(fact) => fact.object != object,
        Err(_) => true,
    }
}

/// The version after that of `old`, as far as there is one.
pub open spec fn next_version(old: ItemModel) -> u32 {
    if version_of(old.meta) < u32::MAX {
        (version_of(old.meta) + 1) as u32
    } else {
        u32::MAX
    }
}

/// `item` once it has retired `old`: of a later version, and derived from it.
pub open spec fn absorb(item: ItemModel, old: ItemModel) -> ItemModel {
    let versioned = if version_of(item.meta) < next_version(old) {
        with_version(item.meta, next_version(old))
    } else {
        item.meta
    };
    let ids = provenance_of(versioned);
    let extended = if ids.contains(old.id) {
        ids
    } else {
        ids.push(old.id)
    };
    ItemModel { meta: with_provenance(versioned, extended), ..item }
}

/// `item` once it has met all of `conflicts`, in their order.
pub open spec fn resolved(
    item: ItemModel,
    object: Seq<char>,
    conflicts: Seq<ItemModel>,
) -> ItemModel
    decreases conflicts.len(),
{
    if conflicts.len() == 0 {
        item
    } else {
        let before = resolved(item, object, conflicts.drop_last());
        if retires(item, object, conflicts.last()) {
            absorb(before, conflicts.last())
        } else {
            before
        }
    }
}

/// `old` marked as retired by `item`.
pub open spec fn retired_by(old: ItemModel, item: ItemModel) -> ItemModel {
    ItemModel { meta: with_superseded_by(old.meta, item.id), ..old }
}

/// The facts among `conflicts` that `item` retires, marked, in their order.
pub open spec fn retired(
    item: ItemModel,
    object: Seq<char>,
    conflicts: Seq<ItemModel>,
) -> Seq<ItemModel>
    decreases conflicts.len(),
{
    if conflicts.len() == 0 {
        Seq::empty()
    } else {
        let before = retired(item, object, conflicts.drop_last());
        if retires(item, object, conflicts.last()) {
            before.push(retired_by(conflicts.last(), item))
        } else {
            before
        }
    }
}

/// A new fact and the facts that it retires, in the order in which they are to
/// be stored: the retired ones first.
#[derive(Debug)]
pub struct Resolution {
    pub item: MemoryItem,
    pub retired: Vec<MemoryItem>,
}

fn check_retires(item: &MemoryItem, object: &str, old: &MemoryItem) -> (r: bool)
    ensures
        r == retires(item@, object@, old@),
{
    if same_text(old.id.0.as_str(), item.id.0.as_str()) {
        return false;
    }
    match FactPayload::try_from_meta(&old.meta) {
        Ok(fact) => !same_text(fact.object.as_str(), object),
        Err(_) => true,
    }
}

fn absorb_fact(item: &mut MemoryItem, prior: &MemoryItem)
    ensures
        final(item)@ == absorb(old(item)@, prior@),
{
    let version: u32 = read_version(&prior.meta);
    let next: u32 = if version < u32::MAX {
        version + 1
    } else {
        u32::MAX
    };
    if read_version(&item.meta) < next {
        write_version(&mut item.meta, next);
    }
    let mut ids = read_provenance_ids(&item.meta);
    let ghost known = views(ids@);
    let mut found = false;
    let mut i: usize = 0;
    while i < ids.len()
        invariant
            i <= ids@.len(),
            known == views(ids@),
            found == exists|k: int| 0 <= k < i && #[trigger] known[k] == prior.id@,
        decreases ids@.len() - i,
    {
        if same_text(ids[i].0.as_str(), prior.id.0.as_str()) {
            assert(known[i as int] == prior.id@);
            found = true;
        }
        i += 1;
    }
    proof {
        if known.contains(prior.id@) {
            let k = known.index_of(prior.id@);
            assert(known[k] == prior.id@);
        }
        if found {
            let k = choose|k: int| 0 <= k < known.len() && #[trigger] known[k] == prior.id@;
            assert(known.contains(prior.id@));
        }
    }
    if !found {
        ids.push(prior.id.clone());
        assert(views(ids@) =~= known.push(prior.id@));
    }
    write_provenance_ids(&mut item.meta, &ids);
}

/// Lets the new fact `item`, which claims `object`, meet the active facts on
/// the same subject and predicate.
pub fn resolve_conflicts(item: MemoryItem, object: &str, conflicts: Vec<MemoryItem>) -> (r:
    Resolution)
    ensures
        r.item@ == resolved(item@, object@, views(conflicts@)),
        views(r.retired@) == retired(item@, object@, views(conflicts@)),
{
    let ghost start = item@;
    let ghost all = views(conflicts@);
    let mut current = item;
    let mut marked: Vec<MemoryItem> = Vec::new();
    assert(all.take(0) =~= Seq::<ItemModel>::empty());
    assert(views(marked@) =~= Seq::<ItemModel>::empty());
    for old in it: conflicts
        invariant
            it.seq() == conflicts@,
            all == views(conflicts@),
            current@ == resolved(start, object@, all.take(it.index())),
            current@.id == start.id,
            views(marked@) == retired(start, object@, all.take(it.index())),
    {
        let ghost i = it.index();
        let ghost before = views(marked@);
        proof {
            assert(all[i] == old@);
            assert(all.take(i + 1).drop_last() =~= all.take(i));
            assert(all.take(i + 1).last() == old@);
            assert(retires(current@, object@, old@) == retires(start, object@, old@));
        }
        if check_retires(&current, object, &old) {
            absorb_fact(&mut current, &old);
            let ghost model = old@;
            let mut mark = old;
            write_superseded_by(&mut mark.meta, &current.id);
            proof {
                assert(mark@ == retired_by(model, start));
            }
            marked.push(mark);
            assert(views(marked@) =~= before.push(retired_by(model, start)));
        }
    }
    assert(all.take(all.len() as int) =~= all);
    Resolution { item: current, retired: marked }
}

/// `item` with hints at the candidates that seem to contradict it: those that
/// do not claim the same `object`.
pub open spec fn advised(
    item: ItemModel,
    object: Seq<char>,
    candidates: Seq<ItemModel>,
) -> ItemModel
    decreases candidates.len(),
{
    if candidates.len() == 0 {
        item
    } else {
        let before = advised(item, object, candidates.drop_last());
        let last = candidates.last();
        if match fact_of(last.meta) {
            Ok(fact) => fact.object != object,
            Err(_) => true,
        } {
            ItemModel { meta: with_semantic_conflict(before.meta, last.id), ..before }
        } else {
            before
        }
    }
}

/// Records on `item`, which claims `object`, the candidates that seem to
/// contradict it. They are hints: nothing is retired.
pub fn advise_semantic_conflicts(
    item: MemoryItem,
    object: &str,
    candidates: &Vec<MemoryItem>,
) -> (r: MemoryItem)
    ensures
        r@ == advised(item@, object@, views(candidates@)),
{
    let ghost start = item@;
    let ghost all = views(candidates@);
    let mut current = item;
    let mut i: usize = 0;
    assert(all.take(0) =~= Seq::<ItemModel>::empty());
    while i < candidates.len()
        invariant
            i <= candidates@.len(),
            all == views(candidates@),
            current@ == advised(start, object@, all.take(i as int)),
        decreases candidates@.len() - i,
    {
        proof {
            assert(all[i as int] == candidates@[i as int]@);
            assert(all.take(i + 1).drop_last() =~= all.take(i as int));
            assert(all.take(i + 1).last() == candidates@[i as int]@);
        }
        let same = match FactPayload::try_from_meta(&candidates[i].meta) {
            Ok(fact) => same_text(fact.object.as_str(), object),
            Err(_) => false,
        };
        if !same {
            record_semantic_conflict(&mut current.meta, &candidates[i].id);
        }
        i += 1;
    }
    assert(all.take(all.len() as int) =~= all);
    current
}

proof fn meta_keys_differ()
    ensures
        META_VERSION@ != META_PROVENANCE_IDS@,
        META_FACT@ != META_VERSION@,
        META_FACT@ != META_PROVENANCE_IDS@,
        META_PREFERENCE@ != META_VERSION@,
        META_PREFERENCE@ != META_PROVENANCE_IDS@,
{
    reveal_strlit("version");
    reveal_strlit("provenance_ids");
    reveal_strlit("fact");
    reveal_strlit("preference");
    assert("version"@.len() == 7 && "provenance_ids"@.len() == 14 && "fact"@.len() == 4
        && "preference"@.len() == 10);
}

proof fn absorb_effect(item: ItemModel, old: ItemModel)
    ensures
        version_of(absorb(item, old).meta) == if version_of(item.meta) < next_version(old) {
            next_version(old)
        } else {
            version_of(item.meta)
        },
        provenance_of(absorb(item, old).meta) == if provenance_of(item.meta).contains(old.id) {
            provenance_of(item.meta)
        } else {
            provenance_of(item.meta).push(old.id)
        },
{
    meta_keys_differ();
    let versioned = if version_of(item.meta) < next_version(old) {
        with_version(item.meta, next_version(old))
    } else {
        item.meta
    };
    let ids = provenance_of(versioned);
    assert(ids == provenance_of(item.meta));
    let extended = if ids.contains(old.id) {
        ids
    } else {
        ids.push(old.id)
    };
    text_list_members(extended);
}

/// A new fact keeps all but its metadata, is of no earlier version than it was,
/// and forgets nothing that it was derived from. It is of a later version than
/// every fact that it retires, and derived from it. A retired fact of the last
/// version there is has no later one: the new fact is then of that version too.
pub proof fn law_new_fact_succeeds(
    item: ItemModel,
    object: Seq<char>,
    conflicts: Seq<ItemModel>,
)
    ensures
        ({
            let after = resolved(item, object, conflicts);
            &&& after == ItemModel { meta: after.meta, ..item }
            &&& version_of(after.meta) >= version_of(item.meta)
            &&& forall|id: Seq<char>|
                provenance_of(item.meta).contains(id) ==> #[trigger] provenance_of(
                    after.meta,
                ).contains(id)
            &&& forall|k: int|
                0 <= k < conflicts.len() && retires(item, object, #[trigger] conflicts[k]) ==> {
                    &&& version_of(after.meta) >= next_version(conflicts[k])
                    &&& version_of(conflicts[k].meta) < u32::MAX ==> version_of(after.meta)
                        > version_of(conflicts[k].meta)
                    &&& provenance_of(after.meta).contains(conflicts[k].id)
                }
        }),
    decreases conflicts.len(),
{
    if conflicts.len() > 0 {
        let front = conflicts.drop_last();
        let last = conflicts.last();
        law_new_fact_succeeds(item, object, front);
        let before = resolved(item, object, front);
        let after = resolved(item, object, conflicts);
        if retires(item, object, last) {
            absorb_effect(before, last);
            let ids = provenance_of(before.meta);
            assert forall|id: Seq<char>| ids.contains(id) || id == last.id implies provenance_of(
                after.meta,
            ).contains(id) by {
                if !ids.contains(last.id) {
                    if ids.contains(id) {
                        let k = ids.index_of(id);
                        assert(ids.push(last.id)[k] == id);
                    } else {
                        assert(ids.push(last.id)[ids.len() as int] == id);
                    }
                }
            }
        }
        assert forall|id: Seq<char>|
            provenance_of(item.meta).contains(id) implies #[trigger] provenance_of(
            after.meta,
        ).contains(id) by {
            assert(provenance_of(before.meta).contains(id));
        }
        assert forall|k: int|
            0 <= k < conflicts.len() && retires(item, object, #[trigger] conflicts[k]) implies {
            &&& version_of(after.meta) >= next_version(conflicts[k])
            &&& version_of(conflicts[k].meta) < u32::MAX ==> version_of(after.meta) > version_of(
                conflicts[k].meta,
            )
            &&& provenance_of(after.meta).contains(conflicts[k].id)
        } by {
            if k < front.len() {
                assert(front[k] == conflicts[k]);
            } else {
                assert(conflicts[k] == last);
            }
        }
    }
}

/// Every fact that is retired names its successor, and is otherwise the fact
/// that it was. Nothing is retired but facts that another item holds and that
/// do not claim the same.
pub proof fn law_retired_facts_are_marked(
    item: ItemModel,
    object: Seq<char>,
    conflicts: Seq<ItemModel>,
)
    ensures
        forall|i: int|
            0 <= i < retired(item, object, conflicts).len() ==> superseded_by_of(
                (#[trigger] retired(item, object, conflicts)[i]).meta,
            ) == Some(item.id),
        forall|i: int|
            0 <= i < retired(item, object, conflicts).len() ==> exists|k: int|
                {
                    &&& 0 <= k < conflicts.len()
                    &&& retires(item, object, conflicts[k])
                    &&& #[trigger] retired(item, object, conflicts)[i] == retired_by(
                        #[trigger] conflicts[k],
                        item,
                    )
                },
    decreases conflicts.len(),
{
    if conflicts.len() > 0 {
        let front = conflicts.drop_last();
        law_retired_facts_are_marked(item, object, front);
        let all = retired(item, object, conflicts);
        let before = retired(item, object, front);
        assert forall|i: int| 0 <= i < all.len() implies superseded_by_of(
            (#[trigger] all[i]).meta,
        ) == Some(item.id) by {
            if i < before.len() {
                assert(all[i] == before[i]);
            }
        }
        assert forall|i: int| 0 <= i < all.len() implies exists|k: int|
            {
                &&& 0 <= k < conflicts.len()
                &&& retires(item, object, conflicts[k])
                &&& #[trigger] all[i] == retired_by(#[trigger] conflicts[k], item)
            } by {
            if i < before.len() {
                assert(all[i] == before[i]);
                let k = choose|k: int|
                    {
                        &&& 0 <= k < front.len()
                        &&& retires(item, object, front[k])
                        &&& before[i] == retired_by(#[trigger] front[k], item)
                    };
                assert(conflicts[k] == front[k]);
            } else {
                assert(conflicts[conflicts.len() - 1] == conflicts.last());
            }
        }
    }
}

/// An item that was admitted once is admitted again as it is.
pub proof fn law_admission_is_stable(item: ItemModel, fresh_id: Seq<char>, other_id: Seq<char>)
    requires
        fresh_id.len() > 0,
    ensures
        match admission(item, fresh_id) {
            Ok(m) => admission(m.0, other_id) == Ok::<(ItemModel, Option<FactModel>), ApiIssue>(m),
            Err(_) => true,
        },
{
    meta_keys_differ();
    let meta = with_defaults(item.meta);
    assert(with_defaults(meta) == meta);
    assert(fact_of(meta) == fact_of(item.meta));
    assert(preference_of(meta) == preference_of(item.meta));
}

/// A new fact retires every active fact that it contradicts: one of another id that
/// claims another object, or whose claim cannot be read, is among the retired, with
/// the new fact's id as its successor and otherwise as it was. The new fact is then
/// derived from it, and of a later version wherever there is one.
pub proof fn law_contradicted_facts_are_retired(
    item: ItemModel,
    object: Seq<char>,
    conflicts: Seq<ItemModel>,
    k: int,
)
    requires
        0 <= k < conflicts.len(),
        conflicts[k].id != item.id,
        match fact_of(conflicts[k].meta) {
            Ok(fact) => fact.object != object,
            Err(_) => true,
        },
    ensures
        exists|m: int|
            {
                &&& 0 <= m < retired(item, object, conflicts).len()
                &&& (#[trigger] retired(item, object, conflicts)[m]) == (ItemModel {
                    meta: conflicts[k].meta.insert("superseded_by"@, JsonTree::Text(item.id)),
                    ..conflicts[k]
                })
                &&& superseded_by_of(retired(item, object, conflicts)[m].meta) == Some(item.id)
            },
        provenance_of(resolved(item, object, conflicts).meta).contains(conflicts[k].id),
        version_of(conflicts[k].meta) < u32::MAX ==> version_of(
            resolved(item, object, conflicts).meta,
        ) > version_of(conflicts[k].meta),
    decreases conflicts.len(),
{
    law_new_fact_succeeds(item, object, conflicts);
    assert(retires(item, object, conflicts[k]));
    let front = conflicts.drop_last();
    let before = retired(item, object, front);
    let after = retired(item, object, conflicts);
    if k == conflicts.len() - 1 {
        assert(after[before.len() as int] == retired_by(conflicts[k], item));
        assert(superseded_by_of(after[before.len() as int].meta) == Some(item.id));
    } else {
        assert(front[k] == conflicts[k]);
        law_contradicted_facts_are_retired(item, object, front, k);
        let m = choose|m: int|
            {
                &&& 0 <= m < before.len()
                &&& (#[trigger] before[m]) == (ItemModel {
                    meta: conflicts[k].meta.insert("superseded_by"@, JsonTree::Text(item.id)),
                    ..conflicts[k]
                })
                &&& superseded_by_of(before[m].meta) == Some(item.id)
            };
        assert(after[m] == before[m]);
    }
}

/// Nothing else is retired: what is retired was among the active facts, at a later
/// place than what was retired before it, has another id than the new fact, and
/// does not claim the same object.
pub proof fn law_same_claims_are_not_retired(
    item: ItemModel,
    object: Seq<char>,
    conflicts: Seq<ItemModel>,
) -> (places: Seq<int>)
    ensures
        retired(item, object, conflicts).len() == places.len(),
        forall|a: int, b: int|
            0 <= a < b < places.len() ==> #[trigger] places[a] < #[trigger] places[b],
        forall|m: int|
            0 <= m < places.len() ==> {
                &&& 0 <= #[trigger] places[m] < conflicts.len()
                &&& retired(item, object, conflicts)[m].id == conflicts[places[m]].id
                &&& retired(item, object, conflicts)[m].content == conflicts[places[m]].content
                &&& conflicts[places[m]].id != item.id
                &&& fact_of(conflicts[places[m]].meta) matches Ok(fact) ==> fact.object != object
            },
    decreases conflicts.len(),
{
    if conflicts.len() == 0 {
        Seq::empty()
    } else {
        let before = law_same_claims_are_not_retired(item, object, conflicts.drop_last());
        if retires(item, object, conflicts.last()) {
            before.push(conflicts.len() - 1)
        } else {
            before
        }
    }
}

/// A fact that meets only facts which claim the same, or itself, stays as it is.
pub proof fn law_agreeing_facts_change_nothing(
    item: ItemModel,
    object: Seq<char>,
    conflicts: Seq<ItemModel>,
)
    requires
        forall|k: int|
            0 <= k < conflicts.len() ==> (#[trigger] conflicts[k]).id == item.id || (fact_of(
                conflicts[k].meta,
            ) matches Ok(fact) && fact.object == object),
    ensures
        resolved(item, object, conflicts) == item,
        retired(item, object, conflicts).len() == 0,
    decreases conflicts.len(),
{
    if conflicts.len() > 0 {
        let front = conflicts.drop_last();
        assert forall|k: int| 0 <= k < front.len() implies (#[trigger] front[k]).id == item.id || (
        fact_of(front[k].meta) matches Ok(fact) && fact.object == object) by {
            assert(front[k] == conflicts[k]);
        }
        law_agreeing_facts_change_nothing(item, object, front);
        assert(conflicts[conflicts.len() - 1] == conflicts.last());
    }
}

/// The version of a new fact is its own, or one more than that of a fact it
/// contradicts; and it is derived from nothing but what it was derived from and
/// the facts that it contradicts.
pub proof fn law_new_fact_takes_no_more(
    item: ItemModel,
    object: Seq<char>,
    conflicts: Seq<ItemModel>,
    id: Seq<char>,
)
    ensures
        version_of(resolved(item, object, conflicts).meta) == version_of(item.meta) || exists|
            k: int,
        |
            {
                &&& 0 <= k < conflicts.len()
                &&& (#[trigger] conflicts[k]).id != item.id
                &&& fact_of(conflicts[k].meta) matches Ok(fact) ==> fact.object != object
                &&& version_of(resolved(item, object, conflicts).meta) == if version_of(
                    conflicts[k].meta,
                ) == u32::MAX {
                    u32::MAX as int
                } else {
                    version_of(conflicts[k].meta) + 1
                }
            },
        provenance_of(resolved(item, object, conflicts).meta).contains(id) ==> provenance_of(
            item.meta,
        ).contains(id) || exists|k: int|
            {
                &&& 0 <= k < conflicts.len()
                &&& (#[trigger] conflicts[k]).id == id
                &&& id != item.id
                &&& fact_of(conflicts[k].meta) matches Ok(fact) ==> fact.object != object
            },
    decreases conflicts.len(),
{
    if conflicts.len() > 0 {
        let front = conflicts.drop_last();
        let last = conflicts.last();
        law_new_fact_takes_no_more(item, object, front, id);
        let before = resolved(item, object, front);
        let after = resolved(item, object, conflicts);
        assert(conflicts[conflicts.len() - 1] == last);
        if version_of(before.meta) != version_of(item.meta) {
            let k = choose|k: int|
                {
                    &&& 0 <= k < front.len()
                    &&& (#[trigger] front[k]).id != item.id
                    &&& fact_of(front[k].meta) matches Ok(fact) ==> fact.object != object
                    &&& version_of(before.meta) == if version_of(front[k].meta) == u32::MAX {
                        u32::MAX as int
                    } else {
                        version_of(front[k].meta) + 1
                    }
                };
            assert(conflicts[k] == front[k]);
        }
        if provenance_of(before.meta).contains(id) && !provenance_of(item.meta).contains(id) {
            let k = choose|k: int|
                {
                    &&& 0 <= k < front.len()
                    &&& (#[trigger] front[k]).id == id
                    &&& id != item.id
                    &&& fact_of(front[k].meta) matches Ok(fact) ==> fact.object != object
                };
            assert(conflicts[k] == front[k]);
        }
        if retires(item, object, last) {
            absorb_effect(before, last);
        }
    }
}

/// A new fact hints at every candidate that does not claim the same object, and
/// loses no hint that it had; hints retire nothing, and nothing but the hints
/// changes.
pub proof fn law_hints_name_the_contradictions(
    item: ItemModel,
    object: Seq<char>,
    candidates: Seq<ItemModel>,
)
    ensures
        advised(item, object, candidates) == (ItemModel {
            meta: advised(item, object, candidates).meta,
            ..item
        }),
        forall|key: Seq<char>|
            key != "semantic_conflicts"@ ==> #[trigger] advised(
                item,
                object,
                candidates,
            ).meta.contains_key(key) == item.meta.contains_key(key) && (item.meta.contains_key(key)
                ==> advised(item, object, candidates).meta[key] == item.meta[key]),
        forall|k: int|
            0 <= k < candidates.len() && (fact_of((#[trigger] candidates[k]).meta) matches Ok(fact)
                ==> fact.object != object) ==> semantic_conflicts_of(
                advised(item, object, candidates).meta,
            ).contains(JsonTree::Text(candidates[k].id)),
        forall|hint: JsonTree|
            semantic_conflicts_of(item.meta).contains(hint) ==> #[trigger] semantic_conflicts_of(
                advised(item, object, candidates).meta,
            ).contains(hint),
    decreases candidates.len(),
{
    if candidates.len() > 0 {
        let front = candidates.drop_last();
        let last = candidates.last();
        law_hints_name_the_contradictions(item, object, front);
        let before = advised(item, object, front);
        let after = advised(item, object, candidates);
        assert forall|hint: JsonTree|
            semantic_conflicts_of(before.meta).contains(hint) implies #[trigger] semantic_conflicts_of(
            after.meta,
        ).contains(hint) by {
            let i = semantic_conflicts_of(before.meta).index_of(hint);
            law_conflict_hints_are_kept(before.meta, last.id);
            assert(semantic_conflicts_of(after.meta)[i] == hint);
        }
        law_semantic_conflict_once(before.meta, last.id);
        assert forall|k: int|
            0 <= k < candidates.len() && (fact_of(
                (#[trigger] candidates[k]).meta,
            ) matches Ok(fact) ==> fact.object != object) implies semantic_conflicts_of(
            after.meta,
        ).contains(JsonTree::Text(candidates[k].id)) by {
            if k < front.len() {
                assert(front[k] == candidates[k]);
                assert(semantic_conflicts_of(before.meta).contains(
                    JsonTree::Text(candidates[k].id),
                ));
            } else {
                assert(candidates[k] == last);
            }
        }
    }
}

/// A new fact gets no hint but at candidates that do not claim the same object.
pub proof fn law_agreeing_candidates_are_no_hints(
    item: ItemModel,
    object: Seq<char>,
    candidates: Seq<ItemModel>,
    hint: JsonTree,
)
    requires
        semantic_conflicts_of(advised(item, object, candidates).meta).contains(hint),
    ensures
        semantic_conflicts_of(item.meta).contains(hint) || exists|k: int|
            {
                &&& 0 <= k < candidates.len()
                &&& hint == JsonTree::Text((#[trigger] candidates[k]).id)
                &&& fact_of(candidates[k].meta) matches Ok(fact) ==> fact.object != object
            },
    decreases candidates.len(),
{
    if candidates.len() > 0 {
        let front = candidates.drop_last();
        let last = candidates.last();
        let before = advised(item, object, front);
        assert(candidates[candidates.len() - 1] == last);
        if semantic_conflicts_of(before.meta).contains(hint) {
            law_agreeing_candidates_are_no_hints(item, object, front, hint);
            if !semantic_conflicts_of(item.meta).contains(hint) {
                let k = choose|k: int|
                    {
                        &&& 0 <= k < front.len()
                        &&& hint == JsonTree::Text((#[trigger] front[k]).id)
                        &&& fact_of(front[k].meta) matches Ok(fact) ==> fact.object != object
                    };
                assert(candidates[k] == front[k]);
            }
        }
    }
}

/// An item is admitted exactly where it names a tenant and, if it is a fact or a
/// preference, holds its payload. It is stored as it came but for an id where it
/// had none, and for the version 1 and an empty provenance where it had none.
pub proof fn law_admission_completes_the_item(item: ItemModel, fresh_id: Seq<char>)
    ensures
        admission(item, fresh_id) is Ok <==> !blank(item.scope.tenant_id) && (item.kind
            == MemoryKind::Fact ==> fact_of(item.meta) is Ok) && (item.kind
            == MemoryKind::Preference ==> preference_of(item.meta) is Ok),
        admission(item, fresh_id) matches Ok((stored, claim)) ==> {
            &&& stored == ItemModel { id: stored.id, meta: stored.meta, ..item }
            &&& item.id.len() > 0 ==> stored.id == item.id
            &&& item.id.len() == 0 ==> stored.id == fresh_id
            &&& forall|key: Seq<char>|
                item.meta.contains_key(key) ==> #[trigger] stored.meta.contains_key(key)
                    && stored.meta[key] == item.meta[key]
            &&& forall|key: Seq<char>| #[trigger]
                stored.meta.contains_key(key) ==> item.meta.contains_key(key) || key == "version"@
                    || key == "provenance_ids"@
            &&& !item.meta.contains_key("version"@) ==> version_of(stored.meta) == 1
                && stored.meta.contains_key("version"@)
            &&& !item.meta.contains_key("provenance_ids"@) ==> provenance_of(stored.meta).len()
                == 0 && stored.meta.contains_key("provenance_ids"@)
            &&& item.kind == MemoryKind::Fact ==> fact_of(item.meta) == (match claim {
                Some(fact) => Ok::<FactModel, PayloadIssue>(fact),
                None => Err(PayloadIssue::MissingPayload),
            })
            &&& item.kind != MemoryKind::Fact ==> claim is None
        },
{
    meta_keys_differ();
    text_list_members(Seq::empty());
}

/// A new fact keeps what it was derived from, in that order, and adds what it retires
/// behind it, each once.
pub proof fn law_provenance_grows_at_the_end(
    item: ItemModel,
    object: Seq<char>,
    conflicts: Seq<ItemModel>,
)
    ensures
        provenance_of(item.meta).len() <= provenance_of(
            resolved(item, object, conflicts).meta,
        ).len(),
        forall|i: int|
            0 <= i < provenance_of(item.meta).len() ==> #[trigger] provenance_of(
                resolved(item, object, conflicts).meta,
            )[i] == provenance_of(item.meta)[i],
        provenance_of(item.meta).no_duplicates() ==> provenance_of(
            resolved(item, object, conflicts).meta,
        ).no_duplicates(),
    decreases conflicts.len(),
{
    if conflicts.len() > 0 {
        let front = conflicts.drop_last();
        let last = conflicts.last();
        law_provenance_grows_at_the_end(item, object, front);
        let before = resolved(item, object, front);
        let old = provenance_of(item.meta);
        let so_far = provenance_of(before.meta);
        let all = provenance_of(resolved(item, object, conflicts).meta);
        if retires(item, object, last) {
            absorb_effect(before, last);
            assert forall|i: int| 0 <= i < old.len() implies #[trigger] all[i] == old[i] by {
                assert(so_far[i] == old[i]);
            }
            if old.no_duplicates() && !so_far.contains(last.id) {
                assert forall|i: int, j: int|
                    0 <= i < all.len() && 0 <= j < all.len() && i != j implies all[i] != all[j] by {
                    if i < so_far.len() && j < so_far.len() {
                        assert(so_far[i] != so_far[j]);
                    }
                }
            }
        }
    }
}

} // verus!
