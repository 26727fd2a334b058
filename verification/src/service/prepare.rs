//! Preparing a memory for storage, step by step: what each step needs of the
//! store or of the embedder, and what comes of their answers.
use crate::embedding::{
    law_made_embeddings_are_taken, law_texts_are_embedded, maybe_embed_item, text_to_embed,
    wanted_embedding, with_embedding,
};
use crate::facts::{
    fact_of, semantic_conflicts_of, superseded_by_of, FactModel, FactPayload,
};
use crate::float::{Float, EIGHTY_FIVE_HUNDREDTHS};
use crate::memory::{
    copy_embedding, is_random_id, random_id, ItemModel, MemoryId, MemoryItem, ScopeKey, ScopeModel,
};
use crate::json::JsonTree;
use crate::model::{filter_places, opt, views};
use crate::service::error::{ApiError, ApiIssue};
use crate::service::write::{
    admission, admit_with_id, advise_semantic_conflicts, advised,
    law_contradicted_facts_are_retired, law_hints_name_the_contradictions, law_new_fact_succeeds,
    resolve_conflicts, resolved, retired,
};
use crate::store::statements::ids_of_items;
use crate::text::{cat, same_text};
use vstd::prelude::*;

verus! {

/// The most facts that are compared with a new one by meaning.
pub const SEMANTIC_CONFLICT_MAX_HITS: usize = 5;

/// What becomes of the facts that an item retires.
#[derive(Debug)]
pub struct Held {
    /// Whether they are kept, to be stored together with the item, or else stored
    /// at once.
    pub together: bool,
    /// The facts that count as retired though the store does not know it yet.
    pub gone: Vec<MemoryId>,
    /// The facts that are kept, marked as retired.
    pub retired: Vec<MemoryItem>,
}

/// The model of what becomes of retired facts.
pub struct HeldModel {
    pub together: bool,
    pub gone: Seq<Seq<char>>,
    pub retired: Seq<ItemModel>,
}

impl View for Held {
    type V = HeldModel;

    open spec fn view(&self) -> HeldModel {
        HeldModel {
            together: self.together,
            gone: views(self.gone@),
            retired: views(self.retired@),
        }
    }
}

/// Retired facts are stored at once.
pub open spec fn at_once() -> HeldModel {
    HeldModel { together: false, gone: Seq::empty(), retired: Seq::empty() }
}

/// Retired facts are kept; those of `gone` are retired already.
pub open spec fn together(gone: Seq<Seq<char>>) -> HeldModel {
    HeldModel { together: true, gone, retired: Seq::empty() }
}

impl Held {
    /// Has retired facts stored at once.
    pub fn at_once() -> (r: Held)
        ensures
            r@ == at_once(),
    {
        let held = Held { together: false, gone: Vec::new(), retired: Vec::new() };
        assert(held@.gone =~= Seq::<Seq<char>>::empty());
        assert(held@.retired =~= Seq::<ItemModel>::empty());
        held
    }

    /// Has retired facts kept; those of `gone` are retired already.
    pub fn together(gone: Vec<MemoryId>) -> (r: Held)
        ensures
            r@ == together(views(gone@)),
    {
        let held = Held { together: true, gone, retired: Vec::new() };
        assert(held@.retired =~= Seq::<ItemModel>::empty());
        held
    }
}

/// The facts that are still active: those that are not gone.
pub open spec fn still_active(facts: Seq<ItemModel>, gone: Seq<Seq<char>>) -> Seq<ItemModel> {
    facts.filter(|fact: ItemModel| !gone.contains(fact.id))
}

fn is_gone(gone: &Vec<MemoryId>, id: &MemoryId) -> (r: bool)
    ensures
        r == views(gone@).contains(id@),
{
    for i in 0..gone.len()
        invariant
            forall|k: int| 0 <= k < i ==> (#[trigger] views(gone@)[k]) != id@,
    {
        if same_text(gone[i].0.as_str(), id.0.as_str()) {
            assert(views(gone@)[i as int] == id@);
            return true;
        }
    }
    false
}

/// Keeps the facts that are still active.
pub fn keep_active(facts: Vec<MemoryItem>, gone: &Vec<MemoryId>) -> (r: Vec<MemoryItem>)
    ensures
        views(r@) == still_active(views(facts@), views(gone@)),
{
    let ghost all = views(facts@);
    let ghost active = |fact: ItemModel| !views(gone@).contains(fact.id);
    let mut out: Vec<MemoryItem> = Vec::new();
    proof {
        reveal(Seq::filter);
        assert(all.take(0) =~= Seq::<ItemModel>::empty());
        assert(views(out@) =~= Seq::<ItemModel>::empty());
    }
    for fact in it: facts
        invariant
            it.seq() == facts@,
            all == views(facts@),
            active == (|fact: ItemModel| !views(gone@).contains(fact.id)),
            views(out@) == all.take(it.index()).filter(active),
    {
        let ghost i = it.index();
        let ghost before = views(out@);
        let ghost model = fact@;
        proof {
            reveal(Seq::filter);
            assert(all[i] == model);
            assert(all.take(i + 1).drop_last() =~= all.take(i));
            assert(all.take(i + 1).last() == model);
        }
        if !is_gone(gone, &fact.id) {
            out.push(fact);
            assert(views(out@) =~= before.push(model));
        }
    }
    assert(all.take(all.len() as int) =~= all);
    out
}

/// The ids of items, in their order.
pub open spec fn ids_in(items: Seq<ItemModel>) -> Seq<Seq<char>> {
    Seq::new(items.len(), |i: int| items[i].id)
}

/// What is held once `old` is retired too. Where retired facts are stored at once
/// nothing is held.
pub open spec fn holding(held: HeldModel, old: Seq<ItemModel>) -> HeldModel {
    if held.together {
        HeldModel {
            together: true,
            gone: held.gone + ids_in(old),
            retired: held.retired + old,
        }
    } else {
        held
    }
}

fn hold(held: Held, old: Vec<MemoryItem>) -> (r: Held)
    requires
        held.together,
    ensures
        r@ == holding(held@, views(old@)),
{
    let mut held = held;
    let mut old = old;
    let mut ids = ids_of_items(&old);
    let ghost gone = held@.gone;
    let ghost retired = held@.retired;
    let ghost new_ids = views(ids@);
    let ghost new = views(old@);
    held.gone.append(&mut ids);
    held.retired.append(&mut old);
    assert(new_ids =~= ids_in(new));
    assert(views(held.gone@) =~= gone + new_ids);
    assert(views(held.retired@) =~= retired + new);
    held
}

/// How far the preparation of an item has come.
#[derive(Debug)]
pub enum Preparation {
    /// A new fact waits for the active facts on its subject and predicate.
    Facts { item: MemoryItem, fact: FactPayload, held: Held },
    /// A new fact waits until the facts that it retires are stored.
    Retirement { item: MemoryItem, fact: FactPayload, retired: Vec<MemoryItem>, held: Held },
    /// An item waits for its embedding.
    Embedding { item: MemoryItem, claim: Option<FactPayload>, held: Held },
    /// A new fact waits for the facts that are close to it in meaning.
    Neighbours { item: MemoryItem, fact: FactPayload, held: Held },
    /// The item is as it is to be stored.
    Ready { item: MemoryItem, held: Held },
}

/// The model of a preparation.
pub enum PreparationModel {
    Facts { item: ItemModel, fact: FactModel, held: HeldModel },
    Retirement { item: ItemModel, fact: FactModel, retired: Seq<ItemModel>, held: HeldModel },
    Embedding { item: ItemModel, claim: Option<FactModel>, held: HeldModel },
    Neighbours { item: ItemModel, fact: FactModel, held: HeldModel },
    Ready { item: ItemModel, held: HeldModel },
}

impl View for Preparation {
    type V = PreparationModel;

    open spec fn view(&self) -> PreparationModel {
        match self {
            Preparation::Facts { item, fact, held } => PreparationModel::Facts {
                item: item@,
                fact: fact@,
                held: held@,
            },
            Preparation::Retirement { item, fact, retired, held } => {
                PreparationModel::Retirement {
                    item: item@,
                    fact: fact@,
                    retired: views(retired@),
                    held: held@,
                }
            },
            Preparation::Embedding { item, claim, held } => PreparationModel::Embedding {
                item: item@,
                claim: opt(*claim),
                held: held@,
            },
            Preparation::Neighbours { item, fact, held } => PreparationModel::Neighbours {
                item: item@,
                fact: fact@,
                held: held@,
            },
            Preparation::Ready { item, held } => PreparationModel::Ready {
                item: item@,
                held: held@,
            },
        }
    }
}

/// An item as it is to be stored, with the facts that are to be stored with it.
#[derive(Debug)]
pub struct Prepared {
    pub item: MemoryItem,
    pub retired: Vec<MemoryItem>,
}

/// The model of a prepared item.
pub struct PreparedModel {
    pub item: ItemModel,
    pub retired: Seq<ItemModel>,
}

impl View for Prepared {
    type V = PreparedModel;

    open spec fn view(&self) -> PreparedModel {
        PreparedModel { item: self.item@, retired: views(self.retired@) }
    }
}

/// What a preparation needs to go on.
#[derive(Debug)]
pub enum Need {
    /// The active facts of a scope on a subject and a predicate.
    Facts { scope: ScopeKey, subject: String, predicate: String },
    /// That these items are stored, in their order.
    Store(Vec<MemoryItem>),
    /// An embedding of a text.
    Embedding(String),
    /// The active facts of a scope that are at least so similar to an embedding,
    /// but for one and for those that are gone.
    Neighbours {
        scope: ScopeKey,
        embedding: Vec<Float>,
        exclude: MemoryId,
        gone: Vec<MemoryId>,
        threshold: Float,
        max: usize,
    },
    /// Nothing more.
    Nothing,
}

/// The model of a need.
pub enum NeedModel {
    Facts { scope: ScopeModel, subject: Seq<char>, predicate: Seq<char> },
    Store(Seq<ItemModel>),
    Embedding(Seq<char>),
    Neighbours {
        scope: ScopeModel,
        embedding: Seq<Float>,
        exclude: Seq<char>,
        gone: Seq<Seq<char>>,
        threshold: Float,
        max: usize,
    },
    Nothing,
}

impl View for Need {
    type V = NeedModel;

    open spec fn view(&self) -> NeedModel {
        match self {
            Need::Facts { scope, subject, predicate } => NeedModel::Facts {
                scope: scope@,
                subject: subject@,
                predicate: predicate@,
            },
            Need::Store(items) => NeedModel::Store(views(items@)),
            Need::Embedding(text) => NeedModel::Embedding(text@),
            Need::Neighbours { scope, embedding, exclude, gone, threshold, max } => {
                NeedModel::Neighbours {
                    scope: scope@,
                    embedding: embedding@,
                    exclude: exclude@,
                    gone: views(gone@),
                    threshold: *threshold,
                    max: *max,
                }
            },
            Need::Nothing => NeedModel::Nothing,
        }
    }
}

/// The answer to a need. A failure comes with its reason.
#[derive(Debug)]
pub enum Answer {
    Facts(Result<Vec<MemoryItem>, String>),
    Stored(Result<(), String>),
    /// An embedding and the name of its model; none where there is no embedder or
    /// it failed.
    Embedding(Option<(Vec<Float>, String)>),
    Neighbours(Result<Vec<MemoryItem>, String>),
}

/// The model of an answer.
pub enum AnswerModel {
    Facts(Result<Seq<ItemModel>, Seq<char>>),
    Stored(Result<(), Seq<char>>),
    Embedding(Option<(Seq<Float>, Seq<char>)>),
    Neighbours(Result<Seq<ItemModel>, Seq<char>>),
}

impl View for Answer {
    type V = AnswerModel;

    open spec fn view(&self) -> AnswerModel {
        match self {
            Answer::Facts(Ok(items)) => AnswerModel::Facts(Ok(views(items@))),
            Answer::Facts(Err(e)) => AnswerModel::Facts(Err(e@)),
            Answer::Stored(Ok(_)) => AnswerModel::Stored(Ok(())),
            Answer::Stored(Err(e)) => AnswerModel::Stored(Err(e@)),
            Answer::Embedding(Some(e)) => AnswerModel::Embedding(Some((e.0@, e.1@))),
            Answer::Embedding(None) => AnswerModel::Embedding(None),
            Answer::Neighbours(Ok(items)) => AnswerModel::Neighbours(Ok(views(items@))),
            Answer::Neighbours(Err(e)) => AnswerModel::Neighbours(Err(e@)),
        }
    }
}

/// A fact with an embedding is compared by meaning; any other item is ready.
pub open spec fn comparison(
    item: ItemModel,
    claim: Option<FactModel>,
    held: HeldModel,
) -> PreparationModel {
    match (claim, item.embedding) {
        (Some(fact), Some(_)) => PreparationModel::Neighbours { item, fact, held },
        _ => PreparationModel::Ready { item, held },
    }
}

/// An item that lacks an embedding and has a text for one waits for it.
pub open spec fn embedding_stage(
    item: ItemModel,
    claim: Option<FactModel>,
    held: HeldModel,
) -> PreparationModel {
    if wanted_embedding(item) is Some {
        PreparationModel::Embedding { item, claim, held }
    } else {
        comparison(item, claim, held)
    }
}

/// The first stage of an item that is to be written; `fresh_id` is its id where
/// it has none.
pub open spec fn begun(item: ItemModel, fresh_id: Seq<char>, held: HeldModel) -> Result<
    PreparationModel,
    ApiIssue,
> {
    match admission(item, fresh_id) {
        Ok((item, Some(fact))) => Ok(PreparationModel::Facts { item, fact, held }),
        Ok((item, None)) => Ok(embedding_stage(item, None, held)),
        Err(e) => Err(e),
    }
}

/// What a stage needs.
pub open spec fn needed(state: PreparationModel) -> NeedModel {
    match state {
        PreparationModel::Facts { item, fact, .. } => NeedModel::Facts {
            scope: item.scope,
            subject: fact.subject,
            predicate: fact.predicate,
        },
        PreparationModel::Retirement { retired, .. } => NeedModel::Store(retired),
        PreparationModel::Embedding { item, .. } => match wanted_embedding(item) {
            Some(text) => NeedModel::Embedding(text),
            None => NeedModel::Embedding(Seq::empty()),
        },
        PreparationModel::Neighbours { item, held, .. } => NeedModel::Neighbours {
            scope: item.scope,
            embedding: match item.embedding {
                Some(e) => e,
                None => Seq::empty(),
            },
            exclude: item.id,
            gone: held.gone,
            threshold: Float(EIGHTY_FIVE_HUNDREDTHS),
            max: SEMANTIC_CONFLICT_MAX_HITS,
        },
        PreparationModel::Ready { .. } => NeedModel::Nothing,
    }
}

/// The stage of a new fact that has met the facts found on its subject and
/// predicate. The facts that it retires are held where they are to be stored with
/// it, and else are stored before it goes on.
pub open spec fn settled(
    item: ItemModel,
    fact: FactModel,
    held: HeldModel,
    found: Seq<ItemModel>,
) -> PreparationModel {
    let conflicts = still_active(found, held.gone);
    let old = retired(item, fact.object, conflicts);
    let item = resolved(item, fact.object, conflicts);
    if held.together {
        embedding_stage(item, Some(fact), holding(held, old))
    } else {
        PreparationModel::Retirement { item, fact, retired: old, held }
    }
}

/// The stage after an answer. What the store cannot do is a failure; what the
/// embedder cannot do is none. An answer to another need changes nothing.
pub open spec fn advanced(state: PreparationModel, answer: AnswerModel) -> Result<
    PreparationModel,
    ApiIssue,
> {
    match (state, answer) {
        (PreparationModel::Facts { item, fact, held }, AnswerModel::Facts(Ok(found))) => Ok(
            settled(item, fact, held, found),
        ),
        (PreparationModel::Facts { .. }, AnswerModel::Facts(Err(e))) => Err(
            ApiIssue::Internal("conflict detection failed: "@ + e),
        ),
        (PreparationModel::Retirement { item, fact, held, .. }, AnswerModel::Stored(Ok(_))) => Ok(
            embedding_stage(item, Some(fact), held),
        ),
        (PreparationModel::Retirement { .. }, AnswerModel::Stored(Err(e))) => Err(
            ApiIssue::Internal("supersession write failed: "@ + e),
        ),
        (
            PreparationModel::Embedding { item, claim, held },
            AnswerModel::Embedding(Some(made)),
        ) => Ok(comparison(with_embedding(item, Some(made.0), made.1), claim, held)),
        (PreparationModel::Embedding { item, claim, held }, AnswerModel::Embedding(None)) => Ok(
            comparison(item, claim, held),
        ),
        (
            PreparationModel::Neighbours { item, fact, held },
            AnswerModel::Neighbours(Ok(close)),
        ) => Ok(
            PreparationModel::Ready {
                item: advised(item, fact.object, still_active(close, held.gone)),
                held,
            },
        ),
        (PreparationModel::Neighbours { .. }, AnswerModel::Neighbours(Err(e))) => Err(
            ApiIssue::Internal("semantic conflict scan failed: "@ + e),
        ),
        _ => Ok(state),
    }
}

fn compare(item: MemoryItem, claim: Option<FactPayload>, held: Held) -> (r: Preparation)
    ensures
        r@ == comparison(item@, opt(claim), held@),
{
    match claim {
        Some(fact) => if item.embedding.is_some() {
            Preparation::Neighbours { item, fact, held }
        } else {
            Preparation::Ready { item, held }
        },
        None => Preparation::Ready { item, held },
    }
}

fn embed(item: MemoryItem, claim: Option<FactPayload>, held: Held) -> (r: Preparation)
    ensures
        r@ == embedding_stage(item@, opt(claim), held@),
{
    if text_to_embed(&item).is_some() {
        Preparation::Embedding { item, claim, held }
    } else {
        compare(item, claim, held)
    }
}

fn settle(item: MemoryItem, fact: FactPayload, held: Held, found: Vec<MemoryItem>) -> (r:
    Preparation)
    ensures
        r@ == settled(item@, fact@, held@, views(found@)),
{
    let conflicts = keep_active(found, &held.gone);
    let resolution = resolve_conflicts(item, fact.object.as_str(), conflicts);
    if held.together {
        let held = hold(held, resolution.retired);
        embed(resolution.item, Some(fact), held)
    } else {
        Preparation::Retirement {
            item: resolution.item,
            fact,
            retired: resolution.retired,
            held,
        }
    }
}

/// Begins to prepare an item; `fresh_id` is its id where it has none.
pub fn prepare_with_id(item: MemoryItem, fresh_id: String, held: Held) -> (r: Result<
    Preparation,
    ApiError,
>)
    ensures
        match (r, begun(item@, fresh_id@, held@)) {
            (Ok(p), Ok(m)) => p@ == m,
            (Err(e), Err(f)) => e@ == f,
            _ => false,
        },
{
    match admit_with_id(item, fresh_id) {
        Ok(admitted) => match admitted.fact {
            Some(fact) => Ok(Preparation::Facts { item: admitted.item, fact, held }),
            None => Ok(embed(admitted.item, None, held)),
        },
        Err(e) => Err(e),
    }
}

/// Begins to prepare an item. An item without an id gets a random one.
pub fn prepare_memory_item(item: MemoryItem, held: Held) -> (r: Result<Preparation, ApiError>)
    ensures
        exists|fresh_id: Seq<char>|
            {
                &&& is_random_id(fresh_id)
                &&& match (r, #[trigger] begun(item@, fresh_id, held@)) {
                    (Ok(p), Ok(m)) => p@ == m,
                    (Err(e), Err(f)) => e@ == f,
                    _ => false,
                }
            },
{
    let fresh_id = random_id();
    let ghost id = fresh_id@;
    let r = prepare_with_id(item, fresh_id, held);
    proof {
        let m = begun(item@, id, held@);
        assert(is_random_id(id));
    }
    r
}

impl Preparation {
    /// What is needed to go on.
    pub fn need(&self) -> (r: Need)
        ensures
            r@ == needed(self@),
    {
        match self {
            Preparation::Facts { item, fact, .. } => Need::Facts {
                scope: item.scope.clone(),
                subject: fact.subject.clone(),
                predicate: fact.predicate.clone(),
            },
            Preparation::Retirement { retired, .. } => {
                let mut items: Vec<MemoryItem> = Vec::new();
                for i in 0..retired.len()
                    invariant
                        items@.len() == i,
                        forall|k: int| 0 <= k < i ==> (#[trigger] items@[k])@ == retired@[k]@,
                {
                    items.push(retired[i].clone());
                }
                assert(views(items@) =~= views(retired@));
                Need::Store(items)
            },
            Preparation::Embedding { item, .. } => match text_to_embed(item) {
                Some(text) => Need::Embedding(text),
                None => Need::Embedding(String::new()),
            },
            Preparation::Neighbours { item, held, .. } => {
                let embedding: Vec<Float> = match copy_embedding(&item.embedding) {
                    Some(e) => e,
                    None => Vec::new(),
                };
                let mut gone: Vec<MemoryId> = Vec::new();
                for i in 0..held.gone.len()
                    invariant
                        gone@.len() == i,
                        forall|k: int| 0 <= k < i ==> (#[trigger] gone@[k])@ == held.gone@[k]@,
                {
                    gone.push(held.gone[i].clone());
                }
                assert(views(gone@) =~= views(held.gone@));
                Need::Neighbours {
                    scope: item.scope.clone(),
                    embedding,
                    exclude: item.id.clone(),
                    gone,
                    threshold: Float(EIGHTY_FIVE_HUNDREDTHS),
                    max: SEMANTIC_CONFLICT_MAX_HITS,
                }
            },
            Preparation::Ready { .. } => Need::Nothing,
        }
    }

    /// Goes on with the answer to what was needed.
    pub fn advance(self, answer: Answer) -> (r: Result<Preparation, ApiError>)
        ensures
            match (r, advanced(self@, answer@)) {
                (Ok(p), Ok(m)) => p@ == m,
                (Err(e), Err(f)) => e@ == f,
                _ => false,
            },
    {
        match (self, answer) {
            (Preparation::Facts { item, fact, held }, Answer::Facts(Ok(found))) => Ok(
                settle(item, fact, held, found),
            ),
            (Preparation::Facts { .. }, Answer::Facts(Err(e))) => Err(
                ApiError::Internal(cat("conflict detection failed: ", e.as_str())),
            ),
            (Preparation::Retirement { item, fact, held, .. }, Answer::Stored(Ok(_))) => Ok(
                embed(item, Some(fact), held),
            ),
            (Preparation::Retirement { .. }, Answer::Stored(Err(e))) => Err(
                ApiError::Internal(cat("supersession write failed: ", e.as_str())),
            ),
            (Preparation::Embedding { item, claim, held }, Answer::Embedding(Some(made))) => {
                let (vector, model_id) = made;
                Ok(compare(maybe_embed_item(item, Some(vector), model_id.as_str()), claim, held))
            },
            (Preparation::Embedding { item, claim, held }, Answer::Embedding(None)) => Ok(
                compare(item, claim, held),
            ),
            (Preparation::Neighbours { item, fact, held }, Answer::Neighbours(Ok(close))) => {
                let close = keep_active(close, &held.gone);
                Ok(
                    Preparation::Ready {
                        item: advise_semantic_conflicts(item, fact.object.as_str(), &close),
                        held,
                    },
                )
            },
            (Preparation::Neighbours { .. }, Answer::Neighbours(Err(e))) => Err(
                ApiError::Internal(cat("semantic conflict scan failed: ", e.as_str())),
            ),
            (state, _) => Ok(state),
        }
    }

    /// The item, once it is ready, with the facts that are to be stored with it.
    pub fn into_prepared(self) -> (r: Option<Prepared>)
        ensures
            opt(r) == match self@ {
                PreparationModel::Ready { item, held } => Some(
                    PreparedModel { item, retired: held.retired },
                ),
                _ => None,
            },
    {
        match self {
            Preparation::Ready { item, held } => Some(Prepared { item, retired: held.retired }),
            _ => None,
        }
    }
}

/// How many answers a stage may still need.
pub open spec fn answers_left(state: PreparationModel) -> nat {
    match state {
        PreparationModel::Facts { .. } => 4,
        PreparationModel::Retirement { .. } => 3,
        PreparationModel::Embedding { .. } => 2,
        PreparationModel::Neighbours { .. } => 1,
        PreparationModel::Ready { .. } => 0,
    }
}

/// An answer to what a stage needs.
pub open spec fn answers(state: PreparationModel, answer: AnswerModel) -> bool {
    match (state, answer) {
        (PreparationModel::Facts { .. }, AnswerModel::Facts(_)) => true,
        (PreparationModel::Retirement { .. }, AnswerModel::Stored(_)) => true,
        (PreparationModel::Embedding { .. }, AnswerModel::Embedding(_)) => true,
        (PreparationModel::Neighbours { .. }, AnswerModel::Neighbours(_)) => true,
        _ => false,
    }
}

/// A preparation comes to an end: every answer to what is needed leads to a later
/// stage or to a failure.
pub proof fn law_preparation_ends(state: PreparationModel, answer: AnswerModel)
    requires
        answers(state, answer),
    ensures
        match advanced(state, answer) {
            Ok(after) => answers_left(after) < answers_left(state),
            Err(_) => true,
        },
{
}

/// What a stage holds.
pub open spec fn held_in(state: PreparationModel) -> HeldModel {
    match state {
        PreparationModel::Facts { held, .. } => held,
        PreparationModel::Retirement { held, .. } => held,
        PreparationModel::Embedding { held, .. } => held,
        PreparationModel::Neighbours { held, .. } => held,
        PreparationModel::Ready { held, .. } => held,
    }
}

/// A stage at which nothing is stored, nor will be: retired facts are held.
pub open spec fn stores_nothing(state: PreparationModel) -> bool {
    held_in(state).together && !(state is Retirement)
}

/// A preparation that holds the facts it retires never asks that something be
/// stored, at no stage; and what it holds it keeps.
pub proof fn law_holding_stores_nothing(
    item: ItemModel,
    fresh_id: Seq<char>,
    gone: Seq<Seq<char>>,
    state: PreparationModel,
    answer: AnswerModel,
)
    requires
        stores_nothing(state),
    ensures
        begun(item, fresh_id, together(gone)) matches Ok(first) ==> stores_nothing(first),
        !(needed(state) is Store),
        advanced(state, answer) matches Ok(after) ==> stores_nothing(after) && held_in(
            state,
        ).retired.is_prefix_of(held_in(after).retired) && held_in(state).gone.is_prefix_of(
            held_in(after).gone,
        ),
{
}

/// The stage after an answer that did not fail, or the same stage where the
/// answer is not to what it needs.
pub open spec fn onward(state: PreparationModel, answer: AnswerModel) -> PreparationModel {
    match advanced(state, answer) {
        Ok(after) => after,
        Err(_) => state,
    }
}

/// An item as it is stored: a fact has met the facts that it contradicts, what can
/// be embedded is, and a fact with an embedding hints at those close to it.
pub open spec fn prepared(
    item: ItemModel,
    claim: Option<FactModel>,
    conflicts: Seq<ItemModel>,
    made: Option<(Seq<Float>, Seq<char>)>,
    close: Seq<ItemModel>,
) -> ItemModel {
    let settled = match claim {
        Some(fact) => resolved(item, fact.object, conflicts),
        None => item,
    };
    let embedded = match made {
        Some(made) => with_embedding(settled, Some(made.0), made.1),
        None => settled,
    };
    match (claim, embedded.embedding) {
        (Some(fact), Some(_)) => advised(embedded, fact.object, close),
        _ => embedded,
    }
}

/// A preparation whose needs are all met gives the item in its stored form. The
/// facts that it retires are stored before the item is ready, or are held to be
/// stored with it.
pub proof fn law_preparation_gives_the_stored_form(
    item: ItemModel,
    fresh_id: Seq<char>,
    held: HeldModel,
    found: Seq<ItemModel>,
    made: Option<(Seq<Float>, Seq<char>)>,
    close: Seq<ItemModel>,
)
    ensures
        match (begun(item, fresh_id, held), admission(item, fresh_id)) {
            (Ok(first), Ok((admitted, claim))) => {
                let conflicts = still_active(found, held.gone);
                let old = match claim {
                    Some(fact) => retired(admitted, fact.object, conflicts),
                    None => Seq::empty(),
                };
                let kept = holding(held, old);
                let met = onward(first, AnswerModel::Facts(Ok(found)));
                let last = onward(
                    onward(
                        onward(met, AnswerModel::Stored(Ok(()))),
                        AnswerModel::Embedding(made),
                    ),
                    AnswerModel::Neighbours(Ok(close)),
                );
                &&& last == PreparationModel::Ready {
                    item: prepared(admitted, claim, conflicts, made, still_active(close, kept.gone)),
                    held: kept,
                }
                &&& claim is Some && !held.together ==> needed(met) == NeedModel::Store(old)
            },
            (Err(e), Err(f)) => e == f,
            _ => false,
        },
{
    let none = holding(held, Seq::empty());
    assert(none.gone =~= held.gone);
    assert(none.retired =~= held.retired);
}

/// The item that a stage is about.
pub open spec fn item_in(state: PreparationModel) -> ItemModel {
    match state {
        PreparationModel::Facts { item, .. } => item,
        PreparationModel::Retirement { item, .. } => item,
        PreparationModel::Embedding { item, .. } => item,
        PreparationModel::Neighbours { item, .. } => item,
        PreparationModel::Ready { item, .. } => item,
    }
}

proof fn resolution_keeps_the_item(
    item: ItemModel,
    object: Seq<char>,
    conflicts: Seq<ItemModel>,
    candidates: Seq<ItemModel>,
)
    ensures
        resolved(item, object, conflicts) == (ItemModel {
            meta: resolved(item, object, conflicts).meta,
            ..item
        }),
        advised(item, object, candidates) == (ItemModel {
            meta: advised(item, object, candidates).meta,
            ..item
        }),
{
    law_new_fact_succeeds(item, object, conflicts);
    law_hints_name_the_contradictions(item, object, candidates);
}

/// A preparation changes nothing of an item but its metadata and its embedding: what
/// it says, and of whom, stays from stage to stage.
pub proof fn law_preparation_keeps_the_item(state: PreparationModel, answer: AnswerModel)
    ensures
        advanced(state, answer) matches Ok(after) ==> item_in(after) == (ItemModel {
            meta: item_in(after).meta,
            embedding: item_in(after).embedding,
            embedding_model: item_in(after).embedding_model,
            ..item_in(state)
        }),
{
    match (state, answer) {
        (PreparationModel::Facts { item, fact, held }, AnswerModel::Facts(Ok(found))) => {
            resolution_keeps_the_item(
                item,
                fact.object,
                still_active(found, held.gone),
                Seq::empty(),
            );
        },
        (
            PreparationModel::Neighbours { item, fact, held },
            AnswerModel::Neighbours(Ok(close)),
        ) => {
            resolution_keeps_the_item(
                item,
                fact.object,
                Seq::empty(),
                still_active(close, held.gone),
            );
        },
        _ => {},
    }
}

/// The facts that are still active are those found that are not gone, in their
/// order.
pub proof fn law_active_facts_are_not_gone(facts: Seq<ItemModel>, gone: Seq<Seq<char>>) -> (places:
    Seq<int>)
    ensures
        still_active(facts, gone).len() == places.len(),
        forall|a: int, b: int|
            0 <= a < b < places.len() ==> #[trigger] places[a] < #[trigger] places[b],
        forall|a: int|
            0 <= a < places.len() ==> 0 <= #[trigger] places[a] < facts.len() && still_active(
                facts,
                gone,
            )[a] == facts[places[a]] && !gone.contains(facts[places[a]].id),
        forall|k: int|
            0 <= k < facts.len() && !gone.contains((#[trigger] facts[k]).id) ==> places.contains(k),
{
    let active = |fact: ItemModel| !gone.contains(fact.id);
    let places = filter_places(facts, active);
    assert forall|k: int| 0 <= k < facts.len() && !gone.contains(
        (#[trigger] facts[k]).id,
    ) implies places.contains(k) by {
        assert(active(facts[k]));
    }
    places
}

/// A new fact that waits for the facts on its subject asks for those of its own scope,
/// subject and predicate; every one of them that is not gone and that it contradicts
/// is then to be stored with its successor, before the new fact, or is held to be
/// stored with it.
pub proof fn law_preparation_retires_what_is_contradicted(
    item: ItemModel,
    fact: FactModel,
    held: HeldModel,
    found: Seq<ItemModel>,
    k: int,
)
    requires
        0 <= k < found.len(),
        found[k].id != item.id,
        !held.gone.contains(found[k].id),
        match fact_of(found[k].meta) {
            Ok(old) => old.object != fact.object,
            Err(_) => true,
        },
    ensures
        needed(PreparationModel::Facts { item, fact, held }) == (NeedModel::Facts {
            scope: item.scope,
            subject: fact.subject,
            predicate: fact.predicate,
        }),
        advanced(
            PreparationModel::Facts { item, fact, held },
            AnswerModel::Facts(Ok(found)),
        ) matches Ok(after) && {
            let marked = ItemModel {
                meta: found[k].meta.insert("superseded_by"@, JsonTree::Text(item.id)),
                ..found[k]
            };
            &&& !held.together ==> (needed(after) matches NeedModel::Store(rows) && rows.contains(
                marked,
            ))
            &&& held.together ==> held_in(after).retired.contains(marked) && held_in(
                after,
            ).gone.contains(found[k].id)
        },
{
    let conflicts = still_active(found, held.gone);
    let places = law_active_facts_are_not_gone(found, held.gone);
    let a = places.index_of(k);
    assert(conflicts[a] == found[k]);
    law_contradicted_facts_are_retired(item, fact.object, conflicts, a);
    let old = retired(item, fact.object, conflicts);
    let marked = ItemModel {
        meta: found[k].meta.insert("superseded_by"@, JsonTree::Text(item.id)),
        ..found[k]
    };
    let m = choose|m: int|
        {
            &&& 0 <= m < old.len()
            &&& (#[trigger] old[m]) == (ItemModel {
                meta: conflicts[a].meta.insert("superseded_by"@, JsonTree::Text(item.id)),
                ..conflicts[a]
            })
            &&& superseded_by_of(old[m].meta) == Some(item.id)
        };
    assert(old[m] == marked);
    assert(old.contains(marked));
    if held.together {
        let kept = holding(held, old);
        assert(kept.retired[held.retired.len() + m] == marked);
        assert(ids_in(old)[m] == found[k].id);
        assert(kept.gone[held.gone.len() + m] == found[k].id);
    }
}

/// A memory that waits for an embedding asks for one of its own text, and takes the
/// one that it is given; where none is given it goes on without.
pub proof fn law_preparation_takes_the_embedding(
    item: ItemModel,
    claim: Option<FactModel>,
    held: HeldModel,
    vector: Seq<Float>,
    model_id: Seq<char>,
    text: Seq<char>,
)
    requires
        wanted_embedding(item) == Some(text),
    ensures
        needed(PreparationModel::Embedding { item, claim, held }) == NeedModel::Embedding(text),
        advanced(
            PreparationModel::Embedding { item, claim, held },
            AnswerModel::Embedding(Some((vector, model_id))),
        ) matches Ok(after) && item_in(after) == (ItemModel {
            embedding: Some(vector),
            embedding_model: Some(model_id),
            ..item
        }) && held_in(after) == held && (claim is Some ==> after is Neighbours) && (claim is None
            ==> after is Ready),
        advanced(
            PreparationModel::Embedding { item, claim, held },
            AnswerModel::Embedding(None),
        ) == Ok::<PreparationModel, ApiIssue>(PreparationModel::Ready { item, held }),
{
    law_made_embeddings_are_taken(item, vector, model_id);
    law_texts_are_embedded(item);
}

/// A new fact is compared with the facts of its own scope, but not with itself nor
/// with what is gone: with at most five, and only with those at least as similar as
/// 0.85. What the store cannot do fails the preparation.
pub proof fn law_preparation_compares_the_fact(
    item: ItemModel,
    fact: FactModel,
    held: HeldModel,
    vector: Seq<Float>,
    e: Seq<char>,
)
    requires
        item.embedding == Some(vector),
    ensures
        needed(PreparationModel::Neighbours { item, fact, held }) == (NeedModel::Neighbours {
            scope: item.scope,
            embedding: vector,
            exclude: item.id,
            gone: held.gone,
            threshold: Float(0x3f59_999a),
            max: 5,
        }),
        advanced(
            PreparationModel::Neighbours { item, fact, held },
            AnswerModel::Neighbours(Err(e)),
        ) matches Err(issue) && issue is Internal,
        advanced(
            PreparationModel::Facts { item, fact, held },
            AnswerModel::Facts(Err(e)),
        ) matches Err(issue) && issue is Internal,
        advanced(
            PreparationModel::Retirement { item, fact, retired: Seq::empty(), held },
            AnswerModel::Stored(Err(e)),
        ) matches Err(issue) && issue is Internal,
{
}

/// The preparation of an item that may be written begins with the facts on its
/// subject where it is a fact, and else with its embedding where it wants one;
/// otherwise it is ready as it is. An item that may not be written is refused.
pub proof fn law_preparation_begins_with_the_item(
    item: ItemModel,
    fresh_id: Seq<char>,
    held: HeldModel,
)
    ensures
        begun(item, fresh_id, held) is Ok <==> admission(item, fresh_id) is Ok,
        admission(item, fresh_id) matches Ok((stored, claim)) ==> (begun(
            item,
            fresh_id,
            held,
        ) matches Ok(first) && {
            &&& item_in(first) == stored && held_in(first) == held
            &&& claim matches Some(fact) ==> first == (PreparationModel::Facts {
                item: stored,
                fact,
                held,
            })
            &&& claim is None && wanted_embedding(stored) is Some ==> first is Embedding
            &&& claim is None && wanted_embedding(stored) is None ==> first is Ready
        }),
{
}

/// Once the retired facts are stored, a new fact goes on unchanged: to its embedding
/// where it wants one, to the comparison where it has one, and else it is ready.
pub proof fn law_preparation_goes_on_after_retirement(
    item: ItemModel,
    fact: FactModel,
    retired: Seq<ItemModel>,
    held: HeldModel,
)
    ensures
        advanced(
            PreparationModel::Retirement { item, fact, retired, held },
            AnswerModel::Stored(Ok(())),
        ) matches Ok(after) && {
            &&& item_in(after) == item && held_in(after) == held
            &&& wanted_embedding(item) is Some ==> after is Embedding
            &&& item.embedding is Some ==> after is Neighbours
            &&& wanted_embedding(item) is None && item.embedding is None ==> after is Ready
        },
        needed(PreparationModel::Retirement { item, fact, retired, held }) == NeedModel::Store(
            retired,
        ),
{
}

/// What a new fact is close to and does not agree with becomes a hint on it, unless
/// it is gone; and nothing else of it changes.
pub proof fn law_preparation_hints_at_what_is_close(
    item: ItemModel,
    fact: FactModel,
    held: HeldModel,
    close: Seq<ItemModel>,
    k: int,
)
    requires
        0 <= k < close.len(),
        !held.gone.contains(close[k].id),
        match fact_of(close[k].meta) {
            Ok(other) => other.object != fact.object,
            Err(_) => true,
        },
    ensures
        advanced(
            PreparationModel::Neighbours { item, fact, held },
            AnswerModel::Neighbours(Ok(close)),
        ) matches Ok(after) && after is Ready && held_in(after) == held && semantic_conflicts_of(
            item_in(after).meta,
        ).contains(JsonTree::Text(close[k].id)),
{
    let active = still_active(close, held.gone);
    let places = law_active_facts_are_not_gone(close, held.gone);
    let a = places.index_of(k);
    assert(active[a] == close[k]);
    law_hints_name_the_contradictions(item, fact.object, active);
}

} // verus!
