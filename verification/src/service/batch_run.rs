//! Carrying out a batch, part by part: which part comes next, what is remembered
//! of each, and how the whole is answered.
use crate::memory::{ItemModel, MemoryId, MemoryItem};
use crate::model::{opt, views};
use crate::service::batch::BatchMode;
use crate::service::error::{
    answer_of, law_failures_have_their_status, status_of, words_of, ApiError, ApiIssue,
};
use crate::service::prepare::{
    at_once, ids_in, together, Held, HeldModel, Prepared, PreparedModel,
};
use crate::store::statements::ids_of_items;
use vstd::prelude::*;

verus! {

/// How one item of a batch write is answered.
#[derive(Debug)]
pub struct BatchWriteItemResult {
    pub status: u16,
    pub id: Option<MemoryId>,
    pub error: Option<String>,
}

/// The model of such an answer.
pub struct WriteResultModel {
    pub status: u16,
    pub id: Option<Seq<char>>,
    pub error: Option<Seq<char>>,
}

impl View for BatchWriteItemResult {
    type V = WriteResultModel;

    open spec fn view(&self) -> WriteResultModel {
        WriteResultModel { status: self.status, id: opt(self.id), error: opt(self.error) }
    }
}

/// What is said of an item that was refused: the error in words, unless it lies
/// inside.
pub open spec fn refusal_text(issue: ApiIssue) -> Seq<char> {
    match issue {
        ApiIssue::Internal(_) => answer_of(issue),
        _ => words_of(issue),
    }
}

/// The answer for an item that was refused.
pub open spec fn refusal(issue: ApiIssue) -> WriteResultModel {
    WriteResultModel { status: status_of(issue), id: None, error: Some(refusal_text(issue)) }
}

/// The answer for an item that could not be prepared.
pub fn refused_result(error: &ApiError) -> (r: BatchWriteItemResult)
    ensures
        r@ == refusal(error@),
{
    let said = match error {
        ApiError::Internal(_) => error.answer(),
        _ => error.to_string(),
    };
    BatchWriteItemResult { status: error.status_code(), id: None, error: Some(said) }
}

/// The answer for an item that was handed to the store, by the reason why that
/// failed if it did. The reason itself stays inside.
pub open spec fn stored_answer(id: Seq<char>, failure: Option<Seq<char>>) -> WriteResultModel {
    match failure {
        None => WriteResultModel { status: 201, id: Some(id), error: None },
        Some(reason) => WriteResultModel {
            status: status_of(ApiIssue::Internal(reason)),
            id: Some(id),
            error: Some(answer_of(ApiIssue::Internal(reason))),
        },
    }
}

/// The answer for an item that was handed to the store, by the reason why that
/// failed if it did.
pub fn written_result(id: MemoryId, failure: Option<String>) -> (r: BatchWriteItemResult)
    ensures
        r@ == stored_answer(id@, opt(failure)),
{
    match failure {
        None => BatchWriteItemResult { status: 201, id: Some(id), error: None },
        Some(reason) => {
            let error = ApiError::Internal(reason);
            BatchWriteItemResult {
                status: error.status_code(),
                id: Some(id),
                error: Some(error.answer()),
            }
        },
    }
}

/// What came of one item of a batch write.
#[derive(Debug)]
pub enum Outcome {
    /// It could not be prepared.
    Refused(ApiError),
    /// It is prepared, and nothing is stored of it yet.
    Prepared(Prepared),
    /// It was handed to the store, which may have failed.
    Stored { id: MemoryId, failure: Option<String> },
}

/// The model of what came of an item.
pub enum OutcomeModel {
    Refused(ApiIssue),
    Prepared(PreparedModel),
    Stored { id: Seq<char>, failure: Option<Seq<char>> },
}

impl View for Outcome {
    type V = OutcomeModel;

    open spec fn view(&self) -> OutcomeModel {
        match self {
            Outcome::Refused(e) => OutcomeModel::Refused(e@),
            Outcome::Prepared(p) => OutcomeModel::Prepared(p@),
            Outcome::Stored { id, failure } => OutcomeModel::Stored {
                id: id@,
                failure: opt(*failure),
            },
        }
    }
}

/// A batch write on its way: `count` items in all, and what came of the first of
/// them.
#[derive(Debug)]
pub struct BatchRun {
    mode: BatchMode,
    count: usize,
    outcomes: Vec<Outcome>,
}

/// The model of a batch write on its way.
pub struct RunModel {
    pub mode: BatchMode,
    pub count: nat,
    pub outcomes: Seq<OutcomeModel>,
}

impl View for BatchRun {
    type V = RunModel;

    closed spec fn view(&self) -> RunModel {
        RunModel {
            mode: self.mode,
            count: self.count as nat,
            outcomes: views(self.outcomes@),
        }
    }
}

/// A batch write of `count` items of which none is done.
pub open spec fn begun(mode: BatchMode, count: nat) -> RunModel {
    RunModel { mode, count, outcomes: Seq::empty() }
}

/// A batch that is done as a whole stops at the first item that is refused.
pub open spec fn stopped(run: RunModel) -> bool {
    run.mode == BatchMode::Atomic && run.outcomes.len() > 0 && run.outcomes.last() is Refused
}

/// The place of the item that comes next, if any is left.
pub open spec fn next_place(run: RunModel) -> Option<int> {
    if stopped(run) || run.outcomes.len() >= run.count {
        None
    } else {
        Some(run.outcomes.len() as int)
    }
}

/// What may come of an item: where the batch is done as a whole its items are
/// only prepared, and else each is stored by itself.
pub open spec fn fits(mode: BatchMode, outcome: OutcomeModel) -> bool {
    match outcome {
        OutcomeModel::Refused(_) => true,
        OutcomeModel::Prepared(_) => mode == BatchMode::Atomic,
        OutcomeModel::Stored { .. } => mode == BatchMode::BestEffort,
    }
}

/// The run after the next item. An outcome that does not fit, or that comes when
/// no item is left, changes nothing.
pub open spec fn recorded(run: RunModel, outcome: OutcomeModel) -> RunModel {
    if next_place(run) is Some && fits(run.mode, outcome) {
        RunModel { outcomes: run.outcomes.push(outcome), ..run }
    } else {
        run
    }
}

/// How an item that was done by itself is answered. One that was never handed to
/// the store counts as one that the store failed on.
pub open spec fn result_of(outcome: OutcomeModel) -> WriteResultModel {
    match outcome {
        OutcomeModel::Refused(issue) => refusal(issue),
        OutcomeModel::Prepared(p) => stored_answer(p.item.id, Some(Seq::empty())),
        OutcomeModel::Stored { id, failure } => stored_answer(id, failure),
    }
}

/// The items that were prepared, in their order.
pub open spec fn items_of(outcomes: Seq<OutcomeModel>) -> Seq<ItemModel>
    decreases outcomes.len(),
{
    if outcomes.len() == 0 {
        Seq::empty()
    } else {
        match outcomes.last() {
            OutcomeModel::Prepared(p) => items_of(outcomes.drop_last()).push(p.item),
            _ => items_of(outcomes.drop_last()),
        }
    }
}

/// The facts that those items retire, in their order.
pub open spec fn retired_of(outcomes: Seq<OutcomeModel>) -> Seq<ItemModel>
    decreases outcomes.len(),
{
    if outcomes.len() == 0 {
        Seq::empty()
    } else {
        match outcomes.last() {
            OutcomeModel::Prepared(p) => retired_of(outcomes.drop_last()) + p.retired,
            _ => retired_of(outcomes.drop_last()),
        }
    }
}

/// How a batch write ends.
#[derive(Debug)]
pub enum BatchEnd {
    /// Each item is answered for itself.
    Results(Vec<BatchWriteItemResult>),
    /// Nothing is stored: this is the answer.
    Refused(ApiError),
    /// `rows` are to be stored in one transaction, and `ids` to be answered once
    /// they are.
    Commit { rows: Vec<MemoryItem>, ids: Vec<MemoryId> },
}

/// The model of how a batch write ends.
pub enum EndModel {
    Results(Seq<WriteResultModel>),
    Refused(ApiIssue),
    Commit { rows: Seq<ItemModel>, ids: Seq<Seq<char>> },
}

impl View for BatchEnd {
    type V = EndModel;

    open spec fn view(&self) -> EndModel {
        match self {
            BatchEnd::Results(results) => EndModel::Results(views(results@)),
            BatchEnd::Refused(e) => EndModel::Refused(e@),
            BatchEnd::Commit { rows, ids } => EndModel::Commit {
                rows: views(rows@),
                ids: views(ids@),
            },
        }
    }
}

/// How a run ends: one answer per item; or the refusal at which it stopped; or
/// the rows of one transaction, the retired facts before the items, and the ids of
/// the items.
pub open spec fn end_of(run: RunModel) -> EndModel {
    match run.mode {
        BatchMode::BestEffort => EndModel::Results(
            Seq::new(run.outcomes.len(), |i: int| result_of(run.outcomes[i])),
        ),
        BatchMode::Atomic => if run.outcomes.len() > 0 {
            match run.outcomes.last() {
                OutcomeModel::Refused(issue) => EndModel::Refused(issue),
                _ => commit_of(run.outcomes),
            }
        } else {
            commit_of(run.outcomes)
        },
    }
}

/// The transaction that ends a run in which nothing was refused.
pub open spec fn commit_of(outcomes: Seq<OutcomeModel>) -> EndModel {
    EndModel::Commit {
        rows: retired_of(outcomes) + items_of(outcomes),
        ids: ids_in(items_of(outcomes)),
    }
}

/// What becomes of the facts that the next item retires.
pub open spec fn held_for_next(run: RunModel) -> HeldModel {
    match run.mode {
        BatchMode::BestEffort => at_once(),
        BatchMode::Atomic => together(ids_in(retired_of(run.outcomes))),
    }
}

fn result_for(outcome: Outcome) -> (r: BatchWriteItemResult)
    ensures
        r@ == result_of(outcome@),
{
    match outcome {
        Outcome::Refused(e) => refused_result(&e),
        Outcome::Prepared(p) => {
            let reason = String::new();
            assert(reason@ =~= Seq::<char>::empty());
            written_result(p.item.id, Some(reason))
        },
        Outcome::Stored { id, failure } => written_result(id, failure),
    }
}

/// The results of a list of outcomes.
fn results_for(outcomes: Vec<Outcome>) -> (r: Vec<BatchWriteItemResult>)
    ensures
        views(r@) == Seq::new(outcomes@.len(), |i: int| result_of(views(outcomes@)[i])),
{
    let ghost all = views(outcomes@);
    let mut out: Vec<BatchWriteItemResult> = Vec::new();
    for outcome in it: outcomes
        invariant
            it.seq() == outcomes@,
            all == views(outcomes@),
            out@.len() == it.index(),
            forall|k: int| 0 <= k < it.index() ==> (#[trigger] out@[k])@ == result_of(all[k]),
    {
        assert(all[it.index()] == outcome@);
        out.push(result_for(outcome));
    }
    assert(views(out@) =~= Seq::new(all.len(), |i: int| result_of(all[i])));
    out
}

/// The rows of a transaction that stores what was prepared.
fn commit(outcomes: Vec<Outcome>) -> (r: BatchEnd)
    ensures
        r@ == commit_of(views(outcomes@)),
{
    let ghost all = views(outcomes@);
    let mut rows: Vec<MemoryItem> = Vec::new();
    let mut items: Vec<MemoryItem> = Vec::new();
    proof {
        assert(all.take(0) =~= Seq::<OutcomeModel>::empty());
        assert(views(rows@) =~= Seq::<ItemModel>::empty());
        assert(views(items@) =~= Seq::<ItemModel>::empty());
    }
    for outcome in it: outcomes
        invariant
            it.seq() == outcomes@,
            all == views(outcomes@),
            views(rows@) == retired_of(all.take(it.index())),
            views(items@) == items_of(all.take(it.index())),
    {
        let ghost i = it.index();
        let ghost rows_before = views(rows@);
        let ghost items_before = views(items@);
        proof {
            assert(all[i] == outcome@);
            assert(all.take(i + 1).drop_last() =~= all.take(i));
            assert(all.take(i + 1).last() == outcome@);
        }
        match outcome {
            Outcome::Prepared(p) => {
                let Prepared { item, mut retired } = p;
                let ghost item_model = item@;
                let ghost retired_model = views(retired@);
                rows.append(&mut retired);
                items.push(item);
                assert(views(rows@) =~= rows_before + retired_model);
                assert(views(items@) =~= items_before.push(item_model));
            },
            _ => {},
        }
    }
    assert(all.take(all.len() as int) =~= all);
    let ids = ids_of_items(&items);
    let ghost retired_model = views(rows@);
    let ghost items_model = views(items@);
    rows.append(&mut items);
    assert(views(rows@) =~= retired_model + items_model);
    assert(views(ids@) =~= ids_in(items_model));
    BatchEnd::Commit { rows, ids }
}

impl BatchRun {
    /// Begins a batch write of `count` items.
    pub fn begin(mode: BatchMode, count: usize) -> (r: BatchRun)
        ensures
            r@ == begun(mode, count as nat),
    {
        let run = BatchRun { mode, count, outcomes: Vec::new() };
        assert(run@.outcomes =~= Seq::<OutcomeModel>::empty());
        run
    }

    fn is_stopped(&self) -> (r: bool)
        ensures
            r == stopped(self@),
    {
        if self.mode == BatchMode::BestEffort || self.outcomes.len() == 0 {
            return false;
        }
        let last = &self.outcomes[self.outcomes.len() - 1];
        assert(self@.outcomes.last() == last@);
        match last {
            Outcome::Refused(_) => true,
            _ => false,
        }
    }

    /// The place of the item that comes next, if any is left.
    pub fn next(&self) -> (r: Option<usize>)
        ensures
            match (r, next_place(self@)) {
                (Some(place), Some(m)) => place == m,
                (None, None) => true,
                _ => false,
            },
    {
        if self.is_stopped() || self.outcomes.len() >= self.count {
            None
        } else {
            Some(self.outcomes.len())
        }
    }

    /// What becomes of the facts that the next item retires: in a batch that is
    /// done as a whole they are held, and what its earlier items retired is gone.
    pub fn held(&self) -> (r: Held)
        ensures
            r@ == held_for_next(self@),
    {
        if self.mode == BatchMode::BestEffort {
            return Held::at_once();
        }
        let ghost all = self@.outcomes;
        let mut gone: Vec<MemoryId> = Vec::new();
        proof {
            assert(all.take(0) =~= Seq::<OutcomeModel>::empty());
            assert(views(gone@) =~= ids_in(retired_of(all.take(0))));
        }
        for i in 0..self.outcomes.len()
            invariant
                all == self@.outcomes,
                views(gone@) == ids_in(retired_of(all.take(i as int))),
        {
            let ghost before = views(gone@);
            proof {
                assert(all[i as int] == self.outcomes@[i as int]@);
                assert(all.take(i + 1).drop_last() =~= all.take(i as int));
                assert(all.take(i + 1).last() == self.outcomes@[i as int]@);
            }
            match &self.outcomes[i] {
                Outcome::Prepared(p) => {
                    let mut ids = ids_of_items(&p.retired);
                    let ghost new_ids = views(ids@);
                    gone.append(&mut ids);
                    assert(views(gone@) =~= before + new_ids);
                    assert(new_ids =~= ids_in(p@.retired));
                    assert(views(gone@) =~= ids_in(
                        retired_of(all.take(i as int)) + p@.retired,
                    ));
                },
                _ => {},
            }
        }
        assert(all.take(all.len() as int) =~= all);
        Held::together(gone)
    }

    /// Remembers what came of the next item.
    pub fn record(&mut self, outcome: Outcome)
        ensures
            final(self)@ == recorded(old(self)@, outcome@),
    {
        let fitting = match &outcome {
            Outcome::Refused(_) => true,
            Outcome::Prepared(_) => self.mode == BatchMode::Atomic,
            Outcome::Stored { .. } => self.mode == BatchMode::BestEffort,
        };
        if fitting && self.next().is_some() {
            let ghost before = self@;
            let ghost model = outcome@;
            self.outcomes.push(outcome);
            assert(self@.outcomes =~= before.outcomes.push(model));
        }
    }

    /// How the run ends, once no item is left.
    pub fn answer(self) -> (r: BatchEnd)
        requires
            next_place(self@) is None,
        ensures
            r@ == end_of(self@),
    {
        let BatchRun { mode, outcomes, .. } = self;
        let ghost all = views(outcomes@);
        match mode {
            BatchMode::BestEffort => BatchEnd::Results(results_for(outcomes)),
            BatchMode::Atomic => {
                let mut outcomes = outcomes;
                match outcomes.pop() {
                    None => {
                        assert(views(outcomes@) =~= all);
                        commit(outcomes)
                    },
                    Some(Outcome::Refused(e)) => {
                        assert(all.last() == OutcomeModel::Refused(e@));
                        BatchEnd::Refused(e)
                    },
                    Some(last) => {
                        let ghost model = last@;
                        outcomes.push(last);
                        assert(all.last() == model);
                        assert(views(outcomes@) =~= all);
                        commit(outcomes)
                    },
                }
            },
        }
    }
}

/// A run as it can come about: no more outcomes than items, each fits, and none
/// follows a refusal where the batch is done as a whole.
pub open spec fn sound(run: RunModel) -> bool {
    &&& run.outcomes.len() <= run.count
    &&& forall|i: int| 0 <= i < run.outcomes.len() ==> fits(run.mode, #[trigger] run.outcomes[i])
    &&& run.mode == BatchMode::Atomic ==> forall|i: int|
        0 <= i < run.outcomes.len() - 1 ==> !(#[trigger] run.outcomes[i] is Refused)
}

/// Every run is sound, from its beginning on.
pub proof fn law_runs_are_sound(mode: BatchMode, count: nat, run: RunModel, outcome: OutcomeModel)
    requires
        sound(run),
    ensures
        sound(begun(mode, count)),
        sound(recorded(run, outcome)),
{
    let after = recorded(run, outcome);
    if next_place(run) is Some && fits(run.mode, outcome) {
        assert forall|i: int| 0 <= i < after.outcomes.len() implies fits(
            after.mode,
            #[trigger] after.outcomes[i],
        ) by {
            if i < run.outcomes.len() {
                assert(after.outcomes[i] == run.outcomes[i]);
            }
        }
        if run.mode == BatchMode::Atomic {
            assert forall|i: int| 0 <= i < after.outcomes.len() - 1 implies !(
            #[trigger] after.outcomes[i] is Refused) by {
                assert(after.outcomes[i] == run.outcomes[i]);
            }
        }
    }
}

/// In a batch whose items are done one by one, a failing item stops none of those
/// after it: whatever came of an item, the next one follows, to the last.
pub proof fn law_failure_stops_no_other_item(run: RunModel, outcome: OutcomeModel)
    requires
        run.mode == BatchMode::BestEffort,
        next_place(run) is Some,
        fits(run.mode, outcome),
    ensures
        next_place(run) == Some(run.outcomes.len() as int),
        next_place(recorded(run, outcome)) == if run.outcomes.len() + 1 < run.count {
            Some((run.outcomes.len() + 1) as int)
        } else {
            None
        },
{
}

/// A batch whose items are done one by one is answered with one result per item,
/// in their order: created, with its id and no error, for an item that was stored;
/// and for any other a status that tells of a failure, and an error.
pub proof fn law_best_effort_answers_every_item(run: RunModel)
    requires
        sound(run),
        run.mode == BatchMode::BestEffort,
        next_place(run) is None,
    ensures
        match end_of(run) {
            EndModel::Results(results) => {
                &&& results.len() == run.count
                &&& forall|i: int|
                    0 <= i < results.len() ==> (#[trigger] results[i]) == result_of(
                        run.outcomes[i],
                    )
                &&& forall|i: int|
                    0 <= i < results.len() ==> match run.outcomes[i] {
                        OutcomeModel::Stored { id, failure: None } => (
                        #[trigger] results[i]).status == 201 && results[i].id == Some(id)
                            && results[i].error is None,
                        _ => results[i].status >= 400 && results[i].error is Some,
                    }
            },
            _ => false,
        },
{
}

proof fn prepared_parts(outcomes: Seq<OutcomeModel>)
    requires
        forall|i: int| 0 <= i < outcomes.len() ==> #[trigger] outcomes[i] is Prepared,
    ensures
        items_of(outcomes).len() == outcomes.len(),
        forall|i: int|
            0 <= i < outcomes.len() ==> #[trigger] items_of(outcomes)[i]
                == outcomes[i]->Prepared_0.item,
        forall|i: int, k: int|
            0 <= i < outcomes.len() && 0 <= k < outcomes[i]->Prepared_0.retired.len()
                ==> retired_of(outcomes).contains(#[trigger] outcomes[i]->Prepared_0.retired[k]),
    decreases outcomes.len(),
{
    if outcomes.len() > 0 {
        let front = outcomes.drop_last();
        assert forall|i: int| 0 <= i < front.len() implies #[trigger] front[i] is Prepared by {
            assert(front[i] == outcomes[i]);
        }
        prepared_parts(front);
        let last = outcomes.last();
        assert(outcomes[outcomes.len() - 1] == last);
        let before = retired_of(front);
        let new = last->Prepared_0.retired;
        assert forall|i: int| 0 <= i < outcomes.len() implies #[trigger] items_of(outcomes)[i]
            == outcomes[i]->Prepared_0.item by {
            if i < front.len() {
                assert(front[i] == outcomes[i]);
                assert(items_of(outcomes)[i] == items_of(front)[i]);
            }
        }
        assert forall|i: int, k: int|
            0 <= i < outcomes.len() && 0 <= k
                < outcomes[i]->Prepared_0.retired.len() implies retired_of(outcomes).contains(
            #[trigger] outcomes[i]->Prepared_0.retired[k],
        ) by {
            let x = outcomes[i]->Prepared_0.retired[k];
            if i < front.len() {
                assert(front[i] == outcomes[i]);
                assert(before.contains(front[i]->Prepared_0.retired[k]));
                let at = before.index_of(x);
                assert((before + new)[at] == x);
            } else {
                assert((before + new)[before.len() + k] == x);
            }
        }
    }
}

/// A batch that is done as a whole either ends with the error of the item that was
/// refused, and stores nothing; or every item was prepared, and all of them, with
/// every fact that they retire, are the rows of one transaction, answered by the
/// ids of the items in their order.
pub proof fn law_atomic_batch_is_all_or_nothing(run: RunModel)
    requires
        sound(run),
        run.mode == BatchMode::Atomic,
        next_place(run) is None,
    ensures
        match end_of(run) {
            EndModel::Refused(issue) => run.outcomes.len() > 0 && run.outcomes.last()
                == OutcomeModel::Refused(issue),
            EndModel::Commit { rows, ids } => {
                &&& run.outcomes.len() == run.count
                &&& ids.len() == run.count
                &&& rows == retired_of(run.outcomes) + items_of(run.outcomes)
                &&& forall|i: int|
                    0 <= i < run.outcomes.len() ==> (#[trigger] run.outcomes[i] is Prepared)
                        && ids[i] == run.outcomes[i]->Prepared_0.item.id && rows.contains(
                        run.outcomes[i]->Prepared_0.item,
                    )
                &&& forall|i: int, k: int|
                    0 <= i < run.outcomes.len() && 0 <= k
                        < run.outcomes[i]->Prepared_0.retired.len() ==> rows.contains(
                        #[trigger] run.outcomes[i]->Prepared_0.retired[k],
                    )
            },
            EndModel::Results(_) => false,
        },
        (exists|i: int| 0 <= i < run.outcomes.len() && #[trigger] run.outcomes[i] is Refused)
            <==> end_of(run) is Refused,
{
    let outcomes = run.outcomes;
    if !stopped(run) {
        assert forall|i: int| 0 <= i < outcomes.len() implies #[trigger] outcomes[i] is Prepared by {
            assert(fits(run.mode, outcomes[i]));
            if i == outcomes.len() - 1 {
                assert(outcomes.last() == outcomes[i]);
            }
        }
        prepared_parts(outcomes);
        let old = retired_of(outcomes);
        let items = items_of(outcomes);
        let rows = old + items;
        assert forall|i: int| 0 <= i < outcomes.len() implies ids_in(items)[i]
            == outcomes[i]->Prepared_0.item.id && rows.contains(
            (#[trigger] outcomes[i])->Prepared_0.item,
        ) by {
            assert(rows[old.len() + i] == items[i]);
        }
        assert forall|i: int, k: int|
            0 <= i < outcomes.len() && 0 <= k
                < outcomes[i]->Prepared_0.retired.len() implies rows.contains(
            #[trigger] outcomes[i]->Prepared_0.retired[k],
        ) by {
            let x = outcomes[i]->Prepared_0.retired[k];
            let at = old.index_of(x);
            assert(rows[at] == x);
        }
    } else {
        assert(outcomes[outcomes.len() - 1] is Refused);
    }
}

/// How one id of a batch deletion is answered.
#[derive(Debug)]
pub struct BatchDeleteItemResult {
    pub id: MemoryId,
    pub status: u16,
    pub error: Option<String>,
}

/// The model of such an answer.
pub struct DeleteResultModel {
    pub id: Seq<char>,
    pub status: u16,
    pub error: Option<Seq<char>>,
}

impl View for BatchDeleteItemResult {
    type V = DeleteResultModel;

    open spec fn view(&self) -> DeleteResultModel {
        DeleteResultModel { id: self.id@, status: self.status, error: opt(self.error) }
    }
}

/// The answer for an id, by the reason why its deletion failed if it did. The
/// reason itself stays inside.
pub open spec fn deleted_answer(id: Seq<char>, failure: Option<Seq<char>>) -> DeleteResultModel {
    match failure {
        None => DeleteResultModel { id, status: 204, error: None },
        Some(reason) => DeleteResultModel {
            id,
            status: status_of(ApiIssue::Internal(reason)),
            error: Some(answer_of(ApiIssue::Internal(reason))),
        },
    }
}

/// The answer for an id, by the reason why its deletion failed if it did.
pub fn deleted_result(id: MemoryId, failure: Option<String>) -> (r: BatchDeleteItemResult)
    ensures
        r@ == deleted_answer(id@, opt(failure)),
{
    match failure {
        None => BatchDeleteItemResult { id, status: 204, error: None },
        Some(reason) => {
            let error = ApiError::Internal(reason);
            BatchDeleteItemResult { id, status: error.status_code(), error: Some(error.answer()) }
        },
    }
}

/// A batch deletion on its way, id by id.
#[derive(Debug)]
pub struct DeleteRun {
    ids: Vec<MemoryId>,
    results: Vec<BatchDeleteItemResult>,
}

/// The model of a batch deletion on its way: all ids, and the answers for the
/// first of them.
pub struct DeleteRunModel {
    pub ids: Seq<Seq<char>>,
    pub results: Seq<DeleteResultModel>,
}

impl View for DeleteRun {
    type V = DeleteRunModel;

    closed spec fn view(&self) -> DeleteRunModel {
        DeleteRunModel { ids: views(self.ids@), results: views(self.results@) }
    }
}

/// A batch deletion of which no id is done.
pub open spec fn deletion_begun(ids: Seq<Seq<char>>) -> DeleteRunModel {
    DeleteRunModel { ids, results: Seq::empty() }
}

/// The id that comes next, if any is left.
pub open spec fn next_id(run: DeleteRunModel) -> Option<Seq<char>> {
    if run.results.len() < run.ids.len() {
        Some(run.ids[run.results.len() as int])
    } else {
        None
    }
}

/// The run after the next id. Once no id is left nothing changes.
pub open spec fn deletion_recorded(
    run: DeleteRunModel,
    failure: Option<Seq<char>>,
) -> DeleteRunModel {
    match next_id(run) {
        Some(id) => DeleteRunModel {
            results: run.results.push(deleted_answer(id, failure)),
            ..run
        },
        None => run,
    }
}

impl DeleteRun {
    /// Begins to delete ids one by one.
    pub fn begin(ids: Vec<MemoryId>) -> (r: DeleteRun)
        ensures
            r@ == deletion_begun(views(ids@)),
    {
        let run = DeleteRun { ids, results: Vec::new() };
        assert(run@.results =~= Seq::<DeleteResultModel>::empty());
        run
    }

    /// The id that comes next, if any is left.
    pub fn next(&self) -> (r: Option<MemoryId>)
        ensures
            opt(r) == next_id(self@),
    {
        if self.results.len() < self.ids.len() {
            let place: usize = self.results.len();
            assert(self@.ids[place as int] == self.ids@[place as int]@);
            Some(self.ids[place].clone())
        } else {
            None
        }
    }

    /// Remembers how the deletion of the next id went: the reason why it failed if
    /// it did.
    pub fn record(&mut self, failure: Option<String>)
        ensures
            final(self)@ == deletion_recorded(old(self)@, opt(failure)),
    {
        let ghost before = self@;
        match self.next() {
            Some(id) => {
                let result = deleted_result(id, failure);
                let ghost model = result@;
                self.results.push(result);
                assert(self@.results =~= before.results.push(model));
            },
            None => {},
        }
    }

    /// The answers so far, which are those of all ids once none is left.
    pub fn answer(self) -> (r: Vec<BatchDeleteItemResult>)
        ensures
            views(r@) == self@.results,
    {
        self.results
    }
}

/// Whatever made the store fail on an item or an id, the client is told the same.
pub proof fn law_store_failures_stay_inside(id: Seq<char>, a: Seq<char>, b: Seq<char>)
    ensures
        stored_answer(id, Some(a)) == stored_answer(id, Some(b)),
        deleted_answer(id, Some(a)) == deleted_answer(id, Some(b)),
        refusal(ApiIssue::Internal(a)) == refusal(ApiIssue::Internal(b)),
{
}

/// A deletion run as it can come about: each answer so far is about the id at its
/// place.
pub open spec fn deletion_sound(run: DeleteRunModel) -> bool {
    &&& run.results.len() <= run.ids.len()
    &&& forall|i: int| 0 <= i < run.results.len() ==> (#[trigger] run.results[i]).id == run.ids[i]
}

/// Every deletion run is sound, from its beginning on; and a failing id stops none
/// of those after it.
pub proof fn law_deletion_runs_are_sound(
    ids: Seq<Seq<char>>,
    run: DeleteRunModel,
    failure: Option<Seq<char>>,
)
    requires
        deletion_sound(run),
    ensures
        deletion_sound(deletion_begun(ids)),
        deletion_sound(deletion_recorded(run, failure)),
        next_id(run) is Some ==> deletion_recorded(run, failure).results.len()
            == run.results.len() + 1,
{
    let after = deletion_recorded(run, failure);
    assert forall|i: int| 0 <= i < after.results.len() implies (#[trigger] after.results[i]).id
        == after.ids[i] by {
        if i < run.results.len() {
            assert(after.results[i] == run.results[i]);
        }
    }
}

/// A batch deletion is answered with one result per id, in their order.
pub proof fn law_deletion_answers_every_id(run: DeleteRunModel)
    requires
        deletion_sound(run),
        next_id(run) is None,
    ensures
        run.results.len() == run.ids.len(),
        forall|i: int| 0 <= i < run.ids.len() ==> (#[trigger] run.results[i]).id == run.ids[i],
{
}

/// A part of a batch is answered by how it fared: what was stored as created, under
/// its id; what the store failed on as an internal failure, under its id; what was
/// refused by its own status, in words, without an id; what was deleted as gone.
pub proof fn law_parts_are_answered_by_how_they_fared(
    id: Seq<char>,
    reason: Seq<char>,
    issue: ApiIssue,
)
    ensures
        stored_answer(id, None) == (WriteResultModel { status: 201, id: Some(id), error: None }),
        stored_answer(id, Some(reason)) == (WriteResultModel {
            status: 500,
            id: Some(id),
            error: Some("internal server error"@),
        }),
        deleted_answer(id, None) == (DeleteResultModel { id, status: 204, error: None }),
        deleted_answer(id, Some(reason)) == (DeleteResultModel {
            id,
            status: 500,
            error: Some("internal server error"@),
        }),
        refusal(issue).id is None,
        refusal(issue).error is Some,
        issue is BadRequest ==> refusal(issue).status == 400,
        issue is NotFound ==> refusal(issue).status == 404,
        issue is PayloadTooLarge ==> refusal(issue).status == 413,
        issue is Internal ==> refusal(issue).status == 500 && refusal(issue).error == Some(
            "internal server error"@,
        ),
        issue matches ApiIssue::BadRequest(m) ==> (refusal(issue).error matches Some(said)
            && m.is_suffix_of(said)),
{
    law_failures_have_their_status(reason);
    if let ApiIssue::BadRequest(m) = issue {
        law_failures_have_their_status(m);
    }
}

/// The items of a batch come in their order, one after another, from the first; a
/// run that is done as a whole ends early where an item is refused, and no other
/// does.
pub proof fn law_items_come_in_their_order(mode: BatchMode, count: nat, run: RunModel)
    ensures
        next_place(begun(mode, count)) == if count == 0 {
            None
        } else {
            Some(0int)
        },
        next_place(run) matches Some(place) ==> place == run.outcomes.len() && place < run.count,
        next_place(run) is None ==> run.outcomes.len() >= run.count || (run.mode
            == BatchMode::Atomic && run.outcomes.last() is Refused),
        run.mode == BatchMode::BestEffort && run.outcomes.len() < run.count ==> next_place(
            run,
        ) is Some,
{
}

/// What is recorded stays recorded, at its place, and one more outcome at most is
/// added.
pub proof fn law_outcomes_are_kept(run: RunModel, outcome: OutcomeModel)
    ensures
        recorded(run, outcome).mode == run.mode,
        recorded(run, outcome).count == run.count,
        run.outcomes.is_prefix_of(recorded(run, outcome).outcomes),
        recorded(run, outcome).outcomes.len() <= run.outcomes.len() + 1,
        next_place(run) is Some && (outcome is Refused || (outcome is Prepared && run.mode
            == BatchMode::Atomic) || (outcome is Stored && run.mode == BatchMode::BestEffort))
            ==> recorded(run, outcome).outcomes == run.outcomes.push(outcome),
{
}

proof fn retired_ids_are_listed(outcomes: Seq<OutcomeModel>, i: int, k: int)
    requires
        0 <= i < outcomes.len(),
        outcomes[i] is Prepared,
        0 <= k < outcomes[i]->Prepared_0.retired.len(),
    ensures
        retired_of(outcomes).contains(outcomes[i]->Prepared_0.retired[k]),
    decreases outcomes.len(),
{
    let front = outcomes.drop_last();
    let before = retired_of(front);
    let all = retired_of(outcomes);
    let x = outcomes[i]->Prepared_0.retired[k];
    if i < front.len() {
        assert(front[i] == outcomes[i]);
        retired_ids_are_listed(front, i, k);
        let at = before.index_of(x);
        assert(all[at] == x);
    } else {
        assert(all[before.len() + k] == x);
    }
}

/// In a batch that is done as a whole, an item that retires facts has them held, and
/// every fact that an earlier item retired is gone for it; in any other batch they
/// are stored at once.
pub proof fn law_next_item_knows_what_is_gone(run: RunModel, i: int, k: int)
    requires
        0 <= i < run.outcomes.len(),
        run.outcomes[i] is Prepared,
        0 <= k < run.outcomes[i]->Prepared_0.retired.len(),
    ensures
        run.mode == BatchMode::Atomic ==> held_for_next(run).together && held_for_next(
            run,
        ).gone.contains(run.outcomes[i]->Prepared_0.retired[k].id) && held_for_next(
            run,
        ).retired.len() == 0,
        run.mode == BatchMode::BestEffort ==> !held_for_next(run).together && held_for_next(
            run,
        ).gone.len() == 0,
{
    retired_ids_are_listed(run.outcomes, i, k);
    let all = retired_of(run.outcomes);
    let x = run.outcomes[i]->Prepared_0.retired[k];
    let at = all.index_of(x);
    assert(ids_in(all)[at] == x.id);
}

/// The retired facts stand before the items in the transaction that ends a batch, so
/// that an item is never overwritten by what another item retired.
pub proof fn law_items_are_written_last(outcomes: Seq<OutcomeModel>)
    ensures
        commit_of(outcomes) matches EndModel::Commit { rows, ids } && {
            &&& rows.len() >= items_of(outcomes).len()
            &&& forall|i: int|
                0 <= i < items_of(outcomes).len() ==> #[trigger] rows[rows.len() - items_of(
                    outcomes,
                ).len() + i] == items_of(outcomes)[i]
            &&& ids.len() == items_of(outcomes).len()
            &&& forall|i: int|
                0 <= i < ids.len() ==> #[trigger] ids[i] == items_of(outcomes)[i].id
        },
{
}

/// The transaction that ends a batch writes nothing but the prepared items and the
/// facts that they retire.
pub proof fn law_commit_writes_nothing_else(outcomes: Seq<OutcomeModel>, row: ItemModel)
    requires
        commit_of(outcomes) matches EndModel::Commit { rows, .. } && rows.contains(row),
    ensures
        exists|i: int|
            {
                &&& 0 <= i < outcomes.len()
                &&& (#[trigger] outcomes[i]) is Prepared
                &&& outcomes[i]->Prepared_0.item == row
                    || outcomes[i]->Prepared_0.retired.contains(row)
            },
{
    let old = retired_of(outcomes);
    let items = items_of(outcomes);
    let rows = old + items;
    let at = rows.index_of(row);
    if at < old.len() {
        assert(old[at] == row);
    } else {
        assert(items[at - old.len()] == row);
    }
    row_has_an_outcome(outcomes, row);
}

proof fn row_has_an_outcome(outcomes: Seq<OutcomeModel>, row: ItemModel)
    requires
        retired_of(outcomes).contains(row) || items_of(outcomes).contains(row),
    ensures
        exists|i: int|
            {
                &&& 0 <= i < outcomes.len()
                &&& (#[trigger] outcomes[i]) is Prepared
                &&& outcomes[i]->Prepared_0.item == row
                    || outcomes[i]->Prepared_0.retired.contains(row)
            },
    decreases outcomes.len(),
{
    if outcomes.len() > 0 {
        let front = outcomes.drop_last();
        let last = outcomes.last();
        assert(outcomes[outcomes.len() - 1] == last);
        if retired_of(front).contains(row) || items_of(front).contains(row) {
            row_has_an_outcome(front, row);
            let i = choose|i: int|
                {
                    &&& 0 <= i < front.len()
                    &&& (#[trigger] front[i]) is Prepared
                    &&& front[i]->Prepared_0.item == row
                        || front[i]->Prepared_0.retired.contains(row)
                };
            assert(outcomes[i] == front[i]);
        } else if let OutcomeModel::Prepared(p) = last {
            if retired_of(outcomes).contains(row) {
                let at = retired_of(outcomes).index_of(row);
                let before = retired_of(front);
                if at < before.len() {
                    assert(before[at] == row);
                } else {
                    assert(p.retired[at - before.len()] == row);
                }
            } else {
                let at = items_of(outcomes).index_of(row);
                let before = items_of(front);
                if at < before.len() {
                    assert(before[at] == row);
                }
            }
        }
    }
}

/// Each outcome has its own answer: a refused item that of its refusal, and an item
/// that was handed to the store that of its storing, whatever became of the others.
pub proof fn law_each_outcome_has_its_answer(
    issue: ApiIssue,
    id: Seq<char>,
    failure: Option<Seq<char>>,
)
    ensures
        result_of(OutcomeModel::Refused(issue)).status == status_of(issue),
        result_of(OutcomeModel::Refused(issue)).id is None,
        result_of(OutcomeModel::Refused(issue)).error is Some,
        result_of(OutcomeModel::Stored { id, failure }).id == Some(id),
        failure is None <==> result_of(OutcomeModel::Stored { id, failure }).status == 201,
        failure is None <==> result_of(OutcomeModel::Stored { id, failure }).error is None,
{
}

/// The answer for the next id of a batch deletion tells how its own deletion went, and
/// leaves the answers before it as they are.
pub proof fn law_deletions_are_answered_by_how_they_went(
    run: DeleteRunModel,
    failure: Option<Seq<char>>,
)
    requires
        run.results.len() < run.ids.len(),
    ensures
        ({
            let after = deletion_recorded(run, failure);
            &&& after.ids == run.ids
            &&& after.results.len() == run.results.len() + 1
            &&& forall|i: int|
                0 <= i < run.results.len() ==> #[trigger] after.results[i] == run.results[i]
            &&& after.results.last().id == run.ids[run.results.len() as int]
            &&& failure is None ==> after.results.last().status == 204
                && after.results.last().error is None
            &&& failure is Some ==> after.results.last().status == 500
                && after.results.last().error is Some
        }),
{
}

} // verus!
