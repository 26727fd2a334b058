//! The ingestion scheduler: which sources there are, how each was last polled,
//! and from when the next poll asks.
use crate::model::{copy_opt, copy_texts, holds_text, opt, views};
use crate::text::{cat, same_text};
use vstd::prelude::*;

verus! {

/// How a source was last polled.
#[derive(Debug, PartialEq, Eq)]
pub struct SourceStats {
    /// When it was last polled with success.
    pub last_poll_at_ms: Option<i64>,
    /// How many memories the last poll brought.
    pub last_success_count: usize,
    /// Why the last poll failed, if it did.
    pub last_error: Option<String>,
    /// How many memories it has brought in all.
    pub total_ingested: u64,
}

/// The model of such statistics.
pub struct StatsModel {
    pub last_poll_at_ms: Option<i64>,
    pub last_success_count: usize,
    pub last_error: Option<Seq<char>>,
    pub total_ingested: u64,
}

impl View for SourceStats {
    type V = StatsModel;

    open spec fn view(&self) -> StatsModel {
        StatsModel {
            last_poll_at_ms: self.last_poll_at_ms,
            last_success_count: self.last_success_count,
            last_error: opt(self.last_error),
            total_ingested: self.total_ingested,
        }
    }
}

impl Clone for SourceStats {
    fn clone(&self) -> (r: SourceStats)
        ensures
            r@ == self@,
    {
        SourceStats {
            last_poll_at_ms: self.last_poll_at_ms,
            last_success_count: self.last_success_count,
            last_error: copy_opt(&self.last_error),
            total_ingested: self.total_ingested,
        }
    }
}

/// The statistics of a source that was never polled.
pub open spec fn no_stats() -> StatsModel {
    StatsModel {
        last_poll_at_ms: None,
        last_success_count: 0,
        last_error: None,
        total_ingested: 0,
    }
}

impl Default for SourceStats {
    fn default() -> (r: SourceStats)
        ensures
            r@ == no_stats(),
    {
        SourceStats {
            last_poll_at_ms: None,
            last_success_count: 0,
            last_error: None,
            total_ingested: 0,
        }
    }
}

/// The state of ingestion, with the statistics of each source that was polled.
#[derive(Debug, PartialEq, Eq)]
pub struct IngestionStatusReport {
    pub poll_interval_secs: u64,
    pub loop_running: bool,
    pub sources: Vec<(String, SourceStats)>,
}

impl IngestionStatusReport {
    /// The statistics of a source; none if it was never polled.
    pub fn source(&self, source_id: &str) -> (r: Option<&SourceStats>)
        ensures
            match r {
                Some(s) => stats_of(views(self.sources@), source_id@) == Some(s@),
                None => stats_of(views(self.sources@), source_id@) is None,
            },
    {
        let ghost all = views(self.sources@);
        match find_entry(&self.sources, source_id) {
            Some(i) => {
                assert(all[i as int].1 == self.sources@[i as int].1@);
                Some(&self.sources[i].1)
            },
            None => None,
        }
    }
}

/// The statistics of sources by name.
pub type Entries = Seq<(Seq<char>, StatsModel)>;

/// The first place where a source's statistics stand.
pub open spec fn entry_place(entries: Entries, source_id: Seq<char>) -> Option<int>
    decreases entries.len(),
{
    if entries.len() == 0 {
        None
    } else {
        match entry_place(entries.drop_last(), source_id) {
            Some(i) => Some(i),
            None => if entries.last().0 == source_id {
                Some(entries.len() - 1)
            } else {
                None
            },
        }
    }
}

/// The statistics of a source, if there are any.
pub open spec fn stats_of(entries: Entries, source_id: Seq<char>) -> Option<StatsModel> {
    match entry_place(entries, source_id) {
        Some(i) => Some(entries[i].1),
        None => None,
    }
}

/// The statistics of a source as the next poll takes them up.
pub open spec fn known_stats(entries: Entries, source_id: Seq<char>) -> StatsModel {
    match stats_of(entries, source_id) {
        Some(s) => s,
        None => no_stats(),
    }
}

/// The entries with those of one source replaced, or added.
pub open spec fn with_stats(entries: Entries, source_id: Seq<char>, stats: StatsModel) -> Entries {
    match entry_place(entries, source_id) {
        Some(i) => entries.update(i, (source_id, stats)),
        None => entries.push((source_id, stats)),
    }
}

/// The place of a source's entry is the first that holds its name.
proof fn place_is_first(entries: Entries, source_id: Seq<char>)
    ensures
        match entry_place(entries, source_id) {
            Some(i) => 0 <= i < entries.len() && entries[i].0 == source_id && forall|k: int|
                0 <= k < i ==> (#[trigger] entries[k]).0 != source_id,
            None => forall|k: int|
                0 <= k < entries.len() ==> (#[trigger] entries[k]).0 != source_id,
        },
    decreases entries.len(),
{
    if entries.len() > 0 {
        let front = entries.drop_last();
        place_is_first(front, source_id);
        match entry_place(front, source_id) {
            Some(i) => {
                assert forall|k: int| 0 <= k < i implies (#[trigger] entries[k]).0 != source_id by {
                    assert(front[k] == entries[k]);
                }
            },
            None => {
                assert forall|k: int| 0 <= k < front.len() implies (#[trigger] entries[k]).0
                    != source_id by {
                    assert(front[k] == entries[k]);
                }
            },
        }
    }
}

/// Replacing the statistics of one source leaves those of the others.
pub proof fn law_stats_are_apart(
    entries: Entries,
    source_id: Seq<char>,
    stats: StatsModel,
    other: Seq<char>,
)
    ensures
        stats_of(with_stats(entries, source_id, stats), source_id) == Some(stats),
        other != source_id ==> stats_of(with_stats(entries, source_id, stats), other) == stats_of(
            entries,
            other,
        ),
{
    let after = with_stats(entries, source_id, stats);
    place_is_first(entries, source_id);
    place_is_first(after, source_id);
    place_is_first(entries, other);
    place_is_first(after, other);
    match entry_place(entries, source_id) {
        Some(i) => {
            assert(after[i].0 == source_id);
            match entry_place(after, source_id) {
                Some(j) => {
                    if j < i {
                        assert(after[j] == entries[j]);
                    }
                },
                None => {},
            }
        },
        None => {
            assert(after[entries.len() as int].0 == source_id);
            match entry_place(after, source_id) {
                Some(j) => {
                    if j < entries.len() {
                        assert(after[j] == entries[j]);
                    }
                },
                None => {},
            }
        },
    }
    if other != source_id {
        match (entry_place(entries, other), entry_place(after, other)) {
            (Some(a), Some(b)) => {
                assert(after[a].0 == other);
                assert(entries[b].0 == other);
            },
            (Some(a), None) => {
                assert(after[a].0 == other);
            },
            (None, Some(b)) => {
                assert(entries[b].0 == other);
            },
            (None, None) => {},
        }
    }
}

fn find_entry(entries: &Vec<(String, SourceStats)>, source_id: &str) -> (r: Option<usize>)
    ensures
        match r {
            Some(i) => entry_place(views(entries@), source_id@) == Some(i as int) && i
                < entries@.len(),
            None => entry_place(views(entries@), source_id@) is None,
        },
{
    let ghost all = views(entries@);
    assert(all.take(0) =~= Seq::<(Seq<char>, StatsModel)>::empty());
    for n in 0..entries.len()
        invariant
            all == views(entries@),
            entry_place(all.take(n as int), source_id@) is None,
    {
        proof {
            assert(all[n as int].0 == entries@[n as int].0@);
            assert(all.take(n + 1).drop_last() =~= all.take(n as int));
            assert(all.take(n + 1).last() == all[n as int]);
        }
        if same_text(entries[n].0.as_str(), source_id) {
            proof {
                place_is_first(all, source_id@);
                place_is_first(all.take(n as int), source_id@);
                let first = entry_place(all, source_id@);
                match first {
                    Some(i) => {
                        if i < n {
                            assert(all.take(n as int)[i] == all[i]);
                        }
                    },
                    None => {
                        assert(all[n as int].0 != source_id@);
                    },
                }
            }
            return Some(n);
        }
    }
    assert(all.take(all.len() as int) =~= all);
    None
}

/// The model of a scheduler.
pub struct SchedulerModel {
    /// The names of the sources, each once, in the order they came.
    pub sources: Seq<Seq<char>>,
    pub poll_interval_secs: u64,
    pub stats: Entries,
    pub loop_running: bool,
}

/// Keeps the names of the sources and how each was last polled.
#[derive(Debug)]
pub struct IngestionScheduler {
    sources: Vec<String>,
    poll_interval_secs: u64,
    stats: Vec<(String, SourceStats)>,
    loop_running: bool,
}

impl View for IngestionScheduler {
    type V = SchedulerModel;

    closed spec fn view(&self) -> SchedulerModel {
        SchedulerModel {
            sources: views(self.sources@),
            poll_interval_secs: self.poll_interval_secs,
            stats: views(self.stats@),
            loop_running: self.loop_running,
        }
    }
}

/// The scheduler after a poll that brought `count` memories.
pub open spec fn polled(s: SchedulerModel, source_id: Seq<char>, count: usize, now_ms: i64) -> SchedulerModel {
    SchedulerModel {
        stats: with_stats(
            s.stats,
            source_id,
            StatsModel {
                last_poll_at_ms: Some(now_ms),
                last_success_count: count,
                last_error: None,
                total_ingested: (known_stats(s.stats, source_id).total_ingested + count) as u64,
            },
        ),
        ..s
    }
}

/// The scheduler after a poll that failed.
pub open spec fn failed(s: SchedulerModel, source_id: Seq<char>, error: Seq<char>) -> SchedulerModel {
    SchedulerModel {
        stats: with_stats(
            s.stats,
            source_id,
            StatsModel {
                last_success_count: 0,
                last_error: Some(error),
                ..known_stats(s.stats, source_id)
            },
        ),
        ..s
    }
}

/// From when the next poll of a source asks; a source that is not there is an
/// error.
pub open spec fn watermark(s: SchedulerModel, source_id: Seq<char>) -> Result<
    Option<i64>,
    Seq<char>,
> {
    if s.sources.contains(source_id) {
        Ok(known_stats(s.stats, source_id).last_poll_at_ms)
    } else {
        Err("unknown source: "@ + source_id)
    }
}

/// What came of a poll.
#[derive(Debug)]
pub enum Poll {
    /// The source gave `count` memories; the store may have failed on one of them.
    Fetched { count: usize, stored: Result<(), String> },
    /// The source failed.
    Failed(String),
}

/// The scheduler after a poll, and what the poll is answered. What the store failed
/// on is no poll of the source: nothing is noted, so that the next one asks for it
/// again.
pub open spec fn after_poll(
    s: SchedulerModel,
    source_id: Seq<char>,
    poll: Poll,
    now_ms: i64,
) -> (SchedulerModel, Result<usize, Seq<char>>) {
    match (watermark(s, source_id), poll) {
        (Err(e), _) => (s, Err(e)),
        (Ok(_), Poll::Fetched { count, stored: Ok(_) }) => (
            polled(s, source_id, count, now_ms),
            Ok(count),
        ),
        (Ok(_), Poll::Fetched { stored: Err(e), .. }) => (s, Err(e@)),
        (Ok(_), Poll::Failed(e)) => (failed(s, source_id, e@), Err(e@)),
    }
}

/// A poll moves the watermark of its source exactly where everything that the
/// source gave is stored.
pub proof fn law_only_stored_polls_move_the_watermark(
    s: SchedulerModel,
    source_id: Seq<char>,
    poll: Poll,
    now_ms: i64,
)
    requires
        s.sources.contains(source_id),
    ensures
        match after_poll(s, source_id, poll, now_ms) {
            (after, Ok(_)) => watermark(after, source_id) == Ok::<Option<i64>, Seq<char>>(
                Some(now_ms),
            ),
            (after, Err(_)) => watermark(after, source_id) == watermark(s, source_id),
        },
{
    match poll {
        Poll::Fetched { count, stored: Ok(_) } => {
            law_success_moves_the_watermark(s, source_id, count, now_ms, source_id);
        },
        Poll::Failed(e) => {
            law_failure_keeps_the_watermark(s, source_id, e@, source_id);
        },
        _ => {},
    }
}

/// A poll that fails leaves the watermark where it was, so that the next one
/// asks for what it missed; no source's watermark moves.
pub proof fn law_failure_keeps_the_watermark(
    s: SchedulerModel,
    source_id: Seq<char>,
    error: Seq<char>,
    any: Seq<char>,
)
    ensures
        watermark(failed(s, source_id, error), any) == watermark(s, any),
        known_stats(failed(s, source_id, error).stats, any).total_ingested == known_stats(
            s.stats,
            any,
        ).total_ingested,
{
    let new = StatsModel {
        last_success_count: 0,
        last_error: Some(error),
        ..known_stats(s.stats, source_id)
    };
    law_stats_are_apart(s.stats, source_id, new, any);
}

/// A poll that succeeds moves the watermark of its source to the moment of the
/// poll, and no other.
pub proof fn law_success_moves_the_watermark(
    s: SchedulerModel,
    source_id: Seq<char>,
    count: usize,
    now_ms: i64,
    other: Seq<char>,
)
    requires
        s.sources.contains(source_id),
    ensures
        watermark(polled(s, source_id, count, now_ms), source_id) == Ok::<Option<i64>, Seq<char>>(
            Some(now_ms),
        ),
        other != source_id ==> watermark(polled(s, source_id, count, now_ms), other) == watermark(
            s,
            other,
        ),
{
    let new = StatsModel {
        last_poll_at_ms: Some(now_ms),
        last_success_count: count,
        last_error: None,
        total_ingested: (known_stats(s.stats, source_id).total_ingested + count) as u64,
    };
    law_stats_are_apart(s.stats, source_id, new, other);
}

impl IngestionScheduler {
    /// A scheduler without sources.
    pub fn new(poll_interval_secs: u64) -> (r: IngestionScheduler)
        ensures
            r@ == (SchedulerModel {
                sources: Seq::empty(),
                poll_interval_secs,
                stats: Seq::empty(),
                loop_running: false,
            }),
    {
        let r = IngestionScheduler {
            sources: Vec::new(),
            poll_interval_secs,
            stats: Vec::new(),
            loop_running: false,
        };
        assert(r@.sources =~= Seq::<Seq<char>>::empty());
        assert(r@.stats =~= Seq::<(Seq<char>, StatsModel)>::empty());
        r
    }

    /// Adds a source, unless it is there already.
    pub fn register_source(&mut self, source_id: &str)
        ensures
            final(self)@ == (SchedulerModel {
                sources: if old(self)@.sources.contains(source_id@) {
                    old(self)@.sources
                } else {
                    old(self)@.sources.push(source_id@)
                },
                ..old(self)@
            }),
    {
        let ghost before = views(self.sources@);
        if !holds_text(&self.sources, source_id) {
            self.sources.push(source_id.to_owned());
            assert(views(self.sources@) =~= before.push(source_id@));
        }
    }

    /// How many sources there are.
    pub fn source_count(&self) -> (r: usize)
        ensures
            r == self@.sources.len(),
    {
        self.sources.len()
    }

    /// How often sources are polled, in seconds.
    pub fn poll_interval(&self) -> (r: u64)
        ensures
            r == self@.poll_interval_secs,
    {
        self.poll_interval_secs
    }

    /// The names of the sources.
    pub fn source_ids(&self) -> (r: Vec<String>)
        ensures
            views(r@) == self@.sources,
    {
        copy_texts(&self.sources)
    }

    /// The state of ingestion.
    pub fn status(&self) -> (r: IngestionStatusReport)
        ensures
            r.poll_interval_secs == self@.poll_interval_secs,
            r.loop_running == self@.loop_running,
            views(r.sources@) == self@.stats,
    {
        let ghost all = views(self.stats@);
        let mut sources: Vec<(String, SourceStats)> = Vec::new();
        for n in 0..self.stats.len()
            invariant
                all == views(self.stats@),
                sources@.len() == n,
                forall|i: int| 0 <= i < n ==> (#[trigger] sources@[i])@ == all[i],
        {
            let entry = &self.stats[n];
            assert(all[n as int] == entry@);
            sources.push((entry.0.clone(), entry.1.clone()));
        }
        assert(views(sources@) =~= all);
        IngestionStatusReport {
            poll_interval_secs: self.poll_interval_secs,
            loop_running: self.loop_running,
            sources,
        }
    }

    /// Notes that the polling loop runs.
    pub fn start_loop(&mut self)
        ensures
            final(self)@ == (SchedulerModel { loop_running: true, ..old(self)@ }),
    {
        self.loop_running = true;
    }

    /// From when a poll of a source asks; the source must be there.
    pub fn since(&self, source_id: &str) -> (r: Result<Option<i64>, String>)
        ensures
            match (r, watermark(self@, source_id@)) {
                (Ok(a), Ok(b)) => a == b,
                (Err(e), Err(f)) => e@ == f,
                _ => false,
            },
    {
        if !holds_text(&self.sources, source_id) {
            return Err(cat("unknown source: ", source_id));
        }
        match find_entry(&self.stats, source_id) {
            Some(i) => {
                assert(views(self.stats@)[i as int].1 == self.stats@[i as int].1@);
                Ok(self.stats[i].1.last_poll_at_ms)
            },
            None => Ok(None),
        }
    }

    fn record(&mut self, source_id: &str, stats: SourceStats)
        ensures
            final(self)@ == (SchedulerModel {
                stats: with_stats(old(self)@.stats, source_id@, stats@),
                ..old(self)@
            }),
    {
        let ghost before = views(self.stats@);
        let ghost new = (source_id@, stats@);
        match find_entry(&self.stats, source_id) {
            Some(i) => {
                self.stats.set(i, (source_id.to_owned(), stats));
                assert(views(self.stats@) =~= before.update(i as int, new));
            },
            None => {
                self.stats.push((source_id.to_owned(), stats));
                assert(views(self.stats@) =~= before.push(new));
            },
        }
    }

    fn current(&self, source_id: &str) -> (r: SourceStats)
        ensures
            r@ == known_stats(self@.stats, source_id@),
    {
        match find_entry(&self.stats, source_id) {
            Some(i) => {
                assert(views(self.stats@)[i as int].1 == self.stats@[i as int].1@);
                self.stats[i].1.clone()
            },
            None => SourceStats::default(),
        }
    }

    /// Notes that a poll of a source at `now_ms` brought `count` memories.
    pub fn record_success(&mut self, source_id: &str, count: usize, now_ms: i64)
        requires
            known_stats(old(self)@.stats, source_id@).total_ingested + count <= u64::MAX,
        ensures
            final(self)@ == polled(old(self)@, source_id@, count, now_ms),
    {
        let current = self.current(source_id);
        self.record(
            source_id,
            SourceStats {
                last_poll_at_ms: Some(now_ms),
                last_success_count: count,
                last_error: None,
                total_ingested: current.total_ingested + count as u64,
            },
        );
    }

    /// Notes that a poll of a source failed.
    pub fn record_failure(&mut self, source_id: &str, error: String)
        ensures
            final(self)@ == failed(old(self)@, source_id@, error@),
    {
        let current = self.current(source_id);
        self.record(
            source_id,
            SourceStats {
                last_poll_at_ms: current.last_poll_at_ms,
                last_success_count: 0,
                last_error: Some(error),
                total_ingested: current.total_ingested,
            },
        );
    }

    /// Notes what came of a poll of a source at `now_ms`, and answers with the
    /// number of memories that it brought.
    pub fn ingest_source(&mut self, source_id: &str, poll: Poll, now_ms: i64) -> (r: Result<
        usize,
        String,
    >)
        requires
            match poll {
                Poll::Fetched { count, stored: Ok(_) } => known_stats(
                    old(self)@.stats,
                    source_id@,
                ).total_ingested + count <= u64::MAX,
                _ => true,
            },
        ensures
            final(self)@ == after_poll(old(self)@, source_id@, poll, now_ms).0,
            match (r, after_poll(old(self)@, source_id@, poll, now_ms).1) {
                (Ok(a), Ok(b)) => a == b,
                (Err(e), Err(f)) => e@ == f,
                _ => false,
            },
    {
        match self.since(source_id) {
            Ok(_) => {},
            Err(e) => return Err(e),
        }
        match poll {
            Poll::Fetched { count, stored: Ok(_) } => {
                self.record_success(source_id, count, now_ms);
                Ok(count)
            },
            Poll::Fetched { stored: Err(e), .. } => Err(e),
            Poll::Failed(e) => {
                let reason = e.clone();
                self.record_failure(source_id, e);
                Err(reason)
            },
        }
    }
}

/// A poll that succeeds is counted: its source has brought so many memories more,
/// its last poll brought that many, and nothing failed. One that fails brings
/// nothing and keeps the reason.
pub proof fn law_polls_are_counted(
    s: SchedulerModel,
    source_id: Seq<char>,
    count: usize,
    now_ms: i64,
    error: Seq<char>,
)
    requires
        known_stats(s.stats, source_id).total_ingested + count <= u64::MAX,
    ensures
        ({
            let after = known_stats(polled(s, source_id, count, now_ms).stats, source_id);
            &&& after.total_ingested == known_stats(s.stats, source_id).total_ingested + count
            &&& after.last_success_count == count
            &&& after.last_error is None
            &&& after.last_poll_at_ms == Some(now_ms)
        }),
        ({
            let after = known_stats(failed(s, source_id, error).stats, source_id);
            &&& after.last_success_count == 0
            &&& after.last_error == Some(error)
        }),
        polled(s, source_id, count, now_ms).sources == s.sources,
        failed(s, source_id, error).sources == s.sources,
{
    law_stats_are_apart(
        s.stats,
        source_id,
        StatsModel {
            last_poll_at_ms: Some(now_ms),
            last_success_count: count,
            last_error: None,
            total_ingested: (known_stats(s.stats, source_id).total_ingested + count) as u64,
        },
        source_id,
    );
    law_stats_are_apart(
        s.stats,
        source_id,
        StatsModel {
            last_success_count: 0,
            last_error: Some(error),
            ..known_stats(s.stats, source_id)
        },
        source_id,
    );
}

/// Only a source that is there can be polled; one that was never polled is asked for
/// all that it has.
pub proof fn law_watermarks_are_those_of_known_sources(s: SchedulerModel, source_id: Seq<char>)
    ensures
        watermark(s, source_id) is Ok <==> s.sources.contains(source_id),
        s.sources.contains(source_id) && s.stats.len() == 0 ==> watermark(s, source_id) == Ok::<
            Option<i64>,
            Seq<char>,
        >(None),
{
}

} // verus!
