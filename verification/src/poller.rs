//! The polling loop's decisions: when to dispatch a batch, when to back
//! off, and when the watermark may be persisted.
//!
//! The loop around it performs the waiting, the channel sends and the
//! scans; it feeds every database answer and every scan completion back
//! into this machine and obeys the step it is handed.

use vstd::prelude::*;
use crate::batch::{BatchRow, RowModel, BatchModel, spec_batch, row_ok, rows_model, spec_max_time, process_batch_rows};
use crate::cache::Timestamp;

verus! {

/// The mathematical state of the polling loop.
pub struct PollerModel {
    /// Registrations before this time have been processed.
    pub watermark: int,
    /// Scans of the current batch not yet reported done.
    pub pending: nat,
    /// The watermark to persist once the current batch is drained.
    pub commit_time: int,
}

/// What the loop learns between two states.
pub enum EventModel {
    /// The store database answered a poll with these rows.
    Polled(Seq<RowModel>),
    /// One scan worker finished one path of the current batch.
    ScanDone,
}

/// Which events a state admits: polling only between batches, completions
/// only inside one.
pub open spec fn can_step(s: PollerModel, e: EventModel) -> bool {
    match e {
        EventModel::Polled(_) => s.pending == 0,
        EventModel::ScanDone => s.pending > 0,
    }
}

/// A healthy state: the watermark is a time, and a batch in flight always
/// carries a commit time strictly ahead of it.
pub open spec fn model_wf(s: PollerModel) -> bool {
    0 <= s.watermark && (s.pending > 0 ==> s.watermark < s.commit_time && s.commit_time
        <= i64::MAX as int)
}

/// The machine's transition.
pub open spec fn step(s: PollerModel, e: EventModel) -> PollerModel {
    match e {
        EventModel::Polled(rows) => match spec_batch(rows, s.watermark) {
            BatchModel::Rejected(_) => s,
            BatchModel::Ready(paths, t) => if paths.len() == 0 {
                s
            } else {
                PollerModel { watermark: s.watermark, pending: paths.len(), commit_time: t }
            },
        },
        EventModel::ScanDone => if s.pending == 1 {
            PollerModel { watermark: s.commit_time, pending: 0, commit_time: s.commit_time }
        } else {
            PollerModel {
                watermark: s.watermark,
                pending: (s.pending - 1) as nat,
                commit_time: s.commit_time,
            }
        },
    }
}

pub proof fn lemma_max_time_ge(rows: Seq<RowModel>, lo: int)
    requires
        rows.len() > 0,
        forall|i: int| 0 <= i < rows.len() ==> row_ok(#[trigger] rows[i], lo),
    ensures
        lo <= spec_max_time(rows),
        spec_max_time(rows) < i64::MAX as int,
    decreases rows.len(),
{
    if rows.len() == 1 {
        assert(rows.drop_last().len() == 0);
        assert(spec_max_time(rows.drop_last()) == 0);
        assert(rows.last() == rows[0]);
        assert(row_ok(rows[0], lo));
    } else {
        assert(forall|i: int|
            0 <= i < rows.drop_last().len() ==> rows.drop_last()[i] == rows[i]);
        lemma_max_time_ge(rows.drop_last(), lo);
    }
}

/// One step keeps the machine healthy and never lowers the watermark.
pub proof fn lemma_step_wf(s: PollerModel, e: EventModel)
    requires
        model_wf(s),
        can_step(s, e),
    ensures
        model_wf(step(s, e)),
        s.watermark <= step(s, e).watermark,
{
    match e {
        EventModel::Polled(rows) => {
            match spec_batch(rows, s.watermark) {
                BatchModel::Rejected(_) => {},
                BatchModel::Ready(paths, t) => {
                    if paths.len() > 0 {
                        assert(rows.len() == paths.len());
                        lemma_max_time_ge(rows, s.watermark);
                    }
                },
            }
        },
        EventModel::ScanDone => {},
    }
}

/// Persisting is strict: the step that commits a batch's watermark moves
/// it strictly upward.
pub proof fn lemma_commit_strictly_increases(s: PollerModel)
    requires
        model_wf(s),
        s.pending == 1,
    ensures
        step(s, EventModel::ScanDone).watermark > s.watermark,
{
}

/// The machine after a whole run of events.
pub open spec fn run_steps(s: PollerModel, es: Seq<EventModel>) -> PollerModel
    decreases es.len(),
{
    if es.len() == 0 {
        s
    } else {
        run_steps(step(s, es.first()), es.drop_first())
    }
}

/// Every event of the run was admitted by the state it met.
pub open spec fn legal(s: PollerModel, es: Seq<EventModel>) -> bool
    decreases es.len(),
{
    es.len() == 0 || (can_step(s, es.first()) && legal(step(s, es.first()), es.drop_first()))
}

/// Watermark law: along any legal run the watermark never goes down.
pub proof fn lemma_watermark_monotone(s: PollerModel, es: Seq<EventModel>)
    requires
        model_wf(s),
        legal(s, es),
    ensures
        model_wf(run_steps(s, es)),
        s.watermark <= run_steps(s, es).watermark,
    decreases es.len(),
{
    if es.len() > 0 {
        lemma_step_wf(s, es.first());
        lemma_watermark_monotone(step(s, es.first()), es.drop_first());
    }
}

/// Barrier law: a poll that dispatches `n` paths holds its watermark back
/// until exactly `n` scans have reported done; the `n`-th completion, and
/// no earlier one, persists the batch's commit time.
pub proof fn lemma_barrier(s: PollerModel, rows: Seq<RowModel>, dones: Seq<EventModel>)
    requires
        model_wf(s),
        s.pending == 0,
        (match spec_batch(rows, s.watermark) {
            BatchModel::Ready(paths, t) => paths.len() > 0,
            BatchModel::Rejected(_) => false,
        }),
        forall|i: int| 0 <= i < dones.len() ==> dones[i] == EventModel::ScanDone,
        (match spec_batch(rows, s.watermark) {
            BatchModel::Ready(paths, t) => dones.len() <= paths.len(),
            BatchModel::Rejected(_) => false,
        }),
    ensures
        ({
            let s1 = step(s, EventModel::Polled(rows));
            let sk = run_steps(s1, dones);
            match spec_batch(rows, s.watermark) {
                BatchModel::Ready(paths, t) => {
                    &&& legal(s1, dones)
                    &&& (dones.len() < paths.len() ==> sk.watermark == s.watermark && sk.pending
                        == paths.len() - dones.len())
                    &&& (dones.len() == paths.len() ==> sk.watermark == t && sk.pending == 0)
                },
                BatchModel::Rejected(_) => false,
            }
        }),
    decreases dones.len(),
{
    let s1 = step(s, EventModel::Polled(rows));
    lemma_step_wf(s, EventModel::Polled(rows));
    lemma_barrier_drain(s1, dones);
}

/// Draining: while completions arrive one by one, the pending count falls
/// by exactly one each time, and only the last one moves the watermark,
/// to the batch's commit time.
pub proof fn lemma_barrier_drain(s: PollerModel, dones: Seq<EventModel>)
    requires
        model_wf(s),
        dones.len() <= s.pending,
        forall|i: int| 0 <= i < dones.len() ==> dones[i] == EventModel::ScanDone,
    ensures
        legal(s, dones),
        dones.len() < s.pending ==> run_steps(s, dones).watermark == s.watermark && run_steps(
            s,
            dones,
        ).pending == s.pending - dones.len() && run_steps(s, dones).commit_time == s.commit_time,
        dones.len() == s.pending && s.pending > 0 ==> run_steps(s, dones).watermark
            == s.commit_time && run_steps(s, dones).pending == 0,
    decreases dones.len(),
{
    if dones.len() > 0 {
        assert(dones.first() == EventModel::ScanDone);
        lemma_step_wf(s, dones.first());
        assert(forall|i: int|
            0 <= i < dones.drop_first().len() ==> dones.drop_first()[i] == dones[i + 1]);
        let s1 = step(s, dones.first());
        let rest = dones.drop_first();
        lemma_barrier_drain(s1, rest);
        if rest.len() == 0 {
            assert(run_steps(s1, rest) == s1);
        }
    }
}

/// Watermark law, across batches: whatever legally happens after one
/// batch commits, the next batch in flight carries a strictly greater
/// commit time, so successive persisted watermarks strictly increase.
pub proof fn lemma_successive_commits_increase(s: PollerModel, es: Seq<EventModel>)
    requires
        model_wf(s),
        s.pending == 1,
        legal(step(s, EventModel::ScanDone), es),
        run_steps(step(s, EventModel::ScanDone), es).pending > 0,
    ensures
        run_steps(step(s, EventModel::ScanDone), es).commit_time > s.commit_time,
{
    lemma_step_wf(s, EventModel::ScanDone);
    lemma_watermark_monotone(step(s, EventModel::ScanDone), es);
}

/// The polling loop's live state.
pub struct Poller {
    watermark: Timestamp,
    pending: usize,
    commit_time: Timestamp,
}

/// What the loop must do next.
#[derive(Debug, PartialEq)]
pub enum PollStep {
    /// The batch failed; ask again after a short pause.
    Retry,
    /// Nothing new; ask again after a long pause.
    Wait,
    /// Hand these paths to the scan workers and collect a completion
    /// for each before polling again.
    Dispatch(Vec<String>),
}

impl View for Poller {
    type V = PollerModel;

    closed spec fn view(&self) -> PollerModel {
        PollerModel {
            watermark: self.watermark as int,
            pending: self.pending as nat,
            commit_time: self.commit_time as int,
        }
    }
}

impl Poller {
    /// Resumes polling from the watermark the cache holds.
    pub fn resume(stored: Timestamp) -> (r: Poller)
        requires
            0 <= stored,
        ensures
            model_wf(r@),
            r@.watermark == stored as int,
            r@.pending == 0,
    {
        Poller { watermark: stored, pending: 0, commit_time: 0 }
    }

    /// The watermark already processed.
    pub fn watermark(&self) -> (r: Timestamp)
        ensures
            r as int == self@.watermark,
    {
        self.watermark
    }

    /// Scans of the current batch still running.
    pub fn pending(&self) -> (r: usize)
        ensures
            r as nat == self@.pending,
    {
        self.pending
    }

    /// Takes one answer of the store database and decides what to do
    /// with it, validating every row.
    pub fn on_poll(&mut self, rows: &Vec<BatchRow>) -> (r: PollStep)
        requires
            model_wf(old(self)@),
            old(self)@.pending == 0,
        ensures
            model_wf(final(self)@),
            final(self)@ == step(old(self)@, EventModel::Polled(rows_model(rows@))),
            (match spec_batch(rows_model(rows@), old(self)@.watermark) {
                BatchModel::Rejected(_) => r is Retry,
                BatchModel::Ready(paths, t) => if paths.len() == 0 {
                    r is Wait
                } else {
                    r matches PollStep::Dispatch(p) && p.deep_view() == paths
                        && final(self)@.pending == paths.len()
                        && final(self)@.commit_time == t
                },
            }),
    {
        proof {
            lemma_step_wf(self@, EventModel::Polled(rows_model(rows@)));
        }
        match process_batch_rows(rows, self.watermark) {
            Err(_) => PollStep::Retry,
            Ok((paths, t)) => {
                if paths.len() == 0 {
                    PollStep::Wait
                } else {
                    self.pending = paths.len();
                    self.commit_time = t;
                    PollStep::Dispatch(paths)
                }
            },
        }
    }

    /// Takes one scan completion. Returns the watermark to persist when
    /// this was the batch's last scan, and nothing before that.
    pub fn on_scan_done(&mut self) -> (r: Option<Timestamp>)
        requires
            model_wf(old(self)@),
            old(self)@.pending > 0,
        ensures
            model_wf(final(self)@),
            final(self)@ == step(old(self)@, EventModel::ScanDone),
            r is Some <==> old(self)@.pending == 1,
            (match r {
                Some(t) => t as int == old(self)@.commit_time && old(self)@.watermark < t as int
                    && final(self)@.watermark == t as int,
                None => final(self)@.watermark == old(self)@.watermark,
            }),
    {
        self.pending = self.pending - 1;
        if self.pending == 0 {
            self.watermark = self.commit_time;
            Some(self.commit_time)
        } else {
            None
        }
    }
}

} // verus!
