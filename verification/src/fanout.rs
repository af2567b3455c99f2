//! One run of the pipeline, from its plan to its summary.
//!
//! The adapters do their work elsewhere. What is sent and what is started next, whenever one
//! of them is done, is decided here: the complete plan goes out first, then every row resolves
//! exactly once, and the summary comes last.

use vstd::prelude::*;

use crate::config::{Config, OnError, Profile, SinkMode};
use crate::event::{Event, EventView};
use crate::names::Named;
use crate::pipeline::{
    build_plan, complete, events_of, outcome_of, plan, rows, runs, runs_of, Progress, Run, SinkFace,
    Transcription, TranscriptionPlan,
};
use crate::session::{SessionRecord, SinkOutcome, SinkRecord, SkipReason};

verus! {

/// What is to be done next.
#[derive(Debug)]
pub struct Moves {
    /// To be sent, in this order.
    pub events: Vec<Event>,
    /// The rows whose callbacks are to be started; each ends in [`Pipeline::delivered`].
    pub start: Vec<usize>,
}

/// How many of the events say that the row of this position has resolved.
pub open spec fn finishes(sent: Seq<EventView>, id: u32) -> nat {
    crate::lists::count(
        sent,
        |event: EventView| event matches EventView::SinkFinished { id: row, .. } && row == id,
    )
}

/// How many of the first `n` rows have this position and have resolved.
pub open spec fn resolved(list: Seq<Run>, results: Seq<Option<SinkRecord>>, id: u32, n: int) -> nat
    decreases n,
{
    if n <= 0 {
        0
    } else {
        resolved(list, results, id, n - 1) + (if list[n - 1].id == id && results[n - 1] is Some {
            1nat
        } else {
            0nat
        })
    }
}

/// The event that says that a row has resolved.
pub open spec fn finished(record: SinkRecord) -> EventView {
    Progress::Finished { record }.announced()
}

/// The event that says that a callback has been started.
pub open spec fn begun(run: Run) -> EventView {
    EventView::SinkStarted { id: run.id, name: run.name@ }
}

/// What is recorded of a callback that did not run.
pub open spec fn skipped(run: Run, reason: SkipReason) -> SinkRecord {
    SinkRecord {
        id: run.id,
        name: run.name,
        kind: run.kind,
        outcome: SinkOutcome::Skipped { reason },
        latency_ms: 0,
        attempts: 0,
    }
}

/// What is recorded of a callback that ran.
pub open spec fn ran(run: Run, result: Result<(), String>, latency_ms: u64, attempts: u32) -> SinkRecord {
    SinkRecord {
        id: run.id,
        name: run.name,
        kind: run.kind,
        outcome: match result {
            Ok(_) => SinkOutcome::Okay,
            Err(error) => SinkOutcome::Failed { error },
        },
        latency_ms,
        attempts,
    }
}

/// Whether a row resolved in a failure.
pub open spec fn failed(result: Option<SinkRecord>) -> bool {
    result matches Some(record) && record.outcome is Failed
}

/// The rows from `from` up to `to` that have not resolved.
pub open spec fn unresolved(results: Seq<Option<SinkRecord>>, from: int, to: int) -> Seq<int>
    decreases to - from,
{
    if to <= from {
        Seq::empty()
    } else if results[to - 1] is None {
        unresolved(results, from, to - 1).push(to - 1)
    } else {
        unresolved(results, from, to - 1)
    }
}

/// A run at any moment.
pub struct PipelineView {
    pub record: SessionRecord,
    pub mode: SinkMode,
    /// Whether the audio stays once there is a transcript.
    pub keep_audio: bool,
    /// The rows, in order.
    pub list: Seq<Run>,
    /// What came of each row, once it has resolved.
    pub results: Seq<Option<SinkRecord>>,
    /// The first row that has neither been started nor resolved.
    pub next: int,
    /// Whether transcription is over.
    pub transcribed: bool,
    /// Why there is no text, when there is none.
    pub no_text: Option<SkipReason>,
    /// Everything that was sent, in order.
    pub sent: Seq<EventView>,
}

impl PipelineView {
    /// Whether the plan went out first and nothing has summed the run up yet, every row that
    /// resolved was announced once, and rows are taken in order.
    pub open spec fn wf(self) -> bool {
        &&& self.results.len() == self.list.len()
        &&& 0 <= self.next <= self.list.len()
        &&& forall|k: int| self.next <= k < self.list.len() ==> (#[trigger] self.results[k]) is None
        &&& !self.transcribed ==> self.next == 0
        &&& self.sent.len() > 0
        &&& self.sent[0] is PipelineStarted
        &&& forall|p: int|
            #![trigger self.sent[p]]
            0 < p < self.sent.len() ==> !(self.sent[p] is PipelineStarted)
                && !(self.sent[p] is PipelineFinished)
        &&& forall|id: u32| #[trigger]
            finishes(self.sent, id) == resolved(
                self.list,
                self.results,
                id,
                self.list.len() as int,
            )
    }

    /// Whether a callback has failed that takes the session with it.
    pub open spec fn halted(self) -> bool {
        exists|k: int|
            0 <= k < self.list.len() && self.list[k].on_error == OnError::FailSession && failed(
                #[trigger] self.results[k],
            )
    }

    /// Why a row is not started, if it is not.
    pub open spec fn verdict(self, row: int) -> Option<SkipReason> {
        if self.list[row].requires_text && self.no_text is Some {
            self.no_text
        } else if self.halted() {
            Some(SkipReason::EarlierSinkFailed)
        } else {
            None
        }
    }

    /// A row resolves.
    pub open spec fn resolve(self, row: int, record: SinkRecord) -> PipelineView {
        PipelineView {
            results: self.results.update(row, Some(record)),
            sent: self.sent.push(finished(record)),
            ..self
        }
    }

    /// The next row is started, or resolves without being started.
    pub open spec fn take_next(self) -> PipelineView {
        let taken = PipelineView { next: self.next + 1, ..self };
        match self.verdict(self.next) {
            Some(reason) => taken.resolve(self.next, skipped(self.list[self.next], reason)),
            None => PipelineView { sent: self.sent.push(begun(self.list[self.next])), ..taken },
        }
    }

    /// Rows are taken until there are none, or one was started that the others wait for.
    pub open spec fn proceed(self) -> PipelineView
        decreases self.list.len() - self.next,
    {
        if self.next >= self.list.len() {
            self
        } else if self.mode == SinkMode::Sequential && self.verdict(self.next) is None {
            self.take_next()
        } else {
            self.take_next().proceed()
        }
    }

    /// Whether this row has been started and has not resolved.
    pub open spec fn running(self, row: int) -> bool {
        0 <= row < self.next && self.results[row] is None
    }

    /// Whether every row has resolved.
    pub open spec fn over(self) -> bool {
        self.transcribed && forall|k: int|
            0 <= k < self.list.len() ==> (#[trigger] self.results[k]) is Some
    }

    /// What came of the rows.
    pub open spec fn records(self) -> Seq<SinkRecord> {
        self.results.map_values(|result: Option<SinkRecord>| result->0)
    }

    /// Whether a move is what leads from one moment to another: it sends what was sent since,
    /// and starts the rows that were.
    pub open spec fn moved(self, after: PipelineView, moves: Moves) -> bool {
        &&& self.sent + events_of(moves.events@) == after.sent
        &&& moves.start@.map_values(|row: usize| row as int) == unresolved(
            after.results,
            self.next,
            after.next,
        )
    }
}

/// Whether these are the events of a whole run over the given rows: the plan comes first and
/// the summary last, neither comes twice, every row is announced once as resolved, and no
/// other is; and the summary counts each row once.
pub open spec fn whole_run(sent: Seq<EventView>, list: Seq<Run>) -> bool {
    &&& sent.len() >= 2
    &&& sent[0] is PipelineStarted
    &&& forall|p: int|
        #![trigger sent[p]]
        0 < p < sent.len() - 1 ==> !(sent[p] is PipelineStarted) && !(sent[p] is PipelineFinished)
    &&& sent.last() matches EventView::PipelineFinished { ok, failed, skipped, .. } && ok + failed
        + skipped == list.len()
    &&& forall|k: int| 0 <= k < list.len() ==> finishes(sent, (#[trigger] list[k]).id) == 1
    &&& forall|id: u32|
        (forall|k: int| 0 <= k < list.len() ==> (#[trigger] list[k]).id != id)
            ==> #[trigger] finishes(sent, id) == 0
}

/// Whether the positions of rows ascend.
pub open spec fn ids_ascend(list: Seq<Run>) -> bool {
    forall|i: int, j: int|
        #![trigger list[i], list[j]]
        0 <= i < j < list.len() ==> list[i].id < list[j].id
}

proof fn lemma_finishes_push(sent: Seq<EventView>, event: EventView, id: u32)
    ensures
        finishes(sent.push(event), id) == finishes(sent, id) + (if (
        event matches EventView::SinkFinished { id: row, .. } && row == id) {
            1nat
        } else {
            0nat
        }),
{
    assert(sent.push(event).drop_last() =~= sent);
}

proof fn lemma_resolved_update(
    list: Seq<Run>,
    results: Seq<Option<SinkRecord>>,
    row: int,
    record: SinkRecord,
    id: u32,
    n: int,
)
    requires
        0 <= row < results.len(),
        results.len() == list.len(),
        results[row] is None,
        0 <= n <= list.len(),
    ensures
        resolved(list, results.update(row, Some(record)), id, n) == resolved(list, results, id, n)
            + (if row < n && list[row].id == id {
            1nat
        } else {
            0nat
        }),
    decreases n,
{
    if n > 0 {
        lemma_resolved_update(list, results, row, record, id, n - 1);
    }
}

/// A row that resolves under its own position keeps a run in order.
proof fn lemma_resolve(run: PipelineView, row: int, record: SinkRecord)
    requires
        run.wf(),
        0 <= row < run.next,
        run.results[row] is None,
        record.id == run.list[row].id,
    ensures
        run.resolve(row, record).wf(),
{
    let after = run.resolve(row, record);
    assert forall|id: u32| #[trigger]
        finishes(after.sent, id) == resolved(
            after.list,
            after.results,
            id,
            after.list.len() as int,
        ) by {
        lemma_finishes_push(run.sent, finished(record), id);
        lemma_resolved_update(
            run.list,
            run.results,
            row,
            record,
            id,
            run.list.len() as int,
        );
        assert(finishes(run.sent, id) == resolved(
            run.list,
            run.results,
            id,
            run.list.len() as int,
        ));
    }
    assert(forall|p: int| 0 <= p < run.sent.len() ==> after.sent[p] == run.sent[p]);
}

/// Sending something that is neither a plan nor a summary nor the end of a row keeps a run in
/// order.
proof fn lemma_send(run: PipelineView, event: EventView)
    requires
        run.wf(),
        !(event is PipelineStarted),
        !(event is PipelineFinished),
        !(event is SinkFinished),
    ensures
        (PipelineView { sent: run.sent.push(event), ..run }).wf(),
{
    let after = PipelineView { sent: run.sent.push(event), ..run };
    assert forall|id: u32| #[trigger]
        finishes(after.sent, id) == resolved(
            after.list,
            after.results,
            id,
            after.list.len() as int,
        ) by {
        lemma_finishes_push(run.sent, event, id);
        assert(finishes(run.sent, id) == resolved(
            run.list,
            run.results,
            id,
            run.list.len() as int,
        ));
    }
    assert(forall|p: int| 0 <= p < run.sent.len() ==> after.sent[p] == run.sent[p]);
}

proof fn lemma_take_next(run: PipelineView)
    requires
        run.wf(),
        run.transcribed,
        run.next < run.list.len(),
    ensures
        run.take_next().wf(),
        run.take_next().transcribed,
{
    let taken = PipelineView { next: run.next + 1, ..run };
    assert(taken.wf()) by {
        assert(forall|id: u32| #[trigger]
            finishes(taken.sent, id) == resolved(
                taken.list,
                taken.results,
                id,
                taken.list.len() as int,
            ));
    }
    assert(run.results[run.next] is None);
    match run.verdict(run.next) {
        Some(reason) => lemma_resolve(taken, run.next, skipped(run.list[run.next], reason)),
        None => lemma_send(taken, begun(run.list[run.next])),
    }
}

/// How often each position occurs among rows that have all resolved.
proof fn lemma_all_resolved(list: Seq<Run>, results: Seq<Option<SinkRecord>>, id: u32, n: int)
    requires
        0 <= n <= list.len(),
        results.len() == list.len(),
        ids_ascend(list),
        forall|k: int| 0 <= k < list.len() ==> (#[trigger] results[k]) is Some,
    ensures
        resolved(list, results, id, n) <= 1,
        resolved(list, results, id, n) == 1 <==> exists|k: int|
            0 <= k < n && (#[trigger] list[k]).id == id,
    decreases n,
{
    if n > 0 {
        lemma_all_resolved(list, results, id, n - 1);
        assert(results[n - 1] is Some);
        if list[n - 1].id == id {
            assert(forall|k: int| 0 <= k < n - 1 ==> (#[trigger] list[k]).id != id);
        } else if resolved(list, results, id, n - 1) == 1 {
            let k = choose|k: int| 0 <= k < n - 1 && (#[trigger] list[k]).id == id;
            assert(list[k].id == id);
        }
    }
}

/// Summing a run up, once every row has resolved, makes it whole.
proof fn lemma_whole_run(run: PipelineView, summary: EventView)
    requires
        run.wf(),
        run.over(),
        ids_ascend(run.list),
        summary matches EventView::PipelineFinished { ok, failed, skipped, .. } && ok + failed
            + skipped == run.list.len(),
    ensures
        whole_run(run.sent.push(summary), run.list),
{
    let sent = run.sent.push(summary);
    assert(sent.last() == summary);
    assert(forall|p: int| 0 <= p < run.sent.len() ==> sent[p] == run.sent[p]);
    assert forall|id: u32|
        finishes(sent, id) == (if exists|k: int|
            0 <= k < run.list.len() && (#[trigger] run.list[k]).id == id {
            1nat
        } else {
            0nat
        }) by {
        lemma_finishes_push(run.sent, summary, id);
        assert(finishes(run.sent, id) == resolved(
            run.list,
            run.results,
            id,
            run.list.len() as int,
        ));
        lemma_all_resolved(run.list, run.results, id, run.list.len() as int);
    }
    assert forall|k: int| 0 <= k < run.list.len() implies finishes(
        sent,
        (#[trigger] run.list[k]).id,
    ) == 1 by {
        assert(run.list[k].id == run.list[k].id);
    }
}

/// The unresolved rows of a range depend on what came of the rows in it alone.
proof fn lemma_unresolved(
    results: Seq<Option<SinkRecord>>,
    others: Seq<Option<SinkRecord>>,
    from: int,
    to: int,
)
    requires
        forall|k: int| from <= k < to ==> results[k] == others[k],
    ensures
        unresolved(results, from, to) == unresolved(others, from, to),
    decreases to - from,
{
    if to > from {
        lemma_unresolved(results, others, from, to - 1);
    }
}

/// Taking rows leaves alone what is not theirs, and keeps a run in order.
proof fn lemma_proceed(run: PipelineView)
    requires
        run.wf(),
        run.transcribed,
    ensures
        run.proceed().wf(),
        run.proceed().transcribed,
        run.proceed().record == run.record,
        run.proceed().list == run.list,
        run.sent.is_prefix_of(run.proceed().sent),
    decreases run.list.len() - run.next,
{
    if run.next < run.list.len() {
        lemma_take_next(run);
        let after = run.take_next();
        assert(run.sent.is_prefix_of(after.sent));
        if !(run.mode == SinkMode::Sequential && run.verdict(run.next) is None) {
            lemma_proceed(after);
        }
    }
}

/// Whatever happens in a run, it stays in order and nothing that was sent is taken back.
pub proof fn law_every_step_keeps_a_run_in_order(
    run: PipelineView,
    row: int,
    result: Result<(), String>,
    latency_ms: u64,
    attempts: u32,
)
    requires
        run.wf(),
        run.transcribed,
        run.running(row),
    ensures
        ({
            let after = run.resolve(row, ran(run.list[row], result, latency_ms, attempts)).proceed();
            &&& after.wf()
            &&& run.sent.is_prefix_of(after.sent)
            &&& after.list == run.list
        }),
{
    let record = ran(run.list[row], result, latency_ms, attempts);
    lemma_resolve(run, row, record);
    lemma_proceed(run.resolve(row, record));
    assert(run.sent.is_prefix_of(run.resolve(row, record).sent));
}

/// A run is announced as an indicator needs it. When every callback of a profile was built and
/// is configured, the plan that went out first has a row for each of them, in order, under the
/// positions 0, 1, and so on; and over the whole run, each position resolves exactly once and
/// no other does.
pub proof fn law_a_run_resolves_every_row_it_planned(
    sent: Seq<EventView>,
    list: Seq<Run>,
    names: Seq<String>,
    built: Seq<(String, SinkFace)>,
    configured: Seq<(String, crate::config::SinkConfig)>,
    id: u32,
)
    requires
        whole_run(sent, list),
        runs_of(list) == runs(names, built, configured),
        names.len() <= u32::MAX,
        forall|i: int|
            0 <= i < names.len() ==> crate::names::lookup(built, (#[trigger] names[i])@) is Some
                && crate::names::lookup(configured, names[i]@) is Some,
    ensures
        rows(names, built).len() == names.len(),
        forall|i: int|
            #![trigger rows(names, built)[i]]
            0 <= i < names.len() ==> rows(names, built)[i].id == i && rows(names, built)[i].name
                == names[i]@,
        finishes(sent, id) == (if id < names.len() {
            1nat
        } else {
            0nat
        }),
        list.len() == names.len(),
{
    crate::pipeline::lemma_all_run(names, built, configured);
    assert(runs_of(list).len() == list.len());
    assert forall|k: int| 0 <= k < list.len() implies (#[trigger] list[k]).id == k by {
        assert(runs_of(list)[k] == list[k]@);
    }
    if id < names.len() {
        assert(list[id as int].id == id);
    }
}

/// Once a callback has failed that takes the session with it, nothing more is started: every
/// row that is left resolves without running.
pub proof fn law_a_decisive_failure_starts_nothing_more(run: PipelineView)
    requires
        run.wf(),
        run.transcribed,
        run.halted(),
    ensures
        run.proceed().next == run.list.len(),
        forall|k: int|
            run.next <= k < run.list.len() ==> (#[trigger] run.proceed().results[k]) is Some,
    decreases run.list.len() - run.next,
{
    if run.next < run.list.len() {
        lemma_take_next(run);
        let after = run.take_next();
        let k = choose|k: int|
            0 <= k < run.list.len() && run.list[k].on_error == OnError::FailSession && failed(
                #[trigger] run.results[k],
            );
        assert(run.results[run.next] is None);
        assert(failed(after.results[k]));
        law_a_decisive_failure_starts_nothing_more(after);
        lemma_proceed_keeps_results(after, run.next);
    }
}

proof fn lemma_proceed_keeps_results(run: PipelineView, row: int)
    requires
        run.wf(),
        run.transcribed,
        0 <= row < run.next,
    ensures
        run.proceed().results[row] == run.results[row],
    decreases run.list.len() - run.next,
{
    if run.next < run.list.len() {
        lemma_take_next(run);
        if !(run.mode == SinkMode::Sequential && run.verdict(run.next) is None) {
            lemma_proceed_keeps_results(run.take_next(), row);
        }
    }
}

/// One callback that has come back.
pub struct Delivery {
    pub row: int,
    pub result: Result<(), String>,
    pub latency_ms: u64,
    pub attempts: u32,
}

/// How often a position is announced as started.
pub open spec fn starts(sent: Seq<EventView>, id: u32) -> nat {
    crate::lists::count(
        sent,
        |event: EventView| event matches EventView::SinkStarted { id: row, .. } && row == id,
    )
}

/// Whether a row resolved without being started.
pub open spec fn passed_over(result: Option<SinkRecord>) -> bool {
    result matches Some(record) && record.outcome is Skipped
}

/// How many of the first `n` rows have this position and were not passed over.
pub open spec fn let_through(
    list: Seq<Run>,
    results: Seq<Option<SinkRecord>>,
    id: u32,
    n: int,
) -> nat
    decreases n,
{
    if n <= 0 {
        0
    } else {
        let_through(list, results, id, n - 1) + (if list[n - 1].id == id && !passed_over(
            results[n - 1],
        ) {
            1nat
        } else {
            0nat
        })
    }
}

impl PipelineView {
    /// The run once transcription is over.
    pub open spec fn told(self, transcription: Transcription) -> PipelineView {
        PipelineView {
            no_text: transcription.skip(),
            transcribed: true,
            sent: self.sent + transcription.announced(),
            ..self
        }.proceed()
    }

    /// The run after callbacks have come back. One that is not running cannot.
    pub open spec fn after_deliveries(self, deliveries: Seq<Delivery>) -> PipelineView
        decreases deliveries.len(),
    {
        if deliveries.len() == 0 {
            self
        } else {
            let before = self.after_deliveries(deliveries.drop_last());
            let back = deliveries.last();
            if before.running(back.row) {
                before.resolve(
                    back.row,
                    ran(before.list[back.row], back.result, back.latency_ms, back.attempts),
                ).proceed()
            } else {
                before
            }
        }
    }

    /// Whether every row so far was decided as it should be: passed over for want of text or
    /// after a decisive failure, and started once otherwise.
    spec fn decided(self, earlier: Seq<EventView>) -> bool {
        &&& self.results.len() == self.list.len()
        &&& 0 <= self.next <= self.list.len()
        &&& forall|k: int| self.next <= k < self.list.len() ==> (#[trigger] self.results[k]) is None
        &&& forall|k: int|
            #![trigger self.results[k]]
            0 <= k < self.next && self.list[k].requires_text && self.no_text is Some
                ==> self.results[k] == Some(skipped(self.list[k], self.no_text->0))
        &&& forall|k: int|
            #![trigger self.results[k]]
            0 <= k < self.next && passed_over(self.results[k]) ==> {
                ||| self.list[k].requires_text && self.no_text is Some
                ||| self.results[k] == Some(skipped(self.list[k], SkipReason::EarlierSinkFailed))
                    && self.halted()
            }
        &&& forall|id: u32| #[trigger]
            starts(self.sent, id) == starts(earlier, id) + let_through(
                self.list,
                self.results,
                id,
                self.next,
            )
    }

    /// Whether nothing stands in the way of the next row.
    spec fn clear(self) -> bool {
        self.mode == SinkMode::Sequential ==> forall|k: int|
            0 <= k < self.next ==> (#[trigger] self.results[k]) is Some
    }

    /// Whether rows are taken as the mode says: all at once, or each after the one before.
    spec fn paced(self) -> bool {
        &&& self.mode != SinkMode::Sequential ==> self.next == self.list.len()
        &&& self.mode == SinkMode::Sequential ==> {
            &&& forall|k: int| 0 <= k < self.next - 1 ==> (#[trigger] self.results[k]) is Some
            &&& self.next < self.list.len() ==> self.running(self.next - 1)
        }
    }
}

proof fn lemma_starts_push(sent: Seq<EventView>, event: EventView, id: u32)
    ensures
        starts(sent.push(event), id) == starts(sent, id) + (if (
        event matches EventView::SinkStarted { id: row, .. } && row == id) {
            1nat
        } else {
            0nat
        }),
{
    assert(sent.push(event).drop_last() =~= sent);
}

proof fn lemma_let_through_update(
    list: Seq<Run>,
    results: Seq<Option<SinkRecord>>,
    row: int,
    record: SinkRecord,
    id: u32,
    n: int,
)
    requires
        0 <= row < results.len(),
        results.len() == list.len(),
        results[row] is None,
        0 <= n <= list.len(),
        n <= row || !(record.outcome is Skipped),
    ensures
        let_through(list, results.update(row, Some(record)), id, n) == let_through(
            list,
            results,
            id,
            n,
        ),
    decreases n,
{
    if n > 0 {
        lemma_let_through_update(list, results, row, record, id, n - 1);
    }
}

proof fn lemma_still_halted(run: PipelineView, row: int, record: SinkRecord)
    requires
        0 <= row < run.results.len(),
        run.results.len() == run.list.len(),
        run.results[row] is None,
        run.halted(),
    ensures
        run.resolve(row, record).halted(),
{
    let k = choose|k: int|
        0 <= k < run.list.len() && run.list[k].on_error == OnError::FailSession && failed(
            #[trigger] run.results[k],
        );
    assert(failed(run.resolve(row, record).results[k]));
}

proof fn lemma_decided_take(run: PipelineView, earlier: Seq<EventView>)
    requires
        run.decided(earlier),
        run.next < run.list.len(),
    ensures
        run.take_next().decided(earlier),
        forall|k: int|
            0 <= k < run.list.len() && k != run.next ==> #[trigger] run.take_next().results[k]
                == run.results[k],
        run.verdict(run.next) is None ==> run.take_next().results == run.results,
        run.verdict(run.next) is Some ==> run.take_next().results[run.next] is Some,
        run.take_next().next == run.next + 1,
{
    let row = run.next;
    let after = run.take_next();
    assert(run.results[row] is None);
    match run.verdict(row) {
        Some(reason) => {
            let record = skipped(run.list[row], reason);
            if run.halted() {
                lemma_still_halted(run, row, record);
                assert(after.halted()) by {
                    let resolved = run.resolve(row, record);
                    let k = choose|k: int|
                        0 <= k < run.list.len() && run.list[k].on_error == OnError::FailSession
                            && failed(#[trigger] resolved.results[k]);
                    assert(failed(after.results[k]));
                }
            }
            assert forall|id: u32| #[trigger]
                starts(after.sent, id) == starts(earlier, id) + let_through(
                    after.list,
                    after.results,
                    id,
                    after.next,
                ) by {
                lemma_starts_push(run.sent, finished(record), id);
                assert(starts(run.sent, id) == starts(earlier, id) + let_through(
                    run.list,
                    run.results,
                    id,
                    run.next,
                ));
                lemma_let_through_update(run.list, run.results, row, record, id, row);
                assert(passed_over(after.results[row]));
            }
        },
        None => {
            assert forall|id: u32| #[trigger]
                starts(after.sent, id) == starts(earlier, id) + let_through(
                    after.list,
                    after.results,
                    id,
                    after.next,
                ) by {
                lemma_starts_push(run.sent, begun(run.list[row]), id);
                assert(starts(run.sent, id) == starts(earlier, id) + let_through(
                    run.list,
                    run.results,
                    id,
                    run.next,
                ));
            }
            assert forall|k: int|
                #![trigger after.results[k]]
                0 <= k < after.next && passed_over(after.results[k]) implies {
                ||| after.list[k].requires_text && after.no_text is Some
                ||| after.results[k] == Some(
                    skipped(after.list[k], SkipReason::EarlierSinkFailed),
                ) && after.halted()
            } by {
                assert(passed_over(run.results[k]));
                assert(run.halted() ==> after.halted()) by {
                    if run.halted() {
                        let j = choose|j: int|
                            0 <= j < run.list.len() && run.list[j].on_error
                                == OnError::FailSession && failed(#[trigger] run.results[j]);
                        assert(failed(after.results[j]));
                    }
                }
            }
        },
    }
}

proof fn lemma_decided_proceed(run: PipelineView, earlier: Seq<EventView>)
    requires
        run.decided(earlier),
        run.clear(),
    ensures
        run.proceed().decided(earlier),
        run.proceed().paced(),
        run.proceed().list == run.list,
        run.proceed().mode == run.mode,
        run.proceed().no_text == run.no_text,
        run.next <= run.proceed().next,
        forall|k: int|
            0 <= k < run.next ==> #[trigger] run.proceed().results[k] == run.results[k],
    decreases run.list.len() - run.next,
{
    if run.next < run.list.len() {
        lemma_decided_take(run, earlier);
        let after = run.take_next();
        if run.mode == SinkMode::Sequential && run.verdict(run.next) is None {
            assert(run.results[run.next] is None);
        } else {
            if run.mode == SinkMode::Sequential {
                assert forall|k: int| 0 <= k < after.next implies (
                #[trigger] after.results[k]) is Some by {
                    if k < run.next {
                        assert(run.results[k] is Some);
                    }
                }
            }
            lemma_decided_proceed(after, earlier);
            assert forall|k: int| 0 <= k < run.next implies #[trigger] run.proceed().results[k]
                == run.results[k] by {
                assert(run.proceed().results[k] == after.results[k]);
            }
        }
    }
}

proof fn lemma_decided_resolve(
    run: PipelineView,
    row: int,
    record: SinkRecord,
    earlier: Seq<EventView>,
)
    requires
        run.decided(earlier),
        run.paced(),
        run.running(row),
        !(record.outcome is Skipped),
    ensures
        run.resolve(row, record).decided(earlier),
        run.resolve(row, record).clear(),
{
    let after = run.resolve(row, record);
    if run.halted() {
        lemma_still_halted(run, row, record);
    }
    assert(!(run.list[row].requires_text && run.no_text is Some));
    assert forall|k: int|
        #![trigger after.results[k]]
        0 <= k < after.next && passed_over(after.results[k]) implies {
        ||| after.list[k].requires_text && after.no_text is Some
        ||| after.results[k] == Some(skipped(after.list[k], SkipReason::EarlierSinkFailed))
            && after.halted()
    } by {
        assert(k != row);
        assert(passed_over(run.results[k]));
    }
    assert forall|id: u32| #[trigger]
        starts(after.sent, id) == starts(earlier, id) + let_through(
            after.list,
            after.results,
            id,
            after.next,
        ) by {
        lemma_starts_push(run.sent, finished(record), id);
        assert(starts(run.sent, id) == starts(earlier, id) + let_through(
            run.list,
            run.results,
            id,
            run.next,
        ));
        lemma_let_through_update(run.list, run.results, row, record, id, run.next);
    }
    if run.mode == SinkMode::Sequential {
        assert forall|k: int| 0 <= k < after.next implies (#[trigger] after.results[k]) is Some by {
            assert(row == run.next - 1);
            if k != row {
                assert(run.results[k] is Some);
            }
        }
    }
}

proof fn lemma_starts_of_announced(sent: Seq<EventView>, more: Seq<EventView>, id: u32)
    requires
        forall|p: int| 0 <= p < more.len() ==> !((#[trigger] more[p]) is SinkStarted),
    ensures
        starts(sent + more, id) == starts(sent, id),
    decreases more.len(),
{
    if more.len() == 0 {
        assert(sent + more =~= sent);
    } else {
        lemma_starts_of_announced(sent, more.drop_last(), id);
        assert(sent + more =~= (sent + more.drop_last()).push(more.last()));
        lemma_starts_push(sent + more.drop_last(), more.last(), id);
    }
}

proof fn lemma_decided_told(start: PipelineView, transcription: Transcription)
    requires
        start.wf(),
        !start.transcribed,
    ensures
        start.told(transcription).decided(start.sent),
        start.told(transcription).paced(),
        start.told(transcription).list == start.list,
        start.told(transcription).mode == start.mode,
        start.told(transcription).no_text == transcription.skip(),
{
    let ready = PipelineView {
        no_text: transcription.skip(),
        transcribed: true,
        sent: start.sent + transcription.announced(),
        ..start
    };
    assert forall|id: u32| #[trigger]
        starts(ready.sent, id) == starts(start.sent, id) + let_through(
            ready.list,
            ready.results,
            id,
            ready.next,
        ) by {
        lemma_starts_of_announced(start.sent, transcription.announced(), id);
    }
    lemma_decided_proceed(ready, start.sent);
}

proof fn lemma_decided_deliveries(
    start: PipelineView,
    transcription: Transcription,
    deliveries: Seq<Delivery>,
)
    requires
        start.wf(),
        !start.transcribed,
    ensures
        ({
            let end = start.told(transcription).after_deliveries(deliveries);
            &&& end.decided(start.sent)
            &&& end.paced()
            &&& end.list == start.list
            &&& end.mode == start.mode
            &&& end.no_text == transcription.skip()
        }),
    decreases deliveries.len(),
{
    lemma_decided_told(start, transcription);
    if deliveries.len() > 0 {
        lemma_decided_deliveries(start, transcription, deliveries.drop_last());
        let before = start.told(transcription).after_deliveries(deliveries.drop_last());
        let back = deliveries.last();
        if before.running(back.row) {
            let record = ran(before.list[back.row], back.result, back.latency_ms, back.attempts);
            lemma_decided_resolve(before, back.row, record, start.sent);
            lemma_decided_proceed(before.resolve(back.row, record), start.sent);
        }
    }
}

/// Without text, whatever the reason (transcription not asked for, a transcriber not built,
/// a failure, or nothing heard), no callback that needs text is ever started, whichever
/// callbacks come back in whatever order: each such row that was taken has resolved as
/// skipped, for exactly that reason, without an attempt, and was never announced as started.
pub proof fn law_without_text_nothing_that_needs_it_starts(
    start: PipelineView,
    transcription: Transcription,
    reason: SkipReason,
    deliveries: Seq<Delivery>,
    row: int,
)
    requires
        start.wf(),
        !start.transcribed,
        ({
            ||| transcription is NotAsked && reason == SkipReason::NoTranscript
            ||| transcription is NotBuilt && reason == SkipReason::TranscriptionFailed
            ||| transcription is Failed && reason == SkipReason::TranscriptionFailed
            ||| (transcription matches Transcription::Done { transcript, .. }
                && transcript.text@.len() == 0 && reason == SkipReason::NoTranscript)
        }),
        0 <= row < start.list.len(),
        start.list[row].requires_text,
        ids_ascend(start.list),
    ensures
        ({
            let end = start.told(transcription).after_deliveries(deliveries);
            &&& !end.running(row)
            &&& row < end.next ==> (end.results[row] matches Some(record) && record.outcome == (
            SinkOutcome::Skipped { reason }) && record.id == start.list[row].id && record.name
                == start.list[row].name && record.kind == start.list[row].kind && record.attempts
                == 0 && record.latency_ms == 0)
            &&& starts(end.sent, start.list[row].id) == starts(start.sent, start.list[row].id)
        }),
{
    lemma_decided_deliveries(start, transcription, deliveries);
    let end = start.told(transcription).after_deliveries(deliveries);
    if row < end.next {
        assert(end.results[row] == Some(skipped(end.list[row], end.no_text->0)));
        assert(passed_over(end.results[row]));
    }
    lemma_let_through_one(end.list, end.results, row, end.next);
}

proof fn lemma_let_through_one(
    list: Seq<Run>,
    results: Seq<Option<SinkRecord>>,
    row: int,
    n: int,
)
    requires
        ids_ascend(list),
        0 <= row < list.len(),
        0 <= n <= list.len(),
        results.len() == list.len(),
    ensures
        let_through(list, results, list[row].id, n) == (if row < n && !passed_over(results[row]) {
            1nat
        } else {
            0nat
        }),
    decreases n,
{
    if n > 0 {
        lemma_let_through_one(list, results, row, n - 1);
        if n - 1 < row {
            assert(list[n - 1].id < list[row].id);
        } else if row < n - 1 {
            assert(list[row].id < list[n - 1].id);
        }
    }
}

/// A callback is passed over only for want of text, if it needs text, or because a callback
/// has failed that takes the session with it. Every other one that was taken is announced as
/// started, once, and is running or has an outcome of its own.
pub proof fn law_nothing_is_passed_over_without_reason(
    start: PipelineView,
    transcription: Transcription,
    deliveries: Seq<Delivery>,
    row: int,
)
    requires
        start.wf(),
        !start.transcribed,
        0 <= row < start.list.len(),
        ids_ascend(start.list),
        !start.list[row].requires_text || (transcription matches Transcription::Done {
            transcript,
            ..
        } && transcript.text@.len() > 0),
    ensures
        ({
            let end = start.told(transcription).after_deliveries(deliveries);
            let spoiled = exists|k: int|
                0 <= k < end.list.len() && end.list[k].on_error == OnError::FailSession && (
                #[trigger] end.results[k] matches Some(record) && record.outcome is Failed);
            let taken = row < end.next;
            &&& !spoiled && taken ==> end.running(row) || (end.results[row] matches Some(record)
                && !(record.outcome is Skipped))
            &&& !spoiled ==> starts(end.sent, start.list[row].id) == starts(
                start.sent,
                start.list[row].id,
            ) + (if taken {
                1nat
            } else {
                0nat
            })
            &&& taken && (end.results[row] matches Some(record) && record.outcome is Skipped)
                ==> spoiled && (end.results[row]->0).outcome == (SinkOutcome::Skipped {
                reason: SkipReason::EarlierSinkFailed,
            })
        }),
{
    lemma_decided_deliveries(start, transcription, deliveries);
    let end = start.told(transcription).after_deliveries(deliveries);
    lemma_let_through_one(end.list, end.results, row, end.next);
    if row < end.next && passed_over(end.results[row]) {
        assert(end.halted());
        let k = choose|k: int|
            0 <= k < end.list.len() && end.list[k].on_error == OnError::FailSession && failed(
                #[trigger] end.results[k],
            );
        assert(end.results[k] is Some);
    }
}

/// In parallel every callback is taken at once. One after another, a callback is only started
/// when each one before it has resolved, so no two run at the same time. Either way a run in
/// which nothing is running has resolved every row.
pub proof fn law_callbacks_are_started_as_the_mode_says(
    start: PipelineView,
    transcription: Transcription,
    deliveries: Seq<Delivery>,
    row: int,
    other: int,
)
    requires
        start.wf(),
        !start.transcribed,
    ensures
        ({
            let end = start.told(transcription).after_deliveries(deliveries);
            &&& start.mode == SinkMode::Parallel ==> end.next == start.list.len()
            &&& start.mode == SinkMode::Sequential && end.running(row) && 0 <= other < row
                ==> end.results[other] is Some
            &&& start.mode == SinkMode::Sequential && end.running(row) && end.running(other)
                ==> row == other
            &&& (forall|k: int| !end.running(k)) ==> forall|k: int|
                0 <= k < start.list.len() ==> (#[trigger] end.results[k]) is Some
        }),
{
    lemma_decided_deliveries(start, transcription, deliveries);
    let end = start.told(transcription).after_deliveries(deliveries);
    if forall|k: int| !end.running(k) {
        assert(!end.running(end.next - 1));
        assert forall|k: int| 0 <= k < start.list.len() implies (
        #[trigger] end.results[k]) is Some by {
            assert(!end.running(k));
        }
    }
}

/// A callback that comes back is recorded under its own row as it ended: with what went wrong
/// if something did, how long it took and how often it was tried. What other rows came to
/// stays as it was.
pub proof fn law_a_callback_is_recorded_as_it_ended(
    start: PipelineView,
    transcription: Transcription,
    deliveries: Seq<Delivery>,
    back: Delivery,
    other: int,
)
    requires
        start.wf(),
        !start.transcribed,
        start.told(transcription).after_deliveries(deliveries).running(back.row),
    ensures
        ({
            let before = start.told(transcription).after_deliveries(deliveries);
            let after = start.told(transcription).after_deliveries(deliveries.push(back));
            let run = start.list[back.row];
            &&& after.results[back.row] matches Some(record) && record.id == run.id && record.name
                == run.name && record.kind == run.kind && record.latency_ms == back.latency_ms
                && record.attempts == back.attempts && (back.result is Ok ==> record.outcome
                is Okay) && (back.result matches Err(error) ==> record.outcome == (
            SinkOutcome::Failed { error }))
            &&& 0 <= other < before.next && other != back.row ==> after.results[other]
                == before.results[other]
            &&& before.next <= after.next
        }),
{
    lemma_decided_deliveries(start, transcription, deliveries);
    let before = start.told(transcription).after_deliveries(deliveries);
    assert(deliveries.push(back).drop_last() =~= deliveries);
    let record = ran(before.list[back.row], back.result, back.latency_ms, back.attempts);
    lemma_decided_resolve(before, back.row, record, start.sent);
    lemma_decided_proceed(before.resolve(back.row, record), start.sent);
}

/// One run of the pipeline.
pub struct Pipeline {
    record: SessionRecord,
    mode: SinkMode,
    keep_audio: bool,
    list: Vec<Run>,
    results: Vec<Option<SinkRecord>>,
    next: usize,
    transcribed: bool,
    no_text: Option<SkipReason>,
    sent: Ghost<Seq<EventView>>,
}

impl View for Pipeline {
    type V = PipelineView;

    closed spec fn view(&self) -> PipelineView {
        PipelineView {
            record: self.record,
            mode: self.mode,
            keep_audio: self.keep_audio,
            list: self.list@,
            results: self.results@,
            next: self.next as int,
            transcribed: self.transcribed,
            no_text: self.no_text,
            sent: self.sent@,
        }
    }
}

impl Pipeline {
    /// A run for a session, and the plan, which is sent before anything else happens.
    pub fn begin(
        record: SessionRecord,
        profile: &Profile,
        built: &Named<SinkFace>,
        config: &Config,
    ) -> (result: (Pipeline, Event))
        ensures
            result.0@.wf(),
            result.0@.record == record,
            result.0@.mode == profile.sink_mode,
            result.0@.keep_audio == config.storage.keep_audio_after_transcribe,
            runs_of(result.0@.list) == runs(profile.sinks@, built@, config.sinks@),
            result.0@.next == 0,
            !result.0@.transcribed,
            result.0@.no_text is None,
            result.0@.sent == seq![result.1@],
            result.1@ == (EventView::PipelineStarted {
                transcriber: crate::event::optional(profile.transcriber),
                sinks: rows(profile.sinks@, built@),
            }),
            profile.sinks@.len() <= u32::MAX ==> ids_ascend(result.0@.list),
    {
        let started = Event::PipelineStarted {
            transcriber: profile.transcriber.clone(),
            sinks: plan(&profile.sinks, built),
        };
        let list = build_plan(&profile.sinks, built, config);
        let mut results: Vec<Option<SinkRecord>> = Vec::new();
        let mut i: usize = 0;
        while i < list.len()
            invariant
                i <= list.len(),
                results@.len() == i,
                forall|k: int| 0 <= k < i ==> (#[trigger] results@[k]) is None,
            decreases list.len() - i,
        {
            results.push(None);
            i += 1;
        }
        let ghost first = seq![started@];
        let run = Pipeline {
            record,
            mode: profile.sink_mode,
            keep_audio: config.storage.keep_audio_after_transcribe,
            list,
            results,
            next: 0,
            transcribed: false,
            no_text: None,
            sent: Ghost(first),
        };
        proof {
            assert forall|id: u32| #[trigger]
                finishes(run@.sent, id) == resolved(
                    run@.list,
                    run@.results,
                    id,
                    run@.list.len() as int,
                ) by {
                assert(Seq::<EventView>::empty().push(started@) =~= run@.sent);
                lemma_finishes_push(Seq::empty(), started@, id);
                lemma_none_resolved(run@.list, run@.results, id, run@.list.len() as int);
            }
            if profile.sinks@.len() <= u32::MAX {
                crate::pipeline::lemma_runs_ascend(profile.sinks@, built@, config.sinks@);
                assert forall|i: int, j: int|
                    #![trigger run@.list[i], run@.list[j]]
                    0 <= i < j < run@.list.len() implies run@.list[i].id < run@.list[j].id by {
                    assert(runs_of(run@.list)[i] == run@.list[i]@);
                    assert(runs_of(run@.list)[j] == run@.list[j]@);
                }
            }
        }
        (run, started)
    }

    /// The session as it is known so far.
    pub fn record(&self) -> (result: &SessionRecord)
        ensures
            *result == self@.record,
    {
        &self.record
    }

    /// The callback of a row.
    pub fn row(&self, row: usize) -> (result: Option<&Run>)
        ensures
            match result {
                Some(run) => row < self@.list.len() && *run == self@.list[row as int],
                None => row >= self@.list.len(),
            },
    {
        if row < self.list.len() {
            Some(&self.list[row])
        } else {
            None
        }
    }

    /// Whether transcription is over.
    pub fn is_transcribed(&self) -> (result: bool)
        ensures
            result == self@.transcribed,
    {
        self.transcribed
    }

    /// Whether a row has been started and has not resolved.
    pub fn is_running(&self, row: usize) -> (result: bool)
        requires
            self@.wf(),
        ensures
            result == self@.running(row as int),
    {
        row < self.next && self.results[row].is_none()
    }

    /// Whether every row has resolved.
    pub fn is_over(&self) -> (result: bool)
        requires
            self@.wf(),
        ensures
            result == self@.over(),
    {
        if !self.transcribed {
            return false;
        }
        let mut i: usize = 0;
        while i < self.results.len()
            invariant
                i <= self.results.len(),
                self@.wf(),
                forall|k: int| 0 <= k < i ==> (#[trigger] self@.results[k]) is Some,
            decreases self.results.len() - i,
        {
            if self.results[i].is_none() {
                assert(self@.results[i as int] is None);
                return false;
            }
            i += 1;
        }
        true
    }

    /// What is sent when transcription is about to be asked for.
    pub fn asking(&mut self, asked: &TranscriptionPlan) -> (result: Vec<Event>)
        requires
            old(self)@.wf(),
        ensures
            final(self)@.wf(),
            events_of(result@) == (match asked {
                TranscriptionPlan::Ask { transcriber, .. } => seq![
                    EventView::TranscribeStarted { transcriber: transcriber@ },
                ],
                _ => Seq::empty(),
            }),
            final(self)@ == (PipelineView {
                sent: old(self)@.sent + events_of(result@),
                ..old(self)@
            }),
    {
        let mut events: Vec<Event> = Vec::new();
        match asked {
            TranscriptionPlan::Ask { transcriber, .. } => {
                let event = Event::TranscribeStarted { transcriber: transcriber.clone() };
                proof {
                    lemma_send(self@, event@);
                }
                self.sent = Ghost(self.sent@.push(event@));
                events.push(event);
                assert(events_of(events@) =~= seq![events@[0]@]);
                assert(old(self)@.sent + events_of(events@) =~= self@.sent);
            },
            _ => {
                assert(events_of(events@) =~= Seq::empty());
                assert(old(self)@.sent + events_of(events@) =~= self@.sent);
            },
        }
        events
    }

    /// Transcription is over, and the transcript was written to `path`, if it was. How it
    /// ended is announced, and the first rows are taken.
    pub fn transcribed(&mut self, transcription: &Transcription, path: Option<String>) -> (result:
        Moves)
        requires
            old(self)@.wf(),
            !old(self)@.transcribed,
        ensures
            final(self)@.wf(),
            transcription.recorded(path, final(self)@.record.transcript),
            final(self)@ == (PipelineView {
                record: SessionRecord {
                    transcript: final(self)@.record.transcript,
                    ..old(self)@.record
                },
                transcribed: true,
                no_text: transcription.skip(),
                sent: old(self)@.sent + transcription.announced(),
                ..old(self)@
            }).proceed(),
            final(self)@ == (PipelineView {
                record: SessionRecord {
                    transcript: final(self)@.record.transcript,
                    ..old(self)@.record
                },
                ..old(self)@
            }).told(*transcription),
            old(self)@.moved(final(self)@, result),
            old(self)@.sent.is_prefix_of(final(self)@.sent),
    {
        self.record.transcript = transcription.record(path);
        self.no_text = transcription.skip_reason();
        self.transcribed = true;
        let events = transcription.events();
        let ghost announced = events_of(events@);
        self.sent = Ghost(self.sent@ + announced);
        let mut moves = Moves { events, start: Vec::new() };
        proof {
            lemma_send_all(old(self)@, announced);
            assert(self@.wf()) by {
                assert(forall|id: u32| #[trigger]
                    finishes(self@.sent, id) == resolved(
                        self@.list,
                        self@.results,
                        id,
                        self@.list.len() as int,
                    ));
            }
            assert(old(self)@.sent + events_of(moves.events@) =~= self@.sent);
            assert(moves.start@.map_values(|row: usize| row as int) =~= Seq::empty());
            lemma_proceed(self@);
        }
        self.proceed(&mut moves, Ghost(old(self)@));
        moves
    }

    /// The callback of a row has come to an end: `result` says how, and the rows that waited
    /// for it are taken.
    pub fn delivered(
        &mut self,
        row: usize,
        result: Result<(), String>,
        latency_ms: u64,
        attempts: u32,
    ) -> (moves: Moves)
        requires
            old(self)@.wf(),
            old(self)@.transcribed,
            old(self)@.running(row as int),
        ensures
            final(self)@.wf(),
            final(self)@ == old(self)@.resolve(
                row as int,
                ran(old(self)@.list[row as int], result, latency_ms, attempts),
            ).proceed(),
            final(self)@ == old(self)@.after_deliveries(
                seq![Delivery { row: row as int, result, latency_ms, attempts }],
            ),
            old(self)@.moved(final(self)@, moves),
            old(self)@.sent.is_prefix_of(final(self)@.sent),
    {
        let outcome = match &result {
            Ok(_) => SinkOutcome::Okay,
            Err(error) => SinkOutcome::Failed { error: error.clone() },
        };
        let record = SinkRecord {
            id: self.list[row].id,
            name: self.list[row].name.clone(),
            kind: self.list[row].kind.clone(),
            outcome,
            latency_ms,
            attempts,
        };
        proof {
            assert(record == ran(self.list@[row as int], result, latency_ms, attempts));
            law_every_step_keeps_a_run_in_order(self@, row as int, result, latency_ms, attempts);
            lemma_resolve(self@, row as int, record);
        }
        let event = finished_event(&record);
        self.sent = Ghost(self.sent@.push(event@));
        self.results.set(row, Some(record));
        let mut moves = Moves { events: Vec::new(), start: Vec::new() };
        moves.events.push(event);
        proof {
            assert(self@ == old(self)@.resolve(row as int, record));
            assert(events_of(moves.events@) =~= seq![event@]);
            assert(old(self)@.sent + events_of(moves.events@) =~= self@.sent);
            assert(moves.start@.map_values(|row: usize| row as int) =~= Seq::empty());
            lemma_proceed(self@);
        }
        proof {
            let back = Delivery { row: row as int, result, latency_ms, attempts };
            assert(seq![back].drop_last() =~= Seq::<Delivery>::empty());
            reveal_with_fuel(PipelineView::after_deliveries, 2);
        }
        self.proceed(&mut moves, Ghost(old(self)@));
        moves
    }

    /// Takes rows until there are none, or one was started that the others wait for.
    fn proceed(&mut self, moves: &mut Moves, Ghost(start): Ghost<PipelineView>)
        requires
            old(self)@.wf(),
            old(self)@.transcribed,
            start.moved(old(self)@, *old(moves)),
            start.next == old(self)@.next,
        ensures
            final(self)@ == old(self)@.proceed(),
            final(self)@.wf(),
            start.moved(final(self)@, *final(moves)),
    {
        let ghost goal = self@.proceed();
        let mut waiting = false;
        while !waiting && self.next < self.list.len()
            invariant
                self@.wf(),
                self@.transcribed,
                0 <= start.next <= self@.next,
                start.moved(self@, *moves),
                waiting ==> self@ == goal,
                !waiting ==> self@.proceed() == goal,
            decreases self.list.len() - self.next, !waiting as int,
        {
            let row: usize = self.next;
            let ghost before = self@;
            let ghost sent_so_far = moves.events@;
            let ghost started_so_far = moves.start@;
            let reason = self.verdict(row);
            proof {
                lemma_take_next(self@);
                assert(self@.results[row as int] is None);
            }
            match reason {
                Some(reason) => {
                    let record = SinkRecord {
                        id: self.list[row].id,
                        name: self.list[row].name.clone(),
                        kind: self.list[row].kind.clone(),
                        outcome: SinkOutcome::Skipped { reason },
                        latency_ms: 0,
                        attempts: 0,
                    };
                    let event = finished_event(&record);
                    let ghost told = event@;
                    self.sent = Ghost(self.sent@.push(told));
                    self.results.set(row, Some(record));
                    moves.events.push(event);
                    self.next = row + 1;
                    proof {
                        assert(self@ == before.take_next());
                        lemma_unresolved(
                            before.results,
                            self@.results,
                            start.next,
                            row as int,
                        );
                        assert(events_of(moves.events@) =~= events_of(sent_so_far).push(told));
                        assert(start.sent + events_of(moves.events@) =~= self@.sent);
                    }
                },
                None => {
                    let event = Event::SinkStarted {
                        id: self.list[row].id,
                        name: self.list[row].name.clone(),
                    };
                    let ghost told = event@;
                    self.sent = Ghost(self.sent@.push(told));
                    moves.events.push(event);
                    moves.start.push(row);
                    self.next = row + 1;
                    waiting = self.mode == SinkMode::Sequential;
                    proof {
                        assert(self@ == before.take_next());
                        assert(events_of(moves.events@) =~= events_of(sent_so_far).push(told));
                        assert(start.sent + events_of(moves.events@) =~= self@.sent);
                        assert(moves.start@.map_values(|row: usize| row as int)
                            =~= started_so_far.map_values(|row: usize| row as int).push(
                            row as int,
                        ));
                    }
                },
            }
        }
    }

    /// Why a row is not started, if it is not.
    fn verdict(&self, row: usize) -> (result: Option<SkipReason>)
        requires
            self@.wf(),
            row < self@.list.len(),
        ensures
            result == self@.verdict(row as int),
    {
        if self.list[row].requires_text && self.no_text.is_some() {
            return self.no_text;
        }
        let mut i: usize = 0;
        while i < self.results.len()
            invariant
                i <= self.results.len(),
                self@.wf(),
                row < self@.list.len(),
                !(self@.list[row as int].requires_text && self@.no_text is Some),
                forall|k: int|
                    0 <= k < i ==> !(self@.list[k].on_error == OnError::FailSession && failed(
                        #[trigger] self@.results[k],
                    )),
            decreases self.results.len() - i,
        {
            let bad = match &self.results[i] {
                Some(record) => match &record.outcome {
                    SinkOutcome::Failed { .. } => true,
                    _ => false,
                },
                None => false,
            };
            if bad && self.list[i].on_error == OnError::FailSession {
                assert(failed(self@.results[i as int]));
                return Some(SkipReason::EarlierSinkFailed);
            }
            i += 1;
        }
        None
    }

    /// Sums the run up, now that every row has resolved: the completed record, the event that
    /// is sent last, and the audio file that is to be removed, if it is. Audio that is not to
    /// be kept is removed once its transcript has been written.
    pub fn conclude(self, total_ms: u64) -> (result: (SessionRecord, Event, Option<String>))
        requires
            self@.wf(),
            self@.over(),
        ensures
            result.0.sinks@ == self@.records(),
            result.0 == (SessionRecord {
                sinks: result.0.sinks,
                outcome: outcome_of(self@.records(), self@.list, self@.record.transcript),
                ..self@.record
            }),
            result.1@ == (EventView::PipelineFinished {
                ok: crate::pipeline::succeeded(self@.records()) as usize,
                failed: crate::pipeline::failures(self@.records()) as usize,
                skipped: crate::pipeline::omitted(self@.records()) as usize,
                total_ms,
                outcome: outcome_of(self@.records(), self@.list, self@.record.transcript),
            }),
            crate::event::optional(result.2) == (if self@.audio_goes() {
                Some(self@.record.audio.path@)
            } else {
                None
            }),
            ids_ascend(self@.list) ==> whole_run(self@.sent.push(result.1@), self@.list),
    {
        let ghost before = self@;
        let written = match &self.record.transcript {
            Some(transcript) => transcript.path.is_some(),
            None => false,
        };
        let unwanted: Option<String> = if !self.keep_audio && written {
            Some(self.record.audio.path.clone())
        } else {
            None
        };
        let mut results = self.results;
        let mut records: Vec<SinkRecord> = Vec::new();
        let ghost all = results@;
        while results.len() > 0
            invariant
                records@.len() + results@.len() == all.len(),
                results@ == all.take(results@.len() as int),
                forall|k: int| 0 <= k < all.len() ==> (#[trigger] all[k]) is Some,
                forall|k: int|
                    0 <= k < records@.len() ==> #[trigger] records@[k] == all[all.len() - 1 - k]->0,
            decreases results@.len(),
        {
            let ghost left = results@.len() as int;
            match results.pop() {
                Some(Some(record)) => {
                    records.push(record);
                },
                _ => {},
            }
            assert(all[left - 1] is Some);
            assert(results@ =~= all.take(left - 1));
        }
        let records = reversed(records);
        assert(records@ =~= before.records());
        let (record, summary) = complete(self.record, records, &self.list, total_ms);
        proof {
            if ids_ascend(before.list) {
                lemma_whole_run(before, summary@);
            }
        }
        (record, summary, unwanted)
    }
}

impl PipelineView {
    /// Whether the audio is to be removed: it is not to be kept once a transcript exists, and
    /// one has been written.
    pub open spec fn audio_goes(self) -> bool {
        !self.keep_audio && (self.record.transcript matches Some(transcript)
            && transcript.path is Some)
    }
}

/// Audio is only ever removed once its transcript has been written to a file, and never when
/// it is to be kept.
pub proof fn law_audio_goes_only_for_a_written_transcript(run: PipelineView)
    ensures
        run.audio_goes() <==> run.keep_audio == false && run.record.transcript is Some && (
        run.record.transcript->0).path is Some,
        run.keep_audio ==> !run.audio_goes(),
        run.record.transcript is None ==> !run.audio_goes(),
{
}

/// The records the other way round.
fn reversed(records: Vec<SinkRecord>) -> (result: Vec<SinkRecord>)
    ensures
        result@ == records@.reverse(),
{
    let mut records = records;
    let mut out: Vec<SinkRecord> = Vec::new();
    let ghost all = records@;
    while records.len() > 0
        invariant
            records@ == all.take(records@.len() as int),
            out@.len() + records@.len() == all.len(),
            forall|k: int| 0 <= k < out@.len() ==> #[trigger] out@[k] == all[all.len() - 1 - k],
        decreases records@.len(),
    {
        let ghost left = records@.len() as int;
        match records.pop() {
            Some(record) => {
                out.push(record);
            },
            None => {},
        }
        assert(records@ =~= all.take(left - 1));
    }
    assert(out@ =~= all.reverse());
    out
}

/// The event that says that a row has resolved.
fn finished_event(record: &SinkRecord) -> (result: Event)
    ensures
        result@ == finished(*record),
{
    let outcome = match &record.outcome {
        SinkOutcome::Okay => SinkOutcome::Okay,
        SinkOutcome::Failed { error } => SinkOutcome::Failed { error: error.clone() },
        SinkOutcome::Skipped { reason } => SinkOutcome::Skipped { reason: *reason },
    };
    Event::SinkFinished {
        id: record.id,
        name: record.name.clone(),
        outcome,
        latency_ms: record.latency_ms,
        attempts: record.attempts,
    }
}

proof fn lemma_none_resolved(list: Seq<Run>, results: Seq<Option<SinkRecord>>, id: u32, n: int)
    requires
        0 <= n <= list.len(),
        forall|k: int| 0 <= k < n ==> (#[trigger] results[k]) is None,
    ensures
        resolved(list, results, id, n) == 0,
    decreases n,
{
    if n > 0 {
        lemma_none_resolved(list, results, id, n - 1);
    }
}

proof fn lemma_send_all(run: PipelineView, events: Seq<EventView>)
    requires
        run.wf(),
        forall|p: int|
            #![trigger events[p]]
            0 <= p < events.len() ==> !(events[p] is PipelineStarted)
                && !(events[p] is PipelineFinished) && !(events[p] is SinkFinished),
    ensures
        (PipelineView { sent: run.sent + events, ..run }).wf(),
    decreases events.len(),
{
    if events.len() == 0 {
        assert(run.sent + events =~= run.sent);
    } else {
        let shorter = events.drop_last();
        lemma_send_all(run, shorter);
        lemma_send(PipelineView { sent: run.sent + shorter, ..run }, events.last());
        assert((run.sent + shorter).push(events.last()) =~= run.sent + events);
    }
}

/// What a move starts is exactly the rows that were taken by it and have not resolved, each
/// once and in order.
pub proof fn law_a_move_starts_what_is_left_running(
    results: Seq<Option<SinkRecord>>,
    from: int,
    to: int,
    row: int,
)
    requires
        from <= to,
    ensures
        unresolved(results, from, to).contains(row) <==> from <= row < to && results[row] is None,
        forall|i: int, j: int|
            0 <= i < j < unresolved(results, from, to).len() ==> #[trigger] unresolved(
                results,
                from,
                to,
            )[i] < #[trigger] unresolved(results, from, to)[j],
    decreases to - from,
{
    if from < to {
        law_a_move_starts_what_is_left_running(results, from, to - 1, row);
        let before = unresolved(results, from, to - 1);
        let all = unresolved(results, from, to);
        assert forall|i: int| 0 <= i < before.len() implies #[trigger] before[i] < to - 1 by {
            law_a_move_starts_what_is_left_running(results, from, to - 1, before[i]);
            assert(before.contains(before[i]));
        }
        if results[to - 1] is None {
            assert(all[before.len() as int] == to - 1);
            if before.contains(row) {
                let i = choose|i: int| 0 <= i < before.len() && before[i] == row;
                assert(all[i] == row);
            }
            if all.contains(row) && row != to - 1 {
                let i = choose|i: int| 0 <= i < all.len() && all[i] == row;
                assert(before[i] == row);
            }
        }
    } else {
        assert(!unresolved(results, from, to).contains(row));
    }
}

/// What a run recorded of its rows is what each of them came to, in their order.
pub proof fn law_records_are_what_the_rows_came_to(run: PipelineView, row: int)
    requires
        run.wf(),
        run.over(),
        0 <= row < run.list.len(),
    ensures
        run.records().len() == run.list.len(),
        run.results[row] == Some(run.records()[row]),
{
    assert(run.results[row] is Some);
}

} // verus!
