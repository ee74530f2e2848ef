//! Whole runs of the orchestrator: what it asks for, and where it ends, over
//! a sequence of events.

use vstd::prelude::*;
use crate::clock::Timestamp;
use crate::orchestrator::{
    config_valid, consistent, initial, lemma_step_consistent, pending_action, step, Action, Event,
    ExitStatus, Phase, ProcessRecord, RunState,
};
use crate::workload::CalibrationResult;

verus! {

/// The state that the run is in after `events`, one after the other, from `s`.
pub open spec fn run(s: RunState, events: Seq<Event>) -> RunState
    decreases events.len(),
{
    if events.len() == 0 {
        s
    } else {
        step(run(s, events.drop_last()), events.last())
    }
}

/// The action that is due when the first `i` of `events` have arrived.
pub open spec fn action_at(s: RunState, events: Seq<Event>, i: int) -> Action {
    pending_action(run(s, events.take(i)))
}

/// The events of as many creations that went well, with the identifiers of the
/// processes created.
pub open spec fn spawned(pids: Seq<i32>) -> Seq<Event> {
    Seq::new(pids.len(), |i: int| Event::Spawned { pid: pids[i] })
}

/// The events of as many attempts to signal, with how each went.
pub open spec fn signalled(delivered: Seq<bool>) -> Seq<Event> {
    Seq::new(delivered.len(), |i: int| Event::Signalled { delivered: delivered[i] })
}

/// The events of as many waits, with how each went.
pub open spec fn reaped(ok: Seq<bool>) -> Seq<Event> {
    Seq::new(ok.len(), |i: int| Event::Reaped { ok: ok[i] })
}

/// The records of the processes `pids`, created in this order after `already`
/// others.
pub open spec fn records_of(pids: Seq<i32>, already: nat) -> Seq<ProcessRecord> {
    Seq::new(
        pids.len(),
        |i: int| ProcessRecord { pid: pids[i], creation_order: (already + i) as u32 },
    )
}

/// Every state that a run reaches from one it can be in is one it can be in.
pub proof fn lemma_run_consistent(s: RunState, events: Seq<Event>)
    requires
        consistent(s),
    ensures
        consistent(run(s, events)),
    decreases events.len(),
{
    if events.len() > 0 {
        lemma_run_consistent(s, events.drop_last());
        lemma_step_consistent(run(s, events.drop_last()), events.last());
    }
}

/// Whatever events arrive, in whatever order, a run from the start is in a
/// state that a run can be in: it never has more workers than asked for, nor
/// more signals or waits than workers, and once it is over it has waited once
/// for each worker it created.
pub proof fn lemma_every_run_is_consistent(
    nproc: u32,
    total: u32,
    resolution: u32,
    events: Seq<Event>,
)
    ensures
        consistent(run(initial(nproc, total, resolution), events)),
{
    lemma_run_consistent(initial(nproc, total, resolution), events);
}

/// How a signal or a wait went changes nothing of where the run goes: the
/// state after it is the same whether it went well or not, and the run has
/// failed after it exactly if it had failed before.
pub proof fn lemma_signal_and_wait_outcomes_do_not_matter(s: RunState, went_well: bool)
    ensures
        step(s, Event::Signalled { delivered: went_well }) == step(
            s,
            Event::Signalled { delivered: !went_well },
        ),
        step(s, Event::Reaped { ok: went_well }) == step(s, Event::Reaped { ok: !went_well }),
        step(s, Event::Signalled { delivered: went_well }).failed == s.failed,
        step(s, Event::Reaped { ok: went_well }).failed == s.failed,
{
}

/// A run over two sequences of events, one after the other, is the run over
/// the second from where the first ended.
pub proof fn lemma_run_concat(s: RunState, first: Seq<Event>, second: Seq<Event>)
    ensures
        run(s, first + second) == run(run(s, first), second),
    decreases second.len(),
{
    if second.len() == 0 {
        assert(first + second =~= first);
    } else {
        assert((first + second).drop_last() =~= first + second.drop_last());
        assert((first + second).last() == second.last());
        lemma_run_concat(s, first, second.drop_last());
    }
}

/// A run that is over stays as it is, whatever arrives.
pub proof fn lemma_done_is_final(s: RunState, events: Seq<Event>)
    requires
        s.phase == Phase::Done,
    ensures
        run(s, events) == s,
    decreases events.len(),
{
    if events.len() > 0 {
        lemma_done_is_final(s, events.drop_last());
    }
}

/// With numbers that are not acceptable, no process is ever created: the run
/// has failed from the start, and whatever events arrive, the only action due
/// is to leave with the failure.
pub proof fn lemma_invalid_config_creates_nothing(
    nproc: u32,
    total: u32,
    resolution: u32,
    events: Seq<Event>,
)
    requires
        !config_valid(nproc, total, resolution),
    ensures
        run(initial(nproc, total, resolution), events).records.len() == 0,
        run(initial(nproc, total, resolution), events).failed,
        forall|i: int|
            0 <= i <= events.len() ==> #[trigger] action_at(
                initial(nproc, total, resolution),
                events,
                i,
            ) == Action::Exit(ExitStatus::Failure),
{
    let s = initial(nproc, total, resolution);
    lemma_done_is_final(s, events);
    assert forall|i: int| 0 <= i <= events.len() implies #[trigger] action_at(s, events, i)
        == Action::Exit(ExitStatus::Failure) by {
        lemma_done_is_final(s, events.take(i));
    }
}

/// Creations that go well are recorded in their order, and the run turns to
/// waiting when the last worker exists.
pub proof fn lemma_spawns(s: RunState, pids: Seq<i32>)
    requires
        consistent(s),
        s.phase == Phase::Spawning,
        s.records.len() + pids.len() <= s.nproc,
    ensures
        run(s, spawned(pids)) == (RunState {
            phase: if s.records.len() + pids.len() >= s.nproc {
                Phase::Waiting
            } else {
                Phase::Spawning
            },
            records: s.records + records_of(pids, s.records.len()),
            ..s
        }),
    decreases pids.len(),
{
    let expected = RunState {
        phase: if s.records.len() + pids.len() >= s.nproc {
            Phase::Waiting
        } else {
            Phase::Spawning
        },
        records: s.records + records_of(pids, s.records.len()),
        ..s
    };
    if pids.len() == 0 {
        assert(spawned(pids).len() == 0);
        assert(expected.records =~= s.records);
    } else {
        let front = pids.drop_last();
        lemma_spawns(s, front);
        assert(spawned(pids).drop_last() =~= spawned(front));
        assert(spawned(pids).last() == Event::Spawned { pid: pids.last() });
        let before = run(s, spawned(front));
        assert(before.records.len() == s.records.len() + front.len());
        assert(step(before, spawned(pids).last()).records =~= expected.records);
    }
}

/// Attempts to signal move along the records, and the run turns to waiting
/// when the last has been tried.
pub proof fn lemma_signals(s: RunState, delivered: Seq<bool>)
    requires
        consistent(s),
        s.phase == Phase::Cancelling,
        s.signalled + delivered.len() <= s.records.len(),
    ensures
        run(s, signalled(delivered)) == (RunState {
            phase: if s.signalled + delivered.len() >= s.records.len() {
                Phase::Waiting
            } else {
                Phase::Cancelling
            },
            signalled: s.signalled + delivered.len(),
            ..s
        }),
    decreases delivered.len(),
{
    if delivered.len() == 0 {
        assert(signalled(delivered).len() == 0);
    } else {
        let front = delivered.drop_last();
        lemma_signals(s, front);
        assert(signalled(delivered).drop_last() =~= signalled(front));
        assert(signalled(delivered).last() == Event::Signalled { delivered: delivered.last() });
    }
}

/// Waits are counted, and the run is over when there have been as many as
/// there are records.
pub proof fn lemma_reaps(s: RunState, ok: Seq<bool>)
    requires
        consistent(s),
        s.phase == Phase::Waiting,
        s.reaped + ok.len() <= s.records.len(),
    ensures
        run(s, reaped(ok)) == (RunState {
            phase: if s.reaped + ok.len() >= s.records.len() {
                Phase::Done
            } else {
                Phase::Waiting
            },
            reaped: s.reaped + ok.len(),
            ..s
        }),
    decreases ok.len(),
{
    if ok.len() == 0 {
        assert(reaped(ok).len() == 0);
    } else {
        let front = ok.drop_last();
        lemma_reaps(s, front);
        assert(reaped(ok).drop_last() =~= reaped(front));
        assert(reaped(ok).last() == Event::Reaped { ok: ok.last() });
    }
}

/// The events of a run in which every creation goes well: the calibration,
/// the creations, and the waits.
pub open spec fn complete_run(
    calibration: CalibrationResult,
    run_start: Timestamp,
    pids: Seq<i32>,
    ok: Seq<bool>,
) -> Seq<Event> {
    seq![Event::Calibrated { calibration, run_start }] + spawned(pids) + reaped(ok)
}

/// The events of a run in which a creation fails after those of `pids` went
/// well: the calibration, the creations, the failure, the attempts to signal,
/// and the waits.
pub open spec fn failed_run(
    calibration: CalibrationResult,
    run_start: Timestamp,
    pids: Seq<i32>,
    delivered: Seq<bool>,
    ok: Seq<bool>,
) -> Seq<Event> {
    seq![Event::Calibrated { calibration, run_start }] + spawned(pids) + seq![Event::SpawnFailed]
        + signalled(delivered) + reaped(ok)
}

/// The run when the calibration is in and no worker exists yet.
pub open spec fn calibrated(
    nproc: u32,
    total: u32,
    resolution: u32,
    calibration: CalibrationResult,
    run_start: Timestamp,
) -> RunState {
    step(initial(nproc, total, resolution), Event::Calibrated { calibration, run_start })
}

proof fn lemma_calibrated(
    nproc: u32,
    total: u32,
    resolution: u32,
    calibration: CalibrationResult,
    run_start: Timestamp,
)
    requires
        config_valid(nproc, total, resolution),
        calibration.rate() * resolution <= u64::MAX,
    ensures
        run(initial(nproc, total, resolution), seq![Event::Calibrated { calibration, run_start }])
            == calibrated(nproc, total, resolution, calibration, run_start),
        consistent(calibrated(nproc, total, resolution, calibration, run_start)),
        calibrated(nproc, total, resolution, calibration, run_start).phase == Phase::Spawning,
        calibrated(nproc, total, resolution, calibration, run_start).records.len() == 0,
{
    let first = seq![Event::Calibrated { calibration, run_start }];
    assert(first.drop_last().len() == 0);
    assert(first.last() == Event::Calibrated { calibration, run_start });
    assert(run(initial(nproc, total, resolution), first.drop_last()) == initial(
        nproc,
        total,
        resolution,
    ));
}

/// A run in which every creation goes well asks for the calibration, then for
/// each worker in turn, then for one wait per worker, and ends in success with
/// every worker on record, whether the waits went well or not.
pub proof fn lemma_complete_run(
    nproc: u32,
    total: u32,
    resolution: u32,
    calibration: CalibrationResult,
    run_start: Timestamp,
    pids: Seq<i32>,
    ok: Seq<bool>,
)
    requires
        config_valid(nproc, total, resolution),
        calibration.rate() * resolution <= u64::MAX,
        pids.len() == nproc,
        ok.len() == nproc,
    ensures
        ({
            let s = initial(nproc, total, resolution);
            let events = complete_run(calibration, run_start, pids, ok);
            let end = run(s, events);
            &&& action_at(s, events, 0) == Action::Calibrate
            &&& forall|i: int|
                0 <= i < nproc ==> #[trigger] action_at(s, events, 1 + i) == (Action::Spawn {
                    worker_id: i as u32,
                })
            &&& forall|i: int|
                0 <= i < nproc ==> #[trigger] action_at(s, events, 1 + nproc + i) == Action::Reap
            &&& end.phase == Phase::Done
            &&& !end.failed
            &&& end.records == records_of(pids, 0)
            &&& end.signalled == 0
            &&& end.reaped == nproc
            &&& pending_action(end) == Action::Exit(ExitStatus::Success)
        }),
{
    let s = initial(nproc, total, resolution);
    let first = seq![Event::Calibrated { calibration, run_start }];
    let events = complete_run(calibration, run_start, pids, ok);
    let s1 = calibrated(nproc, total, resolution, calibration, run_start);
    lemma_calibrated(nproc, total, resolution, calibration, run_start);
    assert(events.take(0).len() == 0);
    assert(run(s, events.take(0)) == s);
    assert forall|i: int| 0 <= i < nproc implies #[trigger] action_at(s, events, 1 + i) == (
    Action::Spawn { worker_id: i as u32 }) by {
        let part = pids.take(i);
        assert(events.take(1 + i) =~= first + spawned(part));
        lemma_run_concat(s, first, spawned(part));
        lemma_spawns(s1, part);
    }
    lemma_spawns(s1, pids);
    let s2 = run(s1, spawned(pids));
    lemma_run_concat(s, first, spawned(pids));
    lemma_run_consistent(s1, spawned(pids));
    assert(s2.records =~= records_of(pids, 0));
    assert forall|i: int| 0 <= i < nproc implies #[trigger] action_at(s, events, 1 + nproc + i)
        == Action::Reap by {
        let part = ok.take(i);
        assert(events.take(1 + nproc + i) =~= (first + spawned(pids)) + reaped(part));
        lemma_run_concat(s, first + spawned(pids), reaped(part));
        lemma_reaps(s2, part);
    }
    lemma_run_concat(s, first + spawned(pids), reaped(ok));
    lemma_reaps(s2, ok);
}

/// Where a creation fails after `pids.len()` workers were created, the run
/// asks for a cancellation signal to each of them, in the order of their
/// creation, then for one wait per worker created, and ends in failure. It
/// asks for no further creation, and how the signals and waits went changes
/// nothing of this.
pub proof fn lemma_failed_creation_rolls_back(
    nproc: u32,
    total: u32,
    resolution: u32,
    calibration: CalibrationResult,
    run_start: Timestamp,
    pids: Seq<i32>,
    delivered: Seq<bool>,
    ok: Seq<bool>,
)
    requires
        config_valid(nproc, total, resolution),
        calibration.rate() * resolution <= u64::MAX,
        pids.len() < nproc,
        delivered.len() == pids.len(),
        ok.len() == pids.len(),
    ensures
        ({
            let s = initial(nproc, total, resolution);
            let events = failed_run(calibration, run_start, pids, delivered, ok);
            let created = pids.len() as int;
            let end = run(s, events);
            &&& action_at(s, events, 0) == Action::Calibrate
            &&& forall|i: int|
                0 <= i <= created ==> #[trigger] action_at(s, events, 1 + i) == (Action::Spawn {
                    worker_id: i as u32,
                })
            &&& forall|i: int|
                0 <= i < created ==> #[trigger] action_at(s, events, 2 + created + i) == (
                Action::Signal { pid: pids[i] })
            &&& forall|i: int|
                0 <= i < created ==> #[trigger] action_at(s, events, 2 + 2 * created + i)
                    == Action::Reap
            &&& end.phase == Phase::Done
            &&& end.failed
            &&& end.records == records_of(pids, 0)
            &&& end.signalled == created
            &&& end.reaped == created
            &&& pending_action(end) == Action::Exit(ExitStatus::Failure)
        }),
{
    let s = initial(nproc, total, resolution);
    let first = seq![Event::Calibrated { calibration, run_start }];
    let failure = seq![Event::SpawnFailed];
    let events = failed_run(calibration, run_start, pids, delivered, ok);
    let created = pids.len() as int;
    let s1 = calibrated(nproc, total, resolution, calibration, run_start);
    lemma_calibrated(nproc, total, resolution, calibration, run_start);
    assert(events.take(0).len() == 0);
    assert(run(s, events.take(0)) == s);
    assert forall|i: int| 0 <= i <= created implies #[trigger] action_at(s, events, 1 + i) == (
    Action::Spawn { worker_id: i as u32 }) by {
        let part = pids.take(i);
        assert(events.take(1 + i) =~= first + spawned(part));
        lemma_run_concat(s, first, spawned(part));
        lemma_spawns(s1, part);
    }
    // The creations that went well.
    lemma_spawns(s1, pids);
    let s2 = run(s1, spawned(pids));
    lemma_run_concat(s, first, spawned(pids));
    lemma_run_consistent(s1, spawned(pids));
    assert(s2.records =~= records_of(pids, 0));
    // The creation that failed.
    let upto_failure = first + spawned(pids) + failure;
    assert(upto_failure.drop_last() =~= first + spawned(pids));
    assert(upto_failure.last() == Event::SpawnFailed);
    let s3 = step(s2, Event::SpawnFailed);
    assert(run(s, upto_failure) == s3);
    lemma_step_consistent(s2, Event::SpawnFailed);
    if created == 0 {
        assert(signalled(delivered).len() == 0);
        assert(reaped(ok).len() == 0);
        assert(events =~= upto_failure);
    } else {
        assert forall|i: int| 0 <= i < created implies #[trigger] action_at(
            s,
            events,
            2 + created + i,
        ) == (Action::Signal { pid: pids[i] }) by {
            let part = delivered.take(i);
            assert(events.take(2 + created + i) =~= upto_failure + signalled(part));
            lemma_run_concat(s, upto_failure, signalled(part));
            lemma_signals(s3, part);
        }
        lemma_signals(s3, delivered);
        let s4 = run(s3, signalled(delivered));
        lemma_run_concat(s, upto_failure, signalled(delivered));
        lemma_run_consistent(s3, signalled(delivered));
        let upto_signals = upto_failure + signalled(delivered);
        assert forall|i: int| 0 <= i < created implies #[trigger] action_at(
            s,
            events,
            2 + 2 * created + i,
        ) == Action::Reap by {
            let part = ok.take(i);
            assert(events.take(2 + 2 * created + i) =~= upto_signals + reaped(part));
            lemma_run_concat(s, upto_signals, reaped(part));
            lemma_reaps(s4, part);
        }
        lemma_run_concat(s, upto_signals, reaped(ok));
        lemma_reaps(s4, ok);
    }
}

} // verus!
