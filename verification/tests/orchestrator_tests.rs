use sched_profiler::clock::{ClockError, Timestamp};
use sched_profiler::orchestrator::{
    calibration_event_from, perform_calibration, select_arguments, validate, Action, ConfigError,
    Diagnostic, Event, ExitStatus, Orchestrator, Phase, ProcessRecord, UsageError,
};
use sched_profiler::worker::WorkerConfig;
use sched_profiler::workload::{CalibrationError, CalibrationResult};

struct Tally {
    calibrations: u32,
    spawn_attempts: Vec<u32>,
    created: Vec<i32>,
    signals: Vec<i32>,
    reaps: u32,
    diagnostics: Vec<Diagnostic>,
    status: ExitStatus,
    records: Vec<ProcessRecord>,
}

fn calibrated_event(rate: u64) -> Event {
    Event::Calibrated {
        calibration: CalibrationResult::new(rate).unwrap(),
        run_start: Timestamp::new(50, 0).unwrap(),
    }
}

// Runs the machine as a parent process would, with creations that fail from
// the attempt `fail_at` on, and signals and waits that go as `others_ok` says.
fn drive(nproc: u32, total: u32, resolution: u32, fail_at: Option<u32>, others_ok: bool) -> Tally {
    let (mut machine, first) = Orchestrator::start(nproc, total, resolution);
    let mut tally = Tally {
        calibrations: 0,
        spawn_attempts: Vec::new(),
        created: Vec::new(),
        signals: Vec::new(),
        reaps: 0,
        diagnostics: Vec::new(),
        status: ExitStatus::Success,
        records: Vec::new(),
    };
    if let Some(d) = first {
        tally.diagnostics.push(d);
    }
    let mut steps = 0;
    loop {
        steps += 1;
        assert!(steps < 10_000);
        let event = match machine.pending() {
            Action::Calibrate => {
                tally.calibrations += 1;
                calibrated_event(1_000)
            }
            Action::Spawn { worker_id } => {
                tally.spawn_attempts.push(worker_id);
                if Some(worker_id) == fail_at {
                    Event::SpawnFailed
                } else {
                    let pid = 4_000 + worker_id as i32;
                    tally.created.push(pid);
                    Event::Spawned { pid }
                }
            }
            Action::RunWorker(_) => panic!("the parent never becomes a worker"),
            Action::Signal { pid } => {
                tally.signals.push(pid);
                Event::Signalled { delivered: others_ok }
            }
            Action::Reap => {
                tally.reaps += 1;
                Event::Reaped { ok: others_ok }
            }
            Action::Exit(status) => {
                tally.status = status;
                tally.records = machine.records().clone();
                assert_eq!(machine.phase(), Phase::Done);
                assert_eq!(machine.reaped(), tally.reaps as usize);
                assert_eq!(machine.signalled(), tally.signals.len());
                assert_eq!(machine.has_failed(), status == ExitStatus::Failure);
                return tally;
            }
        };
        let (next, diagnostic) = machine.advance(event);
        machine = next;
        if let Some(d) = diagnostic {
            tally.diagnostics.push(d);
        }
    }
}

#[test]
fn validation_names_the_first_fault() {
    assert_eq!(validate(0, 0, 0), Err(ConfigError::NoProcesses));
    assert_eq!(validate(0, 100, 10), Err(ConfigError::NoProcesses));
    assert_eq!(validate(1, 0, 0), Err(ConfigError::NoDuration));
    assert_eq!(validate(1, 0, 10), Err(ConfigError::NoDuration));
    assert_eq!(validate(1, 100, 0), Err(ConfigError::NoResolution));
    assert_eq!(validate(1, 100, 30), Err(ConfigError::NotMultiple));
    assert_eq!(validate(1, 10, 100), Err(ConfigError::NotMultiple));
    assert_eq!(validate(1, 100, 10), Ok(()));
    assert_eq!(validate(1, 1, 1), Ok(()));
    assert_eq!(validate(u32::MAX, u32::MAX, u32::MAX), Ok(()));
}

#[test]
fn invalid_configuration_creates_no_process() {
    let cases = [
        (0, 1000, 100, ConfigError::NoProcesses),
        (4, 0, 100, ConfigError::NoDuration),
        (4, 1000, 0, ConfigError::NoResolution),
        (4, 1000, 300, ConfigError::NotMultiple),
        (0, 0, 0, ConfigError::NoProcesses),
    ];
    for (nproc, total, resolution, fault) in cases {
        let t = drive(nproc, total, resolution, None, true);
        assert_eq!(t.status, ExitStatus::Failure);
        assert_eq!(t.calibrations, 0);
        assert!(t.spawn_attempts.is_empty());
        assert!(t.created.is_empty());
        assert!(t.signals.is_empty());
        assert_eq!(t.reaps, 0);
        assert_eq!(t.diagnostics, vec![Diagnostic::Config(fault)]);
    }
}

#[test]
fn invalid_configuration_ignores_every_event() {
    let (mut machine, _) = Orchestrator::start(3, 100, 7);
    let events = [
        calibrated_event(10),
        Event::Spawned { pid: 1 },
        Event::InChild,
        Event::SpawnFailed,
        Event::Signalled { delivered: true },
        Event::Reaped { ok: true },
        Event::CalibrationFailed(CalibrationError::ClockStalled),
    ];
    for e in events {
        let (next, diagnostic) = machine.advance(e);
        machine = next;
        assert_eq!(diagnostic, None);
        assert_eq!(machine.pending(), Action::Exit(ExitStatus::Failure));
        assert!(machine.records().is_empty());
    }
}

#[test]
fn four_processes_are_created_and_reaped_four_times() {
    let t = drive(4, 1000, 100, None, true);
    assert_eq!(t.status, ExitStatus::Success);
    assert_eq!(t.calibrations, 1);
    assert_eq!(t.spawn_attempts, vec![0, 1, 2, 3]);
    assert_eq!(t.created, vec![4_000, 4_001, 4_002, 4_003]);
    assert!(t.signals.is_empty());
    assert_eq!(t.reaps, 4);
    assert!(t.diagnostics.is_empty());
    assert_eq!(t.records, vec![
        ProcessRecord { pid: 4_000, creation_order: 0 },
        ProcessRecord { pid: 4_001, creation_order: 1 },
        ProcessRecord { pid: 4_002, creation_order: 2 },
        ProcessRecord { pid: 4_003, creation_order: 3 },
    ]);
}

#[test]
fn each_of_four_workers_gets_its_own_identifier() {
    let mut ids = Vec::new();
    for child in 0..4u32 {
        let (mut machine, _) = Orchestrator::start(4, 1000, 100);
        machine = machine.advance(calibrated_event(2_000)).0;
        for i in 0..child {
            machine = machine.advance(Event::Spawned { pid: 10 + i as i32 }).0;
        }
        assert_eq!(machine.pending(), Action::Spawn { worker_id: child });
        machine = machine.advance(Event::InChild).0;
        assert_eq!(machine.phase(), Phase::Working);
        match machine.pending() {
            Action::RunWorker(config) => {
                assert_eq!(config, WorkerConfig {
                    worker_id: child,
                    segment_count: 10,
                    loops_per_segment: 200_000,
                    run_start: Timestamp::new(50, 0).unwrap(),
                });
                ids.push(config.worker_id);
            }
            other => panic!("unexpected action {:?}", other),
        }
        // A worker stays a worker.
        machine = machine.advance(Event::Reaped { ok: true }).0;
        machine = machine.advance(Event::Spawned { pid: 99 }).0;
        assert_eq!(machine.phase(), Phase::Working);
    }
    assert_eq!(ids, vec![0, 1, 2, 3]);
}

#[test]
fn failure_of_the_third_of_five_creations_rolls_back() {
    let t = drive(5, 1000, 100, Some(2), true);
    assert_eq!(t.status, ExitStatus::Failure);
    assert_eq!(t.spawn_attempts, vec![0, 1, 2]);
    assert_eq!(t.created, vec![4_000, 4_001]);
    assert_eq!(t.signals, vec![4_000, 4_001]);
    assert_eq!(t.reaps, 2);
    assert_eq!(t.diagnostics, vec![Diagnostic::SpawnFailed]);
    assert_eq!(t.records.len(), 2);
}

#[test]
fn failure_of_the_first_creation_ends_the_run_at_once() {
    let t = drive(5, 1000, 100, Some(0), true);
    assert_eq!(t.status, ExitStatus::Failure);
    assert_eq!(t.spawn_attempts, vec![0]);
    assert!(t.created.is_empty());
    assert!(t.signals.is_empty());
    assert_eq!(t.reaps, 0);
    assert_eq!(t.diagnostics, vec![Diagnostic::SpawnFailed]);
}

#[test]
fn failure_of_the_last_creation_cancels_all_the_others() {
    let t = drive(3, 30, 10, Some(2), true);
    assert_eq!(t.status, ExitStatus::Failure);
    assert_eq!(t.spawn_attempts, vec![0, 1, 2]);
    assert_eq!(t.signals, vec![4_000, 4_001]);
    assert_eq!(t.reaps, 2);
}

#[test]
fn failed_signals_and_waits_do_not_stop_the_rollback() {
    let t = drive(5, 1000, 100, Some(3), false);
    assert_eq!(t.status, ExitStatus::Failure);
    assert_eq!(t.signals, vec![4_000, 4_001, 4_002]);
    assert_eq!(t.reaps, 3);
    assert_eq!(t.diagnostics, vec![
        Diagnostic::SpawnFailed,
        Diagnostic::SignalFailed { pid: 4_000 },
        Diagnostic::SignalFailed { pid: 4_001 },
        Diagnostic::SignalFailed { pid: 4_002 },
        Diagnostic::ReapFailed,
        Diagnostic::ReapFailed,
        Diagnostic::ReapFailed,
    ]);
}

#[test]
fn failed_waits_alone_do_not_fail_the_run() {
    let t = drive(2, 10, 10, None, false);
    assert_eq!(t.status, ExitStatus::Success);
    assert_eq!(t.reaps, 2);
    assert_eq!(t.diagnostics, vec![Diagnostic::ReapFailed, Diagnostic::ReapFailed]);
}

#[test]
fn failed_calibration_ends_the_run_before_any_creation() {
    let (machine, first) = Orchestrator::start(2, 100, 10);
    assert_eq!(first, None);
    assert_eq!(machine.pending(), Action::Calibrate);
    let failure = CalibrationError::Clock(ClockError::Unavailable(22));
    let (machine, diagnostic) = machine.advance(Event::CalibrationFailed(failure));
    assert_eq!(diagnostic, Some(Diagnostic::Calibration(failure)));
    assert_eq!(machine.pending(), Action::Exit(ExitStatus::Failure));
    assert!(machine.records().is_empty());
    assert_eq!(machine.reaped(), 0);
}

#[test]
fn workload_that_does_not_fit_ends_the_run_before_any_creation() {
    let (machine, _) = Orchestrator::start(2, 4_000_000_000, 4_000_000_000);
    let (machine, diagnostic) = machine.advance(calibrated_event(5_000_000_000));
    assert_eq!(diagnostic, Some(Diagnostic::WorkloadTooLarge));
    assert_eq!(machine.pending(), Action::Exit(ExitStatus::Failure));
    assert!(machine.has_failed());
}

#[test]
fn workload_at_the_limit_fits() {
    let (machine, _) = Orchestrator::start(1, 5, 5);
    let (machine, diagnostic) = machine.advance(calibrated_event(u64::MAX / 5));
    assert_eq!(diagnostic, None);
    assert_eq!(machine.pending(), Action::Spawn { worker_id: 0 });
    let (machine, _) = machine.advance(Event::InChild);
    match machine.pending() {
        Action::RunWorker(config) => {
            assert_eq!(config.loops_per_segment, u64::MAX);
            assert_eq!(config.segment_count, 1);
        }
        other => panic!("unexpected action {:?}", other),
    }
}

#[test]
fn events_that_answer_no_pending_action_change_nothing() {
    let (machine, _) = Orchestrator::start(2, 100, 10);
    let (machine, d) = machine.advance(Event::Spawned { pid: 5 });
    assert_eq!((machine.phase(), d), (Phase::Calibrating, None));
    let (machine, d) = machine.advance(Event::Reaped { ok: false });
    assert_eq!((machine.phase(), d), (Phase::Calibrating, None));
    let (machine, _) = machine.advance(calibrated_event(7));
    let (machine, d) = machine.advance(Event::Signalled { delivered: false });
    assert_eq!((machine.phase(), d), (Phase::Spawning, None));
    let (machine, d) = machine.advance(calibrated_event(9));
    assert_eq!((machine.phase(), d), (Phase::Spawning, None));
    assert!(machine.records().is_empty());
    let (machine, _) = machine.advance(Event::Spawned { pid: 5 });
    let (machine, _) = machine.advance(Event::Spawned { pid: 6 });
    assert_eq!(machine.phase(), Phase::Waiting);
    let (machine, d) = machine.advance(Event::Spawned { pid: 7 });
    assert_eq!((machine.phase(), d), (Phase::Waiting, None));
    assert_eq!(machine.records().len(), 2);
    let (machine, d) = machine.advance(Event::SpawnFailed);
    assert_eq!((machine.phase(), d), (Phase::Waiting, None));
    assert!(!machine.has_failed());
}

#[test]
fn exit_status_codes() {
    assert_eq!(ExitStatus::Success.code(), 0);
    assert_eq!(ExitStatus::Failure.code(), 1);
}

#[test]
fn calibration_event_from_results() {
    let rate = CalibrationResult::new(123).unwrap();
    let start = Timestamp::new(9, 9).unwrap();
    assert_eq!(
        calibration_event_from(Ok(rate), Ok(start)),
        Event::Calibrated { calibration: rate, run_start: start }
    );
    assert_eq!(
        calibration_event_from(Err(CalibrationError::RateTooLow), Ok(start)),
        Event::CalibrationFailed(CalibrationError::RateTooLow)
    );
    assert_eq!(
        calibration_event_from(Ok(rate), Err(ClockError::Unavailable(5))),
        Event::CalibrationFailed(CalibrationError::Clock(ClockError::Unavailable(5)))
    );
    assert_eq!(
        calibration_event_from(Err(CalibrationError::ClockStalled), Err(ClockError::OutOfRange)),
        Event::CalibrationFailed(CalibrationError::ClockStalled)
    );
}

#[test]
fn calibration_on_this_machine_answers_the_action() {
    match perform_calibration() {
        Event::Calibrated { calibration, run_start } => {
            assert!(calibration.loops_per_millisecond() > 0);
            assert!(run_start.tv_sec() >= 0);
        }
        Event::CalibrationFailed(e) => assert_eq!(e, CalibrationError::ClockStalled),
        other => panic!("unexpected event {:?}", other),
    }
}

#[test]
fn three_numbers_are_picked_in_order() {
    assert_eq!(select_arguments(&vec![Some(4), Some(1000), Some(100)]), Ok((4, 1000, 100)));
    assert_eq!(
        select_arguments(&vec![Some(4), Some(1000), Some(100), Some(7)]),
        Ok((4, 1000, 100))
    );
}

#[test]
fn arguments_that_are_no_numbers_are_passed_over() {
    assert_eq!(
        select_arguments(&vec![None, Some(2), None, None, Some(50), Some(10), None]),
        Ok((2, 50, 10))
    );
}

#[test]
fn fewer_than_three_numbers_is_a_usage_error() {
    assert_eq!(select_arguments(&vec![]), Err(UsageError { given: 0 }));
    assert_eq!(select_arguments(&vec![None, None, None]), Err(UsageError { given: 0 }));
    assert_eq!(select_arguments(&vec![Some(1), None, Some(2)]), Err(UsageError { given: 2 }));
}
