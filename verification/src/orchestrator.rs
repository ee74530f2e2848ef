//! The parent process of a run, as a state machine.
//!
//! The machine never creates, signals or reaps a process itself. It says which
//! action is due (`Orchestrator::pending`), the caller performs it, and hands
//! back what came of it (`Orchestrator::advance`). A run goes from calibrating
//! through spawning to waiting; where a creation fails it cancels what it has
//! created before it waits.

use vstd::prelude::*;
use crate::clock::{now, ClockError, Timestamp};
use crate::worker::WorkerConfig;
use crate::workload::{loops_per_msec, CalibrationError, CalibrationResult};

verus! {

/// What is wrong with the three numbers of a run.
#[derive(Clone, Copy, Debug, PartialEq, Eq, Structural)]
pub enum ConfigError {
    /// The number of processes is 0.
    NoProcesses,
    /// The total run time is 0.
    NoDuration,
    /// The resolution is 0.
    NoResolution,
    /// The total run time is no multiple of the resolution.
    NotMultiple,
}

/// How the run ends.
#[derive(Clone, Copy, Debug, PartialEq, Eq, Structural)]
pub enum ExitStatus {
    Success,
    Failure,
}

impl ExitStatus {
    /// The status as the number that the process leaves with: 0 for success,
    /// 1 for failure.
    pub fn code(&self) -> (r: i32)
        ensures
            r == match *self {
                ExitStatus::Success => 0i32,
                ExitStatus::Failure => 1i32,
            },
    {
        match self {
            ExitStatus::Success => 0,
            ExitStatus::Failure => 1,
        }
    }
}

/// A process that the run has created.
#[derive(Clone, Copy, Debug, PartialEq, Eq, Structural)]
pub struct ProcessRecord {
    /// The identifier that the operating system gave the process.
    pub pid: i32,
    /// Its place in the order of creation, from 0.
    pub creation_order: u32,
}

/// Where the run stands.
#[derive(Clone, Copy, Debug, PartialEq, Eq, Structural)]
pub enum Phase {
    /// The workload is being calibrated; no process exists.
    Calibrating,
    /// Workers are being created, one after the other.
    Spawning,
    /// A creation has failed; the workers that exist are being signalled.
    Cancelling,
    /// The workers that exist are being reaped.
    Waiting,
    /// This process is a worker: it has left the parent's run.
    Working,
    /// The run is over.
    Done,
}

/// What the caller is to do next.
#[derive(Clone, Copy, Debug, PartialEq, Eq, Structural)]
pub enum Action {
    /// Calibrate the workload and read the instant at which the run starts.
    Calibrate,
    /// Try to create the worker with this identifier.
    Spawn { worker_id: u32 },
    /// Run the workload of a worker, in the process that was just created.
    RunWorker(WorkerConfig),
    /// Send the cancellation signal to this process.
    Signal { pid: i32 },
    /// Wait for one worker to end.
    Reap,
    /// Leave with this status.
    Exit(ExitStatus),
}

/// What came of the action that was due.
#[derive(Clone, Copy, Debug, PartialEq, Eq, Structural)]
pub enum Event {
    /// The calibration gave a rate, and the clock the start of the run.
    Calibrated { calibration: CalibrationResult, run_start: Timestamp },
    /// The calibration, or the reading of the start of the run, failed.
    CalibrationFailed(CalibrationError),
    /// A worker was created; this is the parent, and `pid` is the worker.
    Spawned { pid: i32 },
    /// A worker was created, and this process is it.
    InChild,
    /// No worker could be created.
    SpawnFailed,
    /// The cancellation signal was sent, or could not be.
    Signalled { delivered: bool },
    /// One wait for a worker has returned, well or not.
    Reaped { ok: bool },
}

/// What the caller is to tell the user of an event.
#[derive(Clone, Copy, Debug, PartialEq, Eq, Structural)]
pub enum Diagnostic {
    /// The three numbers of the run are not acceptable.
    Config(ConfigError),
    /// The calibration failed.
    Calibration(CalibrationError),
    /// The iterations of one segment do not fit in 64 bits.
    WorkloadTooLarge,
    /// A process could not be created.
    SpawnFailed,
    /// The cancellation signal could not be sent to this process.
    SignalFailed { pid: i32 },
    /// A wait for a worker failed.
    ReapFailed,
}

/// Fewer than three numbers were given.
#[derive(Clone, Copy, Debug, PartialEq, Eq, Structural)]
pub struct UsageError {
    /// How many numbers were given.
    pub given: usize,
}

/// The numbers among `args`, in their order: an argument that is no number is
/// passed over.
pub open spec fn numbers_among(args: Seq<Option<u32>>) -> Seq<u32>
    decreases args.len(),
{
    if args.len() == 0 {
        Seq::empty()
    } else {
        match args.last() {
            Some(n) => numbers_among(args.drop_last()).push(n),
            None => numbers_among(args.drop_last()),
        }
    }
}

/// Picks the three numbers of a run, the count of processes, the total time
/// and the resolution, from the arguments of the command line, each of them
/// given as the number it reads as or as `None`. They are the first three that
/// are numbers.
pub fn select_arguments(args: &Vec<Option<u32>>) -> (r: Result<(u32, u32, u32), UsageError>)
    ensures
        r == (if numbers_among(args@).len() < 3 {
            Err::<(u32, u32, u32), UsageError>(UsageError { given: numbers_among(args@).len() as usize })
        } else {
            Ok::<(u32, u32, u32), UsageError>(
                (numbers_among(args@)[0], numbers_among(args@)[1], numbers_among(args@)[2]),
            )
        }),
{
    let mut numbers: Vec<u32> = Vec::new();
    let mut i: usize = 0;
    while i < args.len()
        invariant
            i <= args@.len(),
            numbers@ == numbers_among(args@.take(i as int)),
            numbers@.len() <= i,
        decreases args@.len() - i,
    {
        proof {
            assert(args@.take(i + 1).drop_last() =~= args@.take(i as int));
        }
        match args[i] {
            Some(n) => numbers.push(n),
            None => {},
        }
        i = i + 1;
    }
    proof {
        assert(args@.take(i as int) =~= args@);
    }
    if numbers.len() < 3 {
        Err(UsageError { given: numbers.len() })
    } else {
        Ok((numbers[0], numbers[1], numbers[2]))
    }
}

/// The first thing wrong with the three numbers of a run, if anything is:
/// each must be at least 1, and the total a multiple of the resolution.
pub open spec fn config_error(nproc: u32, total: u32, resolution: u32) -> Option<ConfigError> {
    if nproc < 1 {
        Some(ConfigError::NoProcesses)
    } else if total < 1 {
        Some(ConfigError::NoDuration)
    } else if resolution < 1 {
        Some(ConfigError::NoResolution)
    } else if total as int % resolution as int != 0 {
        Some(ConfigError::NotMultiple)
    } else {
        None
    }
}

/// Whether a run may start with these three numbers.
pub open spec fn config_valid(nproc: u32, total: u32, resolution: u32) -> bool {
    nproc >= 1 && total >= 1 && resolution >= 1 && total as int % resolution as int == 0
}

/// Checks the three numbers of a run.
pub fn validate(nproc: u32, total: u32, resolution: u32) -> (r: Result<(), ConfigError>)
    ensures
        r is Ok <==> config_valid(nproc, total, resolution),
        r matches Err(e) ==> config_error(nproc, total, resolution) == Some(e),
{
    if nproc < 1 {
        Err(ConfigError::NoProcesses)
    } else if total < 1 {
        Err(ConfigError::NoDuration)
    } else if resolution < 1 {
        Err(ConfigError::NoResolution)
    } else if total % resolution != 0 {
        Err(ConfigError::NotMultiple)
    } else {
        Ok(())
    }
}

/// The run as the contracts see it.
pub struct RunState {
    /// How many workers the run is to have.
    pub nproc: u32,
    /// How long each worker is to work, in milliseconds.
    pub total: u32,
    /// The length of one segment, in milliseconds.
    pub resolution: u32,
    pub phase: Phase,
    /// The empty iterations of one segment; set when the calibration is in.
    pub loops_per_segment: u64,
    /// The instant the run started at; set when the calibration is in.
    pub run_start: Option<Timestamp>,
    /// The workers created so far, in the order of their creation.
    pub records: Seq<ProcessRecord>,
    /// How many of them a cancellation signal has been tried on.
    pub signalled: nat,
    /// How many waits for a worker have returned.
    pub reaped: nat,
    /// Whether the run has failed.
    pub failed: bool,
}

/// The run before anything has happened. With numbers that are not acceptable
/// it is over at once, and has failed.
pub open spec fn initial(nproc: u32, total: u32, resolution: u32) -> RunState {
    RunState {
        nproc,
        total,
        resolution,
        phase: if config_valid(nproc, total, resolution) {
            Phase::Calibrating
        } else {
            Phase::Done
        },
        loops_per_segment: 0,
        run_start: None,
        records: Seq::empty(),
        signalled: 0,
        reaped: 0,
        failed: !config_valid(nproc, total, resolution),
    }
}

/// The action that is due in state `s`.
pub open spec fn pending_action(s: RunState) -> Action {
    match s.phase {
        Phase::Calibrating => Action::Calibrate,
        Phase::Spawning => Action::Spawn { worker_id: s.records.len() as u32 },
        Phase::Cancelling => Action::Signal { pid: s.records[s.signalled as int].pid },
        Phase::Waiting => Action::Reap,
        Phase::Working => match s.run_start {
            Some(run_start) => Action::RunWorker(
                WorkerConfig {
                    worker_id: s.records.len() as u32,
                    segment_count: (s.total as int / s.resolution as int) as u32,
                    loops_per_segment: s.loops_per_segment,
                    run_start,
                },
            ),
            None => Action::Exit(ExitStatus::Failure),
        },
        Phase::Done => Action::Exit(
            if s.failed {
                ExitStatus::Failure
            } else {
                ExitStatus::Success
            },
        ),
    }
}

/// The state that follows `s` on event `e`. An event that does not answer the
/// action due in `s` changes nothing.
pub open spec fn step(s: RunState, e: Event) -> RunState {
    match (s.phase, e) {
        (Phase::Calibrating, Event::Calibrated { calibration, run_start }) => {
            if calibration.rate() * s.resolution <= u64::MAX {
                RunState {
                    phase: Phase::Spawning,
                    loops_per_segment: (calibration.rate() * s.resolution) as u64,
                    run_start: Some(run_start),
                    ..s
                }
            } else {
                RunState { phase: Phase::Done, failed: true, ..s }
            }
        },
        (Phase::Calibrating, Event::CalibrationFailed(_)) => RunState {
            phase: Phase::Done,
            failed: true,
            ..s
        },
        (Phase::Spawning, Event::Spawned { pid }) => {
            let records = s.records.push(
                ProcessRecord { pid, creation_order: s.records.len() as u32 },
            );
            RunState {
                phase: if records.len() >= s.nproc {
                    Phase::Waiting
                } else {
                    Phase::Spawning
                },
                records,
                ..s
            }
        },
        (Phase::Spawning, Event::InChild) => RunState { phase: Phase::Working, ..s },
        (Phase::Spawning, Event::SpawnFailed) => RunState {
            phase: if s.records.len() == 0 {
                Phase::Done
            } else {
                Phase::Cancelling
            },
            failed: true,
            ..s
        },
        (Phase::Cancelling, Event::Signalled { delivered }) => RunState {
            phase: if s.signalled + 1 >= s.records.len() {
                Phase::Waiting
            } else {
                Phase::Cancelling
            },
            signalled: s.signalled + 1,
            ..s
        },
        (Phase::Waiting, Event::Reaped { ok }) => RunState {
            phase: if s.reaped + 1 >= s.records.len() {
                Phase::Done
            } else {
                Phase::Waiting
            },
            reaped: s.reaped + 1,
            ..s
        },
        _ => s,
    }
}

/// What the user is to be told when event `e` arrives in state `s`.
pub open spec fn diagnostic_of(s: RunState, e: Event) -> Option<Diagnostic> {
    match (s.phase, e) {
        (Phase::Calibrating, Event::Calibrated { calibration, run_start }) => {
            if calibration.rate() * s.resolution <= u64::MAX {
                None
            } else {
                Some(Diagnostic::WorkloadTooLarge)
            }
        },
        (Phase::Calibrating, Event::CalibrationFailed(e)) => Some(Diagnostic::Calibration(e)),
        (Phase::Spawning, Event::SpawnFailed) => Some(Diagnostic::SpawnFailed),
        (Phase::Cancelling, Event::Signalled { delivered }) => {
            if delivered {
                None
            } else {
                Some(Diagnostic::SignalFailed { pid: s.records[s.signalled as int].pid })
            }
        },
        (Phase::Waiting, Event::Reaped { ok }) => {
            if ok {
                None
            } else {
                Some(Diagnostic::ReapFailed)
            }
        },
        _ => None,
    }
}

/// What holds of every state that a run can be in.
pub open spec fn consistent(s: RunState) -> bool {
    &&& s.records.len() <= s.nproc
    &&& forall|i: int| 0 <= i < s.records.len() ==> (#[trigger] s.records[i]).creation_order == i
    &&& s.signalled <= s.records.len()
    &&& s.reaped <= s.records.len()
    &&& match s.phase {
        Phase::Calibrating => {
            &&& config_valid(s.nproc, s.total, s.resolution)
            &&& s.records.len() == 0
            &&& !s.failed
        },
        Phase::Spawning | Phase::Working => {
            &&& config_valid(s.nproc, s.total, s.resolution)
            &&& s.records.len() < s.nproc
            &&& !s.failed
            &&& s.run_start is Some
            &&& s.signalled == 0
            &&& s.reaped == 0
        },
        Phase::Cancelling => {
            &&& config_valid(s.nproc, s.total, s.resolution)
            &&& s.failed
            &&& s.signalled < s.records.len()
            &&& s.reaped == 0
        },
        Phase::Waiting => {
            &&& config_valid(s.nproc, s.total, s.resolution)
            &&& s.reaped < s.records.len()
            &&& if s.failed {
                s.signalled == s.records.len()
            } else {
                s.signalled == 0 && s.records.len() == s.nproc
            }
        },
        Phase::Done => {
            &&& s.reaped == s.records.len()
            &&& if s.failed {
                s.signalled == s.records.len()
            } else {
                &&& config_valid(s.nproc, s.total, s.resolution)
                &&& s.signalled == 0
                &&& s.records.len() == s.nproc
            }
        },
    }
}

/// The event that a calibration and the reading of the start of the run make:
/// the failure of the calibration, else that of the reading, else the two
/// results together.
pub open spec fn calibration_event_of(
    calibration: Result<CalibrationResult, CalibrationError>,
    run_start: Result<Timestamp, ClockError>,
) -> Event {
    match calibration {
        Err(e) => Event::CalibrationFailed(e),
        Ok(calibration) => match run_start {
            Err(e) => Event::CalibrationFailed(CalibrationError::Clock(e)),
            Ok(run_start) => Event::Calibrated { calibration, run_start },
        },
    }
}

/// Makes the event that answers `Action::Calibrate` from the result of the
/// calibration and the reading of the start of the run.
pub fn calibration_event_from(
    calibration: Result<CalibrationResult, CalibrationError>,
    run_start: Result<Timestamp, ClockError>,
) -> (r: Event)
    ensures
        r == calibration_event_of(calibration, run_start),
{
    match calibration {
        Err(e) => Event::CalibrationFailed(e),
        Ok(calibration) => match run_start {
            Err(e) => Event::CalibrationFailed(CalibrationError::Clock(e)),
            Ok(run_start) => Event::Calibrated { calibration, run_start },
        },
    }
}

/// Performs `Action::Calibrate`: calibrates the workload and then, where that
/// gave a rate, reads the clock for the start of the run. The event is one of
/// the two that answer the action.
pub fn perform_calibration() -> (r: Event)
    ensures
        r is Calibrated || r is CalibrationFailed,
        exists|
            calibration: Result<CalibrationResult, CalibrationError>,
            run_start: Result<Timestamp, ClockError>,
        | r == calibration_event_of(calibration, run_start),
{
    match loops_per_msec() {
        Err(e) => {
            let r = Event::CalibrationFailed(e);
            assert(r == calibration_event_of(
                Err::<CalibrationResult, CalibrationError>(e),
                Err::<Timestamp, ClockError>(ClockError::OutOfRange),
            ));
            r
        },
        Ok(calibration) => calibration_event_from(Ok(calibration), now()),
    }
}

/// The parent process of a run.
pub struct Orchestrator {
    nproc: u32,
    total: u32,
    resolution: u32,
    phase: Phase,
    loops_per_segment: u64,
    run_start: Option<Timestamp>,
    records: Vec<ProcessRecord>,
    signalled: usize,
    reaped: usize,
    failed: bool,
}

impl View for Orchestrator {
    type V = RunState;

    closed spec fn view(&self) -> RunState {
        RunState {
            nproc: self.nproc,
            total: self.total,
            resolution: self.resolution,
            phase: self.phase,
            loops_per_segment: self.loops_per_segment,
            run_start: self.run_start,
            records: self.records@,
            signalled: self.signalled as nat,
            reaped: self.reaped as nat,
            failed: self.failed,
        }
    }
}

impl Orchestrator {
    #[verifier::type_invariant]
    spec fn well_formed(self) -> bool {
        consistent(self@)
    }

    /// Takes the three numbers of a run and checks them. Where they are not
    /// acceptable the run is over at once: it has failed, and no action but
    /// leaving is ever due.
    pub fn start(nproc: u32, total: u32, resolution: u32) -> (r: (Orchestrator, Option<Diagnostic>))
        ensures
            r.0@ == initial(nproc, total, resolution),
            consistent(r.0@),
            r.1 == match config_error(nproc, total, resolution) {
                Some(e) => Some(Diagnostic::Config(e)),
                None => None,
            },
            !config_valid(nproc, total, resolution) ==> {
                &&& r.0@.records.len() == 0
                &&& pending_action(r.0@) == Action::Exit(ExitStatus::Failure)
            },
    {
        let checked = validate(nproc, total, resolution);
        let valid = checked.is_ok();
        let orchestrator = Orchestrator {
            nproc,
            total,
            resolution,
            phase: if valid {
                Phase::Calibrating
            } else {
                Phase::Done
            },
            loops_per_segment: 0,
            run_start: None,
            records: Vec::new(),
            signalled: 0,
            reaped: 0,
            failed: !valid,
        };
        let diagnostic = match checked {
            Ok(_) => None,
            Err(e) => Some(Diagnostic::Config(e)),
        };
        (orchestrator, diagnostic)
    }

    /// Where the run stands.
    pub fn phase(&self) -> (r: Phase)
        ensures
            r == self@.phase,
    {
        self.phase
    }

    /// The workers created so far, in the order of their creation.
    pub fn records(&self) -> (r: &Vec<ProcessRecord>)
        ensures
            r@ == self@.records,
            r@.len() <= self@.nproc,
    {
        proof {
            use_type_invariant(self);
        }
        &self.records
    }

    /// How many of the workers a cancellation signal has been tried on.
    pub fn signalled(&self) -> (r: usize)
        ensures
            r == self@.signalled,
            r <= self@.records.len(),
    {
        proof {
            use_type_invariant(self);
        }
        self.signalled
    }

    /// How many waits for a worker have returned.
    pub fn reaped(&self) -> (r: usize)
        ensures
            r == self@.reaped,
            r <= self@.records.len(),
    {
        proof {
            use_type_invariant(self);
        }
        self.reaped
    }

    /// Whether the run has failed.
    pub fn has_failed(&self) -> (r: bool)
        ensures
            r == self@.failed,
    {
        self.failed
    }

    /// The action that is due.
    pub fn pending(&self) -> (r: Action)
        ensures
            r == pending_action(self@),
            consistent(self@),
    {
        proof {
            use_type_invariant(self);
        }
        match self.phase {
            Phase::Calibrating => Action::Calibrate,
            Phase::Spawning => Action::Spawn { worker_id: self.records.len() as u32 },
            Phase::Cancelling => Action::Signal { pid: self.records[self.signalled].pid },
            Phase::Waiting => Action::Reap,
            Phase::Working => match self.run_start {
                Some(run_start) => Action::RunWorker(
                    WorkerConfig {
                        worker_id: self.records.len() as u32,
                        segment_count: self.total / self.resolution,
                        loops_per_segment: self.loops_per_segment,
                        run_start,
                    },
                ),
                None => Action::Exit(ExitStatus::Failure),
            },
            Phase::Done => Action::Exit(
                if self.failed {
                    ExitStatus::Failure
                } else {
                    ExitStatus::Success
                },
            ),
        }
    }

    /// Takes what came of the action that was due, and gives the run as it
    /// stands after it, with what the user is to be told, if anything.
    pub fn advance(self, event: Event) -> (r: (Orchestrator, Option<Diagnostic>))
        ensures
            r.0@ == step(self@, event),
            r.1 == diagnostic_of(self@, event),
            consistent(self@),
            consistent(r.0@),
    {
        proof {
            use_type_invariant(&self);
            lemma_step_consistent(self@, event);
        }
        match (self.phase, event) {
            (Phase::Calibrating, Event::Calibrated { calibration, run_start }) => {
                match calibration.loops_per_millisecond().checked_mul(self.resolution as u64) {
                    Some(loops) => (
                        Orchestrator {
                            phase: Phase::Spawning,
                            loops_per_segment: loops,
                            run_start: Some(run_start),
                            ..self
                        },
                        None,
                    ),
                    None => (
                        Orchestrator { phase: Phase::Done, failed: true, ..self },
                        Some(Diagnostic::WorkloadTooLarge),
                    ),
                }
            },
            (Phase::Calibrating, Event::CalibrationFailed(e)) => (
                Orchestrator { phase: Phase::Done, failed: true, ..self },
                Some(Diagnostic::Calibration(e)),
            ),
            (Phase::Spawning, Event::Spawned { pid }) => {
                let creation_order: u32 = self.records.len() as u32;
                let nproc: usize = self.nproc as usize;
                let mut records = self.records;
                records.push(ProcessRecord { pid, creation_order });
                let phase = if records.len() >= nproc {
                    Phase::Waiting
                } else {
                    Phase::Spawning
                };
                (Orchestrator { phase, records, ..self }, None)
            },
            (Phase::Spawning, Event::InChild) => (
                Orchestrator { phase: Phase::Working, ..self },
                None,
            ),
            (Phase::Spawning, Event::SpawnFailed) => {
                let phase = if self.records.len() == 0 {
                    Phase::Done
                } else {
                    Phase::Cancelling
                };
                (Orchestrator { phase, failed: true, ..self }, Some(Diagnostic::SpawnFailed))
            },
            (Phase::Cancelling, Event::Signalled { delivered }) => {
                let pid: i32 = self.records[self.signalled].pid;
                let signalled: usize = self.signalled + 1;
                let phase = if signalled >= self.records.len() {
                    Phase::Waiting
                } else {
                    Phase::Cancelling
                };
                let diagnostic = if delivered {
                    None
                } else {
                    Some(Diagnostic::SignalFailed { pid })
                };
                (Orchestrator { phase, signalled, ..self }, diagnostic)
            },
            (Phase::Waiting, Event::Reaped { ok }) => {
                let reaped: usize = self.reaped + 1;
                let phase = if reaped >= self.records.len() {
                    Phase::Done
                } else {
                    Phase::Waiting
                };
                let diagnostic = if ok {
                    None
                } else {
                    Some(Diagnostic::ReapFailed)
                };
                (Orchestrator { phase, reaped, ..self }, diagnostic)
            },
            _ => (self, None),
        }
    }
}

/// A step from a state that a run can be in leads to one that it can be in.
pub proof fn lemma_step_consistent(s: RunState, e: Event)
    requires
        consistent(s),
    ensures
        consistent(step(s, e)),
{
}

} // verus!
