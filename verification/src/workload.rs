//! The busy loop that stands for work, and its calibration against the clock.

use vstd::prelude::*;
use vstd::arithmetic::div_mod::lemma_div_is_ordered_by_denominator;
use vstd::arithmetic::div_mod::lemma_fundamental_div_mod;
use crate::clock::{elapsed_ns, now, ClockError, Timestamp, NSECS_PER_MSEC};

verus! {

/// How many empty iterations the calibration times. It is large, so that the
/// cost of reading the clock and the scheduler's jitter are small beside the
/// time the loop takes.
pub const NLOOP_FOR_ESTIMATION: u64 = 50_000_000;

/// The longest calibration run, in nanoseconds, that still gives one iteration
/// per millisecond.
pub const MAX_ESTIMATION_NSECS: i64 = 50_000_000_000_000;

/// Why the calibration gave no rate.
#[derive(Clone, Copy, Debug, PartialEq, Eq, Structural)]
pub enum CalibrationError {
    /// One of the two readings of the clock failed.
    Clock(ClockError),
    /// The clock did not advance over the calibration loop.
    ClockStalled,
    /// The loop took so long that less than one iteration fits in a
    /// millisecond.
    RateTooLow,
}

/// The iterations per millisecond that a calibration loop of `elapsed_ns`
/// nanoseconds shows: the iterations timed, times the nanoseconds in a
/// millisecond, by the nanoseconds taken.
pub open spec fn loops_per_msec_of(elapsed_ns: int) -> int {
    NLOOP_FOR_ESTIMATION * NSECS_PER_MSEC / elapsed_ns
}

/// How many iterations of the busy loop take one millisecond on this machine.
/// The number is at least one.
#[derive(Clone, Copy, Debug, PartialEq, Eq, Structural)]
pub struct CalibrationResult {
    loops_per_millisecond: u64,
}

impl CalibrationResult {
    #[verifier::type_invariant]
    spec fn positive(self) -> bool {
        self.loops_per_millisecond > 0
    }

    /// The iterations per millisecond, as a number.
    pub closed spec fn rate(self) -> int {
        self.loops_per_millisecond as int
    }

    /// A calibration of `loops_per_millisecond` iterations, unless that is 0.
    pub fn new(loops_per_millisecond: u64) -> (r: Option<CalibrationResult>)
        ensures
            r is Some <==> loops_per_millisecond > 0,
            r matches Some(c) ==> c.rate() == loops_per_millisecond,
    {
        if loops_per_millisecond == 0 {
            None
        } else {
            Some(CalibrationResult { loops_per_millisecond })
        }
    }

    /// The iterations per millisecond.
    pub fn loops_per_millisecond(&self) -> (r: u64)
        ensures
            r == self.rate(),
            r > 0,
    {
        proof {
            use_type_invariant(self);
        }
        self.loops_per_millisecond
    }
}

/// Spins through `nloop` empty iterations.
pub fn load(nloop: u64) {
    let mut i: u64 = 0;
    while i < nloop
        invariant
            i <= nloop,
        decreases nloop - i,
    {
        i = i + 1;
    }
}

/// What a calibration loop that took `elapsed_ns` nanoseconds gives.
pub open spec fn calibration_outcome(elapsed_ns: int, r: Result<CalibrationResult, CalibrationError>) -> bool {
    if elapsed_ns <= 0 {
        r == Err::<CalibrationResult, CalibrationError>(CalibrationError::ClockStalled)
    } else if elapsed_ns > MAX_ESTIMATION_NSECS {
        r == Err::<CalibrationResult, CalibrationError>(CalibrationError::RateTooLow)
    } else {
        r matches Ok(c) && c.rate() == loops_per_msec_of(elapsed_ns) && c.rate() > 0
    }
}

/// The rate that a calibration loop of `elapsed_ns` nanoseconds shows. There is
/// none where the clock did not advance, nor where the loop ran for so long
/// that the rate would be 0.
pub fn calibration_from_elapsed(elapsed_ns: i64) -> (r: Result<CalibrationResult, CalibrationError>)
    ensures
        calibration_outcome(elapsed_ns as int, r),
{
    if elapsed_ns <= 0 {
        return Err(CalibrationError::ClockStalled);
    }
    if elapsed_ns > MAX_ESTIMATION_NSECS {
        return Err(CalibrationError::RateTooLow);
    }
    let work: u64 = NLOOP_FOR_ESTIMATION * 1_000_000;
    let taken: u64 = elapsed_ns as u64;
    let rate: u64 = work / taken;
    proof {
        lemma_rate_positive(elapsed_ns as int);
    }
    match CalibrationResult::new(rate) {
        Some(c) => Ok(c),
        None => Err(CalibrationError::RateTooLow),
    }
}

/// What the two readings that bracket the calibration loop give: the first
/// failure among them, or else the rate that their difference shows.
pub open spec fn readings_outcome(
    before: Result<Timestamp, ClockError>,
    after: Result<Timestamp, ClockError>,
    r: Result<CalibrationResult, CalibrationError>,
) -> bool {
    match (before, after) {
        (Err(e), _) => r == Err::<CalibrationResult, CalibrationError>(CalibrationError::Clock(e)),
        (Ok(_), Err(e)) => r == Err::<CalibrationResult, CalibrationError>(CalibrationError::Clock(e)),
        (Ok(b), Ok(a)) => calibration_outcome(a.as_nanos() - b.as_nanos(), r),
    }
}

/// The calibration that follows from the reading taken before the loop and
/// the one taken after it.
pub fn calibration_from_readings(
    before: Result<Timestamp, ClockError>,
    after: Result<Timestamp, ClockError>,
) -> (r: Result<CalibrationResult, CalibrationError>)
    ensures
        readings_outcome(before, after, r),
{
    match before {
        Err(e) => Err(CalibrationError::Clock(e)),
        Ok(b) => match after {
            Err(e) => Err(CalibrationError::Clock(e)),
            Ok(a) => calibration_from_elapsed(elapsed_ns(&b, &a)),
        },
    }
}

/// Times `NLOOP_FOR_ESTIMATION` empty iterations between two readings of the
/// monotonic clock and derives the iterations per millisecond. Where the first
/// reading fails the loop is not run.
pub fn loops_per_msec() -> (r: Result<CalibrationResult, CalibrationError>)
    ensures
        r matches Ok(c) ==> 0 < c.rate() <= NLOOP_FOR_ESTIMATION * NSECS_PER_MSEC,
        exists|before: Result<Timestamp, ClockError>, after: Result<Timestamp, ClockError>|
            readings_outcome(before, after, r),
{
    let before = now();
    if before.is_err() {
        return calibration_from_readings(before, before);
    }
    load(NLOOP_FOR_ESTIMATION);
    let after = now();
    let r = calibration_from_readings(before, after);
    proof {
        if let Ok(c) = r {
            let e = after->Ok_0.as_nanos() - before->Ok_0.as_nanos();
            lemma_rate_bounds(e);
        }
    }
    r
}

/// A calibration loop that ends within the longest run allowed shows a rate of
/// at least one iteration per millisecond.
pub proof fn lemma_rate_positive(elapsed_ns: int)
    requires
        0 < elapsed_ns <= MAX_ESTIMATION_NSECS,
    ensures
        loops_per_msec_of(elapsed_ns) >= 1,
{
    let work: int = NLOOP_FOR_ESTIMATION * NSECS_PER_MSEC;
    lemma_div_is_ordered_by_denominator(work, elapsed_ns, work);
}

/// No calibration shows more iterations per millisecond than the loop has
/// iterations per nanosecond taken.
pub proof fn lemma_rate_bounds(elapsed_ns: int)
    requires
        0 < elapsed_ns,
    ensures
        0 <= loops_per_msec_of(elapsed_ns) <= NLOOP_FOR_ESTIMATION * NSECS_PER_MSEC,
{
    let work: int = NLOOP_FOR_ESTIMATION * NSECS_PER_MSEC;
    lemma_div_is_ordered_by_denominator(work, 1, elapsed_ns);
    lemma_fundamental_div_mod(work, elapsed_ns);
    assert(work / elapsed_ns >= 0) by (nonlinear_arith)
        requires
            work >= 0,
            elapsed_ns > 0,
    ;
}

/// A machine that gets through the calibration loop in less time is never
/// given the smaller rate.
pub proof fn lemma_faster_is_not_smaller(fast_ns: int, slow_ns: int)
    requires
        0 < fast_ns <= slow_ns,
    ensures
        loops_per_msec_of(fast_ns) >= loops_per_msec_of(slow_ns),
{
    let work: int = NLOOP_FOR_ESTIMATION * NSECS_PER_MSEC;
    lemma_div_is_ordered_by_denominator(work, fast_ns, slow_ns);
}

/// Where the faster machine's true rate exceeds the slower one's by a whole
/// iteration per millisecond or more, its calibrated rate is strictly larger.
pub proof fn lemma_faster_by_one_is_larger(fast_ns: int, slow_ns: int)
    requires
        0 < fast_ns < slow_ns,
        NLOOP_FOR_ESTIMATION * NSECS_PER_MSEC * (slow_ns - fast_ns) >= fast_ns * slow_ns,
    ensures
        loops_per_msec_of(fast_ns) > loops_per_msec_of(slow_ns),
{
    let work: int = NLOOP_FOR_ESTIMATION * NSECS_PER_MSEC;
    let q: int = work / slow_ns;
    lemma_fundamental_div_mod(work, slow_ns);
    assert(q * slow_ns <= work) by (nonlinear_arith)
        requires
            work == slow_ns * q + work % slow_ns,
            0 <= work % slow_ns,
    ;
    assert((q + 1) * fast_ns <= work) by (nonlinear_arith)
        requires
            q * slow_ns <= work,
            work * (slow_ns - fast_ns) >= fast_ns * slow_ns,
            0 < fast_ns < slow_ns,
            0 <= q,
            0 <= work,
    ;
    vstd::arithmetic::div_mod::lemma_div_is_ordered((q + 1) * fast_ns, work, fast_ns);
    vstd::arithmetic::div_mod::lemma_div_multiples_vanish(q + 1, fast_ns);
    assert((q + 1) * fast_ns == fast_ns * (q + 1)) by (nonlinear_arith);
    lemma_rate_bounds(slow_ns);
}

} // verus!
