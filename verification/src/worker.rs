//! One worker: the calibrated workload, cut into segments, and the samples
//! that the worker derives from the clock readings it took after each.

use vstd::prelude::*;
use crate::clock::{elapsed_ns, now, ClockError, Timestamp, NSECS_PER_MSEC};
use crate::workload::load;

verus! {

/// What one worker is started with.
#[derive(Clone, Copy, Debug, PartialEq, Eq, Structural)]
pub struct WorkerConfig {
    /// The worker's place in the order of creation, from 0.
    pub worker_id: u32,
    /// How many segments the workload has.
    pub segment_count: u32,
    /// The empty iterations that make up one segment.
    pub loops_per_segment: u64,
    /// The instant from which every worker of the run counts its time.
    pub run_start: Timestamp,
}

/// How far a worker had come at which moment.
#[derive(Clone, Copy, Debug, PartialEq, Eq, Structural)]
pub struct Sample {
    /// Which segment had just ended, from 0.
    pub segment_index: u32,
    /// The whole milliseconds from the start of the run to that moment.
    pub elapsed_ms_since_start: i64,
    /// The share of the workload done by then, in percent.
    pub percent_complete: u32,
}

/// The share of the workload, in percent, that is done when segment
/// `segment_index` of `segment_count` has ended.
pub open spec fn percent_of(segment_index: int, segment_count: int) -> int {
    (segment_index + 1) * 100 / segment_count
}

/// The whole milliseconds in `ns` nanoseconds, rounded towards zero.
pub open spec fn whole_msecs(ns: int) -> int {
    if ns >= 0 {
        ns / (NSECS_PER_MSEC as int)
    } else {
        -((-ns) / (NSECS_PER_MSEC as int))
    }
}

/// The sample that a worker takes when it reads `at` from the clock after
/// segment `segment_index`.
pub open spec fn sample_of(config: WorkerConfig, segment_index: int, at: Timestamp) -> Sample {
    Sample {
        segment_index: segment_index as u32,
        elapsed_ms_since_start: whole_msecs(at.as_nanos() - config.run_start.as_nanos()) as i64,
        percent_complete: percent_of(segment_index, config.segment_count as int) as u32,
    }
}

/// The samples that follow from the readings `stamps`, one for each, in order.
pub open spec fn samples_of(config: WorkerConfig, stamps: Seq<Timestamp>) -> Seq<Sample> {
    Seq::new(stamps.len(), |i: int| sample_of(config, i, stamps[i]))
}

/// The whole milliseconds in `ns` nanoseconds, rounded towards zero.
pub fn msecs_of(ns: i64) -> (r: i64)
    ensures
        r == whole_msecs(ns as int),
{
    ns / NSECS_PER_MSEC
}

/// The share of the workload, in percent, that is done when segment
/// `segment_index` of `segment_count` has ended.
pub fn percent_complete(segment_index: u32, segment_count: u32) -> (r: u32)
    requires
        segment_index < segment_count,
    ensures
        r == percent_of(segment_index as int, segment_count as int),
        r <= 100,
        segment_count <= 100 ==> r >= 1,
{
    let done: u64 = (segment_index as u64 + 1) * 100;
    let r: u64 = done / (segment_count as u64);
    proof {
        lemma_percent_bounds(segment_index as int, segment_count as int);
    }
    r as u32
}

/// The percentage of a segment that exists is at most 100, and that of the
/// last segment is 100.
pub proof fn lemma_percent_bounds(segment_index: int, segment_count: int)
    requires
        0 <= segment_index < segment_count,
    ensures
        0 <= percent_of(segment_index, segment_count) <= 100,
        segment_count <= 100 ==> percent_of(segment_index, segment_count) >= 1,
        segment_index == segment_count - 1 ==> percent_of(segment_index, segment_count) == 100,
{
    let done = (segment_index + 1) * 100;
    vstd::arithmetic::div_mod::lemma_div_is_ordered(done, segment_count * 100, segment_count);
    vstd::arithmetic::div_mod::lemma_div_multiples_vanish(100, segment_count);
    vstd::arithmetic::div_mod::lemma_div_pos_is_pos(done, segment_count);
    if segment_count <= 100 {
        vstd::arithmetic::div_mod::lemma_div_is_ordered(segment_count, done, segment_count);
        vstd::arithmetic::div_mod::lemma_div_basics(segment_count);
    }
}

/// The sample that a worker takes when it reads `at` from the clock after
/// segment `segment_index`.
pub fn sample_at(config: &WorkerConfig, segment_index: u32, at: &Timestamp) -> (r: Sample)
    requires
        segment_index < config.segment_count,
    ensures
        r == sample_of(*config, segment_index as int, *at),
{
    Sample {
        segment_index,
        elapsed_ms_since_start: msecs_of(elapsed_ns(&config.run_start, at)),
        percent_complete: percent_complete(segment_index, config.segment_count),
    }
}

/// The samples of a worker that read `stamps` from the clock, one reading
/// after each segment. Readings beyond the last segment are not looked at.
pub fn samples_from(config: &WorkerConfig, stamps: &Vec<Timestamp>) -> (r: Vec<Sample>)
    requires
        stamps@.len() >= config.segment_count,
    ensures
        r@ == samples_of(*config, stamps@.take(config.segment_count as int)),
{
    let mut samples: Vec<Sample> = Vec::new();
    let mut i: u32 = 0;
    while i < config.segment_count
        invariant
            i <= config.segment_count,
            stamps@.len() >= config.segment_count,
            samples@ == samples_of(*config, stamps@.take(i as int)),
        decreases config.segment_count - i,
    {
        let sample = sample_at(config, i, &stamps[i as usize]);
        samples.push(sample);
        i = i + 1;
        assert(samples@ =~= samples_of(*config, stamps@.take(i as int)));
    }
    samples
}

/// Runs the workload, segment by segment, and reads the clock after each. The
/// readings come back in the order in which they were taken; the first
/// reading that fails ends the work.
pub fn record_segments(config: &WorkerConfig) -> (r: Result<Vec<Timestamp>, ClockError>)
    ensures
        r matches Ok(stamps) ==> stamps@.len() == config.segment_count,
        config.segment_count == 0 ==> r is Ok,
{
    let mut stamps: Vec<Timestamp> = Vec::new();
    let mut i: u32 = 0;
    while i < config.segment_count
        invariant
            i <= config.segment_count,
            stamps@.len() == i,
        decreases config.segment_count - i,
    {
        load(config.loops_per_segment);
        match now() {
            Ok(at) => stamps.push(at),
            Err(e) => {
                return Err(e);
            },
        }
        i = i + 1;
    }
    Ok(stamps)
}

/// Does the work of one worker: the whole workload first, then the samples
/// from the readings taken on the way. What the clock read is not known
/// beforehand; the number of samples and the progress each one shows are.
pub fn run(config: &WorkerConfig) -> (r: Result<Vec<Sample>, ClockError>)
    ensures
        config.segment_count == 0 ==> r is Ok,
        r matches Ok(samples) ==> {
            &&& samples@.len() == config.segment_count
            &&& exists|stamps: Seq<Timestamp>|
                stamps.len() == config.segment_count && samples@ == samples_of(*config, stamps)
            &&& forall|i: int|
                0 <= i < samples@.len() ==> {
                    &&& (#[trigger] samples@[i]).segment_index == i
                    &&& samples@[i].percent_complete == percent_of(i, config.segment_count as int)
                }
        },
{
    match record_segments(config) {
        Ok(stamps) => {
            let samples = samples_from(config, &stamps);
            proof {
                assert(stamps@.take(config.segment_count as int) =~= stamps@);
                lemma_samples_shape(*config, stamps@);
            }
            Ok(samples)
        },
        Err(e) => Err(e),
    }
}

/// There is one sample for each reading, and each sample carries the index of
/// its segment and the progress that this index stands for.
pub proof fn lemma_samples_shape(config: WorkerConfig, stamps: Seq<Timestamp>)
    requires
        stamps.len() <= config.segment_count,
    ensures
        samples_of(config, stamps).len() == stamps.len(),
        forall|i: int|
            0 <= i < stamps.len() ==> {
                &&& (#[trigger] samples_of(config, stamps)[i]).segment_index == i
                &&& samples_of(config, stamps)[i].percent_complete == percent_of(
                    i,
                    config.segment_count as int,
                )
            },
{
    assert forall|i: int| 0 <= i < stamps.len() implies {
        &&& (#[trigger] samples_of(config, stamps)[i]).segment_index == i
        &&& samples_of(config, stamps)[i].percent_complete == percent_of(
            i,
            config.segment_count as int,
        )
    } by {
        lemma_percent_bounds(i, config.segment_count as int);
    }
}

/// Two runs with the same number of segments give the same number of samples
/// and the same progress in each, whatever the clock read in either.
pub proof fn lemma_progress_is_independent_of_time(
    first: WorkerConfig,
    second: WorkerConfig,
    first_stamps: Seq<Timestamp>,
    second_stamps: Seq<Timestamp>,
)
    requires
        first.segment_count == second.segment_count,
        first_stamps.len() == first.segment_count,
        second_stamps.len() == second.segment_count,
    ensures
        samples_of(first, first_stamps).len() == samples_of(second, second_stamps).len(),
        forall|i: int|
            0 <= i < first.segment_count ==> {
                &&& (#[trigger] samples_of(first, first_stamps)[i]).segment_index == samples_of(
                    second,
                    second_stamps,
                )[i].segment_index
                &&& samples_of(first, first_stamps)[i].percent_complete == samples_of(
                    second,
                    second_stamps,
                )[i].percent_complete
            },
{
}

/// Progress never goes back from one segment to a later one.
pub proof fn lemma_percent_monotonic(earlier: int, later: int, segment_count: int)
    requires
        0 <= earlier <= later < segment_count,
    ensures
        percent_of(earlier, segment_count) <= percent_of(later, segment_count),
{
    vstd::arithmetic::div_mod::lemma_div_is_ordered(
        (earlier + 1) * 100,
        (later + 1) * 100,
        segment_count,
    );
}

/// With no more than a hundred segments, each segment shows more progress
/// than the one before it.
pub proof fn lemma_percent_strictly_increasing(earlier: int, later: int, segment_count: int)
    requires
        0 <= earlier < later < segment_count <= 100,
    ensures
        percent_of(earlier, segment_count) < percent_of(later, segment_count),
{
    let done = (earlier + 1) * 100;
    let q = done / segment_count;
    vstd::arithmetic::div_mod::lemma_fundamental_div_mod(done, segment_count);
    vstd::arithmetic::div_mod::lemma_div_pos_is_pos(done, segment_count);
    assert((q + 1) * segment_count <= (earlier + 2) * 100) by (nonlinear_arith)
        requires
            done == segment_count * q + done % segment_count,
            done % segment_count < segment_count,
            done == (earlier + 1) * 100,
            0 < segment_count <= 100,
    ;
    assert((q + 1) * segment_count == segment_count * (q + 1)) by (nonlinear_arith);
    vstd::arithmetic::div_mod::lemma_div_multiples_vanish(q + 1, segment_count);
    vstd::arithmetic::div_mod::lemma_div_is_ordered(
        (q + 1) * segment_count,
        (earlier + 2) * 100,
        segment_count,
    );
    lemma_percent_monotonic(earlier + 1, later, segment_count);
}

/// A reading that is not earlier than another gives a sample whose elapsed
/// time is not smaller.
pub proof fn lemma_elapsed_is_monotonic(config: WorkerConfig, earlier: Timestamp, later: Timestamp)
    requires
        earlier.as_nanos() <= later.as_nanos(),
    ensures
        whole_msecs(earlier.as_nanos() - config.run_start.as_nanos()) <= whole_msecs(
            later.as_nanos() - config.run_start.as_nanos(),
        ),
{
    let a = earlier.as_nanos() - config.run_start.as_nanos();
    let b = later.as_nanos() - config.run_start.as_nanos();
    let m = NSECS_PER_MSEC as int;
    if a >= 0 {
        vstd::arithmetic::div_mod::lemma_div_is_ordered(a, b, m);
    } else if b >= 0 {
        vstd::arithmetic::div_mod::lemma_div_pos_is_pos(-a, m);
        vstd::arithmetic::div_mod::lemma_div_pos_is_pos(b, m);
    } else {
        vstd::arithmetic::div_mod::lemma_div_is_ordered(-b, -a, m);
    }
}

/// With a millisecond or more between two readings, neither of them before
/// the start of the run, the later one gives the larger elapsed time.
pub proof fn lemma_elapsed_grows_with_a_millisecond(
    config: WorkerConfig,
    earlier: Timestamp,
    later: Timestamp,
)
    requires
        config.run_start.as_nanos() <= earlier.as_nanos(),
        earlier.as_nanos() + NSECS_PER_MSEC <= later.as_nanos(),
    ensures
        whole_msecs(earlier.as_nanos() - config.run_start.as_nanos()) < whole_msecs(
            later.as_nanos() - config.run_start.as_nanos(),
        ),
{
    let a = earlier.as_nanos() - config.run_start.as_nanos();
    let b = later.as_nanos() - config.run_start.as_nanos();
    let m = NSECS_PER_MSEC as int;
    vstd::arithmetic::div_mod::lemma_div_is_ordered(a + m, b, m);
    vstd::arithmetic::div_mod::lemma_div_plus_one(a, m);
}

/// Readings that were taken in order give samples whose elapsed times are in
/// order.
pub proof fn lemma_samples_are_in_order(config: WorkerConfig, stamps: Seq<Timestamp>)
    requires
        config.run_start.valid(),
        forall|i: int| 0 <= i < stamps.len() ==> (#[trigger] stamps[i]).valid(),
        forall|i: int, j: int|
            0 <= i <= j < stamps.len() ==> (#[trigger] stamps[i]).as_nanos() <= (
            #[trigger] stamps[j]).as_nanos(),
    ensures
        forall|i: int, j: int|
            0 <= i <= j < stamps.len() ==> (#[trigger] samples_of(
                config,
                stamps,
            )[i]).elapsed_ms_since_start <= (#[trigger] samples_of(
                config,
                stamps,
            )[j]).elapsed_ms_since_start,
{
    assert forall|i: int, j: int| 0 <= i <= j < stamps.len() implies (#[trigger] samples_of(
        config,
        stamps,
    )[i]).elapsed_ms_since_start <= (#[trigger] samples_of(
        config,
        stamps,
    )[j]).elapsed_ms_since_start by {
        lemma_elapsed_is_monotonic(config, stamps[i], stamps[j]);
        lemma_whole_msecs_fits(stamps[i].as_nanos() - config.run_start.as_nanos());
        lemma_whole_msecs_fits(stamps[j].as_nanos() - config.run_start.as_nanos());
    }
}

proof fn lemma_whole_msecs_fits(ns: int)
    requires
        -i64::MAX <= ns <= i64::MAX,
    ensures
        -i64::MAX <= whole_msecs(ns) <= i64::MAX,
{
    let m = NSECS_PER_MSEC as int;
    if ns >= 0 {
        vstd::arithmetic::div_mod::lemma_div_pos_is_pos(ns, m);
        vstd::arithmetic::div_mod::lemma_div_is_ordered_by_denominator(ns, 1, m);
    } else {
        vstd::arithmetic::div_mod::lemma_div_pos_is_pos(-ns, m);
        vstd::arithmetic::div_mod::lemma_div_is_ordered_by_denominator(-ns, 1, m);
    }
}

} // verus!
