//! The monotonic clock: readings, their validity, and the difference of two.

use vstd::prelude::*;

verus! {

/// Nanoseconds in one second.
pub const NSECS_PER_SEC: i64 = 1_000_000_000;

/// Nanoseconds in one millisecond.
pub const NSECS_PER_MSEC: i64 = 1_000_000;

/// Why a reading of the monotonic clock could not be had.
#[derive(Clone, Copy, Debug, PartialEq, Eq, Structural)]
pub enum ClockError {
    /// The time source refused the call; the field is the error number it gave.
    Unavailable(i32),
    /// The time source answered with a reading that is no instant: a negative
    /// count of seconds, a nanosecond part outside `0..1_000_000_000`, or a
    /// total that does not fit in 64 bits.
    OutOfRange,
}

/// Whether `sec` seconds and `nsec` nanoseconds make up an instant that a
/// `Timestamp` can hold.
pub open spec fn reading_in_range(sec: int, nsec: int) -> bool {
    &&& 0 <= sec
    &&& 0 <= nsec < NSECS_PER_SEC
    &&& sec * NSECS_PER_SEC + nsec <= i64::MAX
}

/// An instant of the monotonic clock. Only the difference of two instants
/// means anything; the clock's zero is not defined.
#[derive(Clone, Copy, Debug, PartialEq, Eq, Structural)]
pub struct Timestamp {
    sec: i64,
    nsec: i64,
}

impl Timestamp {
    #[verifier::type_invariant]
    spec fn in_range(self) -> bool {
        reading_in_range(self.sec as int, self.nsec as int)
    }

    /// The whole seconds of the instant.
    pub closed spec fn seconds(self) -> int {
        self.sec as int
    }

    /// The nanoseconds past the whole second.
    pub closed spec fn subsec_nanos(self) -> int {
        self.nsec as int
    }

    /// Whether the two parts are in range. Every instant that this module
    /// hands out is.
    pub open spec fn valid(self) -> bool {
        reading_in_range(self.seconds(), self.subsec_nanos())
    }

    /// The instant as one count of nanoseconds: seconds times 10^9 plus the
    /// nanosecond part.
    pub open spec fn as_nanos(self) -> int {
        self.seconds() * NSECS_PER_SEC + self.subsec_nanos()
    }

    /// Makes an instant of `sec` seconds and `nsec` nanoseconds, where the two
    /// are in range.
    pub fn new(sec: i64, nsec: i64) -> (r: Option<Timestamp>)
        ensures
            r is Some <==> reading_in_range(sec as int, nsec as int),
            r matches Some(t) ==> t.seconds() == sec && t.subsec_nanos() == nsec && t.valid(),
    {
        if sec < 0 || nsec < 0 || nsec >= NSECS_PER_SEC {
            return None;
        }
        let limit_sec: i64 = i64::MAX / NSECS_PER_SEC;
        let limit_nsec: i64 = i64::MAX % NSECS_PER_SEC;
        if sec > limit_sec || (sec == limit_sec && nsec > limit_nsec) {
            return None;
        }
        Some(Timestamp { sec, nsec })
    }

    /// The whole seconds of the instant.
    pub fn tv_sec(&self) -> (r: i64)
        ensures
            r == self.seconds(),
            r >= 0,
    {
        proof {
            use_type_invariant(self);
        }
        self.sec
    }

    /// The nanoseconds past the whole second.
    pub fn tv_nsec(&self) -> (r: i64)
        ensures
            r == self.subsec_nanos(),
            0 <= r < NSECS_PER_SEC,
    {
        proof {
            use_type_invariant(self);
        }
        self.nsec
    }
}

/// The nanoseconds from `before` to `after`: negative where `after` is the
/// earlier of the two.
pub fn elapsed_ns(before: &Timestamp, after: &Timestamp) -> (r: i64)
    ensures
        r == after.as_nanos() - before.as_nanos(),
{
    proof {
        use_type_invariant(before);
        use_type_invariant(after);
    }
    (after.sec * NSECS_PER_SEC + after.nsec) - (before.sec * NSECS_PER_SEC + before.nsec)
}

/// What a raw answer of the time source makes: the instant it names, or the
/// error that stands for it.
pub open spec fn reading_outcome(reading: Result<(i64, i64), i32>, r: Result<Timestamp, ClockError>) -> bool {
    match reading {
        Ok((sec, nsec)) => if reading_in_range(sec as int, nsec as int) {
            r matches Ok(t) && t.seconds() == sec && t.subsec_nanos() == nsec && t.valid()
        } else {
            r == Err::<Timestamp, ClockError>(ClockError::OutOfRange)
        },
        Err(errno) => r == Err::<Timestamp, ClockError>(ClockError::Unavailable(errno)),
    }
}

/// Turns a raw answer of the time source, seconds and nanoseconds or an error
/// number, into an instant or a `ClockError`.
pub fn timestamp_from_reading(reading: Result<(i64, i64), i32>) -> (r: Result<Timestamp, ClockError>)
    ensures
        reading_outcome(reading, r),
{
    match reading {
        Ok((sec, nsec)) => match Timestamp::new(sec, nsec) {
            Some(t) => Ok(t),
            None => Err(ClockError::OutOfRange),
        },
        Err(errno) => Err(ClockError::Unavailable(errno)),
    }
}

/// Calls `nix::time::clock_gettime` on `CLOCK_MONOTONIC` and hands back the
/// seconds and nanoseconds of the `TimeSpec` it returned, or the error number
/// of the `Errno` it failed with. Nothing is claimed of the values: they are
/// whatever the operating system answered.
#[verifier::external_body]
fn read_monotonic() -> Result<(i64, i64), i32> {
    match nix::time::clock_gettime(nix::time::ClockId::CLOCK_MONOTONIC) {
        Ok(ts) => Ok((ts.tv_sec(), ts.tv_nsec())),
        Err(errno) => Err(errno as i32),
    }
}

/// Reads the monotonic clock. Which instant comes back is the clock's affair;
/// the result is what `timestamp_from_reading` makes of the clock's answer.
pub fn now() -> (r: Result<Timestamp, ClockError>)
    ensures
        exists|reading: Result<(i64, i64), i32>| reading_outcome(reading, r),
        r matches Ok(t) ==> t.valid(),
{
    let reading = read_monotonic();
    timestamp_from_reading(reading)
}

} // verus!
