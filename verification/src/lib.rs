//! A multi-process scheduling-latency profiler, as a library.
//!
//! The profiler calibrates a busy loop against the monotonic clock, starts a
//! number of worker processes that each run the same calibrated workload in
//! fixed segments, and lets every worker report how far it had come at which
//! moment. This crate holds the rules of that run: the clock arithmetic, the
//! calibration formula, the samples a worker derives from its readings, the
//! text it prints, and the state machine by which the parent process creates,
//! cancels and reaps its workers.

pub mod clock;
pub mod workload;
pub mod worker;
pub mod orchestrator;
pub mod trace;
pub mod report;
