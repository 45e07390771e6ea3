//! Statistics and buffer preparation for a file-write latency benchmark.
//!
//! The library holds the computational core of the benchmark: the duration
//! model, the integer mean / standard-deviation reduction, the per-trial
//! buffer contents, and the bookkeeping of a fixed-count trial loop. The
//! surrounding program performs the actual file writes and timing and hands
//! the measurements back as plain values.

pub mod duration;
pub mod stats;
pub mod trial;
