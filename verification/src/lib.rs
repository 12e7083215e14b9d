//! Latency gate library: statistics over repeated latency measurements of a
//! single target, and a pass/fail gate on the 95th percentile.
//!
//! The pipeline is sampler -> statistics engine -> gate evaluator. Latencies
//! are whole milliseconds, as a monotonic timer reports them. The sampler
//! collects one measurement per request and aborts the run on the first
//! transport failure; the statistics engine derives min, mean, median, 95th
//! and 99th percentile and max from a complete, non-empty sample set; the
//! gate evaluator turns the 95th percentile and a threshold into a process
//! exit code.

pub mod config;
pub mod gate;
pub mod sampler;
pub mod stats;
