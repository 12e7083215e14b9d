//! Run configuration: the explicit, named settings of a run and their
//! defaults.
//!
//! Argument parsing lives outside the library; it fills this struct with
//! plain values. The defaults are deliberate: 100 measurements and a
//! 1000 ms threshold on the 95th percentile.

use vstd::prelude::*;
use crate::gate::GateMode;

verus! {

/// The settings of one sampling run.
#[derive(Clone, Copy, Debug, PartialEq, Eq, Structural)]
pub struct RunConfig {
    /// How many sequential measurements to take; at least 1.
    pub count: usize,
    /// Threshold on the 95th percentile, in whole milliseconds.
    pub threshold_ms: u64,
    /// How a 95th percentile above the threshold affects the exit code.
    pub mode: GateMode,
    /// Whether to report each measurement as it is taken.
    pub verbose: bool,
}

/// A configuration asks for at least one measurement.
pub open spec fn config_valid(c: RunConfig) -> bool {
    1 <= c.count
}

impl RunConfig {
    /// True when the configuration can drive a run.
    pub fn is_valid(&self) -> (b: bool)
        ensures
            b == config_valid(*self),
    {
        1 <= self.count
    }
}

impl Default for RunConfig {
    /// The default run: 100 measurements, 1000 ms threshold, gate disabled,
    /// quiet output.
    fn default() -> (c: Self)
        ensures
            c.count == 100,
            c.threshold_ms == 1000,
            c.mode is Disabled,
            !c.verbose,
    {
        RunConfig { count: 100, threshold_ms: 1000, mode: GateMode::Disabled, verbose: false }
    }
}

} // verus!
