//! Gate evaluation: compare the 95th-percentile latency against a threshold
//! and decide the process outcome.
//!
//! The comparison is a strict greater-than: a 95th percentile equal to the
//! threshold passes. Gating has three modes, because with gating off a run can
//! either stay entirely silent or still warn when the threshold is exceeded;
//! the caller picks one explicitly:
//!
//! - `Disabled`: the threshold is not consulted at all.
//! - `WarnOnly`: the comparison is made and may be reported, but the run
//!   always exits with code 0.
//! - `Enforce`: the run exits with code 1 when the 95th percentile is above
//!   the threshold, and with code 0 otherwise.

use vstd::prelude::*;

verus! {

/// How a 95th percentile above the threshold affects the run.
#[derive(Clone, Copy, Debug, PartialEq, Eq, Structural)]
pub enum GateMode {
    /// The threshold is ignored; the run is informational only.
    Disabled,
    /// The comparison is made and reported, but never changes the exit code.
    WarnOnly,
    /// A 95th percentile above the threshold fails the run with exit code 1.
    Enforce,
}

/// The terminal outcome of a gate evaluation. The evaluation starts in
/// `Pending` and moves to `Passed` or `Failed` in a single deterministic
/// step; both are terminal.
#[derive(Clone, Copy, Debug, PartialEq, Eq, Structural)]
pub enum GateState {
    Pending,
    Passed,
    Failed,
}

/// The decision derived from the 95th percentile, the threshold and the mode.
#[derive(Clone, Copy, Debug, PartialEq, Eq, Structural)]
pub struct GateDecision {
    /// True when the threshold was consulted and the 95th percentile is
    /// above it. Always false in `Disabled` mode.
    pub triggered: bool,
    /// True when the run passes, that is, when the exit code is 0.
    pub passed: bool,
    /// 1 in `Enforce` mode with the threshold exceeded; 0 otherwise.
    pub exit_code: i32,
}

/// True when the measured 95th percentile is strictly above the threshold;
/// equality passes.
pub open spec fn exceeds_threshold(p95_ms: u64, threshold_ms: u64) -> bool {
    p95_ms > threshold_ms
}

/// Evaluates gating: the single transition of its state machine.
///
/// Only `Enforce` mode can produce a non-zero exit code, and it does so
/// exactly when the 95th percentile is strictly above the threshold.
pub fn evaluate_gate(p95_ms: u64, threshold_ms: u64, mode: GateMode) -> (d: GateDecision)
    ensures
        d.triggered == (!(mode is Disabled) && exceeds_threshold(p95_ms, threshold_ms)),
        d.exit_code == (if mode is Enforce && exceeds_threshold(p95_ms, threshold_ms) {
            1int
        } else {
            0int
        }),
        d.passed == (d.exit_code == 0),
{
    let exceeded = p95_ms > threshold_ms;
    let triggered = match mode {
        GateMode::Disabled => false,
        GateMode::WarnOnly => exceeded,
        GateMode::Enforce => exceeded,
    };
    let failed = match mode {
        GateMode::Enforce => exceeded,
        _ => false,
    };
    GateDecision {
        triggered,
        passed: !failed,
        exit_code: if failed {
            1
        } else {
            0
        },
    }
}

impl GateDecision {
    /// The terminal state this decision drives the run to; never `Pending`.
    pub fn outcome(&self) -> (g: GateState)
        ensures
            (g is Passed) == self.passed,
            (g is Failed) == !self.passed,
    {
        if self.passed {
            GateState::Passed
        } else {
            GateState::Failed
        }
    }
}

} // verus!
