use ttfb_gate::gate::{evaluate_gate, GateMode, GateState};

#[test]
fn enforced_above_threshold_fails_with_exit_code_1() {
    let d = evaluate_gate(1200, 1000, GateMode::Enforce);
    assert!(d.triggered);
    assert!(!d.passed);
    assert_eq!(d.exit_code, 1);
    assert_eq!(d.outcome(), GateState::Failed);
}

#[test]
fn enforced_below_threshold_passes_with_exit_code_0() {
    let d = evaluate_gate(800, 1000, GateMode::Enforce);
    assert!(!d.triggered);
    assert!(d.passed);
    assert_eq!(d.exit_code, 0);
    assert_eq!(d.outcome(), GateState::Passed);
}

#[test]
fn equal_to_threshold_passes() {
    let d = evaluate_gate(1000, 1000, GateMode::Enforce);
    assert!(!d.triggered);
    assert!(d.passed);
    assert_eq!(d.exit_code, 0);
}

#[test]
fn disabled_gate_exits_zero_regardless() {
    let d = evaluate_gate(1200, 1000, GateMode::Disabled);
    assert!(!d.triggered);
    assert!(d.passed);
    assert_eq!(d.exit_code, 0);
}

#[test]
fn warn_only_triggers_but_exits_zero() {
    let d = evaluate_gate(1200, 1000, GateMode::WarnOnly);
    assert!(d.triggered);
    assert!(d.passed);
    assert_eq!(d.exit_code, 0);
}
