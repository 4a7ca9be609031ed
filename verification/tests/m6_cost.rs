use workflow_trace::m6_cost::{CostBand, WorkflowOutcome};

#[test]
fn is_exploration_truth_table() {
    assert!(!WorkflowOutcome::Converged.is_exploration());
    assert!(!WorkflowOutcome::Repeated.is_exploration());
    assert!(WorkflowOutcome::Explored.is_exploration());
    assert!(WorkflowOutcome::Diverged.is_exploration());
    assert!(WorkflowOutcome::Unknown.is_exploration());
}

#[test]
fn outcome_as_str_stability() {
    assert_eq!(WorkflowOutcome::Explored.as_str(), "Explored");
    assert_eq!(WorkflowOutcome::Converged.as_str(), "Converged");
}

#[test]
fn cost_band_as_str_stability() {
    assert_eq!(CostBand::BelowBaseline.as_str(), "BelowBaseline");
    assert_eq!(CostBand::NearBaseline.as_str(), "NearBaseline");
    assert_eq!(CostBand::AboveBaseline.as_str(), "AboveBaseline");
}

#[test]
fn cost_band_has_exactly_three_variants() {
    for b in [CostBand::BelowBaseline, CostBand::NearBaseline, CostBand::AboveBaseline] {
        match b {
            CostBand::BelowBaseline | CostBand::NearBaseline | CostBand::AboveBaseline => {}
        }
    }
}

#[test]
fn is_exploration_is_const_pure() {
    let e: bool = WorkflowOutcome::Explored.is_exploration();
    let c: bool = WorkflowOutcome::Converged.is_exploration();
    assert_eq!(e, WorkflowOutcome::Explored.is_exploration());
    assert_eq!(c, WorkflowOutcome::Converged.is_exploration());
    assert!(WorkflowOutcome::Explored.is_exploration());
    assert!(!WorkflowOutcome::Converged.is_exploration());
}
