use workflow_trace::orchestration::crystallise::{self, record_live_stage, LiveStage};
use workflow_trace::orchestration::dispatch::{
    self, candidate_step, record_candidate, CandidateStep,
};

#[test]
fn candidate_step_follows_gate_and_mode() {
    assert_eq!(candidate_step(false, true), CandidateStep::Blocked);
    assert_eq!(candidate_step(false, false), CandidateStep::Blocked);
    assert_eq!(candidate_step(true, true), CandidateStep::DryRun);
    assert_eq!(candidate_step(true, false), CandidateStep::Dispatch);
}

#[test]
fn dry_run_records_without_dispatching() {
    let mut r = dispatch::Report::empty(true);
    record_candidate(&mut r, 7, true, None);
    record_candidate(&mut r, 8, false, None);
    assert_eq!(r.verifier_approved, 1);
    assert_eq!(r.dispatched, 0);
    assert_eq!(r.candidates.len(), 2);
    assert_eq!(r.candidates[0].workflow_id, 7);
    assert_eq!(r.candidates[0].disposition, "dry-run");
    assert_eq!(r.candidates[1].disposition, "verifier-blocked");
    assert!(!r.candidates[1].verifier_approved);
}

#[test]
fn execute_counts_only_accepted_dispatches() {
    let mut r = dispatch::Report::empty(false);
    record_candidate(&mut r, 1, true, Some(true));
    record_candidate(&mut r, 2, true, Some(false));
    record_candidate(&mut r, 3, false, None);
    assert_eq!(r.verifier_approved, 2);
    assert_eq!(r.dispatched, 1);
    let d: Vec<&str> = r.candidates.iter().map(|c| c.disposition.as_str()).collect();
    assert_eq!(d, vec!["dispatched", "refused", "verifier-blocked"]);
}

#[test]
fn offline_and_down_stages_are_skipped() {
    let mut r = crystallise::Report::empty();
    record_live_stage(&mut r, LiveStage::Stcortex, true, None);
    record_live_stage(&mut r, LiveStage::NexusEmit, false, Some(true));
    record_live_stage(&mut r, LiveStage::NexusEmit, false, Some(false));
    assert_eq!(r.stages_skipped, vec!["m2-stcortex".to_owned(), "m40-nexus-emit".to_owned()]);
}
