use workflow_trace::m7_workflow_runs::{ClusterBObservation, Outcome, StepOutcome};

#[test]
fn outcome_as_str_stable() {
    assert_eq!(Outcome::Success.as_str(), "ok");
    assert_eq!(Outcome::Fail.as_str(), "fail");
    assert_eq!(Outcome::Abort.as_str(), "abort");
    assert_eq!(Outcome::Unknown.as_str(), "unknown");
}

#[test]
fn outcome_parse_round_trip() {
    for o in [Outcome::Success, Outcome::Fail, Outcome::Abort, Outcome::Unknown] {
        assert_eq!(Outcome::parse(o.as_str()).unwrap(), o);
    }
}

#[test]
fn step_outcome_as_str_stable() {
    assert_eq!(StepOutcome::Success.as_str(), "ok");
    assert_eq!(StepOutcome::Skipped.as_str(), "skipped");
}

#[test]
fn cluster_b_observation_discriminants_distinct() {
    let a = ClusterBObservation::Cascade {
        cluster_id: "cascade_cluster_x".into(),
        session_range: (0, 1),
    };
    let b = ClusterBObservation::BatternStep {
        battern_id: "battern_x".into(),
        step_index: 0,
        duration_ms: 1,
        outcome: "ok".into(),
    };
    let c = ClusterBObservation::ContextCost {
        session_id: 7,
        cost_tokens: 100,
    };
    let d = ClusterBObservation::InjectionChain { chain_id: 1 };
    assert_eq!(a.discriminant(), "cascade");
    assert_eq!(b.discriminant(), "battern_step");
    assert_eq!(c.discriminant(), "context_cost");
    assert_eq!(d.discriminant(), "injection_chain");
}
