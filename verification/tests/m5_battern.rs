use workflow_trace::m4_cascade::AtuinStep;
use workflow_trace::m5_battern::{
    derive_battern_id, BatternId, BatternStepLabel, BatternStepObservation, BatternStepRecord,
    BatternStepRecordConfig, MIN_COMPLETE_STEPS,
};
use std::collections::HashSet;

fn step(ts_ns: i64, cmd: &str, session: &str) -> AtuinStep {
    AtuinStep {
        id: format!("ulid-{ts_ns}"),
        ts_ns,
        command: cmd.to_owned(),
        cwd: "/tmp".into(),
        session: session.to_owned(),
        exit: 0,
    }
}

fn rec() -> BatternStepRecord {
    BatternStepRecord::new(BatternStepRecordConfig::for_home("/tmp")).expect("regex compile")
}

#[test]
fn battern_id_is_opaque_hex_form() {
    let id = derive_battern_id(1_700_000_000_000_000_000);
    let s = id.as_str().to_string();
    assert!(s.starts_with("battern_"));
    let suffix = &s["battern_".len()..];
    assert_eq!(suffix.len(), 16);
    assert!(suffix.chars().all(|c| c.is_ascii_hexdigit()));
}

#[test]
fn battern_id_deterministic_for_same_input() {
    for _ in 0..50_u32 {
        assert_eq!(derive_battern_id(100), derive_battern_id(100));
    }
}

#[test]
fn battern_id_distinct_for_different_input() {
    assert_ne!(derive_battern_id(100), derive_battern_id(101));
}

#[test]
fn label_command_returns_none_for_unmatched() {
    let r = rec();
    assert!(r.label_command("random shell command").is_none());
}

#[test]
fn label_command_dispatch_pattern() {
    let r = rec();
    assert_eq!(
        r.label_command("cc-dispatch ALPHA-LEFT prompt"),
        Some(BatternStepLabel::Dispatch)
    );
}

#[test]
fn label_command_gate_pattern() {
    let r = rec();
    assert_eq!(r.label_command("cc-health"), Some(BatternStepLabel::Gate));
    assert_eq!(
        r.label_command("curl localhost:8133/health"),
        Some(BatternStepLabel::Gate)
    );
}

#[test]
fn label_command_collect_pattern() {
    let r = rec();
    assert_eq!(r.label_command("cc-harvest"), Some(BatternStepLabel::Collect));
    assert_eq!(r.label_command("cc-audit"), Some(BatternStepLabel::Collect));
}

#[test]
fn label_command_compose_pattern() {
    let r = rec();
    assert_eq!(r.label_command("cc-cascade --to BETA"), Some(BatternStepLabel::Compose));
}

#[test]
fn label_command_design_pattern() {
    let r = rec();
    assert_eq!(r.label_command("rg foo"), Some(BatternStepLabel::Design));
    assert_eq!(r.label_command("atuin search --limit 10"), Some(BatternStepLabel::Design));
}

#[test]
fn observe_empty_returns_empty() {
    assert!(rec().observe(&[]).is_empty());
}

#[test]
fn observe_below_min_steps_drops_battern() {
    let r = BatternStepRecord::new(BatternStepRecordConfig {
        min_steps: 3,
        ..BatternStepRecordConfig::for_home("/tmp")
    })
    .expect("regex");
    let steps = vec![step(1, "cc-dispatch", "s1"), step(2, "cc-health", "s1")];
    assert!(r.observe(&steps).is_empty());
}

#[test]
fn observe_records_six_canonical_steps_in_one_battern() {
    let r = rec();
    let steps = vec![
        step(1_000_000_000, "rg foo", "s1"),
        step(2_000_000_000, "cc-dispatch ALPHA", "s1"),
        step(3_000_000_000, "cc-health", "s1"),
        step(4_000_000_000, "cc-harvest", "s1"),
        step(5_000_000_000, "some long synth command", "s1"),
        step(6_000_000_000, "cc-cascade --to BETA", "s1"),
    ];
    let obs = r.observe(&steps);
    assert_eq!(obs.len(), 6);
    assert!(obs[0].step_label.is_some() || obs[0].step_label.is_none());
    let some_count = obs.iter().filter(|o| o.step_label.is_some()).count();
    assert!(some_count >= 4, "expected ≥4 labelled steps, got {some_count}");
}

#[test]
fn observe_preserves_unlabelled_step_as_none_not_other() {
    let r = rec();
    let steps = vec![
        step(1, "cc-dispatch X", "s1"),
        step(2, "totally-unrecognised-shell-command", "s1"),
    ];
    let obs = r.observe(&steps);
    assert!(obs.iter().any(|o| o.step_label.is_none()));
}

#[test]
fn observe_records_failed_steps_via_exit_code() {
    let r = rec();
    let mut s1 = step(1, "cc-dispatch", "s1");
    s1.exit = 1;
    let s2 = step(2, "cc-health", "s1");
    let obs = r.observe(&[s1, s2]);
    let failed = obs.iter().filter(|o| o.exit_code != 0).count();
    assert_eq!(failed, 1);
}

#[test]
fn summarise_empty_returns_sentinel() {
    let r = BatternStepRecord::summarise(&[]);
    assert_eq!(r.total_steps, 0);
    assert!(!r.is_complete);
}

#[test]
fn summarise_counts_labelled_steps() {
    let bid = BatternId("battern_test".into());
    let obs = vec![
        BatternStepObservation {
            battern_id: bid.clone(),
            step_index: 0,
            step_label: Some(BatternStepLabel::Design),
            duration_ms: 100,
            session: "s1".into(),
            exit_code: 0,
            is_partial: false,
            recorded_at_ms: 0,
        },
        BatternStepObservation {
            battern_id: bid,
            step_index: 1,
            step_label: None,
            duration_ms: 200,
            session: "s1".into(),
            exit_code: 0,
            is_partial: false,
            recorded_at_ms: 0,
        },
    ];
    let r = BatternStepRecord::summarise(&obs);
    assert_eq!(r.total_steps, 2);
    assert_eq!(r.labelled_steps, 1);
    assert_eq!(r.total_duration_ms, 300);
    assert!(r.is_complete);
}

#[test]
fn implements_debug_for_recorder() {
    let r = rec();
    let s = format!("{r:?}");
    assert!(s.contains("BatternStepRecord"));
}

#[test]
fn observe_does_not_panic_on_i64_max_timestamps() {
    let r = rec();
    let steps = vec![
        step(i64::MAX - 10, "cc-dispatch A", "s1"),
        step(i64::MAX - 5, "cc-health", "s1"),
    ];
    let _obs = r.observe(&steps);
}

#[test]
fn observe_does_not_panic_on_i64_min_timestamps() {
    let r = rec();
    let steps = vec![
        step(i64::MIN, "cc-dispatch A", "s1"),
        step(i64::MIN + 1, "cc-health", "s1"),
    ];
    let _obs = r.observe(&steps);
}

#[test]
fn battern_id_no_semantic_leak_for_round_number_timestamps() {
    let id = derive_battern_id(1_700_000_000_000_000_000);
    let s = id.as_str().to_string();
    let suffix = &s["battern_".len()..];
    assert!(suffix.chars().all(|c| c.is_ascii_hexdigit()));
}

#[test]
fn battern_id_stable_under_interleaved_derivation() {
    let target = derive_battern_id(42);
    for noise in 0..1000_i64 {
        let _ = derive_battern_id(noise * 17 + 1);
    }
    assert_eq!(derive_battern_id(42), target);
}

#[test]
fn observe_preserves_none_for_many_unrecognised_commands() {
    let r = rec();
    let steps = vec![
        step(1, "cc-dispatch A", "s1"),
        step(2, "unknown-1", "s1"),
        step(3, "unknown-2", "s1"),
        step(4, "unknown-3", "s1"),
        step(5, "unknown-4", "s1"),
    ];
    let obs = r.observe(&steps);
    let nones = obs.iter().filter(|o| o.step_label.is_none()).count();
    assert!(nones >= 4, "F1 preservation broken: only {nones} Nones");
}

#[test]
fn boundary_design_then_dispatch_stays_in_one_battern() {
    let r = rec();
    let steps = vec![
        step(1_000_000_000, "rg foo", "s1"),
        step(2_000_000_000, "cc-dispatch ALPHA", "s1"),
        step(3_000_000_000, "cc-health", "s1"),
    ];
    let obs = r.observe(&steps);
    let ids: std::collections::HashSet<_> =
        obs.iter().map(|o| o.battern_id.clone()).collect();
    assert_eq!(ids.len(), 1, "Design→Dispatch should not split battern");
}

#[test]
fn boundary_second_dispatch_opens_new_battern() {
    let r = rec();
    let steps = vec![
        step(1_000_000_000, "cc-dispatch A", "s1"),
        step(2_000_000_000, "cc-health", "s1"),
        step(3_000_000_000, "cc-dispatch B", "s1"),
        step(4_000_000_000, "cc-health", "s1"),
    ];
    let obs = r.observe(&steps);
    let ids: std::collections::HashSet<_> =
        obs.iter().map(|o| o.battern_id.clone()).collect();
    assert_eq!(ids.len(), 2, "second dispatch must open a new battern");
}

#[test]
fn battern_id_does_not_leak_dispatch_command_substring() {
    let r = rec();
    let steps = vec![
        step(1_000_000_000, "cc-dispatch ALPHA-LEFT", "s1"),
        step(2_000_000_000, "cc-health", "s1"),
    ];
    let obs = r.observe(&steps);
    let id = obs[0].battern_id.as_str();
    for forbidden in ["ALPHA", "LEFT", "dispatch", "health", "cc-"] {
        assert!(!id.contains(forbidden), "F11 leak: {forbidden:?} in {id:?}");
    }
}

#[test]
fn min_complete_steps_matches_default_min_steps() {
    let cfg = BatternStepRecordConfig::for_home("/tmp");
    assert_eq!(MIN_COMPLETE_STEPS, cfg.min_steps);
}

#[test]
fn observe_is_deterministic_on_structural_fields() {
    let r = rec();
    let steps = vec![
        step(1, "cc-dispatch A", "s1"),
        step(2, "cc-health", "s1"),
    ];
    let obs_a = r.observe(&steps);
    let obs_b = r.observe(&steps);
    assert_eq!(obs_a.len(), obs_b.len());
    for (a, b) in obs_a.iter().zip(obs_b.iter()) {
        assert_eq!(a.battern_id, b.battern_id);
        assert_eq!(a.step_index, b.step_index);
        assert_eq!(a.step_label, b.step_label);
        assert_eq!(a.duration_ms, b.duration_ms);
        assert_eq!(a.exit_code, b.exit_code);
    }
}

#[test]
fn observe_splits_battern_on_inter_step_timeout() {
    let r = BatternStepRecord::new(BatternStepRecordConfig {
        inter_step_timeout_ms: 1_000,
        min_steps: 2,
        ..BatternStepRecordConfig::for_home("/tmp")
    })
    .expect("regex");
    let steps = vec![
        step(1_000_000_000, "rg foo", "s1"),
        step(1_000_000_000 + 500_000_000, "cc-health", "s1"),
        step(1_000_000_000 + 500_000_000 + 2_000_000_000, "rg bar", "s1"),
        step(1_000_000_000 + 500_000_000 + 2_500_000_000, "cc-health", "s1"),
    ];
    let obs = r.observe(&steps);
    let ids: std::collections::HashSet<_> =
        obs.iter().map(|o| o.battern_id.clone()).collect();
    assert_eq!(ids.len(), 2, "inter-step timeout must split the battern");
}

#[test]
fn observe_does_not_split_on_gap_exactly_equal_to_timeout() {
    let r = BatternStepRecord::new(BatternStepRecordConfig {
        inter_step_timeout_ms: 1_000,
        min_steps: 2,
        ..BatternStepRecordConfig::for_home("/tmp")
    })
    .expect("regex");
    let steps = vec![
        step(1_000_000_000, "rg foo", "s1"),
        step(1_000_000_000 + 1_000_000_000, "cc-health", "s1"),
    ];
    let obs = r.observe(&steps);
    let ids: std::collections::HashSet<_> =
        obs.iter().map(|o| o.battern_id.clone()).collect();
    assert_eq!(ids.len(), 1, "gap == timeout must not split (strict >)");
}

#[test]
fn observe_step_duration_is_gap_to_next_step() {
    let r = rec();
    let steps = vec![
        step(1_000_000_000, "rg foo", "s1"),
        step(1_000_000_000 + 250_000_000, "cc-health", "s1"),
    ];
    let obs = r.observe(&steps);
    assert_eq!(obs.len(), 2);
    assert_eq!(obs[0].duration_ms, 250, "first step duration = gap to next");
    assert_eq!(obs[1].duration_ms, 0, "last step has no successor → 0");
}

#[test]
fn observe_assigns_contiguous_zero_based_step_indices() {
    let r = rec();
    let steps = vec![
        step(1_000_000_000, "rg foo", "s1"),
        step(2_000_000_000, "cc-dispatch A", "s1"),
        step(3_000_000_000, "cc-health", "s1"),
        step(4_000_000_000, "cc-harvest", "s1"),
    ];
    let obs = r.observe(&steps);
    let indices: Vec<usize> = obs.iter().map(|o| o.step_index).collect();
    assert_eq!(indices, vec![0, 1, 2, 3]);
}

#[test]
fn summarise_aggregates_failed_steps_and_total_duration() {
    let r = rec();
    let mut s1 = step(1_000_000_000, "cc-dispatch A", "s1");
    s1.exit = 1;
    let mut s2 = step(1_000_000_500_000, "cc-health", "s1");
    s2.exit = 0;
    let mut s3 = step(1_000_001_000_000, "cc-harvest", "s1");
    s3.exit = 2;
    let obs = r.observe(&[s1, s2, s3]);
    let summary = BatternStepRecord::summarise(&obs);
    assert_eq!(summary.total_steps, 3);
    assert_eq!(summary.failed_steps, 2, "two non-zero exit codes");
    assert_eq!(
        summary.total_duration_ms,
        obs.iter().map(|o| o.duration_ms).sum::<i64>()
    );
}

#[test]
fn summarise_uses_first_observations_battern_id() {
    let id_a = BatternId("battern_aaaa".into());
    let id_b = BatternId("battern_bbbb".into());
    let obs = vec![
        BatternStepObservation {
            battern_id: id_a.clone(),
            step_index: 0,
            step_label: Some(BatternStepLabel::Design),
            duration_ms: 1,
            session: "s1".into(),
            exit_code: 0,
            is_partial: false,
            recorded_at_ms: 1_700_000_000_000,
        },
        BatternStepObservation {
            battern_id: id_b,
            step_index: 1,
            step_label: None,
            duration_ms: 1,
            session: "s1".into(),
            exit_code: 0,
            is_partial: false,
            recorded_at_ms: 1_700_000_000_001,
        },
    ];
    let summary = BatternStepRecord::summarise(&obs);
    assert_eq!(summary.battern_id, id_a, "battern_id from first obs");
}

#[test]
fn summarise_is_not_complete_when_any_observation_is_partial() {
    let bid = BatternId("battern_partial".into());
    let obs = vec![
        BatternStepObservation {
            battern_id: bid.clone(),
            step_index: 0,
            step_label: Some(BatternStepLabel::Design),
            duration_ms: 1,
            session: "s1".into(),
            exit_code: 0,
            is_partial: false,
            recorded_at_ms: 1_700_000_000_000,
        },
        BatternStepObservation {
            battern_id: bid,
            step_index: 1,
            step_label: Some(BatternStepLabel::Dispatch),
            duration_ms: 1,
            session: "s1".into(),
            exit_code: 0,
            is_partial: true,
            recorded_at_ms: 1_700_000_000_001,
        },
    ];
    let summary = BatternStepRecord::summarise(&obs);
    assert_eq!(summary.total_steps, 2);
    assert!(summary.is_partial);
    assert!(!summary.is_complete, "partial step blocks is_complete");
}

#[test]
fn summarise_single_step_is_not_complete_below_min_floor() {
    let obs = vec![BatternStepObservation {
        battern_id: BatternId("battern_one".into()),
        step_index: 0,
        step_label: Some(BatternStepLabel::Design),
        duration_ms: 5,
        session: "s1".into(),
        exit_code: 0,
        is_partial: false,
        recorded_at_ms: 1_700_000_000_000,
    }];
    let summary = BatternStepRecord::summarise(&obs);
    assert_eq!(summary.total_steps, 1);
    assert!(!summary.is_complete, "1 step < MIN_COMPLETE_STEPS");
}

#[test]
fn label_command_first_match_wins_cc_health_is_gate_not_collect() {
    let r = rec();
    assert_eq!(r.label_command("cc-health --verbose"), Some(BatternStepLabel::Gate));
}

#[test]
fn label_command_patterns_are_start_anchored() {
    let r = rec();
    assert!(
        r.label_command("echo then rg foo").is_none(),
        "non-anchored substring must not match"
    );
    assert!(
        r.label_command("xcc-dispatch").is_none(),
        "prefixed command must not match cc-dispatch"
    );
}

#[test]
fn label_command_word_boundary_rejects_cc_dispatcher() {
    let r = rec();
    assert!(
        r.label_command("cc-dispatcher").is_none(),
        "cc-dispatcher must not match ^cc-dispatch\\b"
    );
    assert_eq!(
        r.label_command("cc-dispatch"),
        Some(BatternStepLabel::Dispatch)
    );
}

#[test]
fn label_command_gate_check_alternative_matches_gate() {
    let r = rec();
    assert_eq!(
        r.label_command("cc-gate-check ALPHA"),
        Some(BatternStepLabel::Gate)
    );
}

#[test]
fn observe_records_all_none_battern_without_discarding() {
    let r = rec();
    let steps = vec![
        step(1_000_000_000, "mystery-command-1", "s1"),
        step(2_000_000_000, "mystery-command-2", "s1"),
    ];
    let obs = r.observe(&steps);
    assert_eq!(obs.len(), 2, "unlabelled battern must NOT be discarded");
    assert!(obs.iter().all(|o| o.step_label.is_none()));
}

#[test]
fn observe_preserves_negative_exit_codes() {
    let r = rec();
    let mut s1 = step(1_000_000_000, "cc-dispatch A", "s1");
    s1.exit = -1;
    let s2 = step(2_000_000_000, "cc-health", "s1");
    let obs = r.observe(&[s1, s2]);
    assert_eq!(obs[0].exit_code, -1);
    assert_eq!(obs[1].exit_code, 0);
}

#[test]
fn observe_sorts_unsorted_input_before_indexing() {
    let r = rec();
    let steps = vec![
        step(3_000_000_000, "cc-harvest", "s1"),
        step(1_000_000_000, "rg foo", "s1"),
        step(2_000_000_000, "cc-dispatch A", "s1"),
    ];
    let obs = r.observe(&steps);
    assert_eq!(obs.len(), 3);
    assert_eq!(obs[0].step_label, Some(BatternStepLabel::Design));
    assert_eq!(obs[1].step_label, Some(BatternStepLabel::Dispatch));
    assert_eq!(obs[2].step_label, Some(BatternStepLabel::Collect));
}

#[test]
fn observe_min_steps_above_battern_size_drops_battern() {
    let r = BatternStepRecord::new(BatternStepRecordConfig {
        min_steps: 10,
        ..BatternStepRecordConfig::for_home("/tmp")
    })
    .expect("regex");
    let steps = vec![
        step(1_000_000_000, "cc-dispatch A", "s1"),
        step(2_000_000_000, "cc-health", "s1"),
        step(3_000_000_000, "cc-harvest", "s1"),
    ];
    assert!(r.observe(&steps).is_empty(), "min_steps=10 drops 3-step battern");
}

#[test]
fn derive_battern_id_collision_sweep_under_one_percent() {
    let mut seen: HashSet<String> = HashSet::with_capacity(10_000);
    let mut collisions = 0_usize;
    for i in 0..10_000_i64 {
        let id = derive_battern_id(1_700_000_000_000_000_000 + i * 13);
        if !seen.insert(id.0) {
            collisions += 1;
        }
    }
    assert!(collisions < 100, "{collisions} collisions in 10k > 1%");
}
