use std::time::Duration;

use workflow_trace::m32_dispatcher::EscapeSurfaceProfile;
use workflow_trace::m33_verifier::VerifierVerdict;
use workflow_trace::m40_nexus_emit::{check_response_size, classify_push_response, NexusEmitError};
use workflow_trace::m41_lcm_rpc::{check_rpc_envelope, envelope_verdict, EnvelopeVerdict, LcmRpcError};
use workflow_trace::m4_cascade::cluster_id::{assign_cluster_id, fnv1a_64};
use workflow_trace::m4_cascade::{AtuinStep, CascadeCorrelator, CascadeCorrelatorConfig, DispatchRecord};
use workflow_trace::m5_battern::{derive_battern_id, BatternStepRecord, BatternStepRecordConfig};
use workflow_trace::m7_workflow_runs::{Outcome, WorkflowError};
use workflow_trace::m9_watcher_namespace_guard::{assert_workflow_trace_namespace, munge_hyphen_slug};
use workflow_trace::orchestration::crystallise::{self, Report as CrystalliseReport};
use workflow_trace::orchestration::dispatch::{
    self, conductor_reply, security_verdict, CandidateOutcome, HttpConductorClient,
    Report as DispatchReport,
};
use workflow_trace::refusal_token::SubstrateId;
use workflow_trace::substrate_trust::{SubstrateTrust, TrustEntry};

fn step(id: &str, ts_ns: i64, session: &str) -> AtuinStep {
    AtuinStep {
        id: id.to_owned(),
        ts_ns,
        command: format!("cmd-{id}"),
        cwd: "/tmp".into(),
        session: session.to_owned(),
        exit: 0,
    }
}

fn obj(pairs: &[(&str, serde_json::Value)]) -> serde_json::Value {
    let mut m = serde_json::Map::new();
    for (k, v) in pairs {
        m.insert((*k).to_owned(), v.clone());
    }
    serde_json::Value::Object(m)
}

#[test]
fn cluster_id_exact_value_for_known_window() {
    let id = assign_cluster_id(1, 2, &["b", "a"], 3);
    let expected = fnv1a_64(b"1:2") ^ fnv1a_64(b"a,b") ^ 3;
    assert_eq!(id.as_str(), format!("cascade_cluster_{expected:016x}"));
}

#[test]
fn cluster_id_ignores_label_order() {
    let a = assign_cluster_id(10, 20, &["x", "y", "z"], 4);
    let b = assign_cluster_id(10, 20, &["z", "x", "y"], 4);
    assert_eq!(a, b);
}

#[test]
fn correlate_at_stamps_given_time_and_partitions_steps() {
    let c = CascadeCorrelator::new(CascadeCorrelatorConfig {
        min_pane_count: 1,
        max_gap_ms: 1_000,
        ..CascadeCorrelatorConfig::for_home("/tmp")
    });
    let steps = vec![
        step("a", 5_000_000_000, "s1"),
        step("b", 1_000_000_000, "s2"),
        step("c", 1_500_000_000, "s1"),
    ];
    let clusters = c.correlate_at(&steps, &[], 42);
    assert_eq!(clusters.len(), 2);
    assert_eq!(clusters.iter().map(|k| k.step_count).sum::<usize>(), 3);
    assert!(clusters.iter().all(|k| k.observed_at_ms == 42));
    assert!(clusters.iter().all(|k| k.dag_depth == k.step_count));
    assert_eq!(clusters[0].window_start_ns, 1_000_000_000);
    assert_eq!(clusters[0].window_end_ns, 1_500_000_000);
    assert_eq!(clusters[0].pane_count, 2);
    assert_eq!(clusters[1].window_start_ns, 5_000_000_000);
}

#[test]
fn correlate_at_cluster_id_matches_assign_cluster_id() {
    let c = CascadeCorrelator::new(CascadeCorrelatorConfig {
        min_pane_count: 1,
        ..CascadeCorrelatorConfig::for_home("/tmp")
    });
    let steps = vec![step("a", 100, "s1"), step("b", 200, "s2")];
    let d = vec![DispatchRecord {
        ts_ns: 150,
        pane_label: "BETA".into(),
        binary: "cc-dispatch".into(),
        session: "s1".into(),
    }];
    let clusters = c.correlate_at(&steps, &d, 0);
    assert_eq!(clusters.len(), 1);
    assert_eq!(clusters[0].cluster_id, assign_cluster_id(100, 200, &["BETA"], 2));
    assert_eq!(clusters[0].pane_count, 1);
}

#[test]
fn for_home_places_atuin_db_under_home() {
    let c = CascadeCorrelatorConfig::for_home("/home/op");
    assert_eq!(c.atuin_db_path, "/home/op/.local/share/atuin/history.db");
    let b = BatternStepRecordConfig::for_home("/home/op");
    assert_eq!(b.atuin_db_path, "/home/op/.local/share/atuin/history.db");
    assert_eq!(b.inter_step_timeout_ms, 1_800_000);
}

#[test]
fn battern_id_exact_value() {
    let id = derive_battern_id(-12);
    let h = fnv1a_64(b"-12");
    assert_eq!(id.as_str(), format!("battern_{h:016x}"));
}

#[test]
fn observe_at_marks_only_recent_last_battern_partial() {
    let r = BatternStepRecord::new(BatternStepRecordConfig::for_home("/tmp")).expect("regex");
    let steps = vec![
        step("a", 1_000_000_000, "s1"),
        step("b", 2_000_000_000, "s1"),
    ];
    let recent = r.observe_at(&steps, 2_000);
    assert_eq!(recent.len(), 2);
    assert!(recent.iter().all(|o| o.is_partial && o.recorded_at_ms == 2_000));
    let late = r.observe_at(&steps, 10_000_000);
    assert!(late.iter().all(|o| !o.is_partial));
    assert_eq!(late[0].duration_ms, 1_000);
    assert_eq!(late[1].duration_ms, 0);
}

#[test]
fn munge_is_idempotent_and_validation_is_a_fixed_point() {
    let once = munge_hyphen_slug("workflow-trace-alpha");
    assert_eq!(munge_hyphen_slug(&once), once);
    let v = assert_workflow_trace_namespace("workflow-trace-alpha").expect("valid");
    let again = assert_workflow_trace_namespace(v.as_str()).expect("still valid");
    assert_eq!(v, again);
}

#[test]
fn push_response_non_success_names_status() {
    let r = classify_push_response(503, false, String::new());
    assert!(matches!(r, Err(NexusEmitError::NonSuccess(503))));
}

#[test]
fn push_response_body_shapes() {
    assert!(classify_push_response(200, true, String::new()).is_ok());
    assert!(classify_push_response(200, true, "not json".into()).is_ok());
    assert!(classify_push_response(200, true, r#"{"error":null}"#.into()).is_ok());
    assert!(classify_push_response(200, true, r#"{"ok":true}"#.into()).is_ok());
    match classify_push_response(200, true, r#"{"error":"queue_full"}"#.into()) {
        Err(NexusEmitError::ServerRejected { body }) => assert_eq!(body, r#"{"error":"queue_full"}"#),
        other => panic!("expected ServerRejected, got {other:?}"),
    }
}

#[test]
fn response_size_cap() {
    assert!(check_response_size(Some(1024 * 1024), 10).is_ok());
    match check_response_size(Some(2 * 1024 * 1024), 0) {
        Err(NexusEmitError::Transport(m)) => {
            assert_eq!(m, "response Content-Length 2097152 exceeds 1048576-byte cap")
        }
        other => panic!("expected Transport, got {other:?}"),
    }
    match check_response_size(None, 1024 * 1024 + 1) {
        Err(NexusEmitError::Transport(m)) => {
            assert_eq!(m, "response stream exceeded 1048576-byte cap")
        }
        other => panic!("expected Transport, got {other:?}"),
    }
}

#[test]
fn rpc_envelope_checks_in_order() {
    let missing_id = obj(&[("result", serde_json::Value::Null)]);
    assert!(matches!(check_rpc_envelope(&missing_id, 1), Err(LcmRpcError::Parse(m)) if m == "response missing id"));
    let wrong_id = obj(&[("id", serde_json::Value::from(2u64))]);
    match check_rpc_envelope(&wrong_id, 1) {
        Err(LcmRpcError::IdMismatch { sent, received }) => {
            assert_eq!(sent, 1);
            assert_eq!(received, serde_json::Value::from(2u64));
        }
        other => panic!("expected IdMismatch, got {other:?}"),
    }
    let err = obj(&[
        ("id", serde_json::Value::from(1u64)),
        ("error", obj(&[("code", serde_json::Value::from(-32601i64))])),
    ]);
    match check_rpc_envelope(&err, 1) {
        Err(LcmRpcError::Rpc { code, message }) => {
            assert_eq!(code, -32601);
            assert_eq!(message, "unknown");
        }
        other => panic!("expected Rpc, got {other:?}"),
    }
    let null_error = obj(&[("id", serde_json::Value::from(1u64)), ("error", serde_json::Value::Null)]);
    assert!(matches!(check_rpc_envelope(&null_error, 1), Err(LcmRpcError::Parse(m)) if m == "missing result"));
    let ok = obj(&[("id", serde_json::Value::from(1u64)), ("result", serde_json::Value::from("r"))]);
    assert_eq!(check_rpc_envelope(&ok, 1).expect("ok"), &serde_json::Value::from("r"));
}

#[test]
fn envelope_verdict_defaults_code_and_message() {
    let v = envelope_verdict(
        7,
        Some(Some(7)),
        Some(workflow_trace::m41_lcm_rpc::RpcErrorFacts { has_code: true, code: None, message: Some("boom".into()) }),
        true,
    );
    match v {
        EnvelopeVerdict::RpcError { code, message } => {
            assert_eq!(code, -32000);
            assert_eq!(message, "boom");
        }
        other => panic!("expected RpcError, got {other:?}"),
    }
}

#[test]
fn rpc_error_messages_exact() {
    let e = LcmRpcError::Rpc { code: -5, message: "nope".into() };
    assert_eq!(e.message(), "rpc error -5: nope");
    let m = LcmRpcError::IdMismatch { sent: 3, received: serde_json::Value::from(4u64) };
    assert_eq!(m.message(), "id mismatch: sent=3, received=4");
}

#[test]
fn conductor_reply_cases() {
    assert_eq!(conductor_reply(false, 502, None, None, None), Err("conductor returned HTTP 502".to_owned()));
    assert_eq!(
        conductor_reply(true, 200, Some("busy".into()), Some(Some("d1".into())), None),
        Err("conductor rejected dispatch: busy".to_owned())
    );
    assert_eq!(conductor_reply(true, 200, None, Some(Some("d1".into())), Some(Some("i1".into()))), Ok("d1".to_owned()));
    assert_eq!(conductor_reply(true, 200, None, None, Some(Some("i1".into()))), Ok("i1".to_owned()));
    assert_eq!(
        conductor_reply(true, 200, None, Some(None), Some(Some("i1".into()))),
        Err("conductor response missing dispatch id".to_owned())
    );
}

#[test]
fn conductor_endpoint_trims_trailing_slashes() {
    let c = HttpConductorClient::new("http://127.0.0.1:8141//", Duration::from_secs(1));
    assert_eq!(c.endpoint(), "http://127.0.0.1:8141/dispatch");
}

#[test]
fn security_verdict_reason_exact() {
    match security_verdict(EscapeSurfaceProfile::DataExfil, EscapeSurfaceProfile::FileWrite) {
        VerifierVerdict::Refuse { reason } => assert_eq!(
            reason,
            "workflow escape surface DataExfil (ord 60) exceeds acknowledged ceiling FileWrite (ord 40); m33 Security hard-Refuse per D5"
        ),
        other => panic!("expected Refuse, got {other:?}"),
    }
}

#[test]
fn parse_usize_accepts_plus_and_rejects_sign_and_overflow() {
    let args = |v: &[&str]| v.iter().map(|s| (*s).to_owned()).collect::<Vec<String>>();
    assert_eq!(dispatch::parse_args(&args(&["--top-k", "+7"])).expect("plus").top_k, 7);
    assert!(dispatch::parse_args(&args(&["--top-k", "-1"])).is_err());
    assert!(dispatch::parse_args(&args(&["--top-k", "99999999999999999999999"])).is_err());
    assert!(dispatch::parse_args(&args(&["--top-k", ""])).is_err());
    let cfg = crystallise::parse_args(&args(&["--max-gap", "3", "--max-gap", "4"]), "/h").expect("last wins");
    assert_eq!(cfg.max_gap, 4);
    assert_eq!(cfg.atuin_db, "/h/.local/share/atuin/history.db");
}

#[test]
fn crystallise_report_renders_exactly() {
    let mut r = CrystalliseReport::empty();
    r.atuin_rows = 3;
    r.run_id = -1;
    r.stages_skipped = vec!["m2-stcortex".into(), "m40-nexus-emit".into()];
    r.completed = true;
    let expected = "wf-crystallise \u{2014} pipeline report\n  atuin rows ingested        : 3\n  injection chains read      : 0\n  cascade clusters           : 0\n  workflow run id            : -1\n  observations merged        : 0\n  lift window runs           : 0\n  patterns mined             : 0\n  proposals written          : 0\n  stages skipped             : m2-stcortex, m40-nexus-emit\n  completed                  : yes";
    assert_eq!(r.render(), expected);
    let e = CrystalliseReport::empty().render();
    assert!(e.contains("stages skipped             : none\n"));
    assert!(e.ends_with("completed                  : no"));
}

#[test]
fn dispatch_report_renders_candidates_right_aligned() {
    let mut r = DispatchReport::empty(true);
    r.candidates = vec![CandidateOutcome::new(42, true, "dry-run".into())];
    let text = r.render();
    assert!(text.contains("  mode                       : dry-run\n"));
    assert!(text.contains("    workflow                   42 : dry-run\n"));
}

#[test]
fn outcome_parse_rejects_other_text() {
    match Outcome::parse("BAD") {
        Err(WorkflowError::InvalidOutcome(v)) => assert_eq!(v, "BAD"),
        other => panic!("expected InvalidOutcome, got {other:?}"),
    }
}

#[test]
fn substrate_trust_len_counts_distinct_substrates() {
    let mut t = SubstrateTrust::new();
    assert!(t.is_empty());
    assert!(t.set(SubstrateId::Lcm, TrustEntry::live_flag(true)).is_none());
    assert_eq!(t.set(SubstrateId::Lcm, TrustEntry::live_budget(3)), Some(TrustEntry::live_flag(true)));
    assert!(t.set(SubstrateId::Atuin, TrustEntry::live_budget(1)).is_none());
    assert_eq!(t.len(), 2);
    assert_eq!(t.get(SubstrateId::Lcm), TrustEntry::live_budget(3));
}
