use workflow_trace::m32_dispatcher::EscapeSurfaceProfile;
use workflow_trace::m33_verifier::{VerifierKind, VerifierVerdict};
use workflow_trace::orchestration::dispatch::{
    parse_args, security_verdict, ArgError, Config, SecurityVerifier, DEFAULT_TOP_K,
};

fn args(raw: &[&str]) -> Vec<String> {
    raw.iter().map(|s| (*s).to_owned()).collect()
}

#[test]
fn parse_args_empty_yields_dry_run_default() {
    let cfg = parse_args(&[]).expect("empty parse");
    assert!(cfg.dry_run, "dry-run must be the default-safe mode");
    assert_eq!(cfg.top_k, DEFAULT_TOP_K);
    assert_eq!(cfg.ack_ceiling, EscapeSurfaceProfile::Sandboxed);
    assert_eq!(cfg.proposals_in, String::from("./proposals.jsonl"));
    assert_eq!(cfg.conductor_url, "http://127.0.0.1:8141");
}

#[test]
fn parse_args_execute_overrides_dry_run() {
    let cfg = parse_args(&args(&["--execute"])).expect("execute");
    assert!(!cfg.dry_run);
    let cfg2 = parse_args(&args(&["--execute", "--dry-run"])).expect("both");
    assert!(cfg2.dry_run);
}

#[test]
fn dispatch_parse_args_full_flag_set() {
    let cfg = parse_args(&args(&[
        "--proposals-in",
        "/tmp/p.jsonl",
        "--top-k",
        "3",
        "--conductor-url",
        "http://example:9999",
        "--ack-ceiling",
        "file-write",
        "--execute",
    ]))
    .expect("full parse");
    assert_eq!(cfg.proposals_in, String::from("/tmp/p.jsonl"));
    assert_eq!(cfg.top_k, 3);
    assert_eq!(cfg.conductor_url, "http://example:9999");
    assert_eq!(cfg.ack_ceiling, EscapeSurfaceProfile::FileWrite);
    assert!(!cfg.dry_run);
}

#[test]
fn parse_args_all_ack_ceiling_variants() {
    for (raw, expected) in [
        ("sandboxed", EscapeSurfaceProfile::Sandboxed),
        ("sandbox-escape", EscapeSurfaceProfile::SandboxEscape),
        ("process-mutate", EscapeSurfaceProfile::ProcessMutate),
        ("privilege-escalation", EscapeSurfaceProfile::PrivilegeEscalation),
        ("file-write", EscapeSurfaceProfile::FileWrite),
        ("network-egress", EscapeSurfaceProfile::NetworkEgress),
        ("data-exfil", EscapeSurfaceProfile::DataExfil),
    ] {
        let cfg = parse_args(&args(&["--ack-ceiling", raw])).expect("ack");
        assert_eq!(cfg.ack_ceiling, expected, "ack-ceiling {raw}");
    }
}

#[test]
fn dispatch_parse_args_help_and_version() {
    assert!(parse_args(&args(&["--help"])).expect("help").show_help);
    assert!(parse_args(&args(&["-h"])).expect("h").show_help);
    assert!(parse_args(&args(&["--version"]))
        .expect("version")
        .show_version);
}

#[test]
fn dispatch_parse_args_unknown_flag_is_typed_error() {
    let err = parse_args(&args(&["--nope"])).expect_err("unknown");
    assert_eq!(err, ArgError::UnknownFlag("--nope".to_owned()));
}

#[test]
fn dispatch_parse_args_missing_value_is_typed_error() {
    let err = parse_args(&args(&["--top-k"])).expect_err("missing");
    assert_eq!(err, ArgError::MissingValue("--top-k"));
}

#[test]
fn parse_args_bad_top_k_is_typed_error() {
    let err = parse_args(&args(&["--top-k", "lots"])).expect_err("bad");
    assert_eq!(
        err,
        ArgError::BadValue {
            flag: "--top-k",
            value: "lots".to_owned(),
        }
    );
}

#[test]
fn parse_args_bad_ack_ceiling_is_typed_error() {
    let err = parse_args(&args(&["--ack-ceiling", "godmode"])).expect_err("bad");
    assert_eq!(
        err,
        ArgError::BadValue {
            flag: "--ack-ceiling",
            value: "godmode".to_owned(),
        }
    );
}

#[test]
fn dispatch_parse_args_positional_is_typed_error() {
    let err = parse_args(&args(&["junk"])).expect_err("positional");
    assert_eq!(err, ArgError::UnexpectedPositional("junk".to_owned()));
}

#[test]
fn config_default_is_dry_run() {
    assert!(Config::default().dry_run);
}

#[test]
fn security_verifier_approves_when_workflow_surface_is_at_or_below_ceiling() {
    for &ceiling in &EscapeSurfaceProfile::VARIANTS {
        let verdict = security_verdict(EscapeSurfaceProfile::Sandboxed, ceiling);
        assert_eq!(
            verdict,
            VerifierVerdict::Approve,
            "Sandboxed (ord 0) must Approve under ceiling {ceiling:?}"
        );
    }
}

#[test]
fn security_verifier_refuses_when_workflow_surface_exceeds_ceiling() {
    let mut refuse_count = 0;
    for &surface in &EscapeSurfaceProfile::VARIANTS {
        for &ceiling in &EscapeSurfaceProfile::VARIANTS {
            if surface.ordinal() > ceiling.ordinal() {
                let verdict = security_verdict(surface, ceiling);
                match verdict {
                    VerifierVerdict::Refuse { reason } => {
                        assert!(
                            reason.contains("D5"),
                            "Refuse reason must reference D5: {reason}"
                        );
                        assert!(
                            reason.contains("exceeds acknowledged ceiling"),
                            "Refuse reason must name the comparison: {reason}"
                        );
                        refuse_count += 1;
                    }
                    other => panic!(
                        "surface {surface:?} > ceiling {ceiling:?} must Refuse, got {other:?}"
                    ),
                }
            }
        }
    }
    assert_eq!(
        refuse_count, 21,
        "expected 21 strict-greater-than pairs to all Refuse"
    );
}

#[test]
fn security_verifier_approves_on_exact_ceiling_match() {
    for &p in &EscapeSurfaceProfile::VARIANTS {
        let verdict = security_verdict(p, p);
        assert_eq!(
            verdict,
            VerifierVerdict::Approve,
            "{p:?} == {p:?} must Approve (the comparison is `<=`, not `<`)"
        );
    }
}

#[test]
fn security_verifier_stores_ceiling_at_construction() {
    for &p in &EscapeSurfaceProfile::VARIANTS {
        let v = SecurityVerifier::new(p);
        assert_eq!(v.ack_ceiling(), p);
        assert_eq!(v.kind(), VerifierKind::Security);
    }
}

