use std::time::Duration;

use workflow_trace::m40_nexus_emit::{
    NexusEmitError, DEFAULT_NEXUS_URL, DEFAULT_PUSH_TIMEOUT_SECS, MAX_RESPONSE_BYTES,
};

const DEFAULT_PUSH_TIMEOUT: Duration = Duration::from_secs(DEFAULT_PUSH_TIMEOUT_SECS);

#[test]
fn default_url_is_loopback_synthex_v2() {
    assert_eq!(DEFAULT_NEXUS_URL, "http://127.0.0.1:8092/v3/nexus/push");
}

#[test]
fn default_timeout_is_5s() {
    assert_eq!(DEFAULT_PUSH_TIMEOUT.as_secs(), 5);
}

#[test]
fn non_success_error_carries_status_code() {
    let err = NexusEmitError::NonSuccess(500);
    assert!(err.message().contains("500"));
}

#[test]
fn transport_error_carries_reason() {
    let err = NexusEmitError::Transport("dns".into());
    assert!(err.message().contains("dns"));
}

#[test]
fn default_nexus_url_components_pinned() {
    assert!(DEFAULT_NEXUS_URL.starts_with("http://127.0.0.1:8092/"));
    assert!(DEFAULT_NEXUS_URL.ends_with("/v3/nexus/push"));
    assert!(
        !DEFAULT_NEXUS_URL.contains("https://"),
        "synthex-v2 loopback is http-only (no TLS in loopback)"
    );
}

#[test]
fn default_push_timeout_constant_pinned() {
    assert_eq!(DEFAULT_PUSH_TIMEOUT, std::time::Duration::from_secs(5));
}

#[test]
fn nexus_emit_error_display_format_pinned() {
    assert_eq!(
        NexusEmitError::NonSuccess(503).message(),
        "non-2xx status: 503"
    );
    assert_eq!(
        NexusEmitError::Transport("dns timeout".into()).message(),
        "transport: dns timeout"
    );
}

#[test]
fn server_rejected_error_display_format_pinned() {
    let err = NexusEmitError::ServerRejected {
        body: r#"{"error":"queue_full"}"#.into(),
    };
    let s = err.message();
    assert!(s.starts_with("server rejected (2xx body-shape):"));
    assert!(s.contains("queue_full"));
}

#[test]
fn all_error_variants_have_distinct_display_prefixes() {
    let transport = NexusEmitError::Transport("e".into()).message();
    let non_success = NexusEmitError::NonSuccess(500).message();
    let rejected = NexusEmitError::ServerRejected {
        body: "{}".into(),
    }
    .message();
    assert!(transport.starts_with("transport:"));
    assert!(non_success.starts_with("non-2xx status:"));
    assert!(rejected.starts_with("server rejected"));
    assert_ne!(transport, non_success);
    assert_ne!(non_success, rejected);
    assert_ne!(transport, rejected);
}

#[test]
fn non_success_carries_exact_status_for_edge_codes() {
    for code in [100_u16, 301, 400, 404, 418, 500, 503, 599] {
        let e = NexusEmitError::NonSuccess(code);
        assert!(e.message().contains(&code.to_string()));
    }
}

#[test]
fn max_response_bytes_is_one_mib() {
    assert_eq!(MAX_RESPONSE_BYTES, 1024 * 1024);
}

#[test]
fn transport_error_short_message_round_trips_through_display() {
    let err = NexusEmitError::Transport("x".repeat(64));
    let s = err.message();
    assert!(s.starts_with("transport: "));
    assert!(s.len() < 256, "error message stays bounded");
}
