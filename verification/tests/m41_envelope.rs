use serde_json::Value;

use workflow_trace::m41_lcm_rpc::{check_rpc_envelope, LcmRpcError};

fn json(text: &str) -> Value {
    serde_json::from_str::<Value>(text).expect("test JSON parses")
}

fn result_loop_id(r: &Value) -> &str {
    r.get("loop_id").and_then(Value::as_str).expect("result carries loop_id")
}

#[test]
fn rpc_call_refuses_response_with_mismatched_id() {
    let response = json(
        r#"{"jsonrpc": "2.0", "result": {"loop_id": "x", "created_at_ms": 0}, "id": 999}"#,
    );
    let r = check_rpc_envelope(&response, 42);
    assert!(matches!(r, Err(LcmRpcError::IdMismatch { sent: 42, .. })));
    if let Err(LcmRpcError::IdMismatch { received, .. }) = r {
        assert_eq!(received, json("999"));
    }
}

#[test]
fn rpc_call_accepts_response_with_matching_id() {
    let response = json(
        r#"{"jsonrpc": "2.0", "result": {"loop_id": "loop-7", "created_at_ms": 1700000000000}, "id": 42}"#,
    );
    let ok = check_rpc_envelope(&response, 42).expect("happy path");
    assert_eq!(result_loop_id(ok), "loop-7");
    assert_eq!(ok.get("created_at_ms").and_then(Value::as_i64), Some(1_700_000_000_000_i64));
}

#[test]
fn rpc_call_refuses_response_with_missing_id() {
    let response = json(r#"{"jsonrpc": "2.0", "result": {"loop_id": "x", "created_at_ms": 0}}"#);
    let r = check_rpc_envelope(&response, 1);
    assert!(matches!(r, Err(LcmRpcError::Parse(_))));
}

#[test]
fn rpc_treats_null_error_as_non_error() {
    let response = json(
        r#"{"jsonrpc": "2.0", "error": null, "result": {"loop_id": "ok", "created_at_ms": 0}, "id": 1}"#,
    );
    let ok = check_rpc_envelope(&response, 1).expect("null error must fall through to result");
    assert_eq!(result_loop_id(ok), "ok");
}

#[test]
fn rpc_treats_empty_object_error_as_non_error() {
    let response = json(
        r#"{"jsonrpc": "2.0", "error": {}, "result": {"loop_id": "ok", "created_at_ms": 0}, "id": 1}"#,
    );
    let ok =
        check_rpc_envelope(&response, 1).expect("empty-object error must fall through to result");
    assert_eq!(result_loop_id(ok), "ok");
}

#[test]
fn rpc_treats_proper_error_object_as_error() {
    let response = json(
        r#"{"jsonrpc": "2.0", "error": {"code": -32601, "message": "Method not found"}, "id": 1}"#,
    );
    match check_rpc_envelope(&response, 1) {
        Err(LcmRpcError::Rpc { code, message }) => {
            assert_eq!(code, -32601);
            assert_eq!(message, "Method not found");
        }
        other => panic!("expected Rpc error, got {other:?}"),
    }
}

#[test]
fn rpc_refuses_response_with_string_typed_id() {
    let response = json(
        r#"{"jsonrpc": "2.0", "result": {"loop_id": "x", "created_at_ms": 0}, "id": "42"}"#,
    );
    match check_rpc_envelope(&response, 42) {
        Err(LcmRpcError::IdMismatch { sent, received }) => {
            assert_eq!(sent, 42);
            assert_eq!(received, json(r#""42""#));
        }
        other => panic!("expected IdMismatch for string id, got {other:?}"),
    }
}

#[test]
fn rpc_refuses_response_with_null_id() {
    let response = json(
        r#"{"jsonrpc": "2.0", "result": {"loop_id": "x", "created_at_ms": 0}, "id": null}"#,
    );
    match check_rpc_envelope(&response, 1) {
        Err(LcmRpcError::IdMismatch { received, .. }) => {
            assert_eq!(received, Value::Null);
        }
        other => panic!("expected IdMismatch for null id, got {other:?}"),
    }
}

#[test]
fn rpc_refuses_response_with_fractional_id() {
    let response = json(
        r#"{"jsonrpc": "2.0", "result": {"loop_id": "x", "created_at_ms": 0}, "id": 3.5}"#,
    );
    let r = check_rpc_envelope(&response, 3);
    assert!(
        matches!(r, Err(LcmRpcError::IdMismatch { sent: 3, .. })),
        "fractional id must not truncate-match, got {r:?}"
    );
}

#[test]
fn rpc_refuses_response_with_negative_id() {
    let response = json(
        r#"{"jsonrpc": "2.0", "result": {"loop_id": "x", "created_at_ms": 0}, "id": -1}"#,
    );
    let r = check_rpc_envelope(&response, 1);
    assert!(matches!(r, Err(LcmRpcError::IdMismatch { sent: 1, .. })));
}

#[test]
fn rpc_accepts_response_with_u64_max_id() {
    let response = json(
        r#"{"jsonrpc": "2.0", "result": {"loop_id": "edge", "created_at_ms": 0}, "id": 18446744073709551615}"#,
    );
    let ok = check_rpc_envelope(&response, u64::MAX).expect("u64::MAX id must round-trip");
    assert_eq!(result_loop_id(ok), "edge");
}

#[test]
fn rpc_accepts_response_with_zero_id() {
    let response = json(
        r#"{"jsonrpc": "2.0", "result": {"loop_id": "zero", "created_at_ms": 1}, "id": 0}"#,
    );
    let ok = check_rpc_envelope(&response, 0).expect("id 0");
    assert_eq!(result_loop_id(ok), "zero");
}

#[test]
fn rpc_treats_string_error_field_as_non_error() {
    let response = json(
        r#"{"jsonrpc": "2.0", "error": "something went wrong", "result": {"loop_id": "ok", "created_at_ms": 0}, "id": 1}"#,
    );
    let ok = check_rpc_envelope(&response, 1)
        .expect("string error field must fall through to result");
    assert_eq!(result_loop_id(ok), "ok");
}

#[test]
fn rpc_treats_array_error_field_as_non_error() {
    let response = json(
        r#"{"jsonrpc": "2.0", "error": [1, 2, 3], "result": {"loop_id": "ok", "created_at_ms": 7}, "id": 1}"#,
    );
    let ok =
        check_rpc_envelope(&response, 1).expect("array error field must fall through to result");
    assert_eq!(ok.get("created_at_ms").and_then(Value::as_i64), Some(7));
}

#[test]
fn rpc_error_object_missing_message_defaults_to_unknown() {
    let response = json(r#"{"jsonrpc": "2.0", "error": {"code": -32099}, "id": 1}"#);
    match check_rpc_envelope(&response, 1) {
        Err(LcmRpcError::Rpc { code, message }) => {
            assert_eq!(code, -32099);
            assert_eq!(message, "unknown", "missing message must default to 'unknown'");
        }
        other => panic!("expected Rpc error, got {other:?}"),
    }
}

#[test]
fn rpc_error_object_with_string_code_defaults_to_server_error_sentinel() {
    let response = json(
        r#"{"jsonrpc": "2.0", "error": {"code": "BAD", "message": "stringy code"}, "id": 1}"#,
    );
    match check_rpc_envelope(&response, 1) {
        Err(LcmRpcError::Rpc { code, message }) => {
            assert_eq!(code, -32000, "non-i64 code must fall back to -32000");
            assert_eq!(message, "stringy code");
        }
        other => panic!("expected Rpc error, got {other:?}"),
    }
}

#[test]
fn rpc_id_mismatch_takes_precedence_over_error_envelope() {
    let response = json(
        r#"{"jsonrpc": "2.0", "error": {"code": -32601, "message": "Method not found"}, "id": 777}"#,
    );
    let r = check_rpc_envelope(&response, 1);
    assert!(
        matches!(r, Err(LcmRpcError::IdMismatch { sent: 1, .. })),
        "id check must precede error decode, got {r:?}"
    );
}

#[test]
fn rpc_response_with_matching_id_but_no_result_is_parse_error() {
    let response = json(r#"{"jsonrpc": "2.0", "id": 5}"#);
    match check_rpc_envelope(&response, 5) {
        Err(LcmRpcError::Parse(msg)) => assert!(msg.contains("missing result")),
        other => panic!("expected Parse(missing result), got {other:?}"),
    }
}

#[test]
fn id_mismatch_preserves_received_object_verbatim() {
    let weird = json(r#"{"unexpected": "shape", "n": 3}"#);
    let response = json(
        r#"{"jsonrpc": "2.0", "result": {"loop_id": "x", "created_at_ms": 0}, "id": {"unexpected": "shape", "n": 3}}"#,
    );
    match check_rpc_envelope(&response, 1) {
        Err(LcmRpcError::IdMismatch { received, .. }) => {
            assert_eq!(received, weird, "received id must survive verbatim");
        }
        other => panic!("expected IdMismatch, got {other:?}"),
    }
}

#[test]
fn rpc_error_carries_code_and_message() {
    let err = LcmRpcError::Rpc { code: -32602, message: "invalid params".to_owned() };
    let s = err.message();
    assert!(s.contains("-32602"));
    assert!(s.contains("invalid params"));
}

#[test]
fn parse_error_carries_underlying_reason() {
    let err = LcmRpcError::Parse("unexpected token at line 1 column 2".to_owned());
    let s = err.message();
    assert!(s.starts_with("parse: "));
    assert!(s.contains("unexpected token"));
}

#[test]
fn transport_error_display_format_pinned() {
    let err = LcmRpcError::Transport("dial tcp 127.0.0.1:8082: connection refused".to_owned());
    let s = err.message();
    assert!(s.starts_with("transport: "));
    assert!(s.contains("8082"));
}

#[test]
fn id_mismatch_error_display_format_pinned() {
    let err = LcmRpcError::IdMismatch { sent: 42, received: json("999") };
    let s = err.message();
    assert!(s.starts_with("id mismatch: "));
    assert!(s.contains("sent=42"));
    assert!(s.contains("received=999"));
}

#[test]
fn every_lcm_rpc_error_variant_has_non_empty_display() {
    let variants = [
        LcmRpcError::Transport("t".to_owned()),
        LcmRpcError::Rpc { code: -1, message: "m".to_owned() },
        LcmRpcError::Parse("p".to_owned()),
        LcmRpcError::IdMismatch { sent: 1, received: json("2") },
    ];
    for v in &variants {
        assert!(!v.message().is_empty(), "empty Display for {v:?}");
    }
}
