use serde_json::Value;

use workflow_trace::m7_workflow_runs::{patch_consumer_inputs, WorkflowError};
use workflow_trace::orchestration::dispatch::conductor_reply_from_body;

fn json(text: &str) -> Value {
    serde_json::from_str::<Value>(text).expect("test JSON parses")
}

#[test]
fn conductor_body_non_2xx_names_status() {
    assert_eq!(
        conductor_reply_from_body(false, 503, "{\"dispatch_id\":\"d-1\"}"),
        Err("conductor returned HTTP 503".to_owned())
    );
}

#[test]
fn conductor_body_not_json_is_refused() {
    let r = conductor_reply_from_body(true, 200, "<html>");
    match r {
        Err(m) => assert!(m.starts_with("conductor body: "), "{m}"),
        Ok(v) => panic!("expected refusal, got {v}"),
    }
}

#[test]
fn conductor_body_prefers_dispatch_id_then_id() {
    assert_eq!(
        conductor_reply_from_body(true, 200, r#"{"dispatch_id":"d-1","id":"i-1"}"#),
        Ok("d-1".to_owned())
    );
    assert_eq!(conductor_reply_from_body(true, 201, r#"{"id":"i-2"}"#), Ok("i-2".to_owned()));
    assert_eq!(
        conductor_reply_from_body(true, 200, r#"{"dispatch_id":7,"id":"i-3"}"#),
        Err("conductor response missing dispatch id".to_owned())
    );
    assert_eq!(
        conductor_reply_from_body(true, 200, "{}"),
        Err("conductor response missing dispatch id".to_owned())
    );
}

#[test]
fn conductor_body_any_non_null_error_rejects() {
    assert_eq!(
        conductor_reply_from_body(true, 200, r#"{"error":"queue_full","dispatch_id":"d"}"#),
        Err("conductor rejected dispatch: queue_full".to_owned())
    );
    assert_eq!(
        conductor_reply_from_body(true, 200, r#"{"error":{"code":7},"id":"x"}"#),
        Err("conductor rejected dispatch: {\"code\":7}".to_owned())
    );
    assert_eq!(
        conductor_reply_from_body(true, 200, r#"{"error":null,"dispatch_id":"d"}"#),
        Ok("d".to_owned())
    );
}

#[test]
fn patch_sets_member_and_keeps_others() {
    let out = patch_consumer_inputs(r#"{"a":1,"cluster_b":0}"#, "cluster_b", json(r#"{"n":2}"#))
        .expect("object patches");
    let v = json(&out);
    assert_eq!(v.get("a"), Some(&json("1")));
    assert_eq!(v.get("cluster_b"), Some(&json(r#"{"n":2}"#)));
    assert_eq!(v.as_object().map(serde_json::Map::len), Some(2));
}

#[test]
fn patch_adds_member_to_empty_object() {
    let out = patch_consumer_inputs("{}", "k", json("true")).expect("object patches");
    assert_eq!(json(&out), json(r#"{"k":true}"#));
}

#[test]
fn patch_refuses_non_object_json() {
    match patch_consumer_inputs("[1,2]", "k", Value::Null) {
        Err(WorkflowError::JsonPatch(m)) => assert_eq!(m, "consumer_inputs not a JSON object"),
        other => panic!("expected JsonPatch, got {other:?}"),
    }
}

#[test]
fn patch_refuses_text_that_is_not_json() {
    assert!(matches!(
        patch_consumer_inputs("{oops", "k", Value::Null),
        Err(WorkflowError::JsonPatch(_))
    ));
}
