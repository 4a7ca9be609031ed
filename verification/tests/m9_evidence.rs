use std::collections::HashSet;

use workflow_trace::m9_watcher_namespace_guard::{assert_workflow_trace_namespace, ValidatedNamespace};

#[test]
fn as_str_roundtrips() {
    let v = assert_workflow_trace_namespace("workflow_trace_x").expect("valid");
    assert_eq!(v.as_str(), "workflow_trace_x");
}

#[test]
fn into_inner_yields_owned_munged_string() {
    let v = assert_workflow_trace_namespace("workflow_trace_alpha").expect("valid");
    let s: String = v.into_inner();
    assert_eq!(s, "workflow_trace_alpha");
}

#[test]
fn display_produces_munged_form() {
    let v = assert_workflow_trace_namespace("workflow_trace_alpha_beta").expect("valid");
    assert_eq!(v.as_str().to_string(), "workflow_trace_alpha_beta");
}

#[test]
fn as_ref_str_works() {
    fn takes_ref(s: &str) -> usize {
        s.len()
    }
    let v = assert_workflow_trace_namespace("workflow_trace_y").expect("valid");
    assert_eq!(takes_ref(v.as_ref()), "workflow_trace_y".len());
}

#[test]
fn equal_when_inner_equal() {
    assert_eq!(
        assert_workflow_trace_namespace("workflow_trace_x").expect("valid"),
        assert_workflow_trace_namespace("workflow_trace_x").expect("valid")
    );
}

#[test]
fn unequal_when_inner_differs() {
    assert_ne!(
        assert_workflow_trace_namespace("workflow_trace_a").expect("valid"),
        assert_workflow_trace_namespace("workflow_trace_b").expect("valid")
    );
}

#[test]
fn hashable_and_dedups_in_hashset() {
    let mut set: HashSet<ValidatedNamespace> = HashSet::new();
    set.insert(assert_workflow_trace_namespace("workflow_trace_x").expect("valid"));
    set.insert(assert_workflow_trace_namespace("workflow_trace_y").expect("valid"));
    set.insert(assert_workflow_trace_namespace("workflow_trace_x").expect("valid"));
    assert_eq!(set.len(), 2);
}

#[test]
fn debug_format_contains_inner() {
    let v = assert_workflow_trace_namespace("workflow_trace_z").expect("valid");
    let s = format!("{v:?}");
    assert!(s.contains("workflow_trace_z"));
}

#[test]
fn clone_preserves_value() {
    let v = assert_workflow_trace_namespace("workflow_trace_clone").expect("valid");
    let c = v.clone();
    assert_eq!(v, c);
}
