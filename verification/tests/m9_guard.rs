use workflow_trace::m9_watcher_namespace_guard::{
    assert_workflow_trace_namespace, munge_hyphen_slug, NamespaceViolation, ValidatedNamespace,
    WORKFLOW_TRACE_NS_PREFIX,
};

#[test]
fn reexports_prefix_constant() {
    assert_eq!(WORKFLOW_TRACE_NS_PREFIX, "workflow_trace");
}

#[test]
fn reexports_validator_returns_validated_namespace() {
    let v: ValidatedNamespace =
        assert_workflow_trace_namespace("workflow_trace_x").expect("happy");
    assert_eq!(v.as_str(), "workflow_trace_x");
}

#[test]
fn reexports_munge_helper() {
    assert_eq!(munge_hyphen_slug("a-b-c"), "a_b_c");
}

#[test]
fn reexports_error_enum_for_wrong_prefix() {
    let err: NamespaceViolation = assert_workflow_trace_namespace("orac_x").unwrap_err();
    assert!(matches!(err, NamespaceViolation::WrongPrefix { .. }));
}
