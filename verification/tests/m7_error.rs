use workflow_trace::m7_workflow_runs::WorkflowError;

#[test]
fn invalid_outcome_carries_string() {
    let err = WorkflowError::InvalidOutcome("BAD".into());
    assert!(err.message().contains("BAD"));
}

#[test]
fn row_not_found_carries_id() {
    let err = WorkflowError::RowNotFound { id: 42 };
    assert!(err.message().contains("42"));
}

#[test]
fn workflow_error_messages_are_exact() {
    assert_eq!(
        WorkflowError::InvalidOutcome("BAD".into()).message(),
        "invalid outcome 'BAD' — must be one of ok|fail|abort|unknown"
    );
    assert_eq!(
        WorkflowError::RowNotFound { id: -7 }.message(),
        "row -7 not found in workflow_runs"
    );
    assert_eq!(WorkflowError::Sqlite("busy".into()).message(), "sqlite error: busy");
    assert_eq!(
        WorkflowError::JsonPatch("bad".into()).message(),
        "consumer_inputs JSON patch failed: bad"
    );
    assert_eq!(
        WorkflowError::Connection("refused".into()).message(),
        "connection acquisition failed: refused"
    );
}

#[test]
fn migration_message_names_the_step() {
    let source = rusqlite::Connection::open("/nonexistent-dir-d2e9/missing.db")
        .expect_err("open-from-nonexistent-dir must fail");
    let err = WorkflowError::Migration { step: 3, source };
    assert!(err.message().starts_with("schema migration failed at step 3: "));
}
