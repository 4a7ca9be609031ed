use workflow_trace::m5_battern::BatternError;

#[test]
fn rusqlite_error_converts_into_atuin_io_variant() {
    let result: Result<rusqlite::Connection, rusqlite::Error> =
        rusqlite::Connection::open("/nonexistent-dir-x4f7a/missing.db");
    let rusqlite_err = result.expect_err("open-from-nonexistent-dir must fail");
    let err: BatternError = rusqlite_err.into();
    assert!(
        matches!(err, BatternError::AtuinIo(_)),
        "rusqlite::Error must map to BatternError::AtuinIo"
    );
    assert!(
        err.message().contains("atuin io:"),
        "AtuinIo Display must contain its prefix; got {}",
        err.message()
    );
}

#[test]
fn regex_error_converts_into_regex_compile_variant() {
    let bad_pattern: String = format!("{}unbalanced", '(');
    let result: Result<regex::Regex, regex::Error> = regex::Regex::new(&bad_pattern);
    let regex_err = result.expect_err("unbalanced regex must fail to compile");
    let err: BatternError = regex_err.into();
    assert!(
        matches!(err, BatternError::RegexCompile(_)),
        "regex::Error must map to BatternError::RegexCompile"
    );
    assert!(
        err.message().contains("regex compile:"),
        "RegexCompile Display must contain its prefix; got {}",
        err.message()
    );
}
