use workflow_trace::m42_stcortex_emit::{signal_for_outcome, HebbianSignal};

#[test]
fn signal_for_ok_outcome_is_reinforce() {
    assert_eq!(signal_for_outcome(Some("ok")), HebbianSignal::Reinforce);
}

#[test]
fn signal_for_fail_outcome_is_depress() {
    assert_eq!(signal_for_outcome(Some("fail")), HebbianSignal::Depress);
    assert_eq!(signal_for_outcome(None), HebbianSignal::Depress);
}

#[test]
fn signal_for_outcome_deterministic_across_thousand_calls() {
    for _ in 0..1_000 {
        assert_eq!(signal_for_outcome(Some("ok")), HebbianSignal::Reinforce);
        assert_eq!(signal_for_outcome(Some("fail")), HebbianSignal::Depress);
        assert_eq!(signal_for_outcome(Some("abort")), HebbianSignal::Depress);
        assert_eq!(signal_for_outcome(None), HebbianSignal::Depress);
    }
}

#[test]
fn signal_for_outcome_only_ok_maps_to_reinforce() {
    for non_ok in ["fail", "abort", "unknown", "", "ok ", " ok", "OK"] {
        assert_eq!(
            signal_for_outcome(Some(non_ok)),
            HebbianSignal::Depress,
            "outcome {non_ok:?} must not collapse to Reinforce"
        );
    }
}

#[test]
fn signal_for_outcome_none_is_depress() {
    assert_eq!(signal_for_outcome(None), HebbianSignal::Depress);
}

#[test]
fn signal_for_outcome_is_case_and_whitespace_sensitive() {
    for near_miss in ["OK", "Ok", " ok", "ok ", "ok\n", "\tok"] {
        assert_eq!(
            signal_for_outcome(Some(near_miss)),
            HebbianSignal::Depress,
            "near-miss {near_miss:?} must not match the exact 'ok' literal"
        );
    }
}

#[test]
fn signal_for_outcome_empty_string_is_depress() {
    assert_eq!(signal_for_outcome(Some("")), HebbianSignal::Depress);
}

#[test]
fn signal_for_outcome_unicode_outcome_is_depress() {
    for s in ["\u{2713}", "\u{6210}\u{529f}", "\u{f6}k", "\u{1F600}"] {
        assert_eq!(signal_for_outcome(Some(s)), HebbianSignal::Depress);
    }
}

#[test]
fn hebbian_signal_variants_are_not_equal() {
    assert_ne!(HebbianSignal::Reinforce, HebbianSignal::Depress);
}

