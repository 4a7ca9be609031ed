use workflow_trace::m5_battern::BatternStepLabel;
use std::collections::HashSet;

#[test]
fn all_six_labels_in_canonical_order() {
    let names: Vec<&'static str> = BatternStepLabel::ALL.iter().map(|l| l.as_str()).collect();
    assert_eq!(
        names,
        vec!["Design", "Dispatch", "Gate", "Collect", "Synthesize", "Compose"]
    );
}

#[test]
fn no_other_variant_compile_time_exhaustiveness() {
    let l = BatternStepLabel::Design;
    match l {
        BatternStepLabel::Design
        | BatternStepLabel::Dispatch
        | BatternStepLabel::Gate
        | BatternStepLabel::Collect
        | BatternStepLabel::Synthesize
        | BatternStepLabel::Compose => {}
    }
}

#[test]
fn implements_copy_eq_hash() {
    let a = BatternStepLabel::Gate;
    let b = a;
    let mut s = HashSet::new();
    s.insert(a);
    s.insert(b);
    assert_eq!(s.len(), 1);
}

#[test]
fn as_str_is_distinct_and_matches_variant_for_all_labels() {
    let strs: HashSet<&'static str> =
        BatternStepLabel::ALL.iter().map(|l| l.as_str()).collect();
    assert_eq!(strs.len(), 6, "all six wire-forms must be distinct");
    assert_eq!(BatternStepLabel::Synthesize.as_str(), "Synthesize");
    assert_eq!(BatternStepLabel::Collect.as_str(), "Collect");
}

#[test]
fn all_array_cardinality_is_exactly_six_f1_closed_enum() {
    assert_eq!(
        BatternStepLabel::ALL.len(),
        6,
        "F1: closed enum must stay at six variants — no Other"
    );
}
