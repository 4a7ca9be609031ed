use std::time::Duration;

use workflow_trace::m8_povm_build_prereq::{BandClassification, DEFAULT_HEALTH_URL, DEFAULT_TIMEOUT_SECS};

#[test]
fn ordinal_below_floor() {
    assert_eq!(BandClassification::BelowFloor.ordinal(), 0);
}

#[test]
fn ordinal_in_band() {
    assert_eq!(BandClassification::InBand.ordinal(), 1);
}

#[test]
fn ordinal_above_ceiling() {
    assert_eq!(BandClassification::AboveCeiling.ordinal(), 2);
}

#[test]
fn ordinal_nan() {
    assert_eq!(BandClassification::Nan.ordinal(), 3);
}

#[test]
fn banner_strings_are_stable() {
    assert_eq!(BandClassification::BelowFloor.banner(), "BELOW-FLOOR");
    assert_eq!(BandClassification::InBand.banner(), "IN-BAND");
    assert_eq!(BandClassification::AboveCeiling.banner(), "ABOVE-CEILING");
    assert_eq!(BandClassification::Nan.banner(), "NAN");
}

#[test]
fn is_healthy_only_for_in_band() {
    assert!(BandClassification::InBand.is_healthy());
    assert!(!BandClassification::BelowFloor.is_healthy());
    assert!(!BandClassification::AboveCeiling.is_healthy());
    assert!(!BandClassification::Nan.is_healthy());
}

#[test]
fn ordinal_ordering_matches_band_ordering() {
    assert!(
        BandClassification::BelowFloor.ordinal() < BandClassification::InBand.ordinal()
    );
    assert!(
        BandClassification::InBand.ordinal() < BandClassification::AboveCeiling.ordinal()
    );
    assert!(
        BandClassification::AboveCeiling.ordinal() < BandClassification::Nan.ordinal()
    );
}


#[test]
fn default_url_is_workspace_povm() {
    assert_eq!(DEFAULT_HEALTH_URL, "http://127.0.0.1:8125/learning_health");
}

#[test]
fn default_timeout_is_two_seconds() {
    assert_eq!(Duration::from_secs(DEFAULT_TIMEOUT_SECS), Duration::from_secs(2));
}
