//! Band classification vocabulary of the build-prerequisite gate.
use vstd::prelude::*;

verus! {

/// Default POVM learning-health endpoint.
pub const DEFAULT_HEALTH_URL: &'static str = "http://127.0.0.1:8125/learning_health";

/// Default probe timeout, in seconds.
pub const DEFAULT_TIMEOUT_SECS: u64 = 2;

/// Where a measured value falls relative to the healthy band.
#[derive(Debug, Clone, Copy, PartialEq, Eq, Hash)]
pub enum BandClassification {
    /// Below the band's floor.
    BelowFloor,
    /// Within the band (inclusive).
    InBand,
    /// Above the band's ceiling.
    AboveCeiling,
    /// Not a finite number.
    Nan,
}

/// The ordinal of a classification, floor to ceiling, then NaN.
pub open spec fn band_ordinal(b: BandClassification) -> u8 {
    match b {
        BandClassification::BelowFloor => 0,
        BandClassification::InBand => 1,
        BandClassification::AboveCeiling => 2,
        BandClassification::Nan => 3,
    }
}

/// The banner text of a classification.
pub open spec fn band_banner(b: BandClassification) -> Seq<char> {
    match b {
        BandClassification::BelowFloor => "BELOW-FLOOR"@,
        BandClassification::InBand => "IN-BAND"@,
        BandClassification::AboveCeiling => "ABOVE-CEILING"@,
        BandClassification::Nan => "NAN"@,
    }
}

impl BandClassification {
    /// Ordinal: below floor 0, in band 1, above ceiling 2, NaN 3.
    pub fn ordinal(self) -> (o: u8)
        ensures
            o == band_ordinal(self),
    {
        match self {
            BandClassification::BelowFloor => 0,
            BandClassification::InBand => 1,
            BandClassification::AboveCeiling => 2,
            BandClassification::Nan => 3,
        }
    }

    /// Banner text for reports.
    pub fn banner(self) -> (s: &'static str)
        ensures
            s@ == band_banner(self),
    {
        match self {
            BandClassification::BelowFloor => "BELOW-FLOOR",
            BandClassification::InBand => "IN-BAND",
            BandClassification::AboveCeiling => "ABOVE-CEILING",
            BandClassification::Nan => "NAN",
        }
    }

    /// Only an in-band value is healthy.
    pub fn is_healthy(self) -> (b: bool)
        ensures
            b == (self is InBand),
    {
        match self {
            BandClassification::InBand => true,
            _ => false,
        }
    }
}

/// Ordinals are distinct, so classifications order by ordinal.
pub proof fn lemma_band_ordinal_injective(a: BandClassification, b: BandClassification)
    ensures
        band_ordinal(a) == band_ordinal(b) ==> a == b,
{
}

} // verus!
