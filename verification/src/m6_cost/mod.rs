//! Context-cost vocabulary: workflow outcomes as the cost recorder sees
//! them, and the bands a session's cost falls into.
use vstd::prelude::*;

verus! {

/// How a workflow run ended, for cost attribution.
#[derive(Debug, Clone, Copy, PartialEq, Eq, Hash)]
pub enum WorkflowOutcome {
    /// Converged on a result.
    Converged,
    /// Repeated a known path.
    Repeated,
    /// Explored new ground.
    Explored,
    /// Diverged from the plan.
    Diverged,
    /// Not known.
    Unknown,
}

/// The variant name of an outcome.
pub open spec fn workflow_outcome_name(o: WorkflowOutcome) -> Seq<char> {
    match o {
        WorkflowOutcome::Converged => "Converged"@,
        WorkflowOutcome::Repeated => "Repeated"@,
        WorkflowOutcome::Explored => "Explored"@,
        WorkflowOutcome::Diverged => "Diverged"@,
        WorkflowOutcome::Unknown => "Unknown"@,
    }
}

impl WorkflowOutcome {
    /// Exploration outcomes: explored, diverged, or unknown.
    pub fn is_exploration(self) -> (b: bool)
        ensures
            b == (self is Explored || self is Diverged || self is Unknown),
    {
        match self {
            WorkflowOutcome::Explored | WorkflowOutcome::Diverged | WorkflowOutcome::Unknown => true,
            _ => false,
        }
    }

    /// Stable wire form: the variant name.
    pub fn as_str(self) -> (s: &'static str)
        ensures
            s@ == workflow_outcome_name(self),
    {
        match self {
            WorkflowOutcome::Converged => "Converged",
            WorkflowOutcome::Repeated => "Repeated",
            WorkflowOutcome::Explored => "Explored",
            WorkflowOutcome::Diverged => "Diverged",
            WorkflowOutcome::Unknown => "Unknown",
        }
    }
}

/// Where a session's cost falls relative to the exploration baseline.
#[derive(Debug, Clone, Copy, PartialEq, Eq, Hash)]
pub enum CostBand {
    /// Below the baseline.
    BelowBaseline,
    /// Near the baseline.
    NearBaseline,
    /// Above the baseline.
    AboveBaseline,
}

/// The variant name of a band.
pub open spec fn cost_band_name(b: CostBand) -> Seq<char> {
    match b {
        CostBand::BelowBaseline => "BelowBaseline"@,
        CostBand::NearBaseline => "NearBaseline"@,
        CostBand::AboveBaseline => "AboveBaseline"@,
    }
}

impl CostBand {
    /// Stable wire form: the variant name.
    pub fn as_str(self) -> (s: &'static str)
        ensures
            s@ == cost_band_name(self),
    {
        match self {
            CostBand::BelowBaseline => "BelowBaseline",
            CostBand::NearBaseline => "NearBaseline",
            CostBand::AboveBaseline => "AboveBaseline",
        }
    }
}

} // verus!
