//! The verdict vocabulary of the four-verifier dispatch gate.
use vstd::prelude::*;

verus! {

/// A check of the dispatch gate.
#[derive(Debug, Clone, Copy, PartialEq, Eq, Hash)]
pub enum VerifierKind {
    /// Escape-surface ceiling check.
    Security,
    /// Internal consistency check.
    Consistency,
    /// Cost budget check.
    Cost,
    /// Rubric quality check.
    Ember,
}

impl VerifierKind {
    /// All four kinds.
    pub const VARIANTS: [VerifierKind; 4] = [
        VerifierKind::Security,
        VerifierKind::Consistency,
        VerifierKind::Cost,
        VerifierKind::Ember,
    ];
}

/// One verifier's verdict on a workflow.
#[derive(Debug, Clone, PartialEq, Eq)]
pub enum VerifierVerdict {
    /// The workflow passes this verifier.
    Approve,
    /// The workflow may pass after the requested amendment.
    Amend {
        /// What the operator is asked to change.
        request: String,
    },
    /// The workflow is refused outright.
    Refuse {
        /// Why it is refused.
        reason: String,
    },
}

} // verus!
