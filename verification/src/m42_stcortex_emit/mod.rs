//! Substrate feedback: the Hebbian signal a workflow outcome yields.
use vstd::prelude::*;
use crate::text::str_eq;

verus! {

/// Feedback signal kind.
#[derive(Debug, Clone, Copy, PartialEq, Eq, Hash)]
pub enum HebbianSignal {
    /// Long-term potentiation (positive reinforcement).
    Reinforce,
    /// Long-term depression (negative reinforcement).
    Depress,
}

/// The Hebbian signal of a workflow's recent outcome: reinforce exactly
/// when the outcome is the string `ok`; anything else, or no outcome,
/// depresses.
pub fn signal_for_outcome(outcome: Option<&str>) -> (s: HebbianSignal)
    ensures
        s == (if outcome matches Some(o) && o@ == "ok"@ {
            HebbianSignal::Reinforce
        } else {
            HebbianSignal::Depress
        }),
{
    match outcome {
        Some(o) => if str_eq(o, "ok") {
            HebbianSignal::Reinforce
        } else {
            HebbianSignal::Depress
        },
        None => HebbianSignal::Depress,
    }
}

} // verus!
