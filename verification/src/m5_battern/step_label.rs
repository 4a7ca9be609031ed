//! Battern step labels. The enum is closed: there is no placeholder
//! variant, so a step that matches no heuristic surfaces as `None`
//! upstream, never as a stand-in label.
use vstd::prelude::*;

verus! {

/// One canonical Battern step.
#[derive(Debug, Clone, Copy, PartialEq, Eq, Hash)]
pub enum BatternStepLabel {
    /// Plan + scope a multi-pane dispatch.
    Design,
    /// Issue `cc-dispatch` to two or more panes within the design window.
    Dispatch,
    /// Verify gate conditions on dispatched panes.
    Gate,
    /// Harvest outputs via `cc-harvest` / `cc-audit`.
    Collect,
    /// Synthesise observations into a unified record.
    Synthesize,
    /// Compose / cascade outputs into the next iteration.
    Compose,
}

/// The wire form of a label: its variant name.
pub open spec fn label_name(l: BatternStepLabel) -> Seq<char> {
    match l {
        BatternStepLabel::Design => "Design"@,
        BatternStepLabel::Dispatch => "Dispatch"@,
        BatternStepLabel::Gate => "Gate"@,
        BatternStepLabel::Collect => "Collect"@,
        BatternStepLabel::Synthesize => "Synthesize"@,
        BatternStepLabel::Compose => "Compose"@,
    }
}

impl BatternStepLabel {
    /// All six labels in canonical order.
    pub const ALL: [BatternStepLabel; 6] = [
        BatternStepLabel::Design,
        BatternStepLabel::Dispatch,
        BatternStepLabel::Gate,
        BatternStepLabel::Collect,
        BatternStepLabel::Synthesize,
        BatternStepLabel::Compose,
    ];

    /// Stable wire form.
    pub fn as_str(self) -> (r: &'static str)
        ensures
            r@ == label_name(self),
    {
        match self {
            BatternStepLabel::Design => "Design",
            BatternStepLabel::Dispatch => "Dispatch",
            BatternStepLabel::Gate => "Gate",
            BatternStepLabel::Collect => "Collect",
            BatternStepLabel::Synthesize => "Synthesize",
            BatternStepLabel::Compose => "Compose",
        }
    }
}

/// Distinct labels have distinct wire forms.
pub proof fn lemma_label_names_distinct(a: BatternStepLabel, b: BatternStepLabel)
    requires
        a != b,
    ensures
        label_name(a) != label_name(b),
{
    reveal_strlit("Design");
    reveal_strlit("Dispatch");
    reveal_strlit("Gate");
    reveal_strlit("Collect");
    reveal_strlit("Synthesize");
    reveal_strlit("Compose");
    let x = label_name(a);
    let y = label_name(b);
    if x == y {
        assert(x.len() == y.len());
        assert(x[0] == y[0]);
        assert(x[1] == y[1]);
        assert(x[2] == y[2]);
    }
}

} // verus!
