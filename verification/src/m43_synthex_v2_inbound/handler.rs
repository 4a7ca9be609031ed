//! Routing of inbound events, and their refusal tokens.
use vstd::prelude::*;
use super::events::{InboundEvent, InboundEventKind};
use crate::refusal_token::{RefusalToken, SubstrateId, UnavailableReason};
use crate::text::push_str;

verus! {

/// What handling an event did.
#[derive(Debug, Clone, PartialEq, Eq)]
pub enum HandlerOutcome {
    /// Recorded only.
    Logged,
    /// A decay hint was applied.
    M11DecayHintApplied,
    /// A budget hint was applied.
    M16BudgetHintApplied,
    /// The bilateral mirror was updated.
    V5BilateralMirrorUpdated,
    /// Advisory only; nothing changed.
    NoOpAdvisory,
}

/// Why an event was not handled.
#[derive(Debug, Clone, PartialEq, Eq)]
pub enum HandlerError {
    /// The payload did not have the kind's shape.
    PayloadShapeMismatch {
        /// The event kind.
        kind: InboundEventKind,
        /// What did not match.
        detail: String,
    },
    /// Policy rejected the event.
    PolicyRejected {
        /// The event kind.
        kind: InboundEventKind,
        /// Why.
        reason: String,
    },
    /// The handler is draining and accepts nothing.
    Draining,
}

/// The outcome each event kind routes to.
pub open spec fn route(kind: InboundEventKind) -> HandlerOutcome {
    match kind {
        InboundEventKind::WfeDriftObserved => HandlerOutcome::M11DecayHintApplied,
        InboundEventKind::WfeSilenceObserved => HandlerOutcome::M16BudgetHintApplied,
        InboundEventKind::WfeDriftHypothesis => HandlerOutcome::NoOpAdvisory,
        InboundEventKind::WfeProposalBlocked => HandlerOutcome::Logged,
        InboundEventKind::WfeUnreachablePersisting => HandlerOutcome::V5BilateralMirrorUpdated,
    }
}

/// The reason a refusal for `err` carries.
pub open spec fn refusal_reason(err: HandlerError) -> Seq<char> {
    match err {
        HandlerError::Draining => "wfe_draining"@,
        HandlerError::PayloadShapeMismatch { detail, .. } => "wfe_malformed_inbound:"@ + detail@,
        HandlerError::PolicyRejected { reason, .. } => "wfe_hypothesis_rejected:"@ + reason@,
    }
}

/// Routes inbound events; once draining it refuses everything.
#[derive(Debug)]
pub struct InboundHandler {
    draining: bool,
}

impl InboundHandler {
    /// Whether the handler is draining.
    pub closed spec fn spec_draining(&self) -> bool {
        self.draining
    }

    /// A handler that is not draining.
    pub fn new() -> (h: Self)
        ensures
            !h.spec_draining(),
    {
        InboundHandler { draining: false }
    }

    /// Start draining: every later event is refused.
    pub fn drain(&mut self)
        ensures
            final(self).spec_draining(),
    {
        self.draining = true;
    }

    /// Whether the handler is draining.
    pub fn is_draining(&self) -> (b: bool)
        ensures
            b == self.spec_draining(),
    {
        self.draining
    }

    /// Route an event by its kind; a draining handler refuses it.
    pub fn dispatch(&self, event: &InboundEvent) -> (r: Result<HandlerOutcome, HandlerError>)
        ensures
            self.spec_draining() ==> r == Err::<HandlerOutcome, HandlerError>(HandlerError::Draining),
            !self.spec_draining() ==> r == Ok::<HandlerOutcome, HandlerError>(route(event.kind)),
    {
        if self.draining {
            return Err(HandlerError::Draining);
        }
        match event.kind {
            InboundEventKind::WfeDriftObserved => Ok(HandlerOutcome::M11DecayHintApplied),
            InboundEventKind::WfeSilenceObserved => Ok(HandlerOutcome::M16BudgetHintApplied),
            InboundEventKind::WfeDriftHypothesis => Ok(HandlerOutcome::NoOpAdvisory),
            InboundEventKind::WfeProposalBlocked => Ok(HandlerOutcome::Logged),
            InboundEventKind::WfeUnreachablePersisting => Ok(
                HandlerOutcome::V5BilateralMirrorUpdated,
            ),
        }
    }

    /// The refusal token for a handling failure: always authored by the
    /// synthex-v2 substrate, with a reason naming the failure.
    pub fn refusal_for(err: &HandlerError) -> (t: RefusalToken)
        ensures
            t matches RefusalToken::Unavailable(
                UnavailableReason::SubstrateAuthored { substrate_id, substrate_reason },
            ) && substrate_id == SubstrateId::SynthexV2 && substrate_reason@ == refusal_reason(*err),
    {
        let reason = match err {
            HandlerError::Draining => String::from_str("wfe_draining"),
            HandlerError::PayloadShapeMismatch { detail, .. } => {
                let mut s = String::from_str("wfe_malformed_inbound:");
                push_str(&mut s, detail.as_str());
                s
            },
            HandlerError::PolicyRejected { reason, .. } => {
                let mut s = String::from_str("wfe_hypothesis_rejected:");
                push_str(&mut s, reason.as_str());
                s
            },
        };
        RefusalToken::unavailable_substrate_authored(SubstrateId::SynthexV2, reason)
    }
}

impl Clone for InboundHandler {
    /// A copy of the handler, draining exactly when the original is.
    fn clone(&self) -> (r: Self)
        ensures
            r.spec_draining() == self.spec_draining(),
    {
        InboundHandler { draining: self.draining }
    }
}

impl Default for InboundHandler {
    /// A handler that is not draining, as `new` gives.
    fn default() -> (h: Self)
        ensures
            !h.spec_draining(),
    {
        InboundHandler::new()
    }
}

} // verus!
