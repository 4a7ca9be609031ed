//! The inbound event vocabulary.
use vstd::prelude::*;

verus! {

#[verifier::external_type_specification]
#[verifier::external_body]
pub struct ExJsonValue(serde_json::Value);

/// The synthex-v2 component that emitted an event.
#[derive(Debug, Clone, Copy, PartialEq, Eq, Hash)]
#[non_exhaustive]
pub enum InboundSource {
    M46Observer,
    M47Critic,
    M51EmberProtector,
    M10HttpPoller,
}

/// What an inbound event reports.
#[derive(Debug, Clone, Copy, PartialEq, Eq, Hash)]
#[non_exhaustive]
pub enum InboundEventKind {
    WfeDriftObserved,
    WfeSilenceObserved,
    WfeDriftHypothesis,
    WfeProposalBlocked,
    WfeUnreachablePersisting,
}

/// One inbound event; its JSON payload is carried, not read.
#[derive(Debug)]
pub struct InboundEvent {
    /// Emitting component.
    pub source: InboundSource,
    /// Event kind.
    pub kind: InboundEventKind,
    /// Emission time (ms since epoch).
    pub emitted_at_ms: u64,
    /// Boot identifier of the emitter.
    pub boot_id: String,
    /// Kind-specific payload.
    pub data: serde_json::Value,
}

} // verus!
