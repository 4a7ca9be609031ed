//! Authorship-typed refusal envelope: every refusal names who refused
//! (a substrate, the engine, or the operator) or why the answer is
//! unavailable, and the three unavailable cases stay distinguishable.
use vstd::prelude::*;
use crate::m32_dispatcher::{EscapeSurfaceProfile, RefusalReason};

verus! {

/// Who refused, or why no answer is available.
#[derive(Debug, Clone, PartialEq)]
pub enum RefusalToken {
    /// A substrate refused with its own reason.
    SubstrateAuthored {
        /// The refusing substrate.
        substrate_id: SubstrateId,
        /// The substrate's reason, verbatim.
        substrate_reason: String,
        /// Optional typed payload.
        payload: Option<RefusalPayload>,
    },
    /// An engine module refused.
    EngineAuthored {
        /// The refusing module.
        module_id: ModuleId,
        /// The engine's reason.
        engine_reason: EngineRefusalReason,
        /// Optional typed payload.
        payload: Option<RefusalPayload>,
    },
    /// The operator refused.
    OperatorAuthored {
        /// The operator's reason.
        operator_reason: OperatorRefusalReason,
        /// Optional typed payload.
        payload: Option<RefusalPayload>,
    },
    /// No answer is available.
    Unavailable(UnavailableReason),
}

/// Why no answer is available.
#[derive(Debug, Clone, PartialEq)]
pub enum UnavailableReason {
    /// The engine imagined the substrate: it is not shipped.
    EngineImagined {
        /// The substrate concerned.
        substrate_id: SubstrateId,
        /// Why the engine considers it imagined.
        reason: String,
    },
    /// The substrate is shipped but could not be reached.
    SubstrateUnreachable {
        /// The substrate concerned.
        substrate_id: SubstrateId,
        /// The transport failure.
        transport_reason: String,
    },
    /// The substrate itself declared the answer unavailable.
    SubstrateAuthored {
        /// The substrate concerned.
        substrate_id: SubstrateId,
        /// The substrate's reason, verbatim.
        substrate_reason: String,
    },
}

/// The substrates a refusal can come from.
#[derive(Debug, Clone, Copy, PartialEq, Eq, Hash)]
pub enum SubstrateId {
    Atuin,
    Stcortex,
    HabitatConductor,
    HabitatInjection,
    Cc5LoopClocks,
    Watcher,
    Ralph,
    CargoBuildGraph,
    Lcm,
    SynthexV2,
}

/// The engine modules that can refuse.
#[derive(Debug, Clone, Copy, PartialEq, Eq, Hash)]
pub enum ModuleId {
    M9,
    M13,
    M32,
    M33,
    M40,
    M41,
    M42,
}

/// The engine's refusal reasons.
pub type EngineRefusalReason = RefusalReason;

/// The operator's refusal reasons.
#[derive(Debug, Clone, PartialEq)]
pub enum OperatorRefusalReason {
    /// The request was malformed.
    Malformed {
        /// What was wrong.
        context: String,
    },
    /// Not now.
    NotNow {
        /// Optional context.
        context: Option<String>,
    },
    /// The operator asks for the request to be reframed.
    RequestReframing {
        /// The suggested reframing.
        suggested_reframing: String,
    },
}

/// A typed payload attached to a refusal.
#[derive(Debug, Clone, PartialEq)]
pub enum RefusalPayload {
    /// The escape surface that would have been accepted instead.
    AcceptableEscapeSurface(EscapeSurfaceProfile),
    /// Verifier context.
    VerifierContext(String),
    /// A suggested reframing.
    SuggestedReframing(String),
    /// Free-form text.
    Freeform(String),
}

/// The substrate a token names, if any.
pub open spec fn token_substrate(t: RefusalToken) -> Option<SubstrateId> {
    match t {
        RefusalToken::SubstrateAuthored { substrate_id, .. } => Some(substrate_id),
        RefusalToken::Unavailable(UnavailableReason::EngineImagined { substrate_id, .. }) => Some(
            substrate_id,
        ),
        RefusalToken::Unavailable(
            UnavailableReason::SubstrateUnreachable { substrate_id, .. },
        ) => Some(substrate_id),
        RefusalToken::Unavailable(UnavailableReason::SubstrateAuthored { substrate_id, .. }) => Some(
            substrate_id,
        ),
        _ => None,
    }
}

impl RefusalToken {
    /// A substrate-authored refusal with no payload.
    pub fn substrate_authored(substrate_id: SubstrateId, substrate_reason: String) -> (t: Self)
        ensures
            t matches RefusalToken::SubstrateAuthored { substrate_id: s, substrate_reason: r, payload: p }
                && s == substrate_id && r@ == substrate_reason@ && p is None,
    {
        RefusalToken::SubstrateAuthored { substrate_id, substrate_reason, payload: None }
    }

    /// An engine-authored refusal with no payload.
    pub fn engine_authored(module_id: ModuleId, engine_reason: EngineRefusalReason) -> (t: Self)
        ensures
            t matches RefusalToken::EngineAuthored { module_id: m, engine_reason: r, payload: p }
                && m == module_id && r == engine_reason && p is None,
    {
        RefusalToken::EngineAuthored { module_id, engine_reason, payload: None }
    }

    /// An operator-authored refusal with no payload.
    pub fn operator_authored(operator_reason: OperatorRefusalReason) -> (t: Self)
        ensures
            t matches RefusalToken::OperatorAuthored { operator_reason: r, payload: p } && r
                == operator_reason && p is None,
    {
        RefusalToken::OperatorAuthored { operator_reason, payload: None }
    }

    /// Unavailable: the engine imagined the substrate.
    pub fn unavailable_engine_imagined(substrate_id: SubstrateId, reason: String) -> (t: Self)
        ensures
            t matches RefusalToken::Unavailable(
                UnavailableReason::EngineImagined { substrate_id: s, reason: r },
            ) && s == substrate_id && r@ == reason@,
    {
        RefusalToken::Unavailable(UnavailableReason::EngineImagined { substrate_id, reason })
    }

    /// Unavailable: the substrate could not be reached.
    pub fn unavailable_substrate_unreachable(
        substrate_id: SubstrateId,
        transport_reason: String,
    ) -> (t: Self)
        ensures
            t matches RefusalToken::Unavailable(
                UnavailableReason::SubstrateUnreachable { substrate_id: s, transport_reason: r },
            ) && s == substrate_id && r@ == transport_reason@,
    {
        RefusalToken::Unavailable(
            UnavailableReason::SubstrateUnreachable { substrate_id, transport_reason },
        )
    }

    /// Unavailable: the substrate itself declared the answer unavailable.
    pub fn unavailable_substrate_authored(substrate_id: SubstrateId, substrate_reason: String) -> (t:
        Self)
        ensures
            t matches RefusalToken::Unavailable(
                UnavailableReason::SubstrateAuthored { substrate_id: s, substrate_reason: r },
            ) && s == substrate_id && r@ == substrate_reason@,
    {
        RefusalToken::Unavailable(
            UnavailableReason::SubstrateAuthored { substrate_id, substrate_reason },
        )
    }

    /// The substrate this token names: the refusing or unavailable
    /// substrate, `None` for engine and operator refusals.
    pub fn substrate_id(&self) -> (r: Option<SubstrateId>)
        ensures
            r == token_substrate(*self),
    {
        match self {
            RefusalToken::SubstrateAuthored { substrate_id, .. } => Some(*substrate_id),
            RefusalToken::Unavailable(UnavailableReason::EngineImagined { substrate_id, .. }) => {
                Some(*substrate_id)
            },
            RefusalToken::Unavailable(
                UnavailableReason::SubstrateUnreachable { substrate_id, .. },
            ) => Some(*substrate_id),
            RefusalToken::Unavailable(
                UnavailableReason::SubstrateAuthored { substrate_id, .. },
            ) => Some(*substrate_id),
            RefusalToken::EngineAuthored { .. } => None,
            RefusalToken::OperatorAuthored { .. } => None,
        }
    }

    /// The substrate authored this token: a substrate refusal or a
    /// substrate-declared unavailability.
    pub fn is_substrate_authored(&self) -> (r: bool)
        ensures
            r == (*self is SubstrateAuthored || *self matches RefusalToken::Unavailable(
                UnavailableReason::SubstrateAuthored { .. },
            )),
    {
        match self {
            RefusalToken::SubstrateAuthored { .. } => true,
            RefusalToken::Unavailable(UnavailableReason::SubstrateAuthored { .. }) => true,
            _ => false,
        }
    }

    /// The engine imagined the substrate.
    pub fn is_engine_imagined(&self) -> (r: bool)
        ensures
            r == (*self matches RefusalToken::Unavailable(
                UnavailableReason::EngineImagined { .. },
            )),
    {
        match self {
            RefusalToken::Unavailable(UnavailableReason::EngineImagined { .. }) => true,
            _ => false,
        }
    }
}

/// The three unavailable cases are told apart: no token is both
/// engine-imagined and substrate-authored, and a substrate-unreachable
/// token is neither.
pub proof fn lemma_unavailable_cases_distinct(t: RefusalToken)
    ensures
        !((t matches RefusalToken::Unavailable(UnavailableReason::EngineImagined { .. })) && (
        t is SubstrateAuthored || t matches RefusalToken::Unavailable(
            UnavailableReason::SubstrateAuthored { .. },
        ))),
        (t matches RefusalToken::Unavailable(UnavailableReason::SubstrateUnreachable { .. }))
            ==> !(t matches RefusalToken::Unavailable(UnavailableReason::EngineImagined { .. }))
            && !(t is SubstrateAuthored || t matches RefusalToken::Unavailable(
            UnavailableReason::SubstrateAuthored { .. },
        )),
{
}

} // verus!
