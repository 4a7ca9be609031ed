//! Escape-surface profiles, the operator's acceptance signature and the
//! engine refusal taxonomy shared by the dispatch gate and the namespace
//! guard.
use vstd::prelude::*;

verus! {

/// The method the Conductor routes a dispatch to.
pub const CONDUCTOR_DISPATCH_METHOD: &'static str = "lcm.loop.create";

/// Monotone, single-axis destructiveness ladder of a workflow's escape
/// surface (seven profiles, least destructive first).
#[derive(Debug, Clone, Copy, PartialEq, Eq, Hash)]
pub enum EscapeSurfaceProfile {
    /// Runs entirely inside the sandbox.
    Sandboxed,
    /// Reaches outside the sandbox.
    SandboxEscape,
    /// Mutates other processes.
    ProcessMutate,
    /// Escalates privileges.
    PrivilegeEscalation,
    /// Writes files.
    FileWrite,
    /// Sends traffic off the host.
    NetworkEgress,
    /// Moves data off the host.
    DataExfil,
}

/// The ordinal of a profile on the ladder (steps of ten, from 0).
pub open spec fn profile_ordinal(p: EscapeSurfaceProfile) -> u8 {
    match p {
        EscapeSurfaceProfile::Sandboxed => 0,
        EscapeSurfaceProfile::SandboxEscape => 10,
        EscapeSurfaceProfile::ProcessMutate => 20,
        EscapeSurfaceProfile::PrivilegeEscalation => 30,
        EscapeSurfaceProfile::FileWrite => 40,
        EscapeSurfaceProfile::NetworkEgress => 50,
        EscapeSurfaceProfile::DataExfil => 60,
    }
}

/// The variant name, as `Debug` prints it.
pub open spec fn profile_name(p: EscapeSurfaceProfile) -> Seq<char> {
    match p {
        EscapeSurfaceProfile::Sandboxed => "Sandboxed"@,
        EscapeSurfaceProfile::SandboxEscape => "SandboxEscape"@,
        EscapeSurfaceProfile::ProcessMutate => "ProcessMutate"@,
        EscapeSurfaceProfile::PrivilegeEscalation => "PrivilegeEscalation"@,
        EscapeSurfaceProfile::FileWrite => "FileWrite"@,
        EscapeSurfaceProfile::NetworkEgress => "NetworkEgress"@,
        EscapeSurfaceProfile::DataExfil => "DataExfil"@,
    }
}

impl EscapeSurfaceProfile {
    /// All seven profiles in ladder order.
    pub const VARIANTS: [EscapeSurfaceProfile; 7] = [
        EscapeSurfaceProfile::Sandboxed,
        EscapeSurfaceProfile::SandboxEscape,
        EscapeSurfaceProfile::ProcessMutate,
        EscapeSurfaceProfile::PrivilegeEscalation,
        EscapeSurfaceProfile::FileWrite,
        EscapeSurfaceProfile::NetworkEgress,
        EscapeSurfaceProfile::DataExfil,
    ];

    /// Position on the ladder.
    pub fn ordinal(&self) -> (r: u8)
        ensures
            r == profile_ordinal(*self),
    {
        match self {
            EscapeSurfaceProfile::Sandboxed => 0,
            EscapeSurfaceProfile::SandboxEscape => 10,
            EscapeSurfaceProfile::ProcessMutate => 20,
            EscapeSurfaceProfile::PrivilegeEscalation => 30,
            EscapeSurfaceProfile::FileWrite => 40,
            EscapeSurfaceProfile::NetworkEgress => 50,
            EscapeSurfaceProfile::DataExfil => 60,
        }
    }

    /// The variant name.
    pub fn name(&self) -> (r: &'static str)
        ensures
            r@ == profile_name(*self),
    {
        match self {
            EscapeSurfaceProfile::Sandboxed => "Sandboxed",
            EscapeSurfaceProfile::SandboxEscape => "SandboxEscape",
            EscapeSurfaceProfile::ProcessMutate => "ProcessMutate",
            EscapeSurfaceProfile::PrivilegeEscalation => "PrivilegeEscalation",
            EscapeSurfaceProfile::FileWrite => "FileWrite",
            EscapeSurfaceProfile::NetworkEgress => "NetworkEgress",
            EscapeSurfaceProfile::DataExfil => "DataExfil",
        }
    }

    /// A write at this profile is acknowledged by a signature iff its
    /// ordinal does not exceed the signature's acknowledged ceiling.
    pub fn is_acknowledged_by(&self, signature: &HumanAcceptanceSignature) -> (r: bool)
        ensures
            r == (profile_ordinal(*self) <= profile_ordinal(signature.acknowledged_ceiling)),
    {
        self.ordinal() <= signature.acknowledged_ceiling.ordinal()
    }

    /// The same gate, read through any acceptance-signature reader.
    pub fn is_acknowledged_by_reader<R: AcceptanceSignatureReader + ?Sized>(
        &self,
        reader: &R,
    ) -> (r: bool)
        ensures
            r == (profile_ordinal(*self) <= profile_ordinal(reader.spec_ceiling())),
    {
        let ceiling = reader.acknowledged_ceiling();
        self.ordinal() <= ceiling.ordinal()
    }
}

/// The operator's acknowledgement of how destructive a dispatched
/// workflow may be.
#[derive(Debug, Clone, Copy, PartialEq, Eq)]
pub struct HumanAcceptanceSignature {
    /// Whether the acknowledgement came from an interactive terminal.
    pub interactive_terminal: bool,
    /// The highest profile the operator acknowledged.
    pub acknowledged_ceiling: EscapeSurfaceProfile,
}

impl Default for HumanAcceptanceSignature {
    /// The default acknowledges only the sandbox.
    fn default() -> (r: Self)
        ensures
            r.acknowledged_ceiling == EscapeSurfaceProfile::Sandboxed,
            !r.interactive_terminal,
    {
        HumanAcceptanceSignature {
            interactive_terminal: false,
            acknowledged_ceiling: EscapeSurfaceProfile::Sandboxed,
        }
    }
}

/// Read access to the acknowledged ceiling of an acceptance signature.
pub trait AcceptanceSignatureReader {
    /// The ceiling this reader reports.
    spec fn spec_ceiling(&self) -> EscapeSurfaceProfile;

    /// The highest profile the operator acknowledged.
    fn acknowledged_ceiling(&self) -> (r: EscapeSurfaceProfile)
        ensures
            r == self.spec_ceiling(),
    ;
}

impl AcceptanceSignatureReader for HumanAcceptanceSignature {
    open spec fn spec_ceiling(&self) -> EscapeSurfaceProfile {
        self.acknowledged_ceiling
    }

    fn acknowledged_ceiling(&self) -> (r: EscapeSurfaceProfile) {
        self.acknowledged_ceiling
    }
}

impl<'a, R: AcceptanceSignatureReader + ?Sized> AcceptanceSignatureReader for &'a R {
    open spec fn spec_ceiling(&self) -> EscapeSurfaceProfile {
        (**self).spec_ceiling()
    }

    fn acknowledged_ceiling(&self) -> (r: EscapeSurfaceProfile) {
        (**self).acknowledged_ceiling()
    }
}

/// Engine-side dispatch refusal taxonomy.
#[derive(Debug, Clone, PartialEq, Eq)]
pub enum RefusalReason {
    /// The workflow is not in the curated bank.
    WorkflowNotBanked,
}

} // verus!
