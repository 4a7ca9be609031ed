//! Refusals raised by the namespace guard.
use vstd::prelude::*;
use crate::m32_dispatcher::{profile_name, EscapeSurfaceProfile};
use crate::text::{dec_digits, hex_padded, push_dec_digits, push_hex_digits, push_str};

verus! {

/// Application-layer refusal at a substrate-write boundary.
#[derive(Debug, Clone, PartialEq, Eq)]
pub enum NamespaceViolation {
    /// The munged namespace is neither the prefix nor starts with the
    /// prefix followed by `_`.
    WrongPrefix {
        /// The namespace after hyphen munging.
        namespace: String,
        /// The required prefix.
        expected_prefix: &'static str,
    },
    /// The namespace was empty.
    Empty,
    /// The namespace contained a whitespace character.
    Whitespace {
        /// The namespace as received (before munging).
        namespace: String,
    },
    /// The namespace was exactly `scratch`.
    ScratchForbidden,
    /// The namespace contained a control character or a byte-order mark.
    ControlChar {
        /// Unicode scalar value of the offending character.
        codepoint: u32,
        /// Byte offset of that character within the UTF-8 input.
        byte_offset: usize,
    },
    /// The acknowledged ceiling does not cover the required profile.
    CapabilityNotAcknowledged {
        /// The profile the write requires.
        required: EscapeSurfaceProfile,
        /// Its ordinal.
        required_ord: u8,
        /// The ceiling the signature acknowledges.
        acknowledged: EscapeSurfaceProfile,
        /// Its ordinal.
        acknowledged_ord: u8,
    },
}

/// The operator-facing text of a violation.
pub open spec fn violation_text(v: NamespaceViolation) -> Seq<char> {
    match v {
        NamespaceViolation::WrongPrefix { namespace, expected_prefix } => "stcortex write blocked: namespace '"@
            + namespace@ + "' does not start with '"@ + expected_prefix@
            + "_' — workflow-trace must not write to other services' namespaces (AP30 mitigation)"@,
        NamespaceViolation::Empty => "stcortex write blocked: namespace is empty"@,
        NamespaceViolation::Whitespace { namespace } => "stcortex write blocked: namespace '"@
            + namespace@
            + "' contains whitespace; expected hyphen-slug munge to underscore form (AP-Hab-11 mitigation)"@,
        NamespaceViolation::ScratchForbidden => "stcortex write blocked: 'scratch' namespace forbidden for workflow-trace (use workflow_trace_scratch or a domain prefix)"@,
        NamespaceViolation::ControlChar { codepoint, byte_offset } => "stcortex write blocked: namespace contains non-printable / control character (U+"@
            + hex_padded(codepoint as nat, 4, true) + " at byte offset "@ + dec_digits(
            byte_offset as nat,
        ) + ") — likely encoding contamination or BOM slip"@,
        NamespaceViolation::CapabilityNotAcknowledged {
            required,
            required_ord,
            acknowledged,
            acknowledged_ord,
        } => "stcortex write blocked: EscapeSurfaceProfile "@ + profile_name(required) + " (ord "@
            + dec_digits(required_ord as nat) + ") is not acknowledged by ceiling "@
            + profile_name(acknowledged) + " (ord "@ + dec_digits(acknowledged_ord as nat)
            + ") — m9 namespace guard capability gate (Phase 6e)"@,
    }
}

/// Appends `x` in uppercase hexadecimal, zero-padded to four digits.
fn push_hex4_upper(s: &mut String, x: u32)
    ensures
        final(s)@ == old(s)@ + hex_padded(x as nat, 4, true),
{
    let mut digits = String::new();
    push_hex_digits(&mut digits, x as u64, true);
    let n = digits.as_str().unicode_len();
    if n < 4 {
        let mut k = n;
        assert(crate::text::zeros(0) =~= Seq::<char>::empty());
        while k < 4
            invariant
                n <= k <= 4,
                n == digits@.len(),
                s@ == old(s)@ + crate::text::zeros((k - n) as nat),
            decreases 4 - k,
        {
            crate::text::push_char(s, '0');
            assert(crate::text::zeros((k + 1 - n) as nat) =~= crate::text::zeros(
                (k - n) as nat,
            ).push('0'));
            k = k + 1;
        }
    }
    push_str(s, digits.as_str());
}

impl NamespaceViolation {
    /// The operator-facing message, naming the violated invariant and the
    /// offending input.
    pub fn message(&self) -> (r: String)
        ensures
            r@ == violation_text(*self),
    {
        let mut s = String::new();
        match self {
            NamespaceViolation::WrongPrefix { namespace, expected_prefix } => {
                push_str(&mut s, "stcortex write blocked: namespace '");
                push_str(&mut s, namespace.as_str());
                push_str(&mut s, "' does not start with '");
                push_str(&mut s, expected_prefix);
                push_str(
                    &mut s,
                    "_' — workflow-trace must not write to other services' namespaces (AP30 mitigation)",
                );
            },
            NamespaceViolation::Empty => {
                push_str(&mut s, "stcortex write blocked: namespace is empty");
            },
            NamespaceViolation::Whitespace { namespace } => {
                push_str(&mut s, "stcortex write blocked: namespace '");
                push_str(&mut s, namespace.as_str());
                push_str(
                    &mut s,
                    "' contains whitespace; expected hyphen-slug munge to underscore form (AP-Hab-11 mitigation)",
                );
            },
            NamespaceViolation::ScratchForbidden => {
                push_str(
                    &mut s,
                    "stcortex write blocked: 'scratch' namespace forbidden for workflow-trace (use workflow_trace_scratch or a domain prefix)",
                );
            },
            NamespaceViolation::ControlChar { codepoint, byte_offset } => {
                push_str(
                    &mut s,
                    "stcortex write blocked: namespace contains non-printable / control character (U+",
                );
                push_hex4_upper(&mut s, *codepoint);
                push_str(&mut s, " at byte offset ");
                push_dec_digits(&mut s, *byte_offset as u64);
                push_str(&mut s, ") — likely encoding contamination or BOM slip");
            },
            NamespaceViolation::CapabilityNotAcknowledged {
                required,
                required_ord,
                acknowledged,
                acknowledged_ord,
            } => {
                push_str(&mut s, "stcortex write blocked: EscapeSurfaceProfile ");
                push_str(&mut s, required.name());
                push_str(&mut s, " (ord ");
                push_dec_digits(&mut s, *required_ord as u64);
                push_str(&mut s, ") is not acknowledged by ceiling ");
                push_str(&mut s, acknowledged.name());
                push_str(&mut s, " (ord ");
                push_dec_digits(&mut s, *acknowledged_ord as u64);
                push_str(&mut s, ") — m9 namespace guard capability gate (Phase 6e)");
            },
        }
        s
    }
}

} // verus!
