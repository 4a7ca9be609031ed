//! Pure validator for the workflow-trace stcortex namespace prefix.
//!
//! Check order: empty, whitespace, control character, exact `scratch`,
//! then hyphen munge and the prefix boundary.
use vstd::prelude::*;
use super::error::NamespaceViolation;
use super::evidence::ValidatedNamespace;
use crate::lexical::chars_of;
use crate::m32_dispatcher::{profile_ordinal, AcceptanceSignatureReader, EscapeSurfaceProfile};
use crate::text::{char_code, lemma_encode_char_len, lemma_encode_utf8_concat, push_char, utf8_width_exec};
use vstd::utf8::encode_utf8;

verus! {

/// Single source of truth for the workflow-trace namespace prefix.
pub const WORKFLOW_TRACE_NS_PREFIX: &'static str = "workflow_trace";

/// Unicode `White_Space`, the property `char::is_whitespace` tests.
pub open spec fn is_unicode_whitespace(c: char) -> bool {
    let v = c as int;
    ||| 0x09 <= v <= 0x0D
    ||| v == 0x20
    ||| v == 0x85
    ||| v == 0xA0
    ||| v == 0x1680
    ||| 0x2000 <= v <= 0x200A
    ||| v == 0x2028
    ||| v == 0x2029
    ||| v == 0x202F
    ||| v == 0x205F
    ||| v == 0x3000
}

/// Unicode general category `Cc`, the property `char::is_control` tests.
pub open spec fn is_unicode_control(c: char) -> bool {
    let v = c as int;
    v <= 0x1F || (0x7F <= v <= 0x9F)
}

/// A byte-order mark, or a control character that is not whitespace.
pub open spec fn is_forbidden_char(c: char) -> bool {
    c as int == 0xFEFF || (is_unicode_control(c) && !is_unicode_whitespace(c))
}

pub open spec fn has_whitespace(s: Seq<char>) -> bool {
    exists|i: int| 0 <= i < s.len() && is_unicode_whitespace(#[trigger] s[i])
}

pub open spec fn has_forbidden_char(s: Seq<char>) -> bool {
    exists|i: int| 0 <= i < s.len() && is_forbidden_char(#[trigger] s[i])
}

/// Every hyphen replaced by an underscore.
pub open spec fn munge_spec(s: Seq<char>) -> Seq<char> {
    s.map_values(|c: char| if c == '-' { '_' } else { c })
}

/// Exactly the prefix, or the prefix followed by the `_` separator.
pub open spec fn prefix_boundary_ok(m: Seq<char>) -> bool {
    m == "workflow_trace"@ || (m.len() >= 15 && m.subrange(0, 15) == "workflow_trace_"@)
}

/// The namespaces the guard accepts (before munging).
pub open spec fn namespace_accepted(s: Seq<char>) -> bool {
    &&& s.len() > 0
    &&& !has_whitespace(s)
    &&& !has_forbidden_char(s)
    &&& s != "scratch"@
    &&& prefix_boundary_ok(munge_spec(s))
}

/// A legal munged namespace, as held by [`ValidatedNamespace`].
pub open spec fn is_legal_namespace(m: Seq<char>) -> bool {
    &&& m.len() > 0
    &&& !has_whitespace(m)
    &&& !has_forbidden_char(m)
    &&& !m.contains('-')
    &&& prefix_boundary_ok(m)
}

/// `i` is the position of the first forbidden character of `s`.
pub open spec fn first_forbidden_at(s: Seq<char>, i: int) -> bool {
    &&& 0 <= i < s.len()
    &&& is_forbidden_char(s[i])
    &&& forall|j: int| 0 <= j < i ==> !is_forbidden_char(#[trigger] s[j])
}

fn is_whitespace_char(c: char) -> (r: bool)
    ensures
        r == is_unicode_whitespace(c),
{
    let v = char_code(c);
    (0x09 <= v && v <= 0x0D) || v == 0x20 || v == 0x85 || v == 0xA0 || v == 0x1680 || (0x2000 <= v
        && v <= 0x200A) || v == 0x2028 || v == 0x2029 || v == 0x202F || v == 0x205F || v == 0x3000
}

fn is_forbidden(c: char) -> (r: bool)
    ensures
        r == is_forbidden_char(c),
{
    let v = char_code(c);
    v == 0xFEFF || ((v <= 0x1F || (0x7F <= v && v <= 0x9F)) && !is_whitespace_char(c))
}

fn chars_equal(a: &Vec<char>, b: &Vec<char>) -> (r: bool)
    ensures
        r == (a@ == b@),
{
    if a.len() != b.len() {
        return false;
    }
    let mut i: usize = 0;
    while i < a.len()
        invariant
            a.len() == b.len(),
            i <= a.len(),
            forall|k: int| 0 <= k < i ==> a@[k] == b@[k],
        decreases a.len() - i,
    {
        if a[i] != b[i] {
            return false;
        }
        i = i + 1;
    }
    assert(a@ =~= b@);
    true
}

fn starts_with_chars(a: &Vec<char>, p: &Vec<char>) -> (r: bool)
    ensures
        r == (a@.len() >= p@.len() && a@.subrange(0, p@.len() as int) == p@),
{
    if a.len() < p.len() {
        return false;
    }
    let mut i: usize = 0;
    while i < p.len()
        invariant
            p.len() <= a.len(),
            i <= p.len(),
            forall|k: int| 0 <= k < i ==> a@[k] == p@[k],
        decreases p.len() - i,
    {
        if a[i] != p[i] {
            assert(a@.subrange(0, p@.len() as int)[i as int] != p@[i as int]);
            return false;
        }
        i = i + 1;
    }
    assert(a@.subrange(0, p@.len() as int) =~= p@);
    true
}

/// Convert hyphens to underscores (the stcortex slug convention).
pub fn munge_hyphen_slug(input: &str) -> (r: String)
    ensures
        r@ == munge_spec(input@),
{
    let cs = chars_of(input);
    let mut out = String::new();
    let mut i: usize = 0;
    while i < cs.len()
        invariant
            cs@ == input@,
            i <= cs.len(),
            out@ =~= munge_spec(cs@.take(i as int)),
        decreases cs.len() - i,
    {
        let c = cs[i];
        if c == '-' {
            push_char(&mut out, '_');
        } else {
            push_char(&mut out, c);
        }
        assert(munge_spec(cs@.take(i + 1)) =~= munge_spec(cs@.take(i as int)).push(
            if c == '-' { '_' } else { c },
        ));
        i = i + 1;
    }
    assert(cs@.take(cs.len() as int) =~= cs@);
    out
}

/// Munging is idempotent: a munged namespace contains no hyphen.
pub proof fn lemma_munge_idempotent(s: Seq<char>)
    ensures
        munge_spec(munge_spec(s)) == munge_spec(s),
        !munge_spec(s).contains('-'),
{
    assert(munge_spec(munge_spec(s)) =~= munge_spec(s));
}

/// The munge rewrites hyphens and nothing else: it keeps the length, turns
/// each `-` into `_`, leaves every other character as it was, and so
/// leaves a namespace without hyphens unchanged.
pub proof fn lemma_munge_rewrites_only_hyphens(s: Seq<char>)
    ensures
        munge_spec(s).len() == s.len(),
        forall|i: int|
            0 <= i < s.len() ==> (s[i] == '-' ==> #[trigger] munge_spec(s)[i] == '_') && (s[i] != '-'
                ==> munge_spec(s)[i] == s[i]),
        !s.contains('-') ==> munge_spec(s) == s,
{
    if !s.contains('-') {
        assert forall|i: int| 0 <= i < s.len() implies munge_spec(s)[i] == s[i] by {
            if s[i] == '-' {
                assert(s.contains('-'));
            }
        }
        assert(munge_spec(s) =~= s);
    }
}

/// Validate a workflow-trace namespace and return evidence of it.
pub fn assert_workflow_trace_namespace(namespace: &str) -> (r: Result<
    ValidatedNamespace,
    NamespaceViolation,
>)
    ensures
        r is Ok <==> namespace_accepted(namespace@),
        match r {
            Ok(v) => v@ == munge_spec(namespace@),
            Err(NamespaceViolation::Empty) => namespace@.len() == 0,
            Err(NamespaceViolation::Whitespace { namespace: n }) => {
                &&& namespace@.len() > 0
                &&& has_whitespace(namespace@)
                &&& n@ == namespace@
            },
            Err(NamespaceViolation::ControlChar { codepoint, byte_offset }) => {
                &&& namespace@.len() > 0
                &&& !has_whitespace(namespace@)
                &&& exists|i: int|
                    first_forbidden_at(namespace@, i) && codepoint as int == namespace@[i] as int
                        && byte_offset == encode_utf8(#[trigger] namespace@.take(i)).len()
            },
            Err(NamespaceViolation::ScratchForbidden) => {
                &&& !has_whitespace(namespace@)
                &&& !has_forbidden_char(namespace@)
                &&& namespace@ == "scratch"@
            },
            Err(NamespaceViolation::WrongPrefix { namespace: n, expected_prefix }) => {
                &&& namespace@.len() > 0
                &&& !has_whitespace(namespace@)
                &&& !has_forbidden_char(namespace@)
                &&& namespace@ != "scratch"@
                &&& !prefix_boundary_ok(munge_spec(namespace@))
                &&& n@ == munge_spec(namespace@)
                &&& expected_prefix@ == "workflow_trace"@
            },
            Err(NamespaceViolation::CapabilityNotAcknowledged { .. }) => false,
        },
{
    let cs = chars_of(namespace);
    if cs.len() == 0 {
        return Err(NamespaceViolation::Empty);
    }
    let mut i: usize = 0;
    while i < cs.len()
        invariant
            cs@ == namespace@,
            i <= cs.len(),
            forall|k: int| 0 <= k < i ==> !is_unicode_whitespace(#[trigger] cs@[k]),
        decreases cs.len() - i,
    {
        if is_whitespace_char(cs[i]) {
            return Err(NamespaceViolation::Whitespace { namespace: namespace.to_owned() });
        }
        i = i + 1;
    }
    assert(!has_whitespace(namespace@));
    let total_bytes = namespace.as_bytes().len();
    let mut j: usize = 0;
    let mut offset: usize = 0;
    assert(cs@.take(0) =~= Seq::<char>::empty());
    assert(encode_utf8(Seq::<char>::empty()) =~= Seq::<u8>::empty());
    while j < cs.len()
        invariant
            cs@ == namespace@,
            j <= cs.len(),
            total_bytes == encode_utf8(namespace@).len(),
            namespace@.len() > 0,
            !has_whitespace(namespace@),
            offset == encode_utf8(cs@.take(j as int)).len(),
            forall|k: int| 0 <= k < j ==> !is_forbidden_char(#[trigger] cs@[k]),
        decreases cs.len() - j,
    {
        let c = cs[j];
        if is_forbidden(c) {
            let code = char_code(c);
            assert(first_forbidden_at(namespace@, j as int));
            assert(encode_utf8(namespace@.take(j as int)).len() == offset);
            assert(has_forbidden_char(namespace@)) by {
                assert(is_forbidden_char(namespace@[j as int]));
            }
            return Err(NamespaceViolation::ControlChar { codepoint: code, byte_offset: offset });
        }
        proof {
            assert(cs@.take(j + 1) =~= cs@.take(j as int) + seq![c]);
            lemma_encode_utf8_concat(cs@.take(j as int), seq![c]);
            lemma_encode_char_len(c);
            assert(cs@ =~= cs@.take(j + 1) + cs@.skip(j + 1));
            lemma_encode_utf8_concat(cs@.take(j + 1), cs@.skip(j + 1));
        }
        offset = offset + utf8_width_exec(c);
        j = j + 1;
    }
    assert(!has_forbidden_char(namespace@));
    let scratch = chars_of("scratch");
    if chars_equal(&cs, &scratch) {
        return Err(NamespaceViolation::ScratchForbidden);
    }
    let munged = munge_hyphen_slug(namespace);
    let mc = chars_of(munged.as_str());
    let bare = chars_of("workflow_trace");
    let with_sep = chars_of("workflow_trace_");
    let boundary_ok = chars_equal(&mc, &bare) || starts_with_chars(&mc, &with_sep);
    if !boundary_ok {
        return Err(
            NamespaceViolation::WrongPrefix {
                namespace: munged,
                expected_prefix: WORKFLOW_TRACE_NS_PREFIX,
            },
        );
    }
    proof {
        reveal_strlit("workflow_trace_");
        reveal_strlit("workflow_trace");
        assert(prefix_boundary_ok(munge_spec(namespace@)));
        lemma_munge_idempotent(namespace@);
        assert(!has_whitespace(munge_spec(namespace@))) by {
            if has_whitespace(munge_spec(namespace@)) {
                let k = choose|k: int|
                    0 <= k < munge_spec(namespace@).len() && is_unicode_whitespace(
                        #[trigger] munge_spec(namespace@)[k],
                    );
                assert(!is_unicode_whitespace(cs@[k]));
            }
        }
        assert(!has_forbidden_char(munge_spec(namespace@))) by {
            if has_forbidden_char(munge_spec(namespace@)) {
                let k = choose|k: int|
                    0 <= k < munge_spec(namespace@).len() && is_forbidden_char(
                        #[trigger] munge_spec(namespace@)[k],
                    );
                assert(!is_forbidden_char(cs@[k]));
            }
        }
    }
    Ok(ValidatedNamespace::new(munged))
}

/// Capability table: the minimum acknowledged ceiling for a write at
/// `required`. The ladder is single-axis, so this is the identity.
pub fn required_signature_ceiling(required: EscapeSurfaceProfile) -> (r: EscapeSurfaceProfile)
    ensures
        r == required,
{
    match required {
        EscapeSurfaceProfile::Sandboxed => EscapeSurfaceProfile::Sandboxed,
        EscapeSurfaceProfile::SandboxEscape => EscapeSurfaceProfile::SandboxEscape,
        EscapeSurfaceProfile::ProcessMutate => EscapeSurfaceProfile::ProcessMutate,
        EscapeSurfaceProfile::PrivilegeEscalation => EscapeSurfaceProfile::PrivilegeEscalation,
        EscapeSurfaceProfile::FileWrite => EscapeSurfaceProfile::FileWrite,
        EscapeSurfaceProfile::NetworkEgress => EscapeSurfaceProfile::NetworkEgress,
        EscapeSurfaceProfile::DataExfil => EscapeSurfaceProfile::DataExfil,
    }
}

/// Admit a write at `required` iff the signature's acknowledged ceiling
/// is at or above it on the ladder.
pub fn assert_namespace_capability<R: AcceptanceSignatureReader + ?Sized>(
    required: EscapeSurfaceProfile,
    signature: &R,
) -> (r: Result<(), NamespaceViolation>)
    ensures
        r is Ok <==> profile_ordinal(required) <= profile_ordinal(signature.spec_ceiling()),
        match r {
            Ok(_) => true,
            Err(NamespaceViolation::CapabilityNotAcknowledged {
                required: req,
                required_ord,
                acknowledged,
                acknowledged_ord,
            }) => {
                &&& req == required
                &&& required_ord == profile_ordinal(required)
                &&& acknowledged == signature.spec_ceiling()
                &&& acknowledged_ord == profile_ordinal(signature.spec_ceiling())
            },
            Err(_) => false,
        },
{
    let acknowledged = signature.acknowledged_ceiling();
    if required.is_acknowledged_by_reader(signature) {
        return Ok(());
    }
    Err(
        NamespaceViolation::CapabilityNotAcknowledged {
            required,
            required_ord: required.ordinal(),
            acknowledged,
            acknowledged_ord: acknowledged.ordinal(),
        },
    )
}

/// A validated namespace validates again to itself: the guard's output is
/// a fixed point of the guard.
pub proof fn lemma_validation_round_trip(s: Seq<char>)
    requires
        namespace_accepted(s),
    ensures
        is_legal_namespace(munge_spec(s)),
        namespace_accepted(munge_spec(s)),
        munge_spec(munge_spec(s)) == munge_spec(s),
{
    let m = munge_spec(s);
    lemma_munge_idempotent(s);
    reveal_strlit("scratch");
    reveal_strlit("workflow_trace");
    reveal_strlit("workflow_trace_");
    assert(!has_whitespace(m)) by {
        if has_whitespace(m) {
            let k = choose|k: int| 0 <= k < m.len() && is_unicode_whitespace(#[trigger] m[k]);
            assert(!is_unicode_whitespace(s[k]));
        }
    }
    assert(!has_forbidden_char(m)) by {
        if has_forbidden_char(m) {
            let k = choose|k: int| 0 <= k < m.len() && is_forbidden_char(#[trigger] m[k]);
            assert(!is_forbidden_char(s[k]));
        }
    }
    assert(m != "scratch"@) by {
        if m == "scratch"@ {
            assert(m[0] == 's');
            assert("workflow_trace"@[0] == 'w');
            if m.len() >= 15 {
                assert(m.subrange(0, 15)[0] == 'w');
            }
        }
    }
}

} // verus!
