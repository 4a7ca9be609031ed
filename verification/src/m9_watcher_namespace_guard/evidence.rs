//! Newtype evidence that a namespace string has been validated.
use vstd::prelude::*;
use super::validator::is_legal_namespace;

verus! {

/// Proof that a namespace is non-empty, free of whitespace and control
/// characters, and is `workflow_trace` or `workflow_trace_<suffix>` after
/// hyphens were munged to underscores. Constructed only by
/// [`super::validator::assert_workflow_trace_namespace`].
#[derive(Debug, PartialEq, Eq, Hash)]
pub struct ValidatedNamespace(pub(super) String);

impl ValidatedNamespace {
    #[verifier::type_invariant]
    pub(super) open spec fn inv(self) -> bool {
        is_legal_namespace(self.0@)
    }

    /// Wrap a string already known to be a legal munged namespace.
    pub(super) fn new(s: String) -> (r: Self)
        requires
            is_legal_namespace(s@),
        ensures
            r@ == s@,
    {
        ValidatedNamespace(s)
    }

    /// Borrow the munged namespace.
    pub fn as_str(&self) -> (r: &str)
        ensures
            r@ == self@,
            is_legal_namespace(r@),
    {
        proof {
            use_type_invariant(self);
        }
        self.0.as_str()
    }

    /// Consume the evidence and return the owned munged string.
    pub fn into_inner(self) -> (r: String)
        ensures
            r@ == self@,
            is_legal_namespace(r@),
    {
        proof {
            use_type_invariant(&self);
        }
        self.0
    }
}

impl Clone for ValidatedNamespace {
    fn clone(&self) -> (r: Self)
        ensures
            r@ == self@,
    {
        proof {
            use_type_invariant(self);
        }
        ValidatedNamespace(self.0.clone())
    }
}

impl AsRef<str> for ValidatedNamespace {
    /// Borrow the munged namespace, as `as_str` does.
    fn as_ref(&self) -> (r: &str)
        ensures
            r@ == self@,
            is_legal_namespace(r@),
    {
        proof {
            use_type_invariant(self);
        }
        self.0.as_str()
    }
}

impl View for ValidatedNamespace {
    type V = Seq<char>;

    closed spec fn view(&self) -> Seq<char> {
        self.0@
    }
}

} // verus!
