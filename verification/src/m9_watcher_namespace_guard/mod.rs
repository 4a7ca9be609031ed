//! Application-layer guard for the workflow-trace stcortex namespace:
//! every substrate write must target `workflow_trace` or
//! `workflow_trace_<suffix>`, and must be covered by the operator's
//! acknowledged escape-surface ceiling.
pub mod error;
pub mod evidence;
pub mod validator;

pub use error::NamespaceViolation;
pub use evidence::ValidatedNamespace;
pub use validator::{
    assert_namespace_capability, assert_workflow_trace_namespace, munge_hyphen_slug,
    required_signature_ceiling, WORKFLOW_TRACE_NS_PREFIX,
};
