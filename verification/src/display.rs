//! The `Display` texts of outside error types, read through their crates.
use vstd::prelude::*;

verus! {

/// The `Display` text of a `regex::Error`; what it holds is not stated.
#[verifier::external_body]
pub(crate) fn regex_error_text(e: &regex::Error) -> String {
    e.to_string()
}

/// The `Display` text of a `rusqlite::Error`; what it holds is not stated.
#[verifier::external_body]
pub(crate) fn sqlite_error_text(e: &rusqlite::Error) -> String {
    e.to_string()
}

} // verus!
