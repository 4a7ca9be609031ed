//! Failure modes of the cascade correlator.
use vstd::prelude::*;
use crate::display::sqlite_error_text;
use crate::text::push_str;

verus! {

/// Failure modes for the cascade correlator.
#[derive(Debug)]
pub enum CascadeError {
    /// The atuin schema probe found timestamps of an unexpected unit.
    AtuinSchemaDrift(String),
    /// SQLite error reading atuin.
    AtuinIo(rusqlite::Error),
    /// Empty input passed where at least one row is needed.
    EmptyInput,
}

impl CascadeError {
    /// The human-readable message. A schema drift names what was found;
    /// an atuin failure is `atuin io: ` followed by SQLite's own text.
    pub fn message(&self) -> (s: String)
        ensures
            *self matches CascadeError::AtuinSchemaDrift(r) ==> s@
                == "atuin schema drift: expected ns timestamps, got "@ + r@,
            *self is AtuinIo ==> s@.len() >= 10 && s@.subrange(0, 10) == "atuin io: "@,
            *self is EmptyInput ==> s@ == "empty input for cluster id derivation"@,
    {
        match self {
            CascadeError::AtuinSchemaDrift(r) => {
                let mut s = String::from_str("atuin schema drift: expected ns timestamps, got ");
                push_str(&mut s, r.as_str());
                s
            },
            CascadeError::AtuinIo(e) => {
                let mut s = String::from_str("atuin io: ");
                let ghost head = s@;
                let inner = sqlite_error_text(e);
                push_str(&mut s, inner.as_str());
                proof {
                    reveal_strlit("atuin io: ");
                    assert(s@.subrange(0, head.len() as int) =~= head);
                }
                s
            },
            CascadeError::EmptyInput => String::from_str("empty input for cluster id derivation"),
        }
    }
}

impl From<rusqlite::Error> for CascadeError {
    /// A SQLite failure reading atuin.
    fn from(e: rusqlite::Error) -> (r: Self) {
        CascadeError::AtuinIo(e)
    }
}

impl vstd::std_specs::convert::FromSpecImpl<rusqlite::Error> for CascadeError {
    open spec fn obeys_from_spec() -> bool {
        true
    }

    open spec fn from_spec(e: rusqlite::Error) -> Self {
        CascadeError::AtuinIo(e)
    }
}

} // verus!
