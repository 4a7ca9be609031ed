//! Pipeline drivers behind the two binaries: command-line parsing, the
//! dispatch security gate, and report rendering.
pub mod crystallise;
pub mod dispatch;

use vstd::prelude::*;

verus! {

/// The mathematical content of a command-line parsing failure.
pub enum ArgErrorView {
    UnknownFlag(Seq<char>),
    MissingValue(Seq<char>),
    BadValue(Seq<char>, Seq<char>),
    UnexpectedPositional(Seq<char>),
}

/// The failure for an argument that is neither a known flag nor a flag
/// value: an unknown flag when it starts with `-`, else a positional.
pub open spec fn stray_argument(a: Seq<char>) -> ArgErrorView {
    if a.len() > 0 && a[0] == '-' {
        ArgErrorView::UnknownFlag(a)
    } else {
        ArgErrorView::UnexpectedPositional(a)
    }
}

} // verus!
