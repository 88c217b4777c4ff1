//! Error type shared by the grammar parser, the label sub-parsers and the
//! FSM builder.

use vstd::prelude::*;

verus! {

/// The error type of this library.
///
/// `Parse` covers both grammar-level failures (malformed diagram structure,
/// unparsable transition label) and semantic build failures (no unique root
/// enter state, non-injective action mapping, conflicting transitions,
/// empty FSM name); the message describes the violation. `InvalidInput` and
/// `InvalidFile` are reserved for callers that feed the library from an
/// argument surface or from a file.
#[derive(Debug, Clone, PartialEq, Eq)]
pub enum Error {
    InvalidInput(String),
    InvalidFile(String, String),
    Parse(String),
}

} // verus!
