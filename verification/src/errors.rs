//! The error taxonomy of one refresh invocation.
use vstd::prelude::*;

verus! {

/// Why an invocation, or one of its tasks, failed.
#[derive(Debug, Clone)]
pub enum RefreshError {
    /// A required dependency key is not among the resolved parameters.
    Config(String),
    /// The parameter store has no value under this key.
    NotFound(String),
    /// A connectivity failure while resolving a parameter.
    Transport,
    /// The refresh exchange failed or returned a malformed response.
    Exchange,
    /// A secret write failed or returned a malformed response.
    Write,
    /// A token field named for write-back is absent from the token set.
    MissingField(String),
}

} // verus!
