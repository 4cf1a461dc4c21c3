//! The library's error values, one variant per failure kind the
//! components surface to their callers.
use vstd::prelude::*;

verus! {

/// What a library operation can fail with.
#[derive(Debug)]
pub enum HollywoodError {
    /// A response arrived carrying an error string instead of a
    /// body: the far handler failed, and this is its reason.
    ResponseError { id: String, message: String },
    /// A response arrived with neither a body nor an error.
    EmptyResponse,
    /// An envelope other than a response arrived on a request
    /// inbox.
    UnexpectedVariant,
    /// A frame did not decode as an envelope.
    MalformedEnvelope,
    /// The target actor does not declare the message kind this
    /// mailbox was asked to bind.
    UnsupportedMessage { actor: String, message: String },
    /// The message kind handed to a bound mailbox does not match
    /// its binding.
    InvalidMessageType { expected_name: String, expected_version: String },
}

} // verus!
