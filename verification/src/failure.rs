//! The ways in which the execution of a request fails.

use vstd::prelude::*;

verus! {

#[verifier::external_type_specification]
#[verifier::external_body]
pub struct ExHyperError(hyper::Error);

/// The answer of a server that reported a status outside 200 to 299.
#[derive(Debug)]
pub struct ApiError {
    /// The status code.
    pub code: u16,
    /// The body of the response as it was received.
    pub body: Vec<u8>,
    /// The body as a JSON document, where it is one.
    pub content: Option<serde_json::Value>,
}

/// Why the execution of a request failed.
#[derive(Debug)]
pub enum Failure {
    /// The assembled target is not a URI.
    UriError(hyper::http::uri::InvalidUri),
    /// The transport failed to send the request or to receive the response.
    TransportError(hyper::Error),
    /// A body could not be encoded or decoded.
    SerializationError(serde_json::Error),
    /// The server answered with a status outside 200 to 299.
    ApiError(ApiError),
}

/// The four kinds of failure.
#[derive(Clone, Copy, Debug, PartialEq, Eq, Structural)]
pub enum FailureKind {
    Uri,
    Transport,
    Serialization,
    Api,
}

impl Failure {
    /// The kind of this failure.
    pub open spec fn kind_of(self) -> FailureKind {
        match self {
            Failure::UriError(_) => FailureKind::Uri,
            Failure::TransportError(_) => FailureKind::Transport,
            Failure::SerializationError(_) => FailureKind::Serialization,
            Failure::ApiError(_) => FailureKind::Api,
        }
    }

    /// The kind of this failure.
    pub fn kind(&self) -> (k: FailureKind)
        ensures
            k == self.kind_of(),
    {
        match self {
            Failure::UriError(_) => FailureKind::Uri,
            Failure::TransportError(_) => FailureKind::Transport,
            Failure::SerializationError(_) => FailureKind::Serialization,
            Failure::ApiError(_) => FailureKind::Api,
        }
    }
}

} // verus!
