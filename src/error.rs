use vstd::prelude::*;

verus! {

/// The kinds of failure the daemon reports.
#[derive(Clone, Copy, Debug, PartialEq, Eq, Structural)]
pub enum ErrorCodes {
    /// A missing or malformed provider descriptor, or no token directory.
    ConfigError,
    /// The HTTP exchange itself failed.
    TransportError,
    /// The authorization server answered with a well-formed error.
    ProviderError,
    /// No usable token is available.
    NoToken,
    /// A malformed inbound call.
    InvalidParameters,
    /// A persisted token file could not be decoded.
    SerializationError,
}

/// An error with its kind and a human readable explanation.
#[derive(Clone, Debug)]
pub struct OAuth2Error {
    pub error_code: ErrorCodes,
    pub message: String,
}

impl OAuth2Error {
    pub fn new(error_code: ErrorCodes, message: String) -> (r: Self)
        ensures
            r.error_code == error_code,
            r.message@ == message@,
    {
        OAuth2Error { error_code, message }
    }
}

pub type OAuth2Result<T> = Result<T, OAuth2Error>;

} // verus!
