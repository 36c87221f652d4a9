//! The ways a proxied request can fail.

use vstd::prelude::*;

verus! {

/// Why a request was not proxied.
#[derive(Clone, Copy, Debug, PartialEq, Eq, Structural)]
pub enum ProxyError {
    /// The query string is not ASCII, as no HTTP request target is.
    InvalidQuery,
    /// The request names no upstream host.
    MissingHost,
    /// The upstream host is not a dot-separated host name.
    InvalidHost,
    /// The upstream host's registrable domain is not on the allow-list.
    DomainNotAllowed,
    /// The request method is neither GET, HEAD nor OPTIONS.
    MethodNotAllowed,
    /// The upstream host could not be reached.
    Upstream,
}

/// The HTTP status that reports each failure to the client.
pub open spec fn error_status(e: ProxyError) -> u16 {
    match e {
        ProxyError::InvalidQuery => 400,
        ProxyError::MissingHost => 400,
        ProxyError::InvalidHost => 400,
        ProxyError::DomainNotAllowed => 400,
        ProxyError::MethodNotAllowed => 405,
        ProxyError::Upstream => 502,
    }
}

impl ProxyError {
    /// The HTTP status that reports this failure to the client.
    pub fn status_code(&self) -> (r: u16)
        ensures
            r == error_status(*self),
    {
        match self {
            ProxyError::InvalidQuery => 400,
            ProxyError::MissingHost => 400,
            ProxyError::InvalidHost => 400,
            ProxyError::DomainNotAllowed => 400,
            ProxyError::MethodNotAllowed => 405,
            ProxyError::Upstream => 502,
        }
    }

    /// A short description of the failure.
    pub fn message(&self) -> &'static str {
        match self {
            ProxyError::InvalidQuery => "Invalid query string",
            ProxyError::MissingHost => "No host provided",
            ProxyError::InvalidHost => "Invalid host provided",
            ProxyError::DomainNotAllowed => "Domain not allowed",
            ProxyError::MethodNotAllowed => "Method not allowed",
            ProxyError::Upstream => "Upstream unreachable",
        }
    }
}

} // verus!
