//! The ways in which a request descriptor can fail to become a native request.

use vstd::prelude::*;

verus! {

/// Why a request descriptor could not be translated.
#[derive(Debug)]
pub enum RequestError {
    /// The method is none of the supported ones. Holds the method as the
    /// descriptor gave it.
    RequestMethodParseError(String),
    /// The native layer refused the target, a header name or a header value.
    /// Holds what the native layer said.
    RequestBodyParseError(axum::http::Error),
}

impl RequestError {
    /// The message of the error. It names the kind of failure and nothing of
    /// what the error holds.
    pub open spec fn message(&self) -> Seq<char> {
        match self {
            RequestError::RequestMethodParseError(_) => "Could not parse method from LocalRequest"@,
            RequestError::RequestBodyParseError(_) => "Could not parse body from LocalRequest"@,
        }
    }

    /// The message of the error as a string.
    pub fn to_string(&self) -> (text: String)
        ensures
            text@ == self.message(),
    {
        match self {
            RequestError::RequestMethodParseError(_) => String::from_str(
                "Could not parse method from LocalRequest",
            ),
            RequestError::RequestBodyParseError(_) => String::from_str(
                "Could not parse body from LocalRequest",
            ),
        }
    }
}

impl From<axum::http::Error> for RequestError {
    /// A refusal of the native layer is a failure to build the request.
    fn from(error: axum::http::Error) -> (made: RequestError) {
        RequestError::RequestBodyParseError(error)
    }
}

impl vstd::std_specs::convert::FromSpecImpl<axum::http::Error> for RequestError {
    open spec fn obeys_from_spec() -> bool {
        true
    }

    open spec fn from_spec(error: axum::http::Error) -> RequestError {
        RequestError::RequestBodyParseError(error)
    }
}

} // verus!
