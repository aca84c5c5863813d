//! Errors of the remote service's client.

use vstd::prelude::*;

verus! {

/// A JSON document of serde_json, carried opaquely with an API error.
#[verifier::external_type_specification]
#[verifier::external_body]
pub struct ExJsonDocument(serde_json::Value);

/// Authentication failed (an invalid or missing API key).
#[derive(Debug)]
pub struct AuthError {
    pub message: String,
}

/// The service answered with an error.
#[derive(Debug)]
pub struct ApiError {
    pub message: String,
    pub status_code: Option<u16>,
    pub response_data: Option<serde_json::Value>,
}

/// Any failure of a request.
#[derive(Debug)]
pub enum Error {
    Auth(AuthError),
    Api(ApiError),
    Other(String),
}

/// The text of an error.
pub open spec fn error_text(e: Error) -> Seq<char> {
    match e {
        Error::Auth(a) => "Authentication failed: "@ + a.message@,
        Error::Api(a) => "API error: "@ + a.message@,
        Error::Other(m) => m@,
    }
}

impl AuthError {
    /// The message.
    pub fn to_string(&self) -> (r: String)
        ensures
            r@ == self.message@,
    {
        self.message.clone()
    }
}

impl ApiError {
    /// An API error with its message, HTTP status and response body.
    pub fn new(message: &str, status_code: Option<u16>, response_data: Option<serde_json::Value>) -> (r: ApiError)
        ensures
            r.message@ == message@,
            r.status_code == status_code,
            r.response_data == response_data,
    {
        ApiError { message: message.to_owned(), status_code, response_data }
    }

    /// The message.
    pub fn to_string(&self) -> (r: String)
        ensures
            r@ == self.message@,
    {
        self.message.clone()
    }
}

impl Error {
    /// The text of the error, with the kind of failure in front.
    pub fn to_string(&self) -> (r: String)
        ensures
            r@ == error_text(*self),
    {
        match self {
            Error::Auth(a) => {
                let mut s = String::from_str("Authentication failed: ");
                s.append(a.message.as_str());
                s
            },
            Error::Api(a) => {
                let mut s = String::from_str("API error: ");
                s.append(a.message.as_str());
                s
            },
            Error::Other(m) => m.clone(),
        }
    }
}

impl From<AuthError> for Error {
    fn from(e: AuthError) -> (r: Error) {
        Error::Auth(e)
    }
}

impl vstd::std_specs::convert::FromSpecImpl<AuthError> for Error {
    open spec fn obeys_from_spec() -> bool {
        true
    }

    open spec fn from_spec(e: AuthError) -> Error {
        Error::Auth(e)
    }
}

impl From<ApiError> for Error {
    fn from(e: ApiError) -> (r: Error) {
        Error::Api(e)
    }
}

impl vstd::std_specs::convert::FromSpecImpl<ApiError> for Error {
    open spec fn obeys_from_spec() -> bool {
        true
    }

    open spec fn from_spec(e: ApiError) -> Error {
        Error::Api(e)
    }
}

} // verus!
