//! Error

use vstd::prelude::*;
use vstd::string::StringExecFns;

verus! {

/// `url::ParseError`, the reason for which a text is no URL. Nothing is
/// seen of its inside: it is carried from the parser into [`Error::Url`].
#[verifier::external_type_specification]
#[verifier::external_body]
pub struct ExUrlParseError(url::ParseError);

/// Braiins Pool API error
///
/// The enumeration is flat: one variant for each way in which a single
/// operation can end without a result, so that a caller can branch on the
/// kind of failure without looking at any text.
#[derive(Debug, PartialEq, Eq)]
pub enum Error {
    /// The body is not a JSON document of the expected shape
    FailedToDeserialize(String),
    /// The API key cannot be sent as the value of an HTTP header
    InvalidHeaderValue,
    /// The API key is empty
    EmptyApiKey,
    /// The address of the proxy does not make a URL
    Url(url::ParseError),
    /// Success status with an empty body
    EmptyResponse,
    /// Status 400
    BadRequest,
    /// Status 401
    Unauthorized,
    /// Status 403
    Forbidden,
    /// Status 404
    NotFound,
    /// Status 405
    MethodNotAllowed,
    /// Status 429
    TooManyRequests,
    /// Any other status from 400 to 499
    UnhandledClientError,
    /// Status 500
    InternalServerError,
    /// Status 501
    NotImplemented,
    /// Status 502
    BadGateway,
    /// Status 503
    ServiceUnavailable,
    /// Status 504
    GatewayTimeout,
    /// Any status from 505 on
    UnhandledServerError,
    /// Success status, but the body says that the access token is invalid
    InvalidApiKey,
}

impl Error {
    /// The server refused the request: a status from 400 to 499.
    pub open spec fn is_client_error(self) -> bool {
        ||| self == Error::BadRequest
        ||| self == Error::Unauthorized
        ||| self == Error::Forbidden
        ||| self == Error::NotFound
        ||| self == Error::MethodNotAllowed
        ||| self == Error::TooManyRequests
        ||| self == Error::UnhandledClientError
    }

    /// The server failed: a status from 500 on.
    pub open spec fn is_server_error(self) -> bool {
        ||| self == Error::InternalServerError
        ||| self == Error::NotImplemented
        ||| self == Error::BadGateway
        ||| self == Error::ServiceUnavailable
        ||| self == Error::GatewayTimeout
        ||| self == Error::UnhandledServerError
    }

    /// The fixed part of the message of each kind of error.
    pub open spec fn spec_label(self) -> Seq<char> {
        match self {
            Error::FailedToDeserialize(_) => "Failed to deserialize: "@,
            Error::InvalidHeaderValue => "Invalid header value"@,
            Error::EmptyApiKey => "Empty API Key"@,
            Error::Url(_) => "Invalid proxy address"@,
            Error::EmptyResponse => "Empty Response"@,
            Error::BadRequest => "Bad Request"@,
            Error::Unauthorized => "Unauthorized"@,
            Error::Forbidden => "Forbidden"@,
            Error::NotFound => "Not Found"@,
            Error::MethodNotAllowed => "Method Not Allowed"@,
            Error::TooManyRequests => "Too Many Requests"@,
            Error::UnhandledClientError => "Unhandled Client Error"@,
            Error::InternalServerError => "Internal Server Error"@,
            Error::NotImplemented => "Not Implemented"@,
            Error::BadGateway => "Bad Gateway"@,
            Error::ServiceUnavailable => "Service Unavailable"@,
            Error::GatewayTimeout => "Gateway Timeout"@,
            Error::UnhandledServerError => "Unhandled Server Error"@,
            Error::InvalidApiKey => "Invalid API Key"@,
        }
    }

    /// The message of an error: its label, followed for a decoding failure
    /// by the reason.
    pub open spec fn spec_message(self) -> Seq<char> {
        match self {
            Error::FailedToDeserialize(reason) => self.spec_label() + reason@,
            _ => self.spec_label(),
        }
    }

    /// The fixed part of the message.
    pub fn label(&self) -> (r: &'static str)
        ensures
            r@ == self.spec_label(),
    {
        match self {
            Error::FailedToDeserialize(_) => "Failed to deserialize: ",
            Error::InvalidHeaderValue => "Invalid header value",
            Error::EmptyApiKey => "Empty API Key",
            Error::Url(_) => "Invalid proxy address",
            Error::EmptyResponse => "Empty Response",
            Error::BadRequest => "Bad Request",
            Error::Unauthorized => "Unauthorized",
            Error::Forbidden => "Forbidden",
            Error::NotFound => "Not Found",
            Error::MethodNotAllowed => "Method Not Allowed",
            Error::TooManyRequests => "Too Many Requests",
            Error::UnhandledClientError => "Unhandled Client Error",
            Error::InternalServerError => "Internal Server Error",
            Error::NotImplemented => "Not Implemented",
            Error::BadGateway => "Bad Gateway",
            Error::ServiceUnavailable => "Service Unavailable",
            Error::GatewayTimeout => "Gateway Timeout",
            Error::UnhandledServerError => "Unhandled Server Error",
            Error::InvalidApiKey => "Invalid API Key",
        }
    }

    /// A message for people. It never holds the API key.
    pub fn message(&self) -> (r: String)
        ensures
            r@ == self.spec_message(),
    {
        let label = String::from_str(self.label());
        match self {
            Error::FailedToDeserialize(reason) => label.concat(reason.as_str()),
            _ => label,
        }
    }
}

} // verus!
