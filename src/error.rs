use http::Error as HttpFailure;
use crate::parsing::HeadFault;
use vstd::prelude::*;

verus! {

#[verifier::external_type_specification]
#[verifier::external_body]
pub struct ExIoError(std::io::Error);

#[verifier::external_type_specification]
#[verifier::external_body]
pub struct ExHttpError(HttpFailure);

#[verifier::external_type_specification]
#[verifier::external_body]
pub struct ExInvalidUri(http::uri::InvalidUri);

/// Various errors that may happen while handling requests.
#[derive(Debug)]
pub enum Error {
    /// An error while doing I/O.
    Io(std::io::Error),
    /// An HTTP error.
    Http(http::Error),
    /// An error while parsing the HTTP request.
    HttpParse(HeadFault),
    /// An error while parsing the URI of the request.
    InvalidUri(http::uri::InvalidUri),
    /// The request timed out.
    Timeout,
    /// The request head was not complete.
    RequestIncomplete,
    /// The request's size (headers + body) exceeded the application's limit.
    RequestTooLarge,
    /// The connection was closed while reading the request.
    ConnectionClosed,
}

impl From<std::io::Error> for Error {
    fn from(err: std::io::Error) -> Error {
        Error::Io(err)
    }
}

impl vstd::std_specs::convert::FromSpecImpl<std::io::Error> for Error {
    open spec fn obeys_from_spec() -> bool {
        true
    }

    open spec fn from_spec(err: std::io::Error) -> Error {
        Error::Io(err)
    }
}

impl From<http::Error> for Error {
    fn from(err: http::Error) -> Error {
        Error::Http(err)
    }
}

impl vstd::std_specs::convert::FromSpecImpl<http::Error> for Error {
    open spec fn obeys_from_spec() -> bool {
        true
    }

    open spec fn from_spec(err: http::Error) -> Error {
        Error::Http(err)
    }
}

impl From<http::uri::InvalidUri> for Error {
    fn from(err: http::uri::InvalidUri) -> Error {
        Error::InvalidUri(err)
    }
}

impl vstd::std_specs::convert::FromSpecImpl<http::uri::InvalidUri> for Error {
    open spec fn obeys_from_spec() -> bool {
        true
    }

    open spec fn from_spec(err: http::uri::InvalidUri) -> Error {
        Error::InvalidUri(err)
    }
}

} // verus!
