//! The failures a request can end in, and how each is shown to a client.

use vstd::prelude::*;
use vstd::string::*;

verus! {

/// Why a request failed. Each variant carries a short message for the log
/// and the response body.
#[derive(Clone, Debug, PartialEq, Eq)]
pub enum Error {
    /// No credential could be issued for the origin.
    AuthError(String),
    /// There is no record for the key, or the origin no longer holds the
    /// stored object.
    NotFoundError(String),
    /// The origin or the metadata store answered a blocking call with a
    /// failure.
    UpstreamError(String),
    /// The payload is no image of a recognised format, or it is corrupt.
    DecodeError(String),
    /// The stored state contradicts itself, or the host broke the protocol.
    InternalError(String),
}

/// The part of the service in which a failure came up.
#[derive(Clone, Copy, Debug, PartialEq, Eq, Structural)]
pub enum Stage {
    /// Taking in an uploaded file.
    Ingest,
    /// Serving a stored or derived image.
    Delivery,
}

impl Error {
    /// The message the error carries.
    pub open spec fn text(self) -> Seq<char> {
        match self {
            Error::AuthError(m) => m@,
            Error::NotFoundError(m) => m@,
            Error::UpstreamError(m) => m@,
            Error::DecodeError(m) => m@,
            Error::InternalError(m) => m@,
        }
    }

    /// The HTTP status under which a failure of this kind is reported: 403
    /// for a refused credential, 404 for a missing image, 400 for a file that
    /// cannot be decoded on the way in, and 500 for everything else.
    pub open spec fn spec_status_code(self, stage: Stage) -> u16 {
        match self {
            Error::AuthError(_) => 403,
            Error::NotFoundError(_) => 404,
            Error::DecodeError(_) => if stage == Stage::Ingest { 400 } else { 500 },
            Error::UpstreamError(_) => 500,
            Error::InternalError(_) => 500,
        }
    }

    /// The message the error carries.
    pub fn message(&self) -> (m: String)
        ensures
            m@ == self.text(),
    {
        match self {
            Error::AuthError(m) => m.clone(),
            Error::NotFoundError(m) => m.clone(),
            Error::UpstreamError(m) => m.clone(),
            Error::DecodeError(m) => m.clone(),
            Error::InternalError(m) => m.clone(),
        }
    }

    /// The HTTP status under which the failure is reported.
    pub fn status_code(&self, stage: Stage) -> (code: u16)
        ensures
            code == self.spec_status_code(stage),
    {
        match self {
            Error::AuthError(_) => 403,
            Error::NotFoundError(_) => 404,
            Error::DecodeError(_) => match stage {
                Stage::Ingest => 400,
                Stage::Delivery => 500,
            },
            Error::UpstreamError(_) => 500,
            Error::InternalError(_) => 500,
        }
    }

    /// An `AuthError` with the given message.
    pub fn auth(message: &str) -> (e: Error)
        ensures
            e is AuthError,
            e.text() == message@,
    {
        Error::AuthError(String::from_str(message))
    }

    /// A `NotFoundError` with the given message.
    pub fn not_found(message: &str) -> (e: Error)
        ensures
            e is NotFoundError,
            e.text() == message@,
    {
        Error::NotFoundError(String::from_str(message))
    }

    /// An `UpstreamError` with the given message.
    pub fn upstream(message: &str) -> (e: Error)
        ensures
            e is UpstreamError,
            e.text() == message@,
    {
        Error::UpstreamError(String::from_str(message))
    }

    /// A `DecodeError` with the given message.
    pub fn decode(message: &str) -> (e: Error)
        ensures
            e is DecodeError,
            e.text() == message@,
    {
        Error::DecodeError(String::from_str(message))
    }

    /// An `InternalError` with the given message.
    pub fn internal(message: &str) -> (e: Error)
        ensures
            e is InternalError,
            e.text() == message@,
    {
        Error::InternalError(String::from_str(message))
    }
}

} // verus!
