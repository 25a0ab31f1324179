//! The error taxonomy shared by every component of the subsystem.

use vstd::prelude::*;

verus! {

/// Every failure the subsystem can report, each carrying a context message.
#[derive(Debug)]
pub enum Error {
    /// Invalid configuration detected at construction time.
    InitializationError(String),
    /// Network or backing-store failure.
    ConnectionError(String),
    /// Malformed response from the provider or malformed stored record.
    SerializationError(String),
    /// Provider-reported authentication failure or a failed authorization gate.
    PermissionDenied(String),
    /// A looked-up entity (a session token) is absent or expired.
    NotFound(String),
    /// A caller-supplied value was rejected before any work was done.
    InvalidInput(String),
}

/// The mathematical value of an [`Error`]: the same six kinds with the
/// message abstracted to a character sequence.
pub enum ErrorV {
    InitializationError(Seq<char>),
    ConnectionError(Seq<char>),
    SerializationError(Seq<char>),
    PermissionDenied(Seq<char>),
    NotFound(Seq<char>),
    InvalidInput(Seq<char>),
}

impl View for Error {
    type V = ErrorV;

    open spec fn view(&self) -> ErrorV {
        match self {
            Error::InitializationError(m) => ErrorV::InitializationError(m@),
            Error::ConnectionError(m) => ErrorV::ConnectionError(m@),
            Error::SerializationError(m) => ErrorV::SerializationError(m@),
            Error::PermissionDenied(m) => ErrorV::PermissionDenied(m@),
            Error::NotFound(m) => ErrorV::NotFound(m@),
            Error::InvalidInput(m) => ErrorV::InvalidInput(m@),
        }
    }
}

impl ErrorV {
    /// The human-readable rendering of the error, kind prefix included.
    pub open spec fn message_spec(self) -> Seq<char> {
        match self {
            ErrorV::InitializationError(m) => "initialization error: "@ + m,
            ErrorV::ConnectionError(m) => "connection error: "@ + m,
            ErrorV::SerializationError(m) => "serialization error: "@ + m,
            ErrorV::PermissionDenied(m) => "permission denied: "@ + m,
            ErrorV::NotFound(m) => m + " not found"@,
            ErrorV::InvalidInput(m) => "invalid input: "@ + m,
        }
    }
}

impl Error {

    /// The HTTP status code an adapter should map the error to.
    pub open spec fn status_spec(self) -> u16 {
        match self {
            Error::InitializationError(_) => 500,
            Error::ConnectionError(_) => 500,
            Error::SerializationError(_) => 400,
            Error::PermissionDenied(_) => 403,
            Error::NotFound(_) => 404,
            Error::InvalidInput(_) => 400,
        }
    }

    /// Renders the error as a message string, kind prefix included.
    pub fn message(&self) -> (r: String)
        ensures
            r@ == self@.message_spec(),
    {
        match self {
            Error::InitializationError(m) => "initialization error: ".to_owned().concat(m.as_str()),
            Error::ConnectionError(m) => "connection error: ".to_owned().concat(m.as_str()),
            Error::SerializationError(m) => "serialization error: ".to_owned().concat(m.as_str()),
            Error::PermissionDenied(m) => "permission denied: ".to_owned().concat(m.as_str()),
            Error::NotFound(m) => m.as_str().to_owned().concat(" not found"),
            Error::InvalidInput(m) => "invalid input: ".to_owned().concat(m.as_str()),
        }
    }

    /// The HTTP status code an adapter should answer with for this error.
    pub fn http_status(&self) -> (r: u16)
        ensures
            r == self.status_spec(),
    {
        match self {
            Error::InitializationError(_) => 500,
            Error::ConnectionError(_) => 500,
            Error::SerializationError(_) => 400,
            Error::PermissionDenied(_) => 403,
            Error::NotFound(_) => 404,
            Error::InvalidInput(_) => 400,
        }
    }
}

} // verus!
