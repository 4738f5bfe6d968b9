//! The error taxonomy of the stream. Every error is terminal: once a stream
//! has reported one, it yields no further messages.

use vstd::prelude::*;

verus! {

/// An error raised while connecting to or listening on a stream.
#[derive(Clone, Debug)]
pub enum Error {
    /// The server answered with a status other than 200; the body is not read.
    Http(u16),
    /// No response, or no body bytes, arrived within the configured duration.
    TimedOut,
    /// A non-heartbeat line of the body is not well-formed UTF-8.
    Utf8,
    /// The transport failed to establish or keep the connection.
    Connect(String),
    /// An upstream failure wrapped as a message, e.g. a corrupt gzip body.
    Custom(String),
}

impl Error {
    /// Wraps an arbitrary upstream failure message.
    pub fn custom(message: String) -> (r: Error)
        ensures
            r == Error::Custom(message),
    {
        Error::Custom(message)
    }

    /// A short human-readable description of the error.
    pub fn message(&self) -> (r: String)
        ensures
            self is Connect ==> r == self->Connect_0,
            self is Custom ==> r == self->Custom_0,
            self is Http ==> r@ == "HTTP status error"@,
            self is TimedOut ==> r@ == "timed out"@,
            self is Utf8 ==> r@ == "invalid UTF-8"@,
    {
        match self {
            Error::Http(_) => String::from_str("HTTP status error"),
            Error::TimedOut => String::from_str("timed out"),
            Error::Utf8 => String::from_str("invalid UTF-8"),
            Error::Connect(s) => s.clone(),
            Error::Custom(s) => s.clone(),
        }
    }
}

} // verus!
