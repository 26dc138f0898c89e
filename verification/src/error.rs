//! Errors of the HTTP client side, and their messages.
use vstd::prelude::*;

use crate::read_stream_ext::ReadError;
use crate::text::string_from_chars;

verus! {

/// Errors that can occur during HTTP operations.
#[derive(Debug, Clone, Copy, PartialEq, Eq)]
pub enum Error {
    /// The provided URL was invalid or malformed
    InvalidUrl,
    /// Name resolution returned no IP address
    IpAddressEmpty,
    /// TCP read/write error
    SocketError,
    /// Read buffer overflowed
    ReadBufferOverflow,
    /// No response was received from the server
    ServerError,
    /// The response/request could not be parsed
    InvalidData(&'static str),
    /// Scheme not supported
    UnsupportedScheme(&'static str),
    /// Header error, e.g. too long name or value
    HeaderError(&'static str),
    /// Invalid status code received from the server
    InvalidStatusCode,
}

/// Appends the characters of `s` to `v`.
fn push_str_chars(v: &mut Vec<char>, s: &str)
    ensures
        final(v)@ == old(v)@ + s@,
{
    let ghost v0 = v@;
    for c in it: s.chars()
        invariant
            it.seq() == s@,
            v@ == v0 + it.seq().take(it.index() as int),
        ensures
            v@ == v0 + s@,
    {
        v.push(c);
        assert(v@ =~= v0 + it.seq().take(it.index() + 1));
    }
}

/// The text describing each error.
pub open spec fn message_text(e: Error) -> Seq<char> {
    match e {
        Error::InvalidUrl => "Invalid URL"@,
        Error::IpAddressEmpty => "No IP addresses returned by DNS"@,
        Error::SocketError => "TCP communication error"@,
        Error::ReadBufferOverflow => "Read buffer overflowed"@,
        Error::ServerError => "No response received from server"@,
        Error::InvalidData(msg) => "Invalid response: "@ + msg@,
        Error::UnsupportedScheme(scheme) => "Unsupported scheme: "@ + scheme@,
        Error::HeaderError(msg) => "Header error: "@ + msg@,
        Error::InvalidStatusCode => "Invalid status code"@,
    }
}

impl Error {
    /// The text describing the error.
    pub fn message(&self) -> (r: String)
        ensures
            r@ == message_text(*self),
    {
        let mut v: Vec<char> = Vec::new();
        match self {
            Error::InvalidUrl => push_str_chars(&mut v, "Invalid URL"),
            Error::IpAddressEmpty => push_str_chars(&mut v, "No IP addresses returned by DNS"),
            Error::SocketError => push_str_chars(&mut v, "TCP communication error"),
            Error::ReadBufferOverflow => push_str_chars(&mut v, "Read buffer overflowed"),
            Error::ServerError => push_str_chars(&mut v, "No response received from server"),
            Error::InvalidData(msg) => {
                push_str_chars(&mut v, "Invalid response: ");
                push_str_chars(&mut v, msg);
            },
            Error::UnsupportedScheme(scheme) => {
                push_str_chars(&mut v, "Unsupported scheme: ");
                push_str_chars(&mut v, scheme);
            },
            Error::HeaderError(msg) => {
                push_str_chars(&mut v, "Header error: ");
                push_str_chars(&mut v, msg);
            },
            Error::InvalidStatusCode => push_str_chars(&mut v, "Invalid status code"),
        }
        assert(v@ =~= message_text(*self));
        string_from_chars(v.as_slice())
    }
}

impl<E> From<ReadError<E>> for Error where Error: From<E> {
    /// The stream's own error, converted, or `ReadBufferOverflow` when the
    /// target buffer filled up.
    fn from(err: ReadError<E>) -> (r: Error) {
        match err {
            ReadError::SocketReadError(e) => Error::from(e),
            ReadError::TargetBufferOverflow => Error::ReadBufferOverflow,
        }
    }
}

impl<E> vstd::std_specs::convert::FromSpecImpl<ReadError<E>> for Error where Error: From<E> {
    open spec fn obeys_from_spec() -> bool {
        <Error as vstd::std_specs::convert::FromSpec<E>>::obeys_from_spec()
    }

    open spec fn from_spec(v: ReadError<E>) -> Error {
        match v {
            ReadError::SocketReadError(e) => <Error as vstd::std_specs::convert::FromSpec<
                E,
            >>::from_spec(e),
            ReadError::TargetBufferOverflow => Error::ReadBufferOverflow,
        }
    }
}

} // verus!
