//! A request parser whose states are types: each step consumes the parser in
//! one state and yields it in the next.
use vstd::prelude::*;

use crate::http_header_parser::{method_of, HttpMethod};
use crate::read_stream_ext::{IntoHttpError, ReadStreamError};
use crate::text::utf8_chars;

verus! {

/// Errors of the request parser.
#[derive(Debug)]
pub enum HttpParseError<ReadError: IntoHttpError> {
    /// Error occurred while reading from the stream
    ReadError(ReadStreamError<ReadError>),
    /// Malformed HTTP request
    MalformedRequest,
    /// Unsupported HTTP method
    UnsupportedMethod,
}

impl<ReadError: IntoHttpError> From<ReadStreamError<ReadError>> for HttpParseError<ReadError> {
    fn from(err: ReadStreamError<ReadError>) -> (r: HttpParseError<ReadError>) {
        HttpParseError::ReadError(err)
    }
}

impl<ReadError: IntoHttpError> vstd::std_specs::convert::FromSpecImpl<ReadStreamError<ReadError>> for HttpParseError<ReadError> {
    open spec fn obeys_from_spec() -> bool {
        true
    }

    open spec fn from_spec(v: ReadStreamError<ReadError>) -> HttpParseError<ReadError> {
        HttpParseError::ReadError(v)
    }
}

/// State: the method is next.
pub struct ReadMethod;

/// State: the path is next.
pub struct ReadPath;

/// State: the protocol version is next.
pub struct ReadVersion;

/// State: the headers are next.
pub struct ReadHeaders;

/// State: the body is next.
pub struct ReadBody;

/// Request parser in state `ReadPart`.
pub struct StreamRequest<ReadPart> {
    _state: core::marker::PhantomData<ReadPart>,
}

impl StreamRequest<ReadMethod> {
    /// A parser at the start of a request.
    pub fn new() -> (r: Self) {
        StreamRequest { _state: core::marker::PhantomData }
    }

    /// Interprets the method read into `buffer`: its first `read_size`
    /// bytes, the last of which is the space that ends the method.  The byte
    /// after them is set to 0.  Fails with `MalformedRequest` when the method
    /// is not UTF-8 and with `UnsupportedMethod` when it names no method.
    pub fn parse_method<ReadError: IntoHttpError>(&mut self, buffer: &mut [u8], read_size: usize) -> (r: Result<
        (HttpMethod, StreamRequest<ReadPath>),
        HttpParseError<ReadError>,
    >)
        requires
            1 <= read_size < old(buffer)@.len(),
        ensures
            final(buffer)@ == old(buffer)@.update(read_size as int, 0u8),
            ({
                let name = old(buffer)@.subrange(0, read_size - 1);
                if !vstd::utf8::valid_utf8(name) {
                    r matches Err(HttpParseError::MalformedRequest)
                } else {
                    match method_of(vstd::utf8::decode_utf8(name)) {
                        Some(m) => r matches Ok((mm, _)) && mm == m,
                        None => r matches Err(HttpParseError::UnsupportedMethod),
                    }
                }
            }),
    {
        buffer[read_size] = 0;
        let name = vstd::slice::slice_subrange(buffer, 0, read_size - 1);
        assert(name@ =~= old(buffer)@.subrange(0, read_size - 1));
        let chars = match utf8_chars(name) {
            Some(c) => c,
            None => {
                return Err(HttpParseError::MalformedRequest);
            },
        };
        match HttpMethod::from_chars(chars.as_slice()) {
            Some(m) => Ok((m, StreamRequest { _state: core::marker::PhantomData })),
            None => Err(HttpParseError::UnsupportedMethod),
        }
    }
}

} // verus!
