//! HTTP request head parsing: the request line, then header lines up to the
//! empty line, remembering the `Content-Length`.
//!
//! Each line is read from the stream (up to and including its `\r\n`) into a
//! [`DetachableBuffer`] by the caller; the parser detaches the line from the
//! buffer and interprets it.
use vstd::prelude::*;

use crate::detachable_buffer::DetachableBuffer;
use crate::read_stream_ext::ReadError;
use crate::text::{
    chars_eq, chars_eq_ignore_ascii_case, eq_ignore_ascii_case, lemma_split_at_first,
    lemma_split_without_separator, lemma_trim_without_whitespace, parse_usize, parse_usize_chars,
    spec_is_whitespace, split_first, split_head, split_tail, string_from_chars, trim, trim_chars,
    utf8_chars,
};

verus! {

/// Length of the `\r\n` that ends each line.
pub const LINE_DELIMITTER_SIZE: usize = 2;

/// HTTP request methods.
#[derive(Debug, Clone, Copy, PartialEq, Eq, Structural)]
pub enum HttpMethod {
    /// GET
    GET,
    /// HEAD
    HEAD,
    /// POST
    POST,
    /// PUT
    PUT,
    /// DELETE
    DELETE,
    /// CONNECT
    CONNECT,
    /// OPTIONS
    OPTIONS,
    /// TRACE
    TRACE,
    /// PATCH
    PATCH,
}

/// The name of each method, as it appears on the request line.
pub open spec fn method_name(m: HttpMethod) -> Seq<char> {
    match m {
        HttpMethod::GET => seq!['G', 'E', 'T'],
        HttpMethod::HEAD => seq!['H', 'E', 'A', 'D'],
        HttpMethod::POST => seq!['P', 'O', 'S', 'T'],
        HttpMethod::PUT => seq!['P', 'U', 'T'],
        HttpMethod::DELETE => seq!['D', 'E', 'L', 'E', 'T', 'E'],
        HttpMethod::CONNECT => seq!['C', 'O', 'N', 'N', 'E', 'C', 'T'],
        HttpMethod::OPTIONS => seq!['O', 'P', 'T', 'I', 'O', 'N', 'S'],
        HttpMethod::TRACE => seq!['T', 'R', 'A', 'C', 'E'],
        HttpMethod::PATCH => seq!['P', 'A', 'T', 'C', 'H'],
    }
}

/// The method named `s` (names are case sensitive), if any.
pub open spec fn method_of(s: Seq<char>) -> Option<HttpMethod> {
    if s == method_name(HttpMethod::GET) {
        Some(HttpMethod::GET)
    } else if s == method_name(HttpMethod::HEAD) {
        Some(HttpMethod::HEAD)
    } else if s == method_name(HttpMethod::POST) {
        Some(HttpMethod::POST)
    } else if s == method_name(HttpMethod::PUT) {
        Some(HttpMethod::PUT)
    } else if s == method_name(HttpMethod::DELETE) {
        Some(HttpMethod::DELETE)
    } else if s == method_name(HttpMethod::CONNECT) {
        Some(HttpMethod::CONNECT)
    } else if s == method_name(HttpMethod::OPTIONS) {
        Some(HttpMethod::OPTIONS)
    } else if s == method_name(HttpMethod::TRACE) {
        Some(HttpMethod::TRACE)
    } else if s == method_name(HttpMethod::PATCH) {
        Some(HttpMethod::PATCH)
    } else {
        None
    }
}

impl HttpMethod {
    /// The method named by `s`, if any.
    pub fn from_chars(s: &[char]) -> (r: Option<HttpMethod>)
        ensures
            r == method_of(s@),
    {
        let get = ['G', 'E', 'T'];
        let head = ['H', 'E', 'A', 'D'];
        let post = ['P', 'O', 'S', 'T'];
        let put = ['P', 'U', 'T'];
        let delete = ['D', 'E', 'L', 'E', 'T', 'E'];
        let connect = ['C', 'O', 'N', 'N', 'E', 'C', 'T'];
        let options = ['O', 'P', 'T', 'I', 'O', 'N', 'S'];
        let trace = ['T', 'R', 'A', 'C', 'E'];
        let patch = ['P', 'A', 'T', 'C', 'H'];
        assert(get@ =~= method_name(HttpMethod::GET));
        assert(head@ =~= method_name(HttpMethod::HEAD));
        assert(post@ =~= method_name(HttpMethod::POST));
        assert(put@ =~= method_name(HttpMethod::PUT));
        assert(delete@ =~= method_name(HttpMethod::DELETE));
        assert(connect@ =~= method_name(HttpMethod::CONNECT));
        assert(options@ =~= method_name(HttpMethod::OPTIONS));
        assert(trace@ =~= method_name(HttpMethod::TRACE));
        assert(patch@ =~= method_name(HttpMethod::PATCH));
        if chars_eq(s, get.as_slice()) {
            Some(HttpMethod::GET)
        } else if chars_eq(s, head.as_slice()) {
            Some(HttpMethod::HEAD)
        } else if chars_eq(s, post.as_slice()) {
            Some(HttpMethod::POST)
        } else if chars_eq(s, put.as_slice()) {
            Some(HttpMethod::PUT)
        } else if chars_eq(s, delete.as_slice()) {
            Some(HttpMethod::DELETE)
        } else if chars_eq(s, connect.as_slice()) {
            Some(HttpMethod::CONNECT)
        } else if chars_eq(s, options.as_slice()) {
            Some(HttpMethod::OPTIONS)
        } else if chars_eq(s, trace.as_slice()) {
            Some(HttpMethod::TRACE)
        } else if chars_eq(s, patch.as_slice()) {
            Some(HttpMethod::PATCH)
        } else {
            None
        }
    }
}

/// The name of the `Content-Length` header.
pub open spec fn content_length_name() -> Seq<char> {
    seq!['C', 'o', 'n', 't', 'e', 'n', 't', '-', 'L', 'e', 'n', 'g', 't', 'h']
}

/// Errors that can occur during HTTP header parsing
#[derive(Debug)]
pub enum HttpParseError<SocketReadErrorT> {
    /// Error occurred while reading from the stream
    ReadError(ReadError<SocketReadErrorT>),
    /// Malformed HTTP request
    MalformedRequest,
    /// HTTP method not recognized
    NoMethod,
    /// HTTP path not found
    NoPath,
    /// HTTP version not found
    NoVersion,
    /// Unsupported HTTP method
    UnsupportedMethod,
    /// Parsing cannot continue due to no Content-Length header.
    /// This error means that the stream is in an invalid state so it must be closed.
    NoContentLength,
}

impl<E> From<ReadError<E>> for HttpParseError<E> {
    fn from(err: ReadError<E>) -> (r: Self)
        ensures
            r == HttpParseError::ReadError(err),
    {
        HttpParseError::ReadError(err)
    }
}

impl<E> vstd::std_specs::convert::FromSpecImpl<ReadError<E>> for HttpParseError<E> {
    open spec fn obeys_from_spec() -> bool {
        true
    }

    open spec fn from_spec(v: ReadError<E>) -> Self {
        HttpParseError::ReadError(v)
    }
}

/// The outcome of parsing a request line (its characters, without `\r\n`).
///
/// Fields are separated by single spaces and trimmed of whitespace; the
/// method, path and version are checked in that order for being present and
/// not empty, and only then is the method recognised.
pub open spec fn first_line_result<E>(s: Seq<char>) -> Result<
    (HttpMethod, Seq<char>, Seq<char>),
    HttpParseError<E>,
> {
    let method = trim(split_head(s, ' '));
    if method.len() == 0 {
        Err(HttpParseError::NoMethod)
    } else {
        match split_tail(s, ' ') {
            None => Err(HttpParseError::NoPath),
            Some(r1) => {
                let path = trim(split_head(r1, ' '));
                if path.len() == 0 {
                    Err(HttpParseError::NoPath)
                } else {
                    match split_tail(r1, ' ') {
                        None => Err(HttpParseError::NoVersion),
                        Some(r2) => {
                            let version = trim(split_head(r2, ' '));
                            if version.len() == 0 {
                                Err(HttpParseError::NoVersion)
                            } else {
                                match method_of(method) {
                                    None => Err(HttpParseError::UnsupportedMethod),
                                    Some(m) => Ok((m, path, version)),
                                }
                            }
                        },
                    }
                }
            },
        }
    }
}

/// The outcome of parsing a header line (its characters, without `\r\n`)
/// when `content_length` has been seen so far: the trimmed name and value,
/// and the content length after this header.
///
/// The name is what comes before the first `:`; a `Content-Length` header
/// (name compared without trimming, ignoring ASCII case) must not repeat and
/// must hold a decimal `usize`.
pub open spec fn header_line_result<E>(s: Seq<char>, content_length: Option<usize>) -> Result<
    (Seq<char>, Seq<char>, Option<usize>),
    HttpParseError<E>,
> {
    match split_tail(s, ':') {
        None => Err(HttpParseError::MalformedRequest),
        Some(value) => {
            let key = split_head(s, ':');
            if eq_ignore_ascii_case(key, content_length_name()) {
                if content_length is Some {
                    Err(HttpParseError::MalformedRequest)
                } else {
                    match parse_usize(trim(value)) {
                        None => Err(HttpParseError::MalformedRequest),
                        Some(n) => Ok((trim(key), trim(value), Some(n))),
                    }
                }
            } else {
                Ok((trim(key), trim(value), content_length))
            }
        },
    }
}

/// The methods are named as on the request line (upper case, RFC 9110),
/// and a name gives back the method that has it: parsing a method's own
/// name gives that method, and only a method's name is parsed as a method.
pub proof fn lemma_method_names()
    ensures
        method_name(HttpMethod::GET) == seq!['G', 'E', 'T'],
        method_name(HttpMethod::HEAD) == seq!['H', 'E', 'A', 'D'],
        method_name(HttpMethod::POST) == seq!['P', 'O', 'S', 'T'],
        method_name(HttpMethod::PUT) == seq!['P', 'U', 'T'],
        method_name(HttpMethod::DELETE) == seq!['D', 'E', 'L', 'E', 'T', 'E'],
        method_name(HttpMethod::CONNECT) == seq!['C', 'O', 'N', 'N', 'E', 'C', 'T'],
        method_name(HttpMethod::OPTIONS) == seq!['O', 'P', 'T', 'I', 'O', 'N', 'S'],
        method_name(HttpMethod::TRACE) == seq!['T', 'R', 'A', 'C', 'E'],
        method_name(HttpMethod::PATCH) == seq!['P', 'A', 'T', 'C', 'H'],
        forall|m: HttpMethod| #[trigger] method_of(method_name(m)) == Some(m),
        forall|s: Seq<char>| #[trigger] method_of(s) matches Some(m) ==> s == method_name(m),
{
    assert forall|m: HttpMethod| #[trigger] method_of(method_name(m)) == Some(m) by {
        lemma_method_name_distinct(m);
    }
}

proof fn lemma_method_name_distinct(m: HttpMethod)
    ensures
        method_of(method_name(m)) == Some(m),
{
    let n = method_name(m);
    // Distinct names differ in length or in a character.
    assert(seq!['P', 'O', 'S', 'T'][1] != seq!['P', 'U', 'T'][1]);
    assert(seq!['P', 'O', 'S', 'T'][1] != seq!['P', 'A', 'T', 'C', 'H'][1]);
    assert(seq!['P', 'U', 'T'][1] != seq!['P', 'A', 'T', 'C', 'H'][1]);
    assert(seq!['G', 'E', 'T'][0] != seq!['P', 'U', 'T'][0]);
    assert(seq!['H', 'E', 'A', 'D'][0] != seq!['P', 'O', 'S', 'T'][0]);
    assert(seq!['T', 'R', 'A', 'C', 'E'][0] != seq!['P', 'A', 'T', 'C', 'H'][0]);
    assert(seq!['C', 'O', 'N', 'N', 'E', 'C', 'T'][0] != seq!['O', 'P', 'T', 'I', 'O', 'N', 'S'][0]);
}

/// A request line "method path version" with a known method and a path and
/// version that hold no whitespace is parsed into that method, that path and
/// that version.
pub proof fn lemma_first_line<E>(m: HttpMethod, path: Seq<char>, version: Seq<char>)
    requires
        path.len() > 0,
        version.len() > 0,
        forall|i: int| 0 <= i < path.len() ==> !spec_is_whitespace(#[trigger] path[i]),
        forall|i: int| 0 <= i < version.len() ==> !spec_is_whitespace(#[trigger] version[i]),
    ensures
        first_line_result::<E>(method_name(m) + seq![' '] + path + seq![' '] + version) == Ok::<
            _,
            HttpParseError<E>,
        >((m, path, version)),
{
    let name = method_name(m);
    assert(spec_is_whitespace(' '));
    assert forall|i: int| 0 <= i < name.len() implies !spec_is_whitespace(#[trigger] name[i]) by {
        match m {
            HttpMethod::GET => {},
            HttpMethod::HEAD => {},
            HttpMethod::POST => {},
            HttpMethod::PUT => {},
            HttpMethod::DELETE => {},
            HttpMethod::CONNECT => {},
            HttpMethod::OPTIONS => {},
            HttpMethod::TRACE => {},
            HttpMethod::PATCH => {},
        }
    }
    assert forall|i: int| 0 <= i < path.len() implies path[i] != ' ' by {
        assert(!spec_is_whitespace(path[i]));
    }
    assert forall|i: int| 0 <= i < version.len() implies version[i] != ' ' by {
        assert(!spec_is_whitespace(version[i]));
    }
    assert forall|i: int| 0 <= i < name.len() implies name[i] != ' ' by {
        assert(!spec_is_whitespace(name[i]));
    }
    let r1 = path + seq![' '] + version;
    let line = method_name(m) + seq![' '] + path + seq![' '] + version;
    assert(line =~= name + seq![' '] + r1);
    lemma_split_at_first(name, ' ', r1);
    lemma_split_at_first(path, ' ', version);
    lemma_split_without_separator(version, ' ');
    lemma_trim_without_whitespace(name);
    lemma_trim_without_whitespace(path);
    lemma_trim_without_whitespace(version);
    lemma_method_names();
}

/// A header line is split at its first `:`: for a line `k:v` whose name `k`
/// holds no `:`, the header's name is `k` trimmed and its value is `v`
/// trimmed, with any later `:` kept in the value.  Unless the name is
/// `Content-Length` (in any ASCII case), the content length is left as it
/// was; a `Content-Length` header sets it to the decimal value, and is
/// refused when it repeats or its value is not a decimal `usize`.  A line
/// without `:` is refused.
pub proof fn lemma_header_line<E>(k: Seq<char>, v: Seq<char>, content_length: Option<usize>)
    requires
        forall|i: int| 0 <= i < k.len() ==> k[i] != ':',
    ensures
        !eq_ignore_ascii_case(k, content_length_name()) ==> header_line_result::<E>(
            k + seq![':'] + v,
            content_length,
        ) == Ok::<_, HttpParseError<E>>((trim(k), trim(v), content_length)),
        eq_ignore_ascii_case(k, content_length_name()) ==> header_line_result::<E>(
            k + seq![':'] + v,
            content_length,
        ) == if content_length is Some {
            Err::<(Seq<char>, Seq<char>, Option<usize>), HttpParseError<E>>(
                HttpParseError::MalformedRequest,
            )
        } else {
            match parse_usize(trim(v)) {
                None => Err(HttpParseError::MalformedRequest),
                Some(n) => Ok((trim(k), trim(v), Some(n))),
            }
        },
        header_line_result::<E>(k, content_length) == Err::<
            (Seq<char>, Seq<char>, Option<usize>),
            HttpParseError<E>,
        >(HttpParseError::MalformedRequest),
{
    lemma_split_at_first(k, ':', v);
    lemma_split_without_separator(k, ':');
}

/// The `Content-Length` header is recognised whatever the ASCII case of its
/// name: `content-length` and `CONTENT-LENGTH` name it too.
pub proof fn lemma_content_length_any_case()
    ensures
        eq_ignore_ascii_case(
            seq!['c', 'o', 'n', 't', 'e', 'n', 't', '-', 'l', 'e', 'n', 'g', 't', 'h'],
            content_length_name(),
        ),
        eq_ignore_ascii_case(
            seq!['C', 'O', 'N', 'T', 'E', 'N', 'T', '-', 'L', 'E', 'N', 'G', 'T', 'H'],
            content_length_name(),
        ),
{
    let lower = seq!['c', 'o', 'n', 't', 'e', 'n', 't', '-', 'l', 'e', 'n', 'g', 't', 'h'];
    let upper = seq!['C', 'O', 'N', 'T', 'E', 'N', 'T', '-', 'L', 'E', 'N', 'G', 'T', 'H'];
    let name = content_length_name();
    assert forall|i: int| 0 <= i < lower.len() implies crate::text::ascii_lower(lower[i])
        == crate::text::ascii_lower(name[i]) by {
        assert(0 <= i < 14);
    }
    assert forall|i: int| 0 <= i < upper.len() implies crate::text::ascii_lower(upper[i])
        == crate::text::ascii_lower(name[i]) by {
        assert(0 <= i < 14);
    }
}

/// The `Content-Length` that the handlers write (the decimal digits of the
/// length) is read back by the parser as the same length.
pub proof fn lemma_content_length_read_back(n: usize)
    ensures
        parse_usize(crate::handler::decimal(n as nat)) == Some(n),
{
    lemma_decimal_digits(n as nat);
    let d = crate::handler::decimal(n as nat);
    assert(d[0] != '+');
}

proof fn lemma_decimal_digits(n: nat)
    ensures
        crate::text::all_digits(crate::handler::decimal(n)),
        crate::text::digits_value(crate::handler::decimal(n)) == n,
        crate::handler::decimal(n).len() > 0,
    decreases n,
{
    let d = crate::handler::decimal(n);
    if n >= 10 {
        lemma_decimal_digits(n / 10);
        let h = crate::handler::decimal(n / 10);
        assert(d == h.push(crate::handler::digit_char((n % 10) as int)));
        assert(d.subrange(0, d.len() - 1) =~= h);
        assert(crate::handler::digit_char((n % 10) as int) as int == 48 + n % 10);
        assert(n == (n / 10) * 10 + n % 10);
        assert('0' as int == 48);
        assert(d[d.len() - 1] == crate::handler::digit_char((n % 10) as int));
        assert(crate::text::digits_value(d) == crate::text::digits_value(h) * 10 + (d[d.len() - 1] as int
            - '0' as int));
        assert forall|i: int| 0 <= i < d.len() implies '0' <= #[trigger] d[i] && d[i] <= '9' by {
            if i < h.len() {
                assert(d[i] == h[i]);
            }
        }
    } else {
        assert(crate::handler::digit_char(n as int) as int == 48 + n);
        assert('0' as int == 48);
        assert(d.subrange(0, 0) =~= Seq::<char>::empty());
        assert(crate::text::digits_value(d) == crate::text::digits_value(d.subrange(0, 0)) * 10 + (
        d[0] as int - '0' as int));
    }
}

/// The parsed request line.
#[derive(Debug)]
pub struct HttpFirstLine {
    /// The request method.
    pub method: HttpMethod,
    /// The request target.
    pub path: String,
    /// The protocol version.
    pub version: String,
}

/// A parsed header line.
#[derive(Debug)]
pub struct HttpHeader {
    /// Header name.
    pub name: String,
    /// Header value.
    pub value: String,
}

impl HttpHeader {
    /// A header with the given name and value.
    pub fn new(name: String, value: String) -> (r: Self)
        ensures
            r.name == name,
            r.value == value,
    {
        HttpHeader { name, value }
    }
}

/// Parser state before the request line.
pub struct ReadFirstLine;

/// Parser state while reading header lines.
pub struct ReadHeaders {
    all_parsed: bool,
    content_length: Option<usize>,
}

impl ReadHeaders {
    /// Whether the empty line that ends the headers has been read.
    pub closed spec fn all_parsed(&self) -> bool {
        self.all_parsed
    }

    /// The value of the `Content-Length` header, once read.
    pub closed spec fn spec_content_length(&self) -> Option<usize> {
        self.content_length
    }

    /// Create a new ReadHeaders state
    pub fn new() -> (r: Self)
        ensures
            !r.all_parsed(),
            r.spec_content_length() is None,
    {
        Self { all_parsed: false, content_length: None }
    }
}

/// Stream-based HTTP request parser, in state `ReadMethod`.
pub struct HttpHeaderParser<ReadMethod> {
    /// Parsing state.
    pub state: ReadMethod,
}

/// Splits off the first `read_size` bytes of `buffer` (a line with its
/// `\r\n`) and decodes the line without its `\r\n`.
fn detach_line(buffer: &mut DetachableBuffer, read_size: usize) -> (r: Option<Vec<char>>)
    requires
        LINE_DELIMITTER_SIZE <= read_size <= old(buffer)@.len(),
    ensures
        final(buffer)@ == old(buffer)@.subrange(read_size as int, old(buffer)@.len() as int),
        ({
            let line = old(buffer)@.subrange(0, read_size - LINE_DELIMITTER_SIZE);
            &&& r is Some <==> vstd::utf8::valid_utf8(line)
            &&& r matches Some(v) ==> v@ == vstd::utf8::decode_utf8(line)
        }),
{
    let line = buffer.detach(read_size);
    let text = vstd::slice::slice_subrange(&*line, 0, read_size - LINE_DELIMITTER_SIZE);
    assert(text@ =~= old(buffer)@.subrange(0, read_size - LINE_DELIMITTER_SIZE));
    utf8_chars(text)
}

impl HttpHeaderParser<ReadFirstLine> {
    /// Create a new parser, waiting for the request line.
    pub fn new() -> (r: Self) {
        Self { state: ReadFirstLine }
    }

    /// Parses the request line, which the caller has read into the front of
    /// `buffer` (`read_size` bytes, ending with `\r\n`).  The line is detached
    /// from `buffer` whatever the outcome.
    ///
    /// ## Errors
    /// - `MalformedRequest` if the line is not valid UTF-8;
    /// - `NoMethod`, `NoPath`, `NoVersion` if a field is missing or empty;
    /// - `UnsupportedMethod` if the method is not recognized.
    pub fn parse_first_line<E>(self, buffer: &mut DetachableBuffer, read_size: usize) -> (r: Result<
        (HttpFirstLine, HttpHeaderParser<ReadHeaders>),
        HttpParseError<E>,
    >)
        requires
            LINE_DELIMITTER_SIZE <= read_size <= old(buffer)@.len(),
        ensures
            final(buffer)@ == old(buffer)@.subrange(read_size as int, old(buffer)@.len() as int),
            ({
                let line = old(buffer)@.subrange(0, read_size - LINE_DELIMITTER_SIZE);
                if !vstd::utf8::valid_utf8(line) {
                    r matches Err(HttpParseError::MalformedRequest)
                } else {
                    match first_line_result::<E>(vstd::utf8::decode_utf8(line)) {
                        Ok((m, p, v)) => r matches Ok((fl, next)) && fl.method == m && fl.path@
                            == p && fl.version@ == v && !next.state.all_parsed()
                            && next.state.spec_content_length() is None,
                        Err(e) => r matches Err(e2) && e2 == e,
                    }
                }
            }),
    {
        let chars = match detach_line(buffer, read_size) {
            Some(c) => c,
            None => {
                return Err(HttpParseError::MalformedRequest);
            },
        };
        let (method_part, rest1) = split_first(chars.as_slice(), ' ');
        let method_str = trim_chars(method_part.as_slice());
        if method_str.len() == 0 {
            return Err(HttpParseError::NoMethod);
        }
        let rest1 = match rest1 {
            Some(r) => r,
            None => {
                return Err(HttpParseError::NoPath);
            },
        };
        let (path_part, rest2) = split_first(rest1.as_slice(), ' ');
        let path = trim_chars(path_part.as_slice());
        if path.len() == 0 {
            return Err(HttpParseError::NoPath);
        }
        let rest2 = match rest2 {
            Some(r) => r,
            None => {
                return Err(HttpParseError::NoVersion);
            },
        };
        let (version_part, _rest3) = split_first(rest2.as_slice(), ' ');
        let version = trim_chars(version_part.as_slice());
        if version.len() == 0 {
            return Err(HttpParseError::NoVersion);
        }
        let method = match HttpMethod::from_chars(method_str.as_slice()) {
            Some(m) => m,
            None => {
                return Err(HttpParseError::UnsupportedMethod);
            },
        };
        Ok((
            HttpFirstLine {
                method,
                path: string_from_chars(path.as_slice()),
                version: string_from_chars(version.as_slice()),
            },
            HttpHeaderParser { state: ReadHeaders::new() },
        ))
    }
}

impl HttpHeaderParser<ReadHeaders> {
    /// Parses the next header line, which the caller has read into the front
    /// of `buffer` (`read_size` bytes, ending with `\r\n`), unless all headers
    /// have been parsed already: then nothing is read or detached and the
    /// result is `Ok(None)`.
    ///
    /// An empty line ends the headers (`Ok(None)`); any other line is
    /// detached and parsed as a header.
    ///
    /// ## Errors
    /// - `MalformedRequest` if the line is not valid UTF-8, has no `:`, repeats
    ///   `Content-Length` or gives it a value that is not a decimal `usize`.
    pub fn parse_next_header<E>(&mut self, buffer: &mut DetachableBuffer, read_size: usize) -> (r:
        Result<Option<HttpHeader>, HttpParseError<E>>)
        requires
            !old(self).state.all_parsed() ==> LINE_DELIMITTER_SIZE <= read_size <= old(buffer)@.len(),
        ensures
            old(self).state.all_parsed() ==> {
                &&& r matches Ok(None)
                &&& final(buffer)@ == old(buffer)@
                &&& final(self).state.all_parsed()
                &&& final(self).state.spec_content_length() == old(self).state.spec_content_length()
            },
            !old(self).state.all_parsed() ==> {
                let line = old(buffer)@.subrange(0, read_size - LINE_DELIMITTER_SIZE);
                let cl = old(self).state.spec_content_length();
                &&& final(buffer)@ == old(buffer)@.subrange(read_size as int, old(buffer)@.len() as int)
                &&& if read_size == LINE_DELIMITTER_SIZE {
                    &&& r matches Ok(None)
                    &&& final(self).state.all_parsed()
                    &&& final(self).state.spec_content_length() == cl
                } else if !vstd::utf8::valid_utf8(line) {
                    &&& r matches Err(HttpParseError::MalformedRequest)
                    &&& final(self).state.spec_content_length() == cl
                } else {
                    match header_line_result::<E>(vstd::utf8::decode_utf8(line), cl) {
                        Ok((name, value, ncl)) => {
                            &&& r matches Ok(Some(h))
                            &&& h.name@ == name
                            &&& h.value@ == value
                            &&& final(self).state.spec_content_length() == ncl
                        },
                        Err(e) => {
                            &&& r matches Err(e2)
                            &&& e2 == e
                            &&& final(self).state.spec_content_length() == cl
                        },
                    }
                }
                &&& read_size != LINE_DELIMITTER_SIZE ==> !final(self).state.all_parsed()
            },
    {
        if self.state.all_parsed {
            return Ok(None);
        }
        if read_size == LINE_DELIMITTER_SIZE {
            let _line = buffer.detach(read_size);
            self.state.all_parsed = true;
            return Ok(None);
        }
        let chars = match detach_line(buffer, read_size) {
            Some(c) => c,
            None => {
                return Err(HttpParseError::MalformedRequest);
            },
        };
        let (key, value) = split_first(chars.as_slice(), ':');
        let value = match value {
            Some(v) => v,
            None => {
                return Err(HttpParseError::MalformedRequest);
            },
        };
        let content_length_key = [
            'C', 'o', 'n', 't', 'e', 'n', 't', '-', 'L', 'e', 'n', 'g', 't', 'h',
        ];
        assert(content_length_key@ =~= content_length_name());
        let trimmed_value = trim_chars(value.as_slice());
        if chars_eq_ignore_ascii_case(key.as_slice(), content_length_key.as_slice()) {
            if self.state.content_length.is_some() {
                return Err(HttpParseError::MalformedRequest);
            }
            match parse_usize_chars(trimmed_value.as_slice()) {
                Some(n) => {
                    self.state.content_length = Some(n);
                },
                None => {
                    return Err(HttpParseError::MalformedRequest);
                },
            }
        }
        let trimmed_key = trim_chars(key.as_slice());
        Ok(
            Some(
                HttpHeader::new(
                    string_from_chars(trimmed_key.as_slice()),
                    string_from_chars(trimmed_value.as_slice()),
                ),
            ),
        )
    }

    /// Check if all headers have been parsed
    pub fn no_pending_headers(&self) -> (r: bool)
        ensures
            r == self.state.all_parsed(),
    {
        self.state.all_parsed
    }

    /// Get the content length if specified in headers
    pub fn content_length(&self) -> (r: Option<usize>)
        ensures
            r == self.state.spec_content_length(),
    {
        self.state.content_length
    }

    /// Check if all headers have been parsed and stream is ready for body reading
    pub fn body_ready(&self) -> (r: bool)
        ensures
            r == (self.state.all_parsed() && self.state.spec_content_length() is Some),
    {
        self.no_pending_headers() && self.has_content_length()
    }

    /// Check if Content-Length header is present
    pub fn has_content_length(&self) -> (r: bool)
        ensures
            r == self.state.spec_content_length() is Some,
    {
        self.state.content_length.is_some()
    }

    /// Ends header parsing once all header lines, up to the empty line, have
    /// been read (`parse_next_header` has returned `Ok(None)`): the content
    /// length, or `NoContentLength` when no `Content-Length` header came (the
    /// stream is then in an invalid state and must be closed).  The reader
    /// that owns the stream reads the remaining header lines first.
    pub fn finalize<E>(self) -> (r: Result<usize, HttpParseError<E>>)
        requires
            self.state.all_parsed(),
        ensures
            match self.state.spec_content_length() {
                Some(n) => r matches Ok(v) && v == n,
                None => r matches Err(HttpParseError::NoContentLength),
            },
    {
        match self.state.content_length {
            Some(n) => Ok(n),
            None => Err(HttpParseError::NoContentLength),
        }
    }
}

} // verus!
