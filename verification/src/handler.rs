//! The responses of the built-in HTTP handlers: status line, headers and
//! body, with the body's length in `Content-Length`.  Sending them over a
//! connection is up to the server glue.
use core::fmt::Write;
use vstd::prelude::*;
use vstd::string::StringSliceAdditionalSpecFns;

verus! {

/// Content type header used in HTTP responses.
pub const H_CONTENT_TYPE: &'static str = "Content-Type";

/// Content length header for HTTP responses.
pub const H_CONTENT_LENGTH: &'static str = "Content-Length";

/// Content encoding header for HTTP responses.
pub const H_CONTENT_ENCODING: &'static str = "Content-Encoding";

/// Cache control header for HTTP responses.
pub const H_CACHE_CONTROL: &'static str = "Cache-Control";

/// Cross-Origin Resource Policy header for HTTP responses.
pub const H_CROSS_ORIGIN_RESOURCE_POLICY: &'static str = "Cross-Origin-Resource-Policy";

/// JSON content type used in HTTP responses.
pub const CONTENT_TYPE_JSON: &'static str = "application/json";

/// Plain text content type used in HTTP responses.
pub const CONTENT_TYPE_TEXT_PLAIN: &'static str = "text/plain";

/// HTML content type used in HTTP responses.
pub const CONTENT_TYPE_HTML: &'static str = "text/html";

/// HTML content type with UTF-8 charset used in HTTP responses.
pub const CONTENT_TYPE_HTML_UTF8: &'static str = "text/html; charset=utf-8";

/// image/x-icon content type used in HTTP responses.
pub const CONTENT_TYPE_IMAGE_X_ICON: &'static str = "image/x-icon";

/// Gzip content encoding used in HTTP responses.
pub const CONTENT_ENCODING_GZIP: &'static str = "gzip";

/// The cache policy of the favicon: cache it for a year.
pub const FAVICON_CACHE_CONTROL: &'static str = "public, max-age=31536000, immutable";

/// The resource policy of the favicon.
pub const FAVICON_RESOURCE_POLICY: &'static str = "same-origin";

/// The largest `Content-Length` text the handlers write, in characters.
pub const CONTENT_LENGTH_TEXT_CAPACITY: usize = 16;

/// An error type that represents possible errors that can occur while handling HTTP requests.
#[derive(Debug, Clone, Copy, PartialEq, Eq, Structural)]
pub enum HdlError {
    /// The handler does not support the requested path.
    NotFound,
}

/// The character of a decimal digit.
pub open spec fn digit_char(d: int) -> char {
    (48 + d) as char
}

/// The decimal digits of `n`, most significant first.
pub open spec fn decimal(n: nat) -> Seq<char>
    decreases n,
{
    if n < 10 {
        seq![digit_char(n as int)]
    } else {
        decimal(n / 10).push(digit_char((n % 10) as int))
    }
}

/// Writes `n` with `write!(s, "{}", n)` into a `heapless::String<16>`, as the
/// handlers write `Content-Length`, and returns the text.
///
/// Trusted: `{}` formats a `usize` as its decimal digits, and heapless's
/// `fmt::Write` for `String<16>` appends each piece only when it fits and
/// fails otherwise, so the write succeeds exactly when the digits fit into
/// 16 bytes, and then the string holds them.
#[verifier::external_body]
fn content_length_text(n: usize) -> (r: Option<String>)
    ensures
        r is Some <==> decimal(n as nat).len() <= CONTENT_LENGTH_TEXT_CAPACITY,
        r matches Some(s) ==> s@ == decimal(n as nat),
{
    let mut text = heapless::String::<16>::new();
    match write!(&mut text, "{}", n) {
        Ok(()) => Some(text.as_str().to_owned()),
        Err(_) => None,
    }
}

/// The status line and headers of a response.
pub struct ResponseHead {
    /// Status code.
    pub status: u16,
    /// Reason phrase.
    pub reason: &'static str,
    /// Header names and values, in order.
    pub headers: Vec<(&'static str, String)>,
}

/// Headers as pairs of texts.
pub open spec fn header_texts(h: Seq<(&'static str, String)>) -> Seq<(Seq<char>, Seq<char>)> {
    Seq::new(h.len(), |i: int| (h[i].0@, h[i].1@))
}

/// A `200 OK` head with the given headers.
fn ok_head(headers: Vec<(&'static str, String)>) -> (r: ResponseHead)
    ensures
        r.status == 200,
        r.reason@ == "OK"@,
        r.headers@ == headers@,
{
    ResponseHead { status: 200, reason: "OK", headers }
}

/// The headers that announce a body of `len` bytes of `content_type`;
/// `None` when the length does not fit into the `Content-Length` text.
fn content_headers(content_type: &'static str, len: usize) -> (r: Option<
    Vec<(&'static str, String)>,
>)
    ensures
        r is Some <==> decimal(len as nat).len() <= CONTENT_LENGTH_TEXT_CAPACITY,
        r matches Some(v) ==> header_texts(v@) == seq![
            (H_CONTENT_TYPE@, content_type@),
            (H_CONTENT_LENGTH@, decimal(len as nat)),
        ],
{
    let len_text = match content_length_text(len) {
        Some(t) => t,
        None => {
            return None;
        },
    };
    let mut v: Vec<(&'static str, String)> = Vec::new();
    v.push((H_CONTENT_TYPE, content_type.to_owned()));
    v.push((H_CONTENT_LENGTH, len_text));
    assert(header_texts(v@) =~= seq![
        (H_CONTENT_TYPE@, content_type@),
        (H_CONTENT_LENGTH@, decimal(len as nat)),
    ]);
    Some(v)
}

/// A handler that serves a default response for the root path.
pub struct DefaultRootResponse;

/// The body of the default response, "Ok!".
pub const DEFAULT_ROOT_BODY: [u8; 3] = [79u8, 107u8, 33u8];

impl DefaultRootResponse {
    /// The response: `200 OK`, plain text, the body "Ok!".
    pub fn response(&self) -> (r: (ResponseHead, [u8; 3]))
        ensures
            r.0.status == 200,
            r.0.reason@ == "OK"@,
            header_texts(r.0.headers@) == seq![
                (H_CONTENT_TYPE@, CONTENT_TYPE_TEXT_PLAIN@),
                (H_CONTENT_LENGTH@, decimal(3)),
            ],
            r.1 == DEFAULT_ROOT_BODY,
    {
        let body = DEFAULT_ROOT_BODY;
        assert(decimal(3).len() == 1);
        let headers = match content_headers(CONTENT_TYPE_TEXT_PLAIN, 3) {
            Some(h) => h,
            None => Vec::new(),
        };
        (ok_head(headers), body)
    }
}

/// A handler that serves a favicon.ico file.
pub struct FaviconHandler<'a> {
    favicon_data: &'a [u8],
}

impl<'a> FaviconHandler<'a> {
    /// The icon it serves.
    pub closed spec fn data(self) -> Seq<u8> {
        self.favicon_data@
    }

    /// Create a new `FaviconHandler` with the given favicon data.
    pub fn new(favicon_data: &'a [u8]) -> (r: Self)
        ensures
            r.data() == favicon_data@,
    {
        Self { favicon_data }
    }

    /// The body of the response: the icon.
    pub fn body(&self) -> (r: &'a [u8])
        ensures
            r@ == self.data(),
    {
        self.favicon_data
    }

    /// The head of the response: `200 OK`, an icon of the icon's length,
    /// cached for a year and shared with the same origin only; `None` when
    /// the length does not fit into the `Content-Length` text.
    pub fn response(&self) -> (r: Option<ResponseHead>)
        ensures
            r is Some <==> decimal(self.data().len()).len() <= CONTENT_LENGTH_TEXT_CAPACITY,
            r matches Some(h) ==> {
                &&& h.status == 200
                &&& h.reason@ == "OK"@
                &&& header_texts(h.headers@) == seq![
                    (H_CONTENT_TYPE@, CONTENT_TYPE_IMAGE_X_ICON@),
                    (H_CONTENT_LENGTH@, decimal(self.data().len())),
                    (H_CACHE_CONTROL@, FAVICON_CACHE_CONTROL@),
                    (H_CROSS_ORIGIN_RESOURCE_POLICY@, FAVICON_RESOURCE_POLICY@),
                ]
            },
    {
        let mut headers = match content_headers(CONTENT_TYPE_IMAGE_X_ICON, self.favicon_data.len()) {
            Some(h) => h,
            None => {
                return None;
            },
        };
        let ghost before = headers@;
        headers.push((H_CACHE_CONTROL, FAVICON_CACHE_CONTROL.to_owned()));
        headers.push((H_CROSS_ORIGIN_RESOURCE_POLICY, FAVICON_RESOURCE_POLICY.to_owned()));
        assert(header_texts(headers@) =~= header_texts(before) + seq![
            (H_CACHE_CONTROL@, FAVICON_CACHE_CONTROL@),
            (H_CROSS_ORIGIN_RESOURCE_POLICY@, FAVICON_RESOURCE_POLICY@),
        ]);
        Some(ok_head(headers))
    }
}

/// A handler that serves a plain text response with the given content.
pub struct PlainTextHandler<'a> {
    content: &'a str,
}

impl<'a> PlainTextHandler<'a> {
    /// The text it serves.
    pub closed spec fn text(self) -> &'a str {
        self.content
    }

    /// Create a new `PlainTextHandler` with the given content.
    pub fn new(content: &'a str) -> (r: Self)
        ensures
            r.text() == content,
    {
        Self { content }
    }

    /// The body of the response: the text's bytes.
    pub fn body(&self) -> (r: &'a [u8])
        ensures
            r@ == self.text().spec_bytes(),
    {
        self.content.as_bytes()
    }

    /// The head of the response: `200 OK`, plain text of the text's length
    /// in bytes; `None` when the length does not fit into the
    /// `Content-Length` text.
    pub fn response(&self) -> (r: Option<ResponseHead>)
        ensures
            r is Some <==> decimal(self.text().spec_bytes().len()).len()
                <= CONTENT_LENGTH_TEXT_CAPACITY,
            r matches Some(h) ==> {
                &&& h.status == 200
                &&& h.reason@ == "OK"@
                &&& header_texts(h.headers@) == seq![
                    (H_CONTENT_TYPE@, CONTENT_TYPE_TEXT_PLAIN@),
                    (H_CONTENT_LENGTH@, decimal(self.text().spec_bytes().len())),
                ]
            },
    {
        let bytes = self.content.as_bytes();
        match content_headers(CONTENT_TYPE_TEXT_PLAIN, bytes.len()) {
            Some(h) => Some(ok_head(h)),
            None => None,
        }
    }
}

/// The content of an HTML response.
#[derive(Clone, Copy)]
pub enum HtmlContentEncoding<'a> {
    /// Plain HTML text.
    Text(&'a str),
    /// HTML compressed with gzip.
    Gzip(&'a [u8]),
}

/// A handler that serves an HTML page.
pub struct HtmlHandler<'a> {
    content_type: &'static str,
    content: HtmlContentEncoding<'a>,
}

impl<'a> HtmlHandler<'a> {
    /// The content type it announces.
    pub closed spec fn kind(self) -> Seq<char> {
        self.content_type@
    }

    /// The page it serves.
    pub closed spec fn page(self) -> HtmlContentEncoding<'a> {
        self.content
    }

    /// The bytes of the body.
    pub open spec fn body_bytes(self) -> Seq<u8> {
        match self.page() {
            HtmlContentEncoding::Text(t) => t.spec_bytes(),
            HtmlContentEncoding::Gzip(g) => g@,
        }
    }

    /// Create a new `HtmlHandler` with the given content.
    pub fn new(content: &'a str) -> (r: Self)
        ensures
            r.kind() == CONTENT_TYPE_HTML@,
            r.page() == HtmlContentEncoding::Text(content),
    {
        Self { content_type: CONTENT_TYPE_HTML, content: HtmlContentEncoding::Text(content) }
    }

    /// A handler for a page compressed with gzip; the response says so in
    /// `Content-Encoding`.
    pub fn compressed_gzip(content: &'a [u8]) -> (r: Self)
        ensures
            r.kind() == CONTENT_TYPE_HTML@,
            r.page() == HtmlContentEncoding::Gzip(content),
    {
        Self { content_type: CONTENT_TYPE_HTML, content: HtmlContentEncoding::Gzip(content) }
    }

    /// The same handler, announcing the UTF-8 charset.
    pub fn with_utf8_charset(self) -> (r: Self)
        ensures
            r.kind() == CONTENT_TYPE_HTML_UTF8@,
            r.page() == self.page(),
    {
        Self { content_type: CONTENT_TYPE_HTML_UTF8, content: self.content }
    }

    /// The body of the response.
    pub fn body(&self) -> (r: &'a [u8])
        ensures
            r@ == self.body_bytes(),
    {
        match self.content {
            HtmlContentEncoding::Text(t) => t.as_bytes(),
            HtmlContentEncoding::Gzip(g) => g,
        }
    }

    /// The head of the response: `200 OK`, the content type and the body's
    /// length, and `Content-Encoding: gzip` for a compressed page; `None`
    /// when the length does not fit into the `Content-Length` text.
    pub fn response(&self) -> (r: Option<ResponseHead>)
        ensures
            r is Some <==> decimal(self.body_bytes().len()).len() <= CONTENT_LENGTH_TEXT_CAPACITY,
            r matches Some(h) ==> {
                &&& h.status == 200
                &&& h.reason@ == "OK"@
                &&& header_texts(h.headers@) == seq![
                    (H_CONTENT_TYPE@, self.kind()),
                    (H_CONTENT_LENGTH@, decimal(self.body_bytes().len())),
                ] + if self.page() is Gzip {
                    seq![(H_CONTENT_ENCODING@, CONTENT_ENCODING_GZIP@)]
                } else {
                    Seq::empty()
                }
            },
    {
        let body = self.body();
        let mut headers = match content_headers(self.content_type, body.len()) {
            Some(h) => h,
            None => {
                return None;
            },
        };
        let ghost before = headers@;
        match self.content {
            HtmlContentEncoding::Gzip(_) => {
                headers.push((H_CONTENT_ENCODING, CONTENT_ENCODING_GZIP.to_owned()));
                assert(header_texts(headers@) =~= header_texts(before) + seq![
                    (H_CONTENT_ENCODING@, CONTENT_ENCODING_GZIP@),
                ]);
            },
            HtmlContentEncoding::Text(_) => {
                assert(header_texts(before) =~= header_texts(before) + Seq::empty());
            },
        }
        Some(ok_head(headers))
    }
}

} // verus!
