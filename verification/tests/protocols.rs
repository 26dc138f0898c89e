use nanooctopus::detachable_buffer::DetachableBuffer;
use nanooctopus::error::Error;
use nanooctopus::http_header_parser::{HttpHeaderParser, HttpMethod, HttpParseError};
use nanooctopus::mocks::EOF;
use nanooctopus::read_stream_ext::{ReadError, ReadStreamError};
use nanooctopus::stream_request_parser::{self, StreamRequest};
use nanooctopus::ws_frame::{
    read_frame_header, WSEncodeWriter, WSOpcode, WSPayloadReader, WebSocketProtoError,
    MAX_WS_FRAME_HEADER_SIZE,
};

// ---- error messages ----

#[test]
fn test_error_display() {
    let e = Error::InvalidUrl;
    assert_eq!(e.message(), "Invalid URL");
    let e = Error::IpAddressEmpty;
    assert_eq!(e.message(), "No IP addresses returned by DNS");
    let e = Error::ServerError;
    assert_eq!(e.message(), "No response received from server");
    let e = Error::InvalidData("bad");
    assert_eq!(e.message(), "Invalid response: bad");
    let e = Error::UnsupportedScheme("ftp");
    assert_eq!(e.message(), "Unsupported scheme: ftp");
    let e = Error::HeaderError("too long");
    assert_eq!(e.message(), "Header error: too long");
    let e = Error::InvalidStatusCode;
    assert_eq!(e.message(), "Invalid status code");
}

#[test]
fn error_messages_of_the_other_variants() {
    assert_eq!(Error::SocketError.message(), "TCP communication error");
    assert_eq!(Error::ReadBufferOverflow.message(), "Read buffer overflowed");
}

struct ConnectionReset;

impl From<ConnectionReset> for Error {
    fn from(_: ConnectionReset) -> Self {
        Error::SocketError
    }
}

#[test]
fn test_from_read_error() {
    let mut read_error = ReadError::SocketReadError(ConnectionReset);
    let mut err: Error = read_error.into();
    assert!(matches!(err, Error::SocketError));

    read_error = ReadError::TargetBufferOverflow;
    err = read_error.into();
    assert!(matches!(err, Error::ReadBufferOverflow));
}

// ---- request method ----

fn parse_method(request: &[u8]) -> Result<HttpMethod, stream_request_parser::HttpParseError<EOF>> {
    let mut parser = StreamRequest::new();
    let mut buffer = [0u8; 16];
    let read_size = request.iter().position(|&b| b == b' ').unwrap() + 1;
    buffer[..read_size].copy_from_slice(&request[..read_size]);
    parser
        .parse_method::<EOF>(&mut buffer, read_size)
        .map(|(method, _next)| method)
}

#[test]
fn test_all_method_at_once() {
    let method = parse_method(b"GET ").expect("Failed to parse method");
    assert_eq!(method, HttpMethod::GET);
}

#[test]
fn method_parse_connect_and_invalid() {
    assert_eq!(parse_method(b"CONNECT ").unwrap(), HttpMethod::CONNECT);
    assert!(matches!(
        parse_method(b"INVALID /index.html HTTP/1.1\r\n"),
        Err(stream_request_parser::HttpParseError::UnsupportedMethod)
    ));
    assert!(matches!(
        parse_method(&[0xff, 0xfe, b' ']),
        Err(stream_request_parser::HttpParseError::MalformedRequest)
    ));
}

#[test]
fn method_parse_terminates_the_method() {
    let mut parser = StreamRequest::new();
    let mut buffer = [b'x'; 8];
    buffer[..4].copy_from_slice(b"PUT ");
    let _ = parser.parse_method::<EOF>(&mut buffer, 4).unwrap();
    assert_eq!(&buffer[..5], b"PUT \0");
}

// ---- request head ----

fn buffer_of(request: &str) -> DetachableBuffer<'static> {
    DetachableBuffer::new(request.as_bytes().to_vec().leak())
}

fn line_len(buffer: &DetachableBuffer) -> usize {
    let s = buffer.as_slice();
    s.windows(2).position(|w| w == b"\r\n").unwrap() + 2
}

#[test]
fn first_line_is_parsed() {
    let request = "GET /index.html HTTP/1.1\r\n";
    let mut buffer = buffer_of(request);
    let n = line_len(&buffer);
    let (first_line, _) = HttpHeaderParser::new()
        .parse_first_line::<()>(&mut buffer, n)
        .expect("Failed to parse method");
    assert_eq!(first_line.method, HttpMethod::GET);
    assert_eq!(first_line.path, "/index.html");
    assert_eq!(first_line.version, "HTTP/1.1");
    assert_eq!(buffer.len(), 0);
}

#[test]
fn first_line_errors() {
    let cases: [(&str, fn(&HttpParseError<()>) -> bool); 4] = [
        ("INVALID /index.html HTTP/1.1\r\n", |e| matches!(e, HttpParseError::UnsupportedMethod)),
        ("\r\n", |e| matches!(e, HttpParseError::NoMethod)),
        ("GET  HTTP/1.1\r\n", |e| matches!(e, HttpParseError::NoPath)),
        ("GET /index.html \r\n", |e| matches!(e, HttpParseError::NoVersion)),
    ];
    for (request, check) in cases {
        let mut buffer = buffer_of(request);
        let n = line_len(&buffer);
        let e = HttpHeaderParser::new()
            .parse_first_line::<()>(&mut buffer, n)
            .map(|_| ())
            .expect_err("expected an error");
        assert!(check(&e), "{request:?}: {e:?}");
        assert_eq!(buffer.len(), 0);
    }
}

#[test]
fn headers_and_content_length() {
    let request = "GET /index.html HTTP/1.1\r\nHost: example.com\r\nContent-Length: 123\r\n\r\n";
    let mut buffer = buffer_of(request);
    let n = line_len(&buffer);
    let (_, mut parser) = HttpHeaderParser::new().parse_first_line::<()>(&mut buffer, n).unwrap();

    let n = line_len(&buffer);
    let header = parser.parse_next_header::<()>(&mut buffer, n).unwrap().unwrap();
    assert_eq!(header.name, "Host");
    assert_eq!(header.value, "example.com");
    assert!(!parser.no_pending_headers());
    assert!(!parser.has_content_length());
    assert!(parser.content_length().is_none());

    let n = line_len(&buffer);
    let header = parser.parse_next_header::<()>(&mut buffer, n).unwrap().unwrap();
    assert_eq!(header.name, "Content-Length");
    assert_eq!(header.value, "123");
    assert!(!parser.no_pending_headers());
    assert!(!parser.body_ready());
    assert!(parser.has_content_length());
    assert_eq!(parser.content_length(), Some(123));

    let n = line_len(&buffer);
    assert!(parser.parse_next_header::<()>(&mut buffer, n).unwrap().is_none());
    assert!(parser.no_pending_headers());
    assert!(parser.body_ready());
    assert_eq!(buffer.len(), 0);
    assert_eq!(parser.finalize::<()>().unwrap(), 123);
}

#[test]
fn headers_without_content_length_cannot_finalize() {
    let request = "GET / HTTP/1.1\r\nHost: a\r\n\r\n";
    let mut buffer = buffer_of(request);
    let n = line_len(&buffer);
    let (_, mut parser) = HttpHeaderParser::new().parse_first_line::<()>(&mut buffer, n).unwrap();
    let n = line_len(&buffer);
    parser.parse_next_header::<()>(&mut buffer, n).unwrap();
    let n = line_len(&buffer);
    assert!(parser.parse_next_header::<()>(&mut buffer, n).unwrap().is_none());
    assert!(parser.no_pending_headers());
    assert!(!parser.body_ready());
    assert!(matches!(parser.finalize::<()>(), Err(HttpParseError::NoContentLength)));
}

#[test]
fn malformed_header_lines() {
    for line in ["NoColonHere\r\n", "Content-Length: abc\r\n"] {
        let request = format!("GET / HTTP/1.1\r\n{line}");
        let mut buffer = buffer_of(&request);
        let n = line_len(&buffer);
        let (_, mut parser) =
            HttpHeaderParser::new().parse_first_line::<()>(&mut buffer, n).unwrap();
        let n = line_len(&buffer);
        assert!(matches!(
            parser.parse_next_header::<()>(&mut buffer, n),
            Err(HttpParseError::MalformedRequest)
        ));
    }
}

// ---- WebSocket frames ----

const PAYLOAD: &[u8; 17] = b"Hello, WebSocket!";

const REAL_WS_PACKET: [u8; 23] = [
    0x81, 0x91, 0x37, 0xfa, 0x21, 0x3d, 0x7f, 0x9f, 0x4d, 0x51, 0x58, 0xd6, 0x01, 0x6a, 0x52,
    0x98, 0x72, 0x52, 0x54, 0x91, 0x44, 0x49, 0x16,
];

#[test]
fn test_read_and_write_packet() {
    let mut src_buf = &REAL_WS_PACKET[..];
    let mut decoded_payload_buf = [0u8; 17];
    let mut encoded_frame_buf = [0u8; REAL_WS_PACKET.len()];

    let (header, decoded_header_size) = read_frame_header(src_buf).unwrap();
    src_buf = &src_buf[decoded_header_size..];

    let mut reader = WSPayloadReader::from_header(header);
    let decoded_payload_size = reader.decode_payload(&mut decoded_payload_buf, src_buf);
    assert!(reader.is_complete());
    assert_eq!(decoded_payload_size, 17);
    assert_eq!(decoded_payload_size, reader.payload_len());

    let mut header = [0u8; MAX_WS_FRAME_HEADER_SIZE];
    let (mut writer, encoded_header_size) = WSEncodeWriter::encode_header(
        reader.payload_len(),
        &mut header,
        reader.opcode(),
        reader.fin(),
        reader.masking_key().unwrap().clone(),
    );
    encoded_frame_buf[..encoded_header_size].copy_from_slice(&header[..encoded_header_size]);

    let encoded_payload_size = writer
        .encode_payload(&mut encoded_frame_buf[encoded_header_size..], &decoded_payload_buf)
        .unwrap();

    assert_eq!(encoded_header_size, decoded_header_size);
    assert_eq!(encoded_payload_size, decoded_payload_size);

    assert_eq!(
        &encoded_frame_buf[..encoded_header_size + encoded_payload_size],
        &REAL_WS_PACKET[..]
    );
}

#[test]
fn decoded_payload_is_the_text() {
    let (header, size) = read_frame_header(&REAL_WS_PACKET).unwrap();
    assert_eq!(size, 6);
    assert!(header.fin);
    assert_eq!(header.opcode, WSOpcode::Text);
    assert_eq!(header.payload_len, 17);
    assert_eq!(header.mask_key, Some([0x37, 0xfa, 0x21, 0x3d]));
    let mut payload = REAL_WS_PACKET[6..].to_vec();
    let mut reader = WSPayloadReader::from_header(header);
    assert_eq!(reader.decode_payload_in_place(&mut payload[..10]), 10);
    assert_eq!(reader.remaining(), 7);
    assert!(!reader.is_complete());
    assert_eq!(reader.decode_payload_in_place(&mut payload[10..]), 7);
    assert!(reader.is_complete());
    assert_eq!(&payload[..], &PAYLOAD[..]);
}

#[test]
fn header_decoding_needs_more_data() {
    assert_eq!(read_frame_header(&[]).unwrap_err(), WebSocketProtoError::NotEnoughData(2));
    assert_eq!(
        read_frame_header(&REAL_WS_PACKET[..3]).unwrap_err(),
        WebSocketProtoError::NotEnoughData(6)
    );
    assert_eq!(read_frame_header(&[0x82, 126]).unwrap_err(), WebSocketProtoError::NotEnoughData(4));
    assert_eq!(
        read_frame_header(&[0x82, 127 | 0x80]).unwrap_err(),
        WebSocketProtoError::NotEnoughData(14)
    );
}

#[test]
fn header_decoding_rejects_bad_headers() {
    // a reserved bit
    assert_eq!(read_frame_header(&[0xc1, 0x00]).unwrap_err(), WebSocketProtoError::InvalidHeader);
    // an unknown opcode
    assert_eq!(read_frame_header(&[0x83, 0x00]).unwrap_err(), WebSocketProtoError::InvalidHeader);
    // a 64-bit length with its top bit set
    let mut h = [0u8; 10];
    h[0] = 0x82;
    h[1] = 127;
    h[2] = 0x80;
    assert_eq!(read_frame_header(&h).unwrap_err(), WebSocketProtoError::InvalidHeader);
}

#[test]
fn long_lengths_round_trip() {
    for len in [125usize, 126, 300, 65535, 65536, 1 << 20] {
        let mut buf = [0u8; MAX_WS_FRAME_HEADER_SIZE];
        let (_, size) =
            WSEncodeWriter::encode_header(len, &mut buf, WSOpcode::Binary, 0, [1, 2, 3, 4]);
        let (header, n) = read_frame_header(&buf[..size]).unwrap();
        assert_eq!(n, size);
        assert!(!header.fin);
        assert_eq!(header.opcode, WSOpcode::Binary);
        assert_eq!(header.payload_len, len as u64);
        assert_eq!(header.mask_key, Some([1, 2, 3, 4]));
    }
}

#[test]
fn unmasked_header_bytes() {
    let mut buf = [0u8; MAX_WS_FRAME_HEADER_SIZE];
    let size = nanooctopus::ws_frame::write_frame_header(300, &mut buf, WSOpcode::Close, 1);
    assert_eq!(&buf[..size], &[0x88, 126, 0x01, 0x2c]);
}

#[test]
fn encode_payload_refuses_more_than_announced() {
    let mut header = [0u8; MAX_WS_FRAME_HEADER_SIZE];
    let (mut writer, _) =
        WSEncodeWriter::encode_header(4, &mut header, WSOpcode::Binary, 1, [0xff, 0, 0xff, 0]);
    let mut dst = [0u8; 8];
    assert_eq!(writer.encode_payload(&mut dst, &[1, 2, 3, 4, 5]), Err(()));
    assert_eq!(writer.encode_payload(&mut dst, &[1, 2]), Ok(2));
    assert_eq!(&dst[..2], &[0xfe, 0x02]);
    let mut rest = [3u8, 4];
    assert_eq!(writer.encode_payload_in_place(&mut rest), Ok(2));
    assert_eq!(rest, [0xfc, 0x04]);
    assert_eq!(writer.encode_payload_in_place(&mut [9]), Err(()));
}

#[test]
fn stream_errors_convert() {
    let e: HttpParseError<u8> = ReadError::<u8>::TargetBufferOverflow.into();
    assert!(matches!(e, HttpParseError::ReadError(ReadError::TargetBufferOverflow)));
    let e: ReadStreamError<EOF> = EOF.into();
    assert!(matches!(e, ReadStreamError::ReadError(EOF)));
    let e: stream_request_parser::HttpParseError<EOF> = ReadStreamError::<EOF>::TargetBufferOverflow.into();
    assert!(matches!(
        e,
        stream_request_parser::HttpParseError::ReadError(ReadStreamError::TargetBufferOverflow)
    ));
    let e: nanooctopus::ws_stream::WebSocketError<u8> = WebSocketProtoError::NotEnoughData(4).into();
    assert!(matches!(e, nanooctopus::ws_stream::WebSocketError::InvalidHeader));
}

#[test]
fn both_payload_encoders_write_the_same_bytes() {
    let payload = [10u8, 20, 30, 40, 50, 60, 70];
    let key = [0x12, 0x34, 0x56, 0x78];
    let mut header = [0u8; 14];
    let (mut copying, n1) =
        WSEncodeWriter::encode_header(payload.len(), &mut header, WSOpcode::Binary, 1, key);
    let mut header2 = [0u8; 14];
    let (mut in_place, n2) =
        WSEncodeWriter::encode_header(payload.len(), &mut header2, WSOpcode::Binary, 1, key);
    assert_eq!(n1, n2);
    assert_eq!(header, header2);
    let mut dst = [0u8; 7];
    assert_eq!(copying.encode_payload(&mut dst[..3], &payload[..3]), Ok(3));
    assert_eq!(copying.encode_payload(&mut dst[3..], &payload[3..]), Ok(4));
    let mut buf = payload;
    assert_eq!(in_place.encode_payload_in_place(&mut buf[..5]), Ok(5));
    assert_eq!(in_place.encode_payload_in_place(&mut buf[5..]), Ok(2));
    assert_eq!(dst, buf);
    let expected: Vec<u8> = payload.iter().enumerate().map(|(i, b)| b ^ key[i % 4]).collect();
    assert_eq!(dst.to_vec(), expected);
}

#[test]
fn decoded_header_encodes_back_to_its_bytes() {
    let frame = [0x81u8, 0x85, 0x37, 0xfa, 0x21, 0x3d, 0x7f, 0x9f, 0x4d, 0x51, 0x58];
    let (header, size) = read_frame_header(&frame).unwrap();
    assert_eq!(size, 6);
    let mut out = [0u8; 14];
    let (_, n) = WSEncodeWriter::encode_header(
        header.payload_len as usize,
        &mut out,
        header.opcode,
        if header.fin { 1 } else { 0 },
        header.mask_key.unwrap(),
    );
    assert_eq!(n, size);
    assert_eq!(&out[..n], &frame[..size]);
}
