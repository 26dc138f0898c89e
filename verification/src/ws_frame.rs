//! WebSocket frame headers (RFC 6455, section 5.2): encoding, decoding, and
//! an encoder that masks the payload that follows a header.
use vstd::prelude::*;

use crate::masker::{lemma_masked_involution, lemma_masked_split, masked};
use crate::find_sequence::min_int;

verus! {

/// Largest encoded frame header: 2 fixed bytes, 8 bytes of extended length
/// and a 4-byte masking key.
pub const MAX_WS_FRAME_HEADER_SIZE: usize = 14;

/// Smallest encoded frame header.
pub const MIN_WS_FRAME_HEADER_SIZE: usize = 2;

/// Frame opcodes.
#[derive(Debug, Clone, Copy, PartialEq, Eq, Structural)]
pub enum WSOpcode {
    /// Continuation of a fragmented message.
    Continuation,
    /// Text data.
    Text,
    /// Binary data.
    Binary,
    /// Connection close.
    Close,
    /// Ping.
    Ping,
    /// Pong.
    Pong,
}

/// The 4-bit value of each opcode.
pub open spec fn opcode_value(op: WSOpcode) -> u8 {
    match op {
        WSOpcode::Continuation => 0,
        WSOpcode::Text => 1,
        WSOpcode::Binary => 2,
        WSOpcode::Close => 8,
        WSOpcode::Ping => 9,
        WSOpcode::Pong => 10,
    }
}

/// The opcode with the given value, if any.
pub open spec fn opcode_of(v: u8) -> Option<WSOpcode> {
    if v == 0 {
        Some(WSOpcode::Continuation)
    } else if v == 1 {
        Some(WSOpcode::Text)
    } else if v == 2 {
        Some(WSOpcode::Binary)
    } else if v == 8 {
        Some(WSOpcode::Close)
    } else if v == 9 {
        Some(WSOpcode::Ping)
    } else if v == 10 {
        Some(WSOpcode::Pong)
    } else {
        None
    }
}

/// The opcodes are those of RFC 6455, section 5.2: Continuation 0, Text 1,
/// Binary 2, Close 8, Ping 9 and Pong 10 (0xA); reading a value gives back
/// the opcode that has it, and the reserved values are no opcode.
pub proof fn lemma_opcode_table()
    ensures
        opcode_value(WSOpcode::Continuation) == 0,
        opcode_value(WSOpcode::Text) == 1,
        opcode_value(WSOpcode::Binary) == 2,
        opcode_value(WSOpcode::Close) == 8,
        opcode_value(WSOpcode::Ping) == 9,
        opcode_value(WSOpcode::Pong) == 10,
        forall|op: WSOpcode| #[trigger] opcode_of(opcode_value(op)) == Some(op),
        forall|v: u8| #[trigger] opcode_of(v) matches Some(op) ==> opcode_value(op) == v,
        forall|v: u8|
            (3 <= v <= 7 || v >= 11) ==> #[trigger] opcode_of(v) is None,
{
    assert forall|op: WSOpcode| #[trigger] opcode_of(opcode_value(op)) == Some(op) by {
        match op {
            WSOpcode::Continuation => {},
            WSOpcode::Text => {},
            WSOpcode::Binary => {},
            WSOpcode::Close => {},
            WSOpcode::Ping => {},
            WSOpcode::Pong => {},
        }
    }
}

impl WSOpcode {
    /// The 4-bit value of the opcode.
    pub fn to_u8(self) -> (r: u8)
        ensures
            r == opcode_value(self),
    {
        match self {
            WSOpcode::Continuation => 0,
            WSOpcode::Text => 1,
            WSOpcode::Binary => 2,
            WSOpcode::Close => 8,
            WSOpcode::Ping => 9,
            WSOpcode::Pong => 10,
        }
    }

    /// The opcode with the given value, if any.
    pub fn from_u8(v: u8) -> (r: Option<WSOpcode>)
        ensures
            r == opcode_of(v),
    {
        if v == 0 {
            Some(WSOpcode::Continuation)
        } else if v == 1 {
            Some(WSOpcode::Text)
        } else if v == 2 {
            Some(WSOpcode::Binary)
        } else if v == 8 {
            Some(WSOpcode::Close)
        } else if v == 9 {
            Some(WSOpcode::Ping)
        } else if v == 10 {
            Some(WSOpcode::Pong)
        } else {
            None
        }
    }
}

/// A decoded frame header.
#[derive(Debug, Clone, Copy, PartialEq, Eq)]
pub struct WSFrameHeader {
    /// Final fragment of a message.
    pub fin: bool,
    /// The opcode.
    pub opcode: WSOpcode,
    /// Length of the payload.
    pub payload_len: u64,
    /// Masking key, for a masked frame.
    pub mask_key: Option<[u8; 4]>,
}

/// Errors of header decoding.
#[derive(Debug, PartialEq, Eq, Structural)]
pub enum WebSocketProtoError {
    /// The buffer holds only part of the header, whose whole size is given.
    NotEnoughData(usize),
    /// The header is not a valid frame header.
    InvalidHeader,
}

/// Byte `k` (0 = most significant) of the 8-byte big-endian form of `v`.
pub open spec fn be_byte(v: u64, k: int) -> u8 {
    ((v >> ((7 - k) * 8) as u64) & 0xff) as u8
}

/// Number of bytes of extended payload length that `len` needs.
pub open spec fn ext_len_size(len: u64) -> int {
    if len < 126 {
        0
    } else if len <= 0xffff {
        2
    } else {
        8
    }
}

/// Size of the encoded header of a frame with this payload length.
pub open spec fn header_size(len: u64, masked: bool) -> int {
    2 + ext_len_size(len) + if masked {
        4int
    } else {
        0int
    }
}

/// The encoded header: the flags and opcode, the mask bit with the 7-bit
/// length code, the extended length in big-endian order, and the masking key.
pub open spec fn encode_header(h: WSFrameHeader) -> Seq<u8> {
    let b0: u8 = ((if h.fin {
        0x80u8
    } else {
        0u8
    }) | opcode_value(h.opcode)) as u8;
    let mask_bit: u8 = if h.mask_key is Some {
        0x80u8
    } else {
        0u8
    };
    let len = h.payload_len;
    let code: u8 = if len < 126 {
        len as u8
    } else if len <= 0xffff {
        126u8
    } else {
        127u8
    };
    let ext: Seq<u8> = if len < 126 {
        Seq::empty()
    } else if len <= 0xffff {
        seq![be_byte(len, 6), be_byte(len, 7)]
    } else {
        Seq::new(8, |k: int| be_byte(len, k))
    };
    let key: Seq<u8> = match h.mask_key {
        Some(k) => k@,
        None => Seq::empty(),
    };
    seq![b0, (mask_bit | code) as u8] + ext + key
}

/// Writes the header of a frame into `out_buf` and returns its size.
fn write_header(
    out_buf: &mut [u8; 14],
    fin: bool,
    opcode: WSOpcode,
    payload_len: u64,
    mask_key: Option<[u8; 4]>,
) -> (size: usize)
    ensures
        ({
            let h = WSFrameHeader { fin, opcode, payload_len, mask_key };
            &&& size == encode_header(h).len()
            &&& size == header_size(payload_len, mask_key is Some)
            &&& final(out_buf)@.subrange(0, size as int) == encode_header(h)
        }),
{
    let ghost h = WSFrameHeader { fin, opcode, payload_len, mask_key };
    let b0: u8 = (if fin { 0x80u8 } else { 0u8 }) | opcode.to_u8();
    let mask_bit: u8 = if mask_key.is_some() { 0x80u8 } else { 0u8 };
    out_buf[0] = b0;
    let mut pos: usize;
    if payload_len < 126 {
        out_buf[1] = mask_bit | (payload_len as u8);
        pos = 2;
    } else if payload_len <= 0xffff {
        out_buf[1] = mask_bit | 126u8;
        out_buf[2] = ((payload_len >> 8u64) & 0xff) as u8;
        out_buf[3] = (payload_len & 0xff) as u8;
        pos = 4;
    } else {
        out_buf[1] = mask_bit | 127u8;
        out_buf[2] = ((payload_len >> 56u64) & 0xff) as u8;
        out_buf[3] = ((payload_len >> 48u64) & 0xff) as u8;
        out_buf[4] = ((payload_len >> 40u64) & 0xff) as u8;
        out_buf[5] = ((payload_len >> 32u64) & 0xff) as u8;
        out_buf[6] = ((payload_len >> 24u64) & 0xff) as u8;
        out_buf[7] = ((payload_len >> 16u64) & 0xff) as u8;
        out_buf[8] = ((payload_len >> 8u64) & 0xff) as u8;
        out_buf[9] = (payload_len & 0xff) as u8;
        pos = 10;
    }
    let ghost hdr = encode_header(h);
    assert(out_buf@[0] == hdr[0]);
    assert(out_buf@[1] == hdr[1]);
    assert(forall|i: int| 2 <= i < pos ==> out_buf@[i] == hdr[i]) by {
        assert(payload_len >> 0u64 == payload_len) by (bit_vector);
        if payload_len >= 126 && payload_len <= 0xffff {
            assert(out_buf@[2] == be_byte(payload_len, 6));
            assert(out_buf@[3] == be_byte(payload_len, 7));
        } else if payload_len > 0xffff {
            assert(out_buf@[2] == be_byte(payload_len, 0));
            assert(out_buf@[3] == be_byte(payload_len, 1));
            assert(out_buf@[4] == be_byte(payload_len, 2));
            assert(out_buf@[5] == be_byte(payload_len, 3));
            assert(out_buf@[6] == be_byte(payload_len, 4));
            assert(out_buf@[7] == be_byte(payload_len, 5));
            assert(out_buf@[8] == be_byte(payload_len, 6));
            assert(out_buf@[9] == be_byte(payload_len, 7));
        }
    }
    match mask_key {
        Some(k) => {
            out_buf[pos] = k[0];
            out_buf[pos + 1] = k[1];
            out_buf[pos + 2] = k[2];
            out_buf[pos + 3] = k[3];
            pos = pos + 4;
        },
        None => {},
    }
    assert(out_buf@.subrange(0, pos as int) =~= encode_header(h));
    pos
}

/// Writes the header of an unmasked frame and returns its size.
pub fn write_frame_header(
    payload_len: usize,
    out_buf: &mut [u8; 14],
    opcode: WSOpcode,
    fin: u8,
) -> (size: usize)
    ensures
        ({
            let h = WSFrameHeader {
                fin: fin != 0,
                opcode,
                payload_len: payload_len as u64,
                mask_key: None,
            };
            &&& size == header_size(payload_len as u64, false)
            &&& final(out_buf)@.subrange(0, size as int) == encode_header(h)
        }),
{
    write_header(out_buf, fin != 0, opcode, payload_len as u64, None)
}

/// Writes the header of a frame masked with `masking_key` and returns its size.
pub fn write_frame_header_with_mask_key(
    payload_len: usize,
    out_buf: &mut [u8; 14],
    opcode: WSOpcode,
    fin: u8,
    masking_key: [u8; 4],
) -> (size: usize)
    ensures
        ({
            let h = WSFrameHeader {
                fin: fin != 0,
                opcode,
                payload_len: payload_len as u64,
                mask_key: Some(masking_key),
            };
            &&& size == header_size(payload_len as u64, true)
            &&& final(out_buf)@.subrange(0, size as int) == encode_header(h)
        }),
{
    write_header(out_buf, fin != 0, opcode, payload_len as u64, Some(masking_key))
}


/// The header's fields as plain values, the masking key by its bytes.
pub open spec fn header_fields(h: WSFrameHeader) -> (bool, WSOpcode, u64, Option<Seq<u8>>) {
    (
        h.fin,
        h.opcode,
        h.payload_len,
        match h.mask_key {
            Some(k) => Some(k@),
            None => None,
        },
    )
}

/// Big-endian 16-bit value of the two bytes at `i`.
pub open spec fn be_u16_at(b: Seq<u8>, i: int) -> u64 {
    ((b[i] as u64) << 8u64) | (b[i + 1] as u64)
}

/// Big-endian 64-bit value of the eight bytes at `i`.
pub open spec fn be_u64_at(b: Seq<u8>, i: int) -> u64 {
    ((b[i] as u64) << 56u64) | ((b[i + 1] as u64) << 48u64) | ((b[i + 2] as u64) << 40u64) | ((
    b[i + 3] as u64) << 32u64) | ((b[i + 4] as u64) << 24u64) | ((b[i + 5] as u64) << 16u64) | ((
    b[i + 6] as u64) << 8u64) | (b[i + 7] as u64)
}

/// Decoding of a frame header at the start of `b`: the header's fields and
/// its size, `NotEnoughData` with the size needed so far when `b` is too
/// short, or `InvalidHeader` when a reserved bit is set, the opcode is
/// unknown, or a 64-bit length has its most significant bit set.
pub open spec fn decode_header(b: Seq<u8>) -> Result<
    ((bool, WSOpcode, u64, Option<Seq<u8>>), int),
    WebSocketProtoError,
> {
    if b.len() < 2 {
        Err(WebSocketProtoError::NotEnoughData(2))
    } else if b[0] & 0x70 != 0 || opcode_of(b[0] & 0x0f) is None {
        Err(WebSocketProtoError::InvalidHeader)
    } else {
        let code = b[1] & 0x7f;
        let masked = b[1] & 0x80 != 0;
        let ext: int = if code < 126 {
            0
        } else if code == 126 {
            2
        } else {
            8
        };
        let size: int = 2 + ext + if masked {
            4int
        } else {
            0int
        };
        if b.len() < size {
            Err(WebSocketProtoError::NotEnoughData(size as usize))
        } else {
            let len: u64 = if code < 126 {
                code as u64
            } else if code == 126 {
                be_u16_at(b, 2)
            } else {
                be_u64_at(b, 2)
            };
            if len >= 0x8000_0000_0000_0000 {
                Err(WebSocketProtoError::InvalidHeader)
            } else {
                let key = if masked {
                    Some(b.subrange(2 + ext, 2 + ext + 4))
                } else {
                    None
                };
                Ok(((b[0] & 0x80 != 0, opcode_of(b[0] & 0x0f).unwrap(), len, key), size))
            }
        }
    }
}

/// Decodes the frame header at the start of `buf`, returning it with its size.
pub fn read_frame_header(buf: &[u8]) -> (r: Result<(WSFrameHeader, usize), WebSocketProtoError>)
    ensures
        match r {
            Ok((h, n)) => decode_header(buf@) == Ok::<_, WebSocketProtoError>(
                (header_fields(h), n as int),
            ),
            Err(e) => decode_header(buf@) == Err::<
                ((bool, WSOpcode, u64, Option<Seq<u8>>), int),
                WebSocketProtoError,
            >(e),
        },
        r matches Err(WebSocketProtoError::NotEnoughData(n)) ==> buf@.len() < n
            <= MAX_WS_FRAME_HEADER_SIZE,
        r matches Ok((_, n)) ==> MIN_WS_FRAME_HEADER_SIZE <= n <= buf@.len() && n
            <= MAX_WS_FRAME_HEADER_SIZE,
{
    if buf.len() < 2 {
        return Err(WebSocketProtoError::NotEnoughData(2));
    }
    let b0 = buf[0];
    let b1 = buf[1];
    if b0 & 0x70 != 0 {
        return Err(WebSocketProtoError::InvalidHeader);
    }
    let opcode = match WSOpcode::from_u8(b0 & 0x0f) {
        Some(o) => o,
        None => {
            return Err(WebSocketProtoError::InvalidHeader);
        },
    };
    let code: u8 = b1 & 0x7f;
    let masked: bool = b1 & 0x80 != 0;
    let ext: usize = if code < 126 {
        0
    } else if code == 126 {
        2
    } else {
        8
    };
    let size: usize = 2 + ext + if masked {
        4usize
    } else {
        0usize
    };
    if buf.len() < size {
        return Err(WebSocketProtoError::NotEnoughData(size));
    }
    let payload_len: u64 = if code < 126 {
        code as u64
    } else if code == 126 {
        ((buf[2] as u64) << 8u64) | (buf[3] as u64)
    } else {
        ((buf[2] as u64) << 56u64) | ((buf[3] as u64) << 48u64) | ((buf[4] as u64) << 40u64) | ((
        buf[5] as u64) << 32u64) | ((buf[6] as u64) << 24u64) | ((buf[7] as u64) << 16u64) | ((
        buf[8] as u64) << 8u64) | (buf[9] as u64)
    };
    if payload_len >= 0x8000_0000_0000_0000 {
        return Err(WebSocketProtoError::InvalidHeader);
    }
    let mask_key: Option<[u8; 4]> = if masked {
        let k = [buf[2 + ext], buf[3 + ext], buf[4 + ext], buf[5 + ext]];
        assert(k@ =~= buf@.subrange(2 + ext, 2 + ext + 4));
        Some(k)
    } else {
        None
    };
    let h = WSFrameHeader { fin: b0 & 0x80 != 0, opcode, payload_len, mask_key };
    Ok((h, size))
}

proof fn lemma_first_byte(fin: bool, v: u8)
    by (bit_vector)
    requires
        v < 16,
    ensures
        ((if fin {
            0x80u8
        } else {
            0u8
        }) | v) & 0x70 == 0,
        ((if fin {
            0x80u8
        } else {
            0u8
        }) | v) & 0x0f == v,
        (((if fin {
            0x80u8
        } else {
            0u8
        }) | v) & 0x80 != 0) == fin,
{
}

proof fn lemma_second_byte(masked: bool, code: u8)
    by (bit_vector)
    requires
        code < 128,
    ensures
        ((if masked {
            0x80u8
        } else {
            0u8
        }) | code) & 0x7f == code,
        (((if masked {
            0x80u8
        } else {
            0u8
        }) | code) & 0x80 != 0) == masked,
{
}

proof fn lemma_be16_roundtrip(v: u64)
    by (bit_vector)
    requires
        v <= 0xffff,
    ensures
        ((((v >> 8u64) & 0xff) as u8 as u64) << 8u64) | (((v >> 0u64) & 0xff) as u8 as u64) == v,
{
}

proof fn lemma_be64_roundtrip(v: u64)
    by (bit_vector)
    ensures
        ((((v >> 56u64) & 0xff) as u8 as u64) << 56u64) | ((((v >> 48u64) & 0xff) as u8 as u64)
            << 48u64) | ((((v >> 40u64) & 0xff) as u8 as u64) << 40u64) | ((((v >> 32u64) & 0xff)
            as u8 as u64) << 32u64) | ((((v >> 24u64) & 0xff) as u8 as u64) << 24u64) | ((((v
            >> 16u64) & 0xff) as u8 as u64) << 16u64) | ((((v >> 8u64) & 0xff) as u8 as u64)
            << 8u64) | (((v >> 0u64) & 0xff) as u8 as u64) == v,
{
}

/// Decoding an encoded header gives back the same header and the size that
/// encoding produced, for every header whose payload length is below 2^63
/// (the largest length a frame header can carry).
pub proof fn lemma_header_roundtrip(h: WSFrameHeader)
    requires
        h.payload_len < 0x8000_0000_0000_0000,
    ensures
        decode_header(encode_header(h)) == Ok::<_, WebSocketProtoError>(
            (header_fields(h), header_size(h.payload_len, h.mask_key is Some)),
        ),
{
    let e = encode_header(h);
    let len = h.payload_len;
    let masked = h.mask_key is Some;
    let code: u8 = if len < 126 {
        len as u8
    } else if len <= 0xffff {
        126u8
    } else {
        127u8
    };
    lemma_first_byte(h.fin, opcode_value(h.opcode));
    lemma_second_byte(masked, code);
    assert(e[0] == ((if h.fin {
        0x80u8
    } else {
        0u8
    }) | opcode_value(h.opcode)) as u8);
    assert(opcode_of(opcode_value(h.opcode)) == Some(h.opcode));
    let ext: int = ext_len_size(len);
    if len >= 126 && len <= 0xffff {
        lemma_be16_roundtrip(len);
        assert(be_u16_at(e, 2) == len);
    } else if len > 0xffff {
        lemma_be64_roundtrip(len);
        assert(be_u64_at(e, 2) == len);
    }
    assert(e.len() == header_size(len, masked));
    assert(e[1] == ((if masked {
        0x80u8
    } else {
        0u8
    }) | code) as u8);
    assert(e[0] & 0x70 == 0);
    assert(e[0] & 0x0f == opcode_value(h.opcode));
    assert((e[0] & 0x80 != 0) == h.fin);
    assert(e[1] & 0x7f == code);
    assert((e[1] & 0x80 != 0) == masked);
    match h.mask_key {
        Some(k) => {
            assert(e.subrange(2 + ext, 2 + ext + 4) =~= k@);
            assert(header_fields(h).3 == Some(e.subrange(2 + ext, 2 + ext + 4)));
        },
        None => {},
    }
}

proof fn lemma_first_byte_rebuilt(b0: u8)
    by (bit_vector)
    requires
        b0 & 0x70 == 0,
    ensures
        ((if b0 & 0x80 != 0 {
            0x80u8
        } else {
            0u8
        }) | (b0 & 0x0f)) == b0,
{
}

proof fn lemma_second_byte_rebuilt(b1: u8)
    by (bit_vector)
    ensures
        ((if b1 & 0x80 != 0 {
            0x80u8
        } else {
            0u8
        }) | (b1 & 0x7f)) == b1,
{
}

proof fn lemma_be16_bytes(x: u8, y: u8)
    by (bit_vector)
    ensures
        ((((((x as u64) << 8u64) | (y as u64)) >> 8u64) & 0xff) as u8) == x,
        ((((((x as u64) << 8u64) | (y as u64)) >> 0u64) & 0xff) as u8) == y,
{
}

proof fn lemma_be64_bytes(b: Seq<u8>, v: u64)
    requires
        b.len() >= 10,
        v == be_u64_at(b, 2),
    ensures
        forall|k: int| 0 <= k < 8 ==> #[trigger] be_byte(v, k) == b[2 + k],
{
    let (x0, x1, x2, x3, x4, x5, x6, x7) = (b[2], b[3], b[4], b[5], b[6], b[7], b[8], b[9]);
    assert(((((x0 as u64) << 56u64) | ((x1 as u64) << 48u64) | ((x2 as u64) << 40u64) | ((
    x3 as u64) << 32u64) | ((x4 as u64) << 24u64) | ((x5 as u64) << 16u64) | ((x6 as u64)
        << 8u64) | (x7 as u64)) == v) ==> (((v >> 56u64) & 0xff) as u8 == x0 && ((v >> 48u64)
        & 0xff) as u8 == x1 && ((v >> 40u64) & 0xff) as u8 == x2 && ((v >> 32u64) & 0xff) as u8
        == x3 && ((v >> 24u64) & 0xff) as u8 == x4 && ((v >> 16u64) & 0xff) as u8 == x5 && ((v
        >> 8u64) & 0xff) as u8 == x6 && ((v >> 0u64) & 0xff) as u8 == x7)) by (bit_vector);
    assert forall|k: int| 0 <= k < 8 implies #[trigger] be_byte(v, k) == b[2 + k] by {
        assert(((7 - k) * 8) as u64 == 56 - 8 * k);
    }
}

/// Encoding a decoded header gives back its bytes: when the bytes at the
/// start of `b` decode to the fields of `h`, and the payload length is written
/// in the shortest form (as the encoder writes it), the encoded header is
/// exactly those bytes.  A header whose length takes a longer form than it
/// needs (a 5-byte payload announced with a 16-bit length) decodes to the same
/// fields but is not what encoding gives back.
pub proof fn lemma_header_reencode(b: Seq<u8>, h: WSFrameHeader)
    requires
        decode_header(b) matches Ok((fields, n)) && fields == header_fields(h) && n
            == header_size(h.payload_len, h.mask_key is Some),
    ensures
        encode_header(h) == b.take(header_size(h.payload_len, h.mask_key is Some)),
{
    let n = header_size(h.payload_len, h.mask_key is Some);
    let e = encode_header(h);
    let len = h.payload_len;
    let code = b[1] & 0x7f;
    let ext: int = if code < 126 {
        0
    } else if code == 126 {
        2
    } else {
        8
    };
    lemma_first_byte_rebuilt(b[0]);
    lemma_second_byte_rebuilt(b[1]);
    assert(opcode_value(h.opcode) == b[0] & 0x0f);
    assert(e[0] == b[0]);
    assert(ext == ext_len_size(len));
    let b1 = b[1];
    assert(b1 & 0x7f <= 127) by (bit_vector);
    let code_e: u8 = if len < 126 {
        len as u8
    } else if len <= 0xffff {
        126u8
    } else {
        127u8
    };
    assert(code_e == code);
    assert((h.mask_key is Some) == (b1 & 0x80 != 0));
    assert(e[1] == b[1]);
    if ext == 2 {
        lemma_be16_bytes(b[2], b[3]);
        assert(e[2] == b[2]);
        assert(e[3] == b[3]);
    } else if ext == 8 {
        lemma_be64_bytes(b, len);
        assert forall|k: int| 0 <= k < 8 implies #[trigger] e[2 + k] == b[2 + k] by {
            assert(e[2 + k] == be_byte(len, k));
        }
    }
    match h.mask_key {
        Some(k) => {
            assert forall|i: int| 0 <= i < 4 implies #[trigger] e[2 + ext + i] == b[2 + ext + i] by {
                assert(k@ == b.subrange(2 + ext, 2 + ext + 4));
            }
        },
        None => {},
    }
    assert(e =~= b.take(n));
}

/// The layout of an encoded header (RFC 6455, section 5.2): the top bit of
/// the first byte is FIN, the next three bits are zero and the low four are
/// the opcode; the top bit of the second byte says whether the frame is
/// masked and the low seven are the length, or 126 followed by a 16-bit
/// length, or 127 followed by a 64-bit length, in network byte order; the
/// masking key comes last.
pub proof fn lemma_header_layout(h: WSFrameHeader)
    ensures
        ({
            let e = encode_header(h);
            let len = h.payload_len;
            &&& (e[0] & 0x80 != 0) == h.fin
            &&& e[0] & 0x70 == 0
            &&& e[0] & 0x0f == opcode_value(h.opcode)
            &&& (e[1] & 0x80 != 0) == (h.mask_key is Some)
            &&& len < 126 ==> e[1] & 0x7f == len && e.len() == 2 + if h.mask_key is Some {
                4int
            } else {
                0int
            }
            &&& 126 <= len <= 0xffff ==> e[1] & 0x7f == 126 && be_u16_at(e, 2) == len
            &&& len > 0xffff ==> e[1] & 0x7f == 127 && be_u64_at(e, 2) == len
            &&& h.mask_key matches Some(k) ==> e.subrange(
                e.len() - 4,
                e.len() as int,
            ) == k@
        }),
{
    let e = encode_header(h);
    let len = h.payload_len;
    let masked = h.mask_key is Some;
    let code: u8 = if len < 126 {
        len as u8
    } else if len <= 0xffff {
        126u8
    } else {
        127u8
    };
    lemma_first_byte(h.fin, opcode_value(h.opcode));
    lemma_second_byte(masked, code);
    if len >= 126 && len <= 0xffff {
        lemma_be16_roundtrip(len);
    } else if len > 0xffff {
        lemma_be64_roundtrip(len);
    }
    match h.mask_key {
        Some(k) => {
            assert(e.subrange(e.len() - 4, e.len() as int) =~= k@);
        },
        None => {},
    }
}

/// The payload bytes `data`, decoded from stream position `pos` of a frame
/// with the given masking key.
pub open spec fn unmasked(key: Option<[u8; 4]>, pos: int, data: Seq<u8>) -> Seq<u8> {
    match key {
        Some(k) => masked(k@, pos, data),
        None => data,
    }
}

/// Reads the payload of one frame, removing its mask.
pub struct WSPayloadReader {
    header: WSFrameHeader,
    decoded: u64,
}

impl WSPayloadReader {
    #[verifier::type_invariant]
    spec fn inv(self) -> bool {
        self.decoded <= self.header.payload_len
    }

    /// The header of the frame.
    pub closed spec fn header(self) -> WSFrameHeader {
        self.header
    }

    /// Number of payload bytes decoded so far.
    pub closed spec fn decoded(self) -> int {
        self.decoded as int
    }

    /// Starts reading the payload of the frame with this header.
    pub fn from_header(header: WSFrameHeader) -> (r: Self)
        ensures
            r.header() == header,
            r.decoded() == 0,
    {
        WSPayloadReader { header, decoded: 0 }
    }

    /// Length of the whole payload.
    pub fn payload_len(&self) -> (r: usize)
        requires
            self.header().payload_len <= usize::MAX,
        ensures
            r == self.header().payload_len,
    {
        self.header.payload_len as usize
    }

    /// Number of payload bytes not yet decoded.
    pub fn remaining(&self) -> (r: u64)
        ensures
            r == self.header().payload_len - self.decoded(),
    {
        proof {
            use_type_invariant(self);
        }
        self.header.payload_len - self.decoded
    }

    /// Whether the whole payload has been decoded.
    pub fn is_complete(&self) -> (r: bool)
        ensures
            r == (self.decoded() == self.header().payload_len),
    {
        self.decoded == self.header.payload_len
    }

    /// The frame's opcode.
    pub fn opcode(&self) -> (r: WSOpcode)
        ensures
            r == self.header().opcode,
    {
        self.header.opcode
    }

    /// The frame's FIN flag, as 1 or 0.
    pub fn fin(&self) -> (r: u8)
        ensures
            r == (if self.header().fin {
                1u8
            } else {
                0u8
            }),
    {
        if self.header.fin {
            1
        } else {
            0
        }
    }

    /// The frame's masking key, if it is masked.
    pub fn masking_key(&self) -> (r: Option<[u8; 4]>)
        ensures
            r == self.header().mask_key,
    {
        self.header.mask_key
    }

    fn unmask_byte(&self, b: u8, i: usize) -> (r: u8)
        ensures
            r == unmasked(self.header().mask_key, self.decoded() + i, seq![b])[0],
    {
        match self.header.mask_key {
            Some(k) => {
                let j: usize = ((self.decoded % 4) as usize + i % 4) % 4;
                assert((self.decoded() + i) % 4 == ((self.decoded % 4) as int + i % 4) % 4)
                    by (nonlinear_arith);
                b ^ k[j]
            },
            None => b,
        }
    }

    /// Decodes the next payload bytes from `src` into `dst`: as many as fit
    /// in both and are left in the payload.  Returns their number.
    pub fn decode_payload(&mut self, dst: &mut [u8], src: &[u8]) -> (n: usize)
        ensures
            n == min_int(
                min_int(src@.len() as int, old(dst)@.len() as int),
                old(self).header().payload_len - old(self).decoded(),
            ),
            final(self).header() == old(self).header(),
            final(self).decoded() == old(self).decoded() + n,
            final(dst)@ == unmasked(
                old(self).header().mask_key,
                old(self).decoded(),
                src@.take(n as int),
            ) + old(dst)@.skip(n as int),
    {
        proof {
            use_type_invariant(&*self);
        }
        let rem = self.header.payload_len - self.decoded;
        let mut n: usize = if src.len() < dst.len() {
            src.len()
        } else {
            dst.len()
        };
        if (n as u64) > rem {
            n = rem as usize;
        }
        let mut i: usize = 0;
        while i < n
            invariant
                0 <= i <= n,
                n <= src.len(),
                n <= dst.len(),
                dst.len() == old(dst)@.len(),
                *self == *old(self),
                forall|j: int|
                    0 <= j < i ==> dst@[j] == unmasked(
                        self.header().mask_key,
                        self.decoded() + j,
                        seq![src@[j]],
                    )[0],
                forall|j: int| i <= j < dst@.len() ==> dst@[j] == old(dst)@[j],
            decreases n - i,
        {
            let b = self.unmask_byte(src[i], i);
            dst[i] = b;
            i = i + 1;
        }
        proof {
            let key = old(self).header().mask_key;
            let d = old(self).decoded();
            assert forall|j: int| 0 <= j < n implies dst@[j] == unmasked(
                key,
                d,
                src@.take(n as int),
            )[j] by {
                match key {
                    Some(k) => {},
                    None => {},
                }
            }
            assert(dst@ =~= unmasked(key, d, src@.take(n as int)) + old(dst)@.skip(n as int));
        }
        self.decoded = self.decoded + n as u64;
        n
    }

    /// Decodes the next payload bytes of `buf` in place: as many as it holds
    /// and are left in the payload.  Returns their number.
    pub fn decode_payload_in_place(&mut self, buf: &mut [u8]) -> (n: usize)
        ensures
            n == min_int(
                old(buf)@.len() as int,
                old(self).header().payload_len - old(self).decoded(),
            ),
            final(self).header() == old(self).header(),
            final(self).decoded() == old(self).decoded() + n,
            final(buf)@ == unmasked(
                old(self).header().mask_key,
                old(self).decoded(),
                old(buf)@.take(n as int),
            ) + old(buf)@.skip(n as int),
    {
        proof {
            use_type_invariant(&*self);
        }
        let rem = self.header.payload_len - self.decoded;
        let mut n: usize = buf.len();
        if (n as u64) > rem {
            n = rem as usize;
        }
        let mut i: usize = 0;
        while i < n
            invariant
                0 <= i <= n,
                n <= buf.len(),
                buf.len() == old(buf)@.len(),
                *self == *old(self),
                forall|j: int|
                    0 <= j < i ==> buf@[j] == unmasked(
                        self.header().mask_key,
                        self.decoded() + j,
                        seq![old(buf)@[j]],
                    )[0],
                forall|j: int| i <= j < buf@.len() ==> buf@[j] == old(buf)@[j],
            decreases n - i,
        {
            let b = self.unmask_byte(buf[i], i);
            buf[i] = b;
            i = i + 1;
        }
        proof {
            let key = old(self).header().mask_key;
            let d = old(self).decoded();
            assert forall|j: int| 0 <= j < n implies buf@[j] == unmasked(
                key,
                d,
                old(buf)@.take(n as int),
            )[j] by {
                match key {
                    Some(k) => {},
                    None => {},
                }
            }
            assert(buf@ =~= unmasked(key, d, old(buf)@.take(n as int)) + old(buf)@.skip(n as int));
        }
        self.decoded = self.decoded + n as u64;
        n
    }
}

/// Writes the header of a masked frame and then masks its payload, which may
/// come in several pieces.
pub struct WSEncodeWriter {
    free_space: usize,
    idx: usize,
    masking_key: [u8; 4],
}

impl WSEncodeWriter {
    #[verifier::type_invariant]
    spec fn inv(self) -> bool {
        self.idx + self.free_space <= usize::MAX
    }

    /// Payload bytes the header announced that are not yet written.
    pub closed spec fn free_space(self) -> int {
        self.free_space as int
    }

    /// Payload bytes written so far.
    pub closed spec fn written(self) -> int {
        self.idx as int
    }

    /// The masking key.
    pub closed spec fn key(self) -> Seq<u8> {
        self.masking_key@
    }

    /// What encoding `data` next does: `None` when `data` is longer than the
    /// payload left to write; otherwise the masked bytes that are written and
    /// the writer afterwards.  Both payload encoders follow it, so from equal
    /// writers they write the same bytes and leave equal writers.
    pub closed spec fn encode_next(self, data: Seq<u8>) -> Option<(Seq<u8>, WSEncodeWriter)> {
        if data.len() > self.free_space {
            None
        } else {
            Some(
                (
                    masked(self.masking_key@, self.idx as int, data),
                    WSEncodeWriter {
                        free_space: (self.free_space - data.len()) as usize,
                        idx: (self.idx + data.len()) as usize,
                        masking_key: self.masking_key,
                    },
                ),
            )
        }
    }

    /// Writes the header of a masked frame with a payload of `payload_len`
    /// bytes into `out_buf`; returns the writer for the payload and the size
    /// of the header.
    pub fn encode_header(
        payload_len: usize,
        out_buf: &mut [u8; 14],
        opcode: WSOpcode,
        fin: u8,
        masking_key: [u8; 4],
    ) -> (r: (Self, usize))
        ensures
            ({
                let h = WSFrameHeader {
                    fin: fin != 0,
                    opcode,
                    payload_len: payload_len as u64,
                    mask_key: Some(masking_key),
                };
                &&& r.1 == header_size(payload_len as u64, true)
                &&& final(out_buf)@.subrange(0, r.1 as int) == encode_header(h)
            }),
            r.0.free_space() == payload_len,
            r.0.written() == 0,
            r.0.key() == masking_key@,
    {
        let header_size = write_frame_header_with_mask_key(
            payload_len,
            out_buf,
            opcode,
            fin,
            masking_key,
        );
        (WSEncodeWriter { free_space: payload_len, idx: 0, masking_key }, header_size)
    }

    /// Masks `payload_src` into the front of `payload_dst` and returns its
    /// length; `Err(())` when it is longer than the payload left to write.
    pub fn encode_payload(&mut self, payload_dst: &mut [u8], payload_src: &[u8]) -> (r: Result<
        usize,
        (),
    >)
        requires
            payload_src@.len() <= old(self).free_space() ==> payload_src@.len()
                <= old(payload_dst)@.len(),
        ensures
            match old(self).encode_next(payload_src@) {
                None => r is Err && *final(self) == *old(self) && final(payload_dst)@ == old(
                    payload_dst,
                )@,
                Some((bytes, next)) => {
                    &&& r == Ok::<usize, ()>(payload_src@.len() as usize)
                    &&& *final(self) == next
                    &&& final(payload_dst)@ == bytes + old(payload_dst)@.skip(
                        payload_src@.len() as int,
                    )
                },
            },
            payload_src@.len() > old(self).free_space() <==> old(self).encode_next(payload_src@) is None,
    {
        proof {
            use_type_invariant(&*self);
        }
        if payload_src.len() > self.free_space {
            return Err(());
        }
        let n = payload_src.len();
        let ghost idx0 = self.idx;
        let mut i: usize = 0;
        while i < n
            invariant
                0 <= i <= n,
                n == payload_src@.len(),
                n <= payload_dst.len(),
                payload_dst.len() == old(payload_dst)@.len(),
                self.masking_key == old(self).masking_key,
                self.free_space == old(self).free_space - i,
                self.idx == idx0 + i,
                idx0 == old(self).idx,
                idx0 + old(self).free_space <= usize::MAX,
                n <= old(self).free_space,
                forall|j: int|
                    0 <= j < i ==> payload_dst@[j] == payload_src@[j] ^ self.masking_key@[(idx0
                        + j) % 4],
                forall|j: int| i <= j < payload_dst@.len() ==> payload_dst@[j] == old(
                    payload_dst,
                )@[j],
            decreases n - i,
        {
            let key_byte = self.masking_key[self.idx % 4];
            payload_dst[i] = payload_src[i] ^ key_byte;
            self.free_space = self.free_space - 1;
            self.idx = self.idx + 1;
            i = i + 1;
        }
        assert(payload_dst@ =~= masked(old(self).key(), old(self).written(), payload_src@) + old(
            payload_dst,
        )@.skip(n as int));
        Ok(n)
    }

    /// Masks `payload_buf` in place and returns its length; `Err(())` when it
    /// is longer than the payload left to write.
    pub fn encode_payload_in_place(&mut self, payload_buf: &mut [u8]) -> (r: Result<usize, ()>)
        ensures
            match old(self).encode_next(old(payload_buf)@) {
                None => r is Err && *final(self) == *old(self) && final(payload_buf)@ == old(
                    payload_buf,
                )@,
                Some((bytes, next)) => {
                    &&& r == Ok::<usize, ()>(old(payload_buf)@.len() as usize)
                    &&& *final(self) == next
                    &&& final(payload_buf)@ == bytes
                },
            },
            old(payload_buf)@.len() > old(self).free_space() <==> old(self).encode_next(
                old(payload_buf)@,
            ) is None,
    {
        proof {
            use_type_invariant(&*self);
        }
        if payload_buf.len() > self.free_space {
            return Err(());
        }
        let n = payload_buf.len();
        let ghost idx0 = self.idx;
        let mut i: usize = 0;
        while i < n
            invariant
                0 <= i <= n,
                n == payload_buf.len(),
                payload_buf.len() == old(payload_buf)@.len(),
                self.masking_key == old(self).masking_key,
                self.free_space == old(self).free_space - i,
                self.idx == idx0 + i,
                idx0 == old(self).idx,
                idx0 + old(self).free_space <= usize::MAX,
                n <= old(self).free_space,
                forall|j: int|
                    0 <= j < i ==> payload_buf@[j] == old(payload_buf)@[j]
                        ^ self.masking_key@[(idx0 + j) % 4],
                forall|j: int| i <= j < n ==> payload_buf@[j] == old(payload_buf)@[j],
            decreases n - i,
        {
            let key_byte = self.masking_key[self.idx % 4];
            payload_buf[i] = payload_buf[i] ^ key_byte;
            self.free_space = self.free_space - 1;
            self.idx = self.idx + 1;
            i = i + 1;
        }
        assert(payload_buf@ =~= masked(old(self).key(), old(self).written(), old(payload_buf)@));
        Ok(n)
    }
}

/// What encoding writes: the payload masked with the writer's key from the
/// position of the bytes already written, the writer moving on by their
/// number; more than the payload left is refused.
pub proof fn lemma_encode_next(w: WSEncodeWriter, data: Seq<u8>)
    requires
        w.written() + w.free_space() <= usize::MAX,
    ensures
        w.encode_next(data) is None <==> data.len() > w.free_space(),
        w.encode_next(data) matches Some((bytes, next)) ==> {
            &&& bytes == masked(w.key(), w.written(), data)
            &&& next.key() == w.key()
            &&& next.written() == w.written() + data.len()
            &&& next.free_space() == w.free_space() - data.len()
        },
{
}

/// Encoding a payload in pieces, each piece by either encoder, writes the
/// same bytes and leaves the same writer as encoding it in one piece; and it
/// is refused in pieces exactly when it is refused whole (once a piece is
/// refused, nothing has changed).
pub proof fn lemma_encode_in_pieces(w: WSEncodeWriter, a: Seq<u8>, b: Seq<u8>)
    requires
        w.written() + w.free_space() <= usize::MAX,
        w.encode_next(a) is Some,
    ensures
        ({
            let (bytes_a, wa) = w.encode_next(a).unwrap();
            &&& wa.encode_next(b) is Some <==> w.encode_next(a + b) is Some
            &&& wa.encode_next(b) matches Some((bytes_b, wb)) ==> w.encode_next(a + b) == Some(
                (bytes_a + bytes_b, wb),
            )
        }),
{
    lemma_masked_split(w.key(), w.written(), a, b);
    lemma_encode_next(w, a);
    lemma_encode_next(w, a + b);
    let (bytes_a, wa) = w.encode_next(a).unwrap();
    lemma_encode_next(wa, b);
}

/// A header is decoded from its own bytes alone: whatever follows a complete
/// header does not change how it decodes.
pub proof fn lemma_decode_ignores_rest(b: Seq<u8>, rest: Seq<u8>)
    requires
        decode_header(b) matches Ok((_, n)) && n <= b.len(),
    ensures
        decode_header(b + rest) == decode_header(b),
{
    let c = b + rest;
    assert(c[0] == b[0] && c[1] == b[1]);
    let n = decode_header(b)->Ok_0.1;
    assert forall|i: int| 0 <= i < n implies c[i] == b[i] by {}
    let code = b[1] & 0x7f;
    let ext: int = if code < 126 {
        0
    } else if code == 126 {
        2
    } else {
        8
    };
    if b[1] & 0x80 != 0 {
        assert(c.subrange(2 + ext, 2 + ext + 4) =~= b.subrange(2 + ext, 2 + ext + 4));
    }
}

/// A whole masked frame round-trips: the bytes of an encoded header, followed
/// by the payload masked with the header's key and by anything else, decode
/// to the same header and size, and unmasking the payload restores it.
pub proof fn lemma_frame_roundtrip(h: WSFrameHeader, payload: Seq<u8>, rest: Seq<u8>)
    requires
        h.payload_len < 0x8000_0000_0000_0000,
    ensures
        decode_header(encode_header(h) + (unmasked(h.mask_key, 0, payload) + rest))
            == Ok::<_, WebSocketProtoError>(
            (header_fields(h), header_size(h.payload_len, h.mask_key is Some)),
        ),
        unmasked(h.mask_key, 0, unmasked(h.mask_key, 0, payload)) == payload,
{
    lemma_header_roundtrip(h);
    lemma_decode_ignores_rest(encode_header(h), unmasked(h.mask_key, 0, payload) + rest);
    match h.mask_key {
        Some(k) => {
            lemma_masked_involution(k@, 0, payload);
        },
        None => {},
    }
}

} // verus!
