//! The WebSocket frame state machine of the server side.
//!
//! [`FrameController`] decides what to do with each incoming frame header:
//! data frames go to the caller, Ping frames are answered with a Pong that
//! echoes the payload, a Close frame either completes a close handshake that
//! we started or is echoed back, and Pong frames are accepted only while a
//! Ping of ours is outstanding.  [`FrameReader`] tracks the payload of one
//! (possibly fragmented) data message.  The reading and writing themselves are
//! done by the caller, which reports back what happened.
use vstd::prelude::*;

use crate::masker::{lemma_masked_phase_mod, lemma_masked_split, masked, PayloadMasker};

verus! {

/// Largest payload of a control frame (RFC 6455, section 5.5).
pub const MAX_CONTROL_FRAME_PAYLOAD_LEN: u64 = 125;

/// The message type of a WebSocket message, which can be either Text or Binary.
#[derive(Copy, Clone, PartialEq, Eq, Debug, Structural)]
pub enum MessageType {
    /// Binary data message.
    Binary,
    /// Text data message.
    Text,
}

/// The type of a frame, as its header gives it.
#[derive(Copy, Clone, PartialEq, Eq, Debug, Structural)]
pub enum FrameKind {
    /// First frame of a text message; the flag tells whether more frames follow.
    Text(bool),
    /// First frame of a binary message; the flag tells whether more frames follow.
    Binary(bool),
    /// Continuation frame; the flag tells whether it is the final one.
    Continue(bool),
    /// Close control frame.
    Close,
    /// Ping control frame.
    Ping,
    /// Pong control frame.
    Pong,
}

impl MessageType {
    /// The frame type that starts (or, with `is_fragmented` false, makes up) a
    /// message of this type.
    pub fn to_frame_type(self, is_fragmented: bool) -> (r: FrameKind)
        ensures
            r == (match self {
                MessageType::Binary => FrameKind::Binary(is_fragmented),
                MessageType::Text => FrameKind::Text(is_fragmented),
            }),
    {
        match self {
            MessageType::Binary => FrameKind::Binary(is_fragmented),
            MessageType::Text => FrameKind::Text(is_fragmented),
        }
    }
}

/// The fields of a frame header that the state machine reads.
#[derive(Copy, Clone, PartialEq, Eq, Debug, Structural)]
pub struct FrameHeaderInfo {
    /// The type of the frame.
    pub frame_type: FrameKind,
    /// Length of the payload that follows the header.
    pub payload_len: u64,
    /// The masking key, for masked frames.
    pub mask_key: Option<u32>,
}

/// Errors of frame reading.
#[derive(Debug)]
pub enum FrameReadError<E> {
    /// The peer closed the connection (a Close frame was received).
    ClosedByPeer,
    /// A frame arrived that is not allowed here, or its length cannot be handled.
    InvalidFrame,
    /// A control frame is too long, or a Pong arrived that no Ping asked for.
    InvalidControlFrame,
    /// The underlying socket failed.
    Socket(E),
}

/// Status codes of a Close frame (RFC 6455, section 7.4.1).
#[derive(Debug, Copy, Clone, PartialEq, Eq, Structural)]
pub enum CloseCode {
    /// Normal closure; the connection successfully completed whatever purpose for which it was created.
    NormalClosure,
    /// The endpoint is going away.
    GoingAway,
    /// The endpoint is terminating the connection due to a protocol error.
    ProtocolError,
    /// The endpoint received data of a type it cannot accept.
    UnsupportedData,
    /// Reserved: no status code was present.
    NoStatusReceived,
    /// Reserved: the connection was closed abnormally.
    AbnormalClosure,
    /// The endpoint received data that was not consistent with the type of the message.
    InvalidFramePayloadData,
    /// The endpoint received a message that violates its policy.
    PolicyViolation,
    /// The endpoint received a message that is too big for it to process.
    MessageTooBig,
    /// The client expected the server to negotiate an extension.
    MandatoryExtension,
    /// The endpoint encountered an unexpected condition.
    InternalServerError,
    /// The endpoint is restarting; try again later.
    TryAgainLater,
}

/// The numeric value of each close code.
pub open spec fn close_code_value(c: CloseCode) -> u16 {
    match c {
        CloseCode::NormalClosure => 1000,
        CloseCode::GoingAway => 1001,
        CloseCode::ProtocolError => 1002,
        CloseCode::UnsupportedData => 1003,
        CloseCode::NoStatusReceived => 1005,
        CloseCode::AbnormalClosure => 1006,
        CloseCode::InvalidFramePayloadData => 1007,
        CloseCode::PolicyViolation => 1008,
        CloseCode::MessageTooBig => 1009,
        CloseCode::MandatoryExtension => 1010,
        CloseCode::InternalServerError => 1011,
        CloseCode::TryAgainLater => 1013,
    }
}

/// The close code with the given numeric value, if any.
pub open spec fn close_code_of(v: u16) -> Option<CloseCode> {
    if v == 1000 {
        Some(CloseCode::NormalClosure)
    } else if v == 1001 {
        Some(CloseCode::GoingAway)
    } else if v == 1002 {
        Some(CloseCode::ProtocolError)
    } else if v == 1003 {
        Some(CloseCode::UnsupportedData)
    } else if v == 1005 {
        Some(CloseCode::NoStatusReceived)
    } else if v == 1006 {
        Some(CloseCode::AbnormalClosure)
    } else if v == 1007 {
        Some(CloseCode::InvalidFramePayloadData)
    } else if v == 1008 {
        Some(CloseCode::PolicyViolation)
    } else if v == 1009 {
        Some(CloseCode::MessageTooBig)
    } else if v == 1010 {
        Some(CloseCode::MandatoryExtension)
    } else if v == 1011 {
        Some(CloseCode::InternalServerError)
    } else if v == 1013 {
        Some(CloseCode::TryAgainLater)
    } else {
        None
    }
}

/// The close status codes are those of RFC 6455, section 7.4.1: each code
/// has its number from that table, reading a number gives back the code
/// that has it, and a number that no code has is no close code.
pub proof fn lemma_close_code_table()
    ensures
        close_code_value(CloseCode::NormalClosure) == 1000,
        close_code_value(CloseCode::GoingAway) == 1001,
        close_code_value(CloseCode::ProtocolError) == 1002,
        close_code_value(CloseCode::UnsupportedData) == 1003,
        close_code_value(CloseCode::NoStatusReceived) == 1005,
        close_code_value(CloseCode::AbnormalClosure) == 1006,
        close_code_value(CloseCode::InvalidFramePayloadData) == 1007,
        close_code_value(CloseCode::PolicyViolation) == 1008,
        close_code_value(CloseCode::MessageTooBig) == 1009,
        close_code_value(CloseCode::MandatoryExtension) == 1010,
        close_code_value(CloseCode::InternalServerError) == 1011,
        close_code_value(CloseCode::TryAgainLater) == 1013,
        forall|c: CloseCode| #[trigger] close_code_of(close_code_value(c)) == Some(c),
        forall|v: u16|
            #[trigger] close_code_of(v) matches Some(c) ==> close_code_value(c) == v,
        forall|v: u16|
            (v < 1000 || v == 1004 || v == 1012 || v > 1013) ==> #[trigger] close_code_of(v)
                is None,
{
    assert forall|c: CloseCode| #[trigger] close_code_of(close_code_value(c)) == Some(c) by {
        match c {
            CloseCode::NormalClosure => {},
            CloseCode::GoingAway => {},
            CloseCode::ProtocolError => {},
            CloseCode::UnsupportedData => {},
            CloseCode::NoStatusReceived => {},
            CloseCode::AbnormalClosure => {},
            CloseCode::InvalidFramePayloadData => {},
            CloseCode::PolicyViolation => {},
            CloseCode::MessageTooBig => {},
            CloseCode::MandatoryExtension => {},
            CloseCode::InternalServerError => {},
            CloseCode::TryAgainLater => {},
        }
    }
}

/// A close code sent in its two big-endian bytes is read back as the same
/// code: the bytes of `GoingAway` are `[0x03, 0xE9]`, those of
/// `ProtocolError` are `[0x03, 0xEA]`, and so on through the table.
pub proof fn lemma_close_code_on_the_wire(c: CloseCode, b0: u8, b1: u8)
    requires
        b0 as int * 256 + b1 as int == close_code_value(c),
    ensures
        close_code_of((b0 as int * 256 + b1 as int) as u16) == Some(c),
        c == CloseCode::GoingAway ==> b0 == 0x03 && b1 == 0xE9,
        c == CloseCode::ProtocolError ==> b0 == 0x03 && b1 == 0xEA,
        c == CloseCode::NormalClosure ==> b0 == 0x03 && b1 == 0xE8,
{
    lemma_close_code_table();
}

impl CloseCode {
    /// Reads a close code from its two big-endian bytes.
    ///
    /// Fails with `InvalidFrame` on a value that is not a known close code.
    pub fn from_be_bytes<E>(bytes: [u8; 2]) -> (r: Result<Self, FrameReadError<E>>)
        ensures
            ({
                let v = bytes@[0] as int * 256 + bytes@[1] as int;
                match close_code_of(v as u16) {
                    Some(c) => r matches Ok(rc) && rc == c,
                    None => r matches Err(FrameReadError::InvalidFrame),
                }
            }),
    {
        let v: u16 = (bytes[0] as u16) * 256 + (bytes[1] as u16);
        if v == 1000 {
            Ok(CloseCode::NormalClosure)
        } else if v == 1001 {
            Ok(CloseCode::GoingAway)
        } else if v == 1002 {
            Ok(CloseCode::ProtocolError)
        } else if v == 1003 {
            Ok(CloseCode::UnsupportedData)
        } else if v == 1005 {
            Ok(CloseCode::NoStatusReceived)
        } else if v == 1006 {
            Ok(CloseCode::AbnormalClosure)
        } else if v == 1007 {
            Ok(CloseCode::InvalidFramePayloadData)
        } else if v == 1008 {
            Ok(CloseCode::PolicyViolation)
        } else if v == 1009 {
            Ok(CloseCode::MessageTooBig)
        } else if v == 1010 {
            Ok(CloseCode::MandatoryExtension)
        } else if v == 1011 {
            Ok(CloseCode::InternalServerError)
        } else if v == 1013 {
            Ok(CloseCode::TryAgainLater)
        } else {
            Err(FrameReadError::InvalidFrame)
        }
    }

    /// The numeric value of the close code.
    pub fn as_u16(self) -> (r: u16)
        ensures
            r == close_code_value(self),
    {
        match self {
            CloseCode::NormalClosure => 1000,
            CloseCode::GoingAway => 1001,
            CloseCode::ProtocolError => 1002,
            CloseCode::UnsupportedData => 1003,
            CloseCode::NoStatusReceived => 1005,
            CloseCode::AbnormalClosure => 1006,
            CloseCode::InvalidFramePayloadData => 1007,
            CloseCode::PolicyViolation => 1008,
            CloseCode::MessageTooBig => 1009,
            CloseCode::MandatoryExtension => 1010,
            CloseCode::InternalServerError => 1011,
            CloseCode::TryAgainLater => 1013,
        }
    }

    /// The two big-endian bytes of the close code, as they go on the wire.
    pub fn to_be_bytes(self) -> (r: [u8; 2])
        ensures
            r@[0] as int * 256 + r@[1] as int == close_code_value(self),
    {
        let v = self.as_u16();
        [(v / 256) as u8, (v % 256) as u8]
    }
}

/// What the caller must do with a frame header that it has just received.
#[derive(Debug)]
pub enum ControlAction<E> {
    /// A data frame: hand the header to whoever waits for data.
    Data,
    /// Read the payload and send it back in a frame of the given type, then
    /// go on with the next header.
    Reply(FrameKind),
    /// Read the payload and send it back in a Close frame, then report
    /// [`FrameController::close_replied`] and fail with `ClosedByPeer`.
    ReplyAndClose,
    /// Go on with the next header.
    Continue,
    /// Stop and fail with this error.
    Fail(FrameReadError<E>),
}

/// What the control-frame state machine does with an incoming frame header,
/// given whether a Ping and a Close of ours await their answers: the action,
/// then whether each still awaits its answer.
pub open spec fn control_outcome<E>(
    waits_for_pong: bool,
    waits_for_close: bool,
    header: FrameHeaderInfo,
) -> (ControlAction<E>, bool, bool) {
    if header.payload_len > usize::MAX {
        (ControlAction::Fail(FrameReadError::InvalidFrame), waits_for_pong, waits_for_close)
    } else {
        match header.frame_type {
            FrameKind::Text(_) | FrameKind::Binary(_) | FrameKind::Continue(_) => (
                ControlAction::Data,
                waits_for_pong,
                waits_for_close,
            ),
            _ => if header.payload_len > MAX_CONTROL_FRAME_PAYLOAD_LEN {
                (
                    ControlAction::Fail(FrameReadError::InvalidControlFrame),
                    waits_for_pong,
                    waits_for_close,
                )
            } else {
                match header.frame_type {
                    FrameKind::Close => if waits_for_close {
                        (ControlAction::Fail(FrameReadError::ClosedByPeer), false, false)
                    } else {
                        (ControlAction::ReplyAndClose, waits_for_pong, waits_for_close)
                    },
                    FrameKind::Ping => (
                        ControlAction::Reply(FrameKind::Pong),
                        waits_for_pong,
                        waits_for_close,
                    ),
                    _ => if waits_for_pong {
                        (ControlAction::Continue, false, waits_for_close)
                    } else {
                        (
                            ControlAction::Fail(FrameReadError::InvalidControlFrame),
                            waits_for_pong,
                            waits_for_close,
                        )
                    },
                }
            },
        }
    }
}

/// Tracks the control-frame exchanges that are in progress.
pub struct FrameController {
    is_wait_for_pong: bool,
    is_wait_for_close_response: bool,
}

impl FrameController {
    /// Whether a Ping of ours awaits its Pong.
    pub closed spec fn waits_for_pong(self) -> bool {
        self.is_wait_for_pong
    }

    /// Whether a Close of ours awaits the peer's Close.
    pub closed spec fn waits_for_close(self) -> bool {
        self.is_wait_for_close_response
    }

    /// A controller with no exchange in progress.
    pub fn new() -> (r: Self)
        ensures
            !r.waits_for_pong(),
            !r.waits_for_close(),
    {
        Self { is_wait_for_pong: false, is_wait_for_close_response: false }
    }

    /// Decides what to do with the header of an incoming frame.
    ///
    /// - A payload longer than `usize::MAX` fails with `InvalidFrame`.
    /// - Text, Binary and Continue frames are data.
    /// - Control frames with a payload over 125 bytes fail with `InvalidControlFrame`.
    /// - A Close frame answers our own Close when we wait for one (both waits
    ///   end and the result is `ClosedByPeer`); otherwise it must be echoed.
    /// - A Ping frame is answered with a Pong.
    /// - A Pong frame ends our wait for it; one that nobody waits for fails
    ///   with `InvalidControlFrame`.
    pub fn on_frame_header<E>(&mut self, header: &FrameHeaderInfo) -> (action: ControlAction<E>)
        ensures
            (action, final(self).waits_for_pong(), final(self).waits_for_close()) == control_outcome::<
                E,
            >(old(self).waits_for_pong(), old(self).waits_for_close(), *header),
    {
        if header.payload_len > usize::MAX as u64 {
            return ControlAction::Fail(FrameReadError::InvalidFrame);
        }
        match header.frame_type {
            FrameKind::Text(_) | FrameKind::Binary(_) | FrameKind::Continue(_) => ControlAction::Data,
            FrameKind::Close => {
                if header.payload_len > MAX_CONTROL_FRAME_PAYLOAD_LEN {
                    return ControlAction::Fail(FrameReadError::InvalidControlFrame);
                }
                if self.is_wait_for_close_response {
                    self.is_wait_for_close_response = false;
                    self.is_wait_for_pong = false;
                    ControlAction::Fail(FrameReadError::ClosedByPeer)
                } else {
                    ControlAction::ReplyAndClose
                }
            },
            FrameKind::Ping => {
                if header.payload_len > MAX_CONTROL_FRAME_PAYLOAD_LEN {
                    return ControlAction::Fail(FrameReadError::InvalidControlFrame);
                }
                ControlAction::Reply(FrameKind::Pong)
            },
            FrameKind::Pong => {
                if header.payload_len > MAX_CONTROL_FRAME_PAYLOAD_LEN {
                    return ControlAction::Fail(FrameReadError::InvalidControlFrame);
                }
                if self.is_wait_for_pong {
                    self.is_wait_for_pong = false;
                    ControlAction::Continue
                } else {
                    ControlAction::Fail(FrameReadError::InvalidControlFrame)
                }
            },
        }
    }

    /// Reports that the peer's Close frame was echoed: no Pong is awaited any
    /// more, and reading ends with `ClosedByPeer`.
    pub fn close_replied<E>(&mut self) -> (r: FrameReadError<E>)
        ensures
            r is ClosedByPeer,
            !final(self).waits_for_pong(),
            final(self).waits_for_close() == old(self).waits_for_close(),
    {
        self.is_wait_for_pong = false;
        FrameReadError::ClosedByPeer
    }

    /// The Ping frame to send, or `None` when a Ping of ours already awaits
    /// its Pong (then nothing is sent).
    pub fn send_ping(&self) -> (r: Option<FrameHeaderInfo>)
        ensures
            self.waits_for_pong() <==> r is None,
            r matches Some(h) ==> h == (FrameHeaderInfo {
                frame_type: FrameKind::Ping,
                payload_len: 0,
                mask_key: None,
            }),
    {
        if self.is_wait_for_pong {
            return None;
        }
        Some(FrameHeaderInfo { frame_type: FrameKind::Ping, payload_len: 0, mask_key: None })
    }

    /// Reports that our Ping frame was sent.
    pub fn ping_sent(&mut self)
        ensures
            final(self).waits_for_pong(),
            final(self).waits_for_close() == old(self).waits_for_close(),
    {
        self.is_wait_for_pong = true;
    }

    /// The Close frame to send with `close_code` (header and payload), or
    /// `None` when a Close of ours already awaits its answer (then nothing is sent).
    pub fn send_close(&self, close_code: CloseCode) -> (r: Option<(FrameHeaderInfo, [u8; 2])>)
        ensures
            self.waits_for_close() <==> r is None,
            r matches Some((h, p)) ==> {
                &&& h == (FrameHeaderInfo {
                    frame_type: FrameKind::Close,
                    payload_len: 2,
                    mask_key: None,
                })
                &&& p@[0] as int * 256 + p@[1] as int == close_code_value(close_code)
            },
    {
        if self.is_wait_for_close_response {
            return None;
        }
        let payload = close_code.to_be_bytes();
        Some((FrameHeaderInfo { frame_type: FrameKind::Close, payload_len: 2, mask_key: None }, payload))
    }

    /// Reports that our Close frame was sent.
    pub fn close_sent(&mut self)
        ensures
            final(self).waits_for_close(),
            final(self).waits_for_pong() == old(self).waits_for_pong(),
    {
        self.is_wait_for_close_response = true;
    }

    /// Whether we are waiting for a Close response.
    pub fn is_waiting_for_close_response(&self) -> (r: bool)
        ensures
            r == self.waits_for_close(),
    {
        self.is_wait_for_close_response
    }

    /// Whether we are waiting for a Pong response.
    pub fn is_waiting_for_pong(&self) -> (r: bool)
        ensures
            r == self.waits_for_pong(),
    {
        self.is_wait_for_pong
    }
}

/// What a [`FrameReader`] needs next to deliver payload bytes.
#[derive(Debug, PartialEq, Eq, Structural)]
pub enum ReadStep {
    /// Nothing to do: return 0 bytes read.
    Done,
    /// Read up to this many payload bytes from the socket.
    Payload(usize),
    /// The frame is exhausted but the message goes on: wait for the header
    /// of the next frame of the message.
    NeedContinuation,
}

/// Reads the payload of one data message, frame after frame.
pub struct FrameReader {
    masker: Option<PayloadMasker>,
    payload_len: usize,
    is_final: bool,
    frame_type: MessageType,
}

impl FrameReader {
    /// Payload bytes left in the current frame.
    pub closed spec fn remaining(self) -> int {
        self.payload_len as int
    }

    /// Whether the current frame is the last one of the message.
    pub closed spec fn is_last_frame(self) -> bool {
        self.is_final
    }

    /// The masker of the current frame, if it is masked.
    pub closed spec fn frame_masker(self) -> Option<PayloadMasker> {
        self.masker
    }

    /// The type of the message.
    pub closed spec fn kind(self) -> MessageType {
        self.frame_type
    }

    /// Starts reading the message that a data frame header opens.
    ///
    /// A Continue frame cannot open a message: it fails with `InvalidFrame`.
    pub fn from_data_header<E>(header: &FrameHeaderInfo) -> (r: Result<Self, FrameReadError<E>>)
        requires
            header.payload_len <= usize::MAX,
            header.frame_type is Text || header.frame_type is Binary || header.frame_type is Continue,
        ensures
            match header.frame_type {
                FrameKind::Text(frag) => r matches Ok(fr) && fr.kind() == MessageType::Text
                    && fr.is_last_frame() == !frag,
                FrameKind::Binary(frag) => r matches Ok(fr) && fr.kind() == MessageType::Binary
                    && fr.is_last_frame() == !frag,
                _ => r matches Err(FrameReadError::InvalidFrame),
            },
            r matches Ok(fr) ==> fr.remaining() == header.payload_len && match header.mask_key {
                Some(k) => fr.frame_masker() matches Some(m) && m.key()
                    == crate::masker::be_bytes(k) && m.phase() == 0,
                None => fr.frame_masker() is None,
            },
    {
        let (is_fragmented, frame_type) = match header.frame_type {
            FrameKind::Text(f) => (f, MessageType::Text),
            FrameKind::Binary(f) => (f, MessageType::Binary),
            _ => {
                return Err(FrameReadError::InvalidFrame);
            },
        };
        let masker = match header.mask_key {
            Some(k) => Some(PayloadMasker::new(k)),
            None => None,
        };
        Ok(FrameReader {
            masker,
            payload_len: header.payload_len as usize,
            is_final: !is_fragmented,
            frame_type,
        })
    }

    /// What to do to deliver payload into a buffer of `buf_len` bytes: an
    /// empty buffer gets nothing; payload left in the frame is read, at most
    /// `buf_len` bytes of it; a finished last frame gets nothing; a finished
    /// frame that is not the last needs the next frame's header.
    pub fn next_step(&self, buf_len: usize) -> (r: ReadStep)
        ensures
            r == (if buf_len == 0 {
                ReadStep::Done
            } else if self.remaining() > 0 {
                ReadStep::Payload(
                    if buf_len as int <= self.remaining() {
                        buf_len
                    } else {
                        self.remaining() as usize
                    },
                )
            } else if self.is_last_frame() {
                ReadStep::Done
            } else {
                ReadStep::NeedContinuation
            }),
    {
        if buf_len == 0 {
            return ReadStep::Done;
        }
        if self.payload_len > 0 {
            let to_read = if buf_len <= self.payload_len { buf_len } else { self.payload_len };
            return ReadStep::Payload(to_read);
        }
        if self.is_final {
            ReadStep::Done
        } else {
            ReadStep::NeedContinuation
        }
    }

    /// Accounts for `n` payload bytes that were read into `buf[..n]` and
    /// unmasks them when the frame is masked.
    pub fn payload_received(&mut self, buf: &mut [u8], n: usize)
        requires
            n <= old(self).remaining(),
            n <= old(buf)@.len(),
        ensures
            final(self).remaining() == old(self).remaining() - n,
            final(self).is_last_frame() == old(self).is_last_frame(),
            final(self).kind() == old(self).kind(),
            final(buf)@.len() == old(buf)@.len(),
            forall|j: int| n <= j < old(buf)@.len() ==> final(buf)@[j] == old(buf)@[j],
            match old(self).frame_masker() {
                Some(m) => {
                    &&& final(self).frame_masker() matches Some(m2)
                    &&& m2.key() == m.key()
                    &&& m2.phase() == (m.phase() + n) % 4
                    &&& final(buf)@.subrange(0, n as int) == masked(
                        m.key(),
                        m.phase(),
                        old(buf)@.subrange(0, n as int),
                    )
                },
                None => {
                    &&& final(self).frame_masker() is None
                    &&& final(buf)@ == old(buf)@
                },
            },
    {
        self.payload_len = self.payload_len - n;
        match self.masker.as_mut() {
            Some(masker) => {
                let (head, _tail) = buf.split_at_mut(n);
                masker.mask_chank(head);
            },
            None => {},
        }
    }

    /// Takes the header of the next frame of the message: only a Continue
    /// frame may follow (anything else fails with `InvalidFrame`), and its
    /// length must fit in `usize`.
    pub fn continuation<E>(&mut self, header: &FrameHeaderInfo) -> (r: Result<(), FrameReadError<E>>)
        ensures
            match header.frame_type {
                FrameKind::Continue(last) => if header.payload_len > usize::MAX {
                    r matches Err(FrameReadError::InvalidFrame)
                } else {
                    &&& r is Ok
                    &&& final(self).remaining() == header.payload_len
                    &&& final(self).is_last_frame() == last
                    &&& final(self).kind() == old(self).kind()
                    &&& match header.mask_key {
                        Some(k) => final(self).frame_masker() matches Some(m) && m.key()
                            == crate::masker::be_bytes(k) && m.phase() == 0,
                        None => final(self).frame_masker() is None,
                    }
                },
                _ => r matches Err(FrameReadError::InvalidFrame),
            },
    {
        match header.frame_type {
            FrameKind::Continue(is_final) => {
                if header.payload_len > usize::MAX as u64 {
                    return Err(FrameReadError::InvalidFrame);
                }
                self.is_final = is_final;
                self.payload_len = header.payload_len as usize;
                self.masker = match header.mask_key {
                    Some(k) => Some(PayloadMasker::new(k)),
                    None => None,
                };
                Ok(())
            },
            _ => Err(FrameReadError::InvalidFrame),
        }
    }

    /// The type of the current message.
    pub fn message_type(&self) -> (r: MessageType)
        ensures
            r == self.kind(),
    {
        self.frame_type
    }

    /// Returns `true` when the whole message has been read.
    pub fn is_finished(&self) -> (r: bool)
        ensures
            r == (self.remaining() == 0 && self.is_last_frame()),
    {
        self.payload_len == 0 && self.is_final
    }
}

/// The payload that reading a masked frame delivers when its bytes arrive in
/// the pieces `parts`: `payload_received` unmasks each piece from the phase
/// the masker was left at by the one before.
pub open spec fn unmasked_in_parts(key: Seq<u8>, phase: int, parts: Seq<Seq<u8>>) -> Seq<u8>
    decreases parts.len(),
{
    if parts.len() == 0 {
        Seq::empty()
    } else {
        masked(key, phase, parts[0]) + unmasked_in_parts(
            key,
            (phase + parts[0].len()) % 4,
            parts.drop_first(),
        )
    }
}

/// Reading a masked payload in pieces of any sizes unmasks it as reading it
/// in one piece would: the pieces, unmasked one after the other, are the
/// whole payload unmasked.
pub proof fn lemma_payload_in_parts(key: Seq<u8>, phase: int, parts: Seq<Seq<u8>>)
    requires
        0 <= phase,
    ensures
        unmasked_in_parts(key, phase, parts) == masked(key, phase, parts.flatten()),
    decreases parts.len(),
{
    if parts.len() == 0 {
        assert(masked(key, phase, parts.flatten()) =~= Seq::<u8>::empty());
    } else {
        let a = parts[0];
        let rest = parts.drop_first();
        lemma_payload_in_parts(key, (phase + a.len()) % 4, rest);
        lemma_masked_phase_mod(key, phase + a.len(), rest.flatten());
        lemma_masked_split(key, phase, a, rest.flatten());
        assert(parts.first() == a);
    }
}

/// The close handshake: once our Close has been sent, the peer's Close
/// completes it (reading ends with `ClosedByPeer` and nothing is awaited any
/// more); a peer that closes first has its Close echoed, with the state left
/// as it was.
pub proof fn lemma_close_handshake<E>(
    waits_for_pong: bool,
    waits_for_close: bool,
    header: FrameHeaderInfo,
)
    requires
        header.frame_type == FrameKind::Close,
        header.payload_len <= MAX_CONTROL_FRAME_PAYLOAD_LEN,
    ensures
        ({
            let (action, p, c) = control_outcome::<E>(waits_for_pong, waits_for_close, header);
            if waits_for_close {
                action matches ControlAction::Fail(FrameReadError::ClosedByPeer) && !p && !c
            } else {
                action is ReplyAndClose && p == waits_for_pong && !c
            }
        }),
{
}

/// Every Ping is answered with a Pong, whatever is awaited, and the state
/// does not change.
pub proof fn lemma_ping_is_answered<E>(
    waits_for_pong: bool,
    waits_for_close: bool,
    header: FrameHeaderInfo,
)
    requires
        header.frame_type == FrameKind::Ping,
        header.payload_len <= MAX_CONTROL_FRAME_PAYLOAD_LEN,
    ensures
        control_outcome::<E>(waits_for_pong, waits_for_close, header) == (
            ControlAction::<E>::Reply(FrameKind::Pong),
            waits_for_pong,
            waits_for_close,
        ),
{
}

/// A Pong is accepted only as the answer to a Ping of ours: the first one
/// ends the wait, and a second one, with no new Ping in between, fails with
/// `InvalidControlFrame`.
pub proof fn lemma_pong_answers_one_ping<E>(waits_for_close: bool, header: FrameHeaderInfo)
    requires
        header.frame_type == FrameKind::Pong,
        header.payload_len <= MAX_CONTROL_FRAME_PAYLOAD_LEN,
    ensures
        ({
            let (first, p, c) = control_outcome::<E>(true, waits_for_close, header);
            let (second, p2, c2) = control_outcome::<E>(p, c, header);
            &&& first is Continue
            &&& !p
            &&& c == waits_for_close
            &&& second matches ControlAction::Fail(FrameReadError::InvalidControlFrame)
            &&& p2 == p && c2 == c
        }),
{
}

/// Data frames pass to the reader without touching the control state;
/// control frames over 125 bytes are refused, also without touching it.
pub proof fn lemma_state_kept<E>(waits_for_pong: bool, waits_for_close: bool, header: FrameHeaderInfo)
    requires
        header.payload_len <= usize::MAX,
    ensures
        ({
            let (action, p, c) = control_outcome::<E>(waits_for_pong, waits_for_close, header);
            &&& (header.frame_type is Text || header.frame_type is Binary
                || header.frame_type is Continue) ==> action is Data && p == waits_for_pong && c
                == waits_for_close
            &&& !(header.frame_type is Text || header.frame_type is Binary
                || header.frame_type is Continue) && header.payload_len
                > MAX_CONTROL_FRAME_PAYLOAD_LEN ==> (action matches ControlAction::Fail(
                FrameReadError::InvalidControlFrame,
            ) && p == waits_for_pong && c == waits_for_close)
        }),
{
}

} // verus!
