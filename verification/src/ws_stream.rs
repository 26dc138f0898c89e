//! A WebSocket byte stream: reads hand out the payload of incoming frames,
//! writes send each buffer as one binary frame, and closing performs the
//! close handshake.  Each direction is a pipe that is open until a Close
//! frame passes through it.
use vstd::prelude::*;

use crate::ws_frame::{
    write_frame_header, WSFrameHeader, WSOpcode, WSPayloadReader, WebSocketProtoError,
};

verus! {

/// State of one direction of the stream.
#[derive(Debug, Clone, Copy, PartialEq, Eq, Structural)]
pub enum PipeState {
    /// Frames may pass.
    Open,
    /// A Close frame has passed.
    Closed,
}

/// Errors of the stream.
#[derive(Debug)]
pub enum WebSocketError<E> {
    /// A frame header could not be decoded.
    InvalidHeader,
    /// A buffer was too small.
    BufferOverflow,
    /// The direction used is closed.
    Closed,
    /// The underlying socket failed.
    SocketError(E),
}

impl<E> From<WebSocketProtoError> for WebSocketError<E> {
    fn from(_err: WebSocketProtoError) -> (r: WebSocketError<E>) {
        WebSocketError::InvalidHeader
    }
}

impl<E> vstd::std_specs::convert::FromSpecImpl<WebSocketProtoError> for WebSocketError<E> {
    open spec fn obeys_from_spec() -> bool {
        true
    }

    open spec fn from_spec(v: WebSocketProtoError) -> WebSocketError<E> {
        WebSocketError::InvalidHeader
    }
}

/// What the close handshake has left to do.
#[derive(Debug, Clone, Copy, PartialEq, Eq, Structural)]
pub enum CloseStep {
    /// Nothing: our Close has already been sent.
    Done,
    /// The peer's Close has already arrived: send ours, and the handshake is over.
    SendClose,
    /// Send our Close, then wait for the peer's.
    SendCloseAndWait,
}

/// A WebSocket stream over the socket `S`.
pub struct WebSocket<S> {
    /// The underlying socket.
    pub socket: S,
    /// The incoming direction.
    pub receiving_state: PipeState,
    /// The outgoing direction.
    pub sending_state: PipeState,
    /// Room for the header of an incoming frame.
    pub recv_header_buffer: [u8; 14],
    /// Room for the header of an outgoing frame.
    pub send_header_buffer: [u8; 14],
    /// The frame whose payload is being read, if unfinished.
    pub active_payload_reader: Option<WSPayloadReader>,
}

impl<S> WebSocket<S> {
    /// A stream over `socket` with both directions open.
    pub fn new(socket: S) -> (r: Self)
        ensures
            r.socket == socket,
            r.receiving_state == PipeState::Open,
            r.sending_state == PipeState::Open,
            r.active_payload_reader is None,
    {
        WebSocket {
            socket,
            receiving_state: PipeState::Open,
            sending_state: PipeState::Open,
            recv_header_buffer: [0u8; 14],
            send_header_buffer: [0u8; 14],
            active_payload_reader: None,
        }
    }

    /// Starts the close handshake: says what is left to do, marking our
    /// side closed when the peer's Close has already arrived.
    pub fn begin_close_handshake(&mut self) -> (r: CloseStep)
        ensures
            r == (if old(self).receiving_state == PipeState::Closed && old(self).sending_state
                == PipeState::Open {
                CloseStep::SendClose
            } else if old(self).sending_state == PipeState::Closed {
                CloseStep::Done
            } else {
                CloseStep::SendCloseAndWait
            }),
            final(self).sending_state == (if r == CloseStep::SendClose {
                PipeState::Closed
            } else {
                old(self).sending_state
            }),
            final(self).receiving_state == old(self).receiving_state,
            final(self).socket == old(self).socket,
            final(self).active_payload_reader == old(self).active_payload_reader,
    {
        if self.receiving_state == PipeState::Closed && self.sending_state == PipeState::Open {
            self.sending_state = PipeState::Closed;
            CloseStep::SendClose
        } else if self.sending_state == PipeState::Closed {
            CloseStep::Done
        } else {
            CloseStep::SendCloseAndWait
        }
    }

    /// Writes the header of our Close frame (no payload) into the send
    /// buffer and returns its size.
    pub fn close_frame_header(&mut self) -> (size: usize)
        ensures
            size == 2,
            final(self).send_header_buffer@.subrange(0, 2) == crate::ws_frame::encode_header(
                WSFrameHeader { fin: true, opcode: WSOpcode::Close, payload_len: 0, mask_key: None },
            ),
            final(self).socket == old(self).socket,
            final(self).receiving_state == old(self).receiving_state,
            final(self).sending_state == old(self).sending_state,
            final(self).active_payload_reader == old(self).active_payload_reader,
    {
        write_frame_header(0, &mut self.send_header_buffer, WSOpcode::Close, 1)
    }

    /// Records that our Close frame was sent.
    pub fn close_sent(&mut self)
        ensures
            final(self).sending_state == PipeState::Closed,
            final(self).receiving_state == old(self).receiving_state,
            final(self).socket == old(self).socket,
            final(self).active_payload_reader == old(self).active_payload_reader,
    {
        self.sending_state = PipeState::Closed;
    }

    /// Records that the peer's Close frame arrived.
    pub fn close_received(&mut self)
        ensures
            final(self).receiving_state == PipeState::Closed,
            final(self).sending_state == old(self).sending_state,
            final(self).socket == old(self).socket,
            final(self).active_payload_reader == old(self).active_payload_reader,
    {
        self.receiving_state = PipeState::Closed;
    }

    /// Before a read: the frame still being read if there is one; otherwise
    /// `Ok(None)` (a new header must be read), or `Closed` when the
    /// incoming direction is closed.
    pub fn take_active_reader<E>(&mut self) -> (r: Result<Option<WSPayloadReader>, WebSocketError<E>>)
        ensures
            match old(self).active_payload_reader {
                Some(pr) => r == Ok::<_, WebSocketError<E>>(Some(pr)),
                None => if old(self).receiving_state == PipeState::Closed {
                    r matches Err(WebSocketError::Closed)
                } else {
                    r == Ok::<_, WebSocketError<E>>(None::<WSPayloadReader>)
                },
            },
            final(self).active_payload_reader is None,
            final(self).receiving_state == old(self).receiving_state,
            final(self).sending_state == old(self).sending_state,
            final(self).socket == old(self).socket,
    {
        match self.active_payload_reader.take() {
            Some(reader) => Ok(Some(reader)),
            None => {
                if self.receiving_state == PipeState::Closed {
                    Err(WebSocketError::Closed)
                } else {
                    Ok(None)
                }
            },
        }
    }

    /// After the payload of `reader` was read and decoded: a Close frame
    /// closes the incoming direction, and an unfinished frame stays active.
    pub fn finish_read(&mut self, reader: WSPayloadReader)
        requires
            old(self).active_payload_reader is None,
        ensures
            final(self).receiving_state == (if reader.header().opcode == WSOpcode::Close {
                PipeState::Closed
            } else {
                old(self).receiving_state
            }),
            final(self).active_payload_reader == (if reader.decoded()
                == reader.header().payload_len {
                None
            } else {
                Some(reader)
            }),
            final(self).sending_state == old(self).sending_state,
            final(self).socket == old(self).socket,
    {
        if reader.opcode() == WSOpcode::Close {
            self.receiving_state = PipeState::Closed;
        }
        if !reader.is_complete() {
            self.active_payload_reader = Some(reader);
        }
    }

    /// Before a write of `len` bytes: `Closed` when the outgoing direction is
    /// closed; otherwise the header of the binary frame that carries them is
    /// written into the send buffer and its size returned.
    pub fn begin_write<E>(&mut self, len: usize) -> (r: Result<usize, WebSocketError<E>>)
        ensures
            old(self).sending_state == PipeState::Closed ==> r matches Err(WebSocketError::Closed),
            old(self).sending_state == PipeState::Open ==> (r matches Ok(size) && {
                &&& size == crate::ws_frame::header_size(len as u64, false)
                &&& final(self).send_header_buffer@.subrange(0, size as int)
                    == crate::ws_frame::encode_header(
                    WSFrameHeader {
                        fin: true,
                        opcode: WSOpcode::Binary,
                        payload_len: len as u64,
                        mask_key: None,
                    },
                )
            }),
            final(self).receiving_state == old(self).receiving_state,
            final(self).sending_state == old(self).sending_state,
            final(self).socket == old(self).socket,
            final(self).active_payload_reader == old(self).active_payload_reader,
    {
        if self.sending_state == PipeState::Closed {
            return Err(WebSocketError::Closed);
        }
        Ok(write_frame_header(len, &mut self.send_header_buffer, WSOpcode::Binary, 1))
    }
}

} // verus!
