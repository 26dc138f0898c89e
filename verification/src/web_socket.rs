//! The server-side WebSocket connection: its state, and the decisions each
//! operation makes before and after the socket work that its caller does.
//!
//! A connection is `Ready` until the close handshake completes (`WsClosed`:
//! the socket is still open but no more messages pass) or the socket is shut
//! down (`Closed`).  Every read, write and readiness query on a connection
//! that is not `Ready` fails with `ConnectionReset`.
use vstd::prelude::*;

use crate::frame_controller::{
    FrameController, FrameHeaderInfo, FrameKind, FrameReadError, FrameReader, MessageType,
};

verus! {

/// Errors that can occur during WebSocket operations.
#[derive(Debug)]
pub enum WebSocketError<E> {
    /// The connection has been reset by the peer or already closed by us.
    ConnectionReset,
    /// The WebSocket frame is invalid.
    InvalidFrame,
    /// The connection is in an invalid state.
    ConnectionAborted,
    /// An error occurred in the underlying socket.
    Socket(E),
}

/// The error that a frame-reading error stands for: the peer's Close is a
/// reset connection, a socket error stays one, anything else is an invalid frame.
pub open spec fn frame_read_error_kind<E>(e: FrameReadError<E>) -> WebSocketError<E> {
    match e {
        FrameReadError::Socket(se) => WebSocketError::Socket(se),
        FrameReadError::ClosedByPeer => WebSocketError::ConnectionReset,
        _ => WebSocketError::InvalidFrame,
    }
}

impl<E> From<FrameReadError<E>> for WebSocketError<E> {
    fn from(error: FrameReadError<E>) -> (r: WebSocketError<E>) {
        match error {
            FrameReadError::Socket(se) => WebSocketError::Socket(se),
            FrameReadError::ClosedByPeer => WebSocketError::ConnectionReset,
            _ => WebSocketError::InvalidFrame,
        }
    }
}

impl<E> vstd::std_specs::convert::FromSpecImpl<FrameReadError<E>> for WebSocketError<E> {
    open spec fn obeys_from_spec() -> bool {
        true
    }

    open spec fn from_spec(v: FrameReadError<E>) -> WebSocketError<E> {
        frame_read_error_kind(v)
    }
}

/// State of a connection.
#[derive(Copy, Clone, PartialEq, Eq, Debug, Structural)]
pub enum SocketState {
    /// Ready for reading and writing.
    Ready,
    /// The close handshake is done; the socket is still open.
    WsClosed,
    /// The connection and its socket are closed.
    Closed,
}

/// A WebSocket connection over the transport socket `S`.
pub struct WebSocket<S> {
    /// The transport socket.
    pub inner: S,
    /// The control-frame state machine.
    pub frame_controller: FrameController,
    /// The message being read, if one is unfinished.
    pub active_frame_reader: Option<FrameReader>,
    /// The type of outgoing messages.
    pub send_frame_type: MessageType,
    /// The state of the connection.
    pub socket_state: SocketState,
}

impl<S> WebSocket<S> {
    /// A ready connection over `socket`, sending binary messages.
    pub fn new(socket: S) -> (r: Self)
        ensures
            r.inner == socket,
            !r.frame_controller.waits_for_pong(),
            !r.frame_controller.waits_for_close(),
            r.active_frame_reader is None,
            r.send_frame_type == MessageType::Binary,
            r.socket_state == SocketState::Ready,
    {
        WebSocket {
            inner: socket,
            frame_controller: FrameController::new(),
            active_frame_reader: None,
            send_frame_type: MessageType::Binary,
            socket_state: SocketState::Ready,
        }
    }

    /// Set the frame type for outgoing frames.
    pub fn set_send_frame_type(&mut self, frame_type: MessageType)
        ensures
            final(self).send_frame_type == frame_type,
            final(self).inner == old(self).inner,
            final(self).frame_controller == old(self).frame_controller,
            final(self).active_frame_reader == old(self).active_frame_reader,
            final(self).socket_state == old(self).socket_state,
    {
        self.send_frame_type = frame_type;
    }

    /// Get the current frame type for outgoing frames.
    pub fn get_send_frame_type(&self) -> (r: MessageType)
        ensures
            r == self.send_frame_type,
    {
        self.send_frame_type
    }

    /// Whether a message is being read and is unfinished.
    pub fn is_message_pending(&self) -> (r: bool)
        ensures
            r == self.active_frame_reader is Some,
    {
        self.active_frame_reader.is_some()
    }

    /// The type of the message being read, if any.
    pub fn get_read_message_type(&self) -> (r: Option<MessageType>)
        ensures
            r == match self.active_frame_reader {
                Some(fr) => Some(fr.kind()),
                None => None,
            },
    {
        match &self.active_frame_reader {
            Some(reader) => Some(reader.message_type()),
            None => None,
        }
    }

    /// The check that every read, write, flush and readiness query makes
    /// first: `ConnectionReset` unless the connection is ready.
    pub fn ensure_ready<E>(&self) -> (r: Result<(), WebSocketError<E>>)
        ensures
            r is Ok <==> self.socket_state == SocketState::Ready,
            r matches Err(e) ==> e is ConnectionReset,
    {
        if self.socket_state != SocketState::Ready {
            return Err(WebSocketError::ConnectionReset);
        }
        Ok(())
    }

    /// Handles the failure of waiting for a data frame: when the peer closed
    /// the connection, the close handshake is done (`WsClosed`).  Returns the
    /// error to report.
    pub fn data_frame_failed<E>(&mut self, e: FrameReadError<E>) -> (r: WebSocketError<E>)
        ensures
            r == frame_read_error_kind(e),
            final(self).socket_state == (if e is ClosedByPeer {
                SocketState::WsClosed
            } else {
                old(self).socket_state
            }),
            final(self).inner == old(self).inner,
            final(self).frame_controller == old(self).frame_controller,
            final(self).active_frame_reader == old(self).active_frame_reader,
            final(self).send_frame_type == old(self).send_frame_type,
    {
        if let FrameReadError::ClosedByPeer = e {
            self.socket_state = SocketState::WsClosed;
        }
        WebSocketError::from(e)
    }

    /// Makes `reader` the message being read, and returns its type.
    pub fn start_message(&mut self, reader: FrameReader) -> (r: MessageType)
        ensures
            r == reader.kind(),
            final(self).active_frame_reader == Some(reader),
            final(self).inner == old(self).inner,
            final(self).frame_controller == old(self).frame_controller,
            final(self).send_frame_type == old(self).send_frame_type,
            final(self).socket_state == old(self).socket_state,
    {
        let t = reader.message_type();
        self.active_frame_reader = Some(reader);
        t
    }

    /// After a read: the message is dropped once it has been read whole, so
    /// that the next read waits for a new one.
    pub fn finish_read(&mut self)
        ensures
            final(self).active_frame_reader == (match old(self).active_frame_reader {
                Some(fr) => if fr.remaining() == 0 && fr.is_last_frame() {
                    None
                } else {
                    Some(fr)
                },
                None => None,
            }),
            final(self).inner == old(self).inner,
            final(self).frame_controller == old(self).frame_controller,
            final(self).send_frame_type == old(self).send_frame_type,
            final(self).socket_state == old(self).socket_state,
    {
        let finished = match &self.active_frame_reader {
            Some(reader) => reader.is_finished(),
            None => false,
        };
        if finished {
            self.active_frame_reader = None;
        }
    }

    /// The header of the frame that carries an outgoing message of
    /// `payload_len` bytes: a single, unmasked frame of the send type.
    pub fn data_frame_header(&self, payload_len: usize) -> (r: FrameHeaderInfo)
        ensures
            r == (FrameHeaderInfo {
                frame_type: match self.send_frame_type {
                    MessageType::Binary => FrameKind::Binary(false),
                    MessageType::Text => FrameKind::Text(false),
                },
                payload_len: payload_len as u64,
                mask_key: None,
            }),
    {
        FrameHeaderInfo {
            frame_type: self.send_frame_type.to_frame_type(false),
            payload_len: payload_len as u64,
            mask_key: None,
        }
    }

    /// Concludes the close handshake from the outcome of processing the
    /// control frames that followed our Close: the peer's Close
    /// (`ClosedByPeer`) completes it and the connection becomes `WsClosed`;
    /// any other error is reported; control processing that ended without
    /// the peer's Close means an unexpected data frame, `InvalidFrame`.
    pub fn close_handshake_done<E>(&mut self, outcome: Result<(), FrameReadError<E>>) -> (r: Result<
        (),
        WebSocketError<E>,
    >)
        ensures
            match outcome {
                Err(FrameReadError::ClosedByPeer) => r is Ok && final(self).socket_state
                    == SocketState::WsClosed,
                Err(e) => r == Err::<(), _>(frame_read_error_kind(e)) && final(self).socket_state
                    == old(self).socket_state,
                Ok(()) => r matches Err(WebSocketError::InvalidFrame) && final(self).socket_state
                    == old(self).socket_state,
            },
            final(self).inner == old(self).inner,
            final(self).frame_controller == old(self).frame_controller,
            final(self).active_frame_reader == old(self).active_frame_reader,
            final(self).send_frame_type == old(self).send_frame_type,
    {
        match outcome {
            Err(FrameReadError::ClosedByPeer) => {
                self.socket_state = SocketState::WsClosed;
                Ok(())
            },
            Err(e) => Err(WebSocketError::from(e)),
            Ok(()) => Err(WebSocketError::InvalidFrame),
        }
    }

    /// Whether closing or aborting still has work to do: not once the
    /// connection is `Closed`.
    pub fn needs_shutdown(&self) -> (r: bool)
        ensures
            r == (self.socket_state != SocketState::Closed),
    {
        self.socket_state != SocketState::Closed
    }

    /// Records that the socket has been closed or aborted.
    pub fn mark_closed(&mut self)
        ensures
            final(self).socket_state == SocketState::Closed,
            final(self).inner == old(self).inner,
            final(self).frame_controller == old(self).frame_controller,
            final(self).active_frame_reader == old(self).active_frame_reader,
            final(self).send_frame_type == old(self).send_frame_type,
    {
        self.socket_state = SocketState::Closed;
    }
}

} // verus!
