//! Verified building blocks of a small embedded HTTP / WebSocket server:
//! byte buffers and arenas, stream-scanning state machines, HTTP request-line
//! and header parsers, the responses of the built-in handlers, WebSocket
//! frame headers and payload masking, the WebSocket control-frame state
//! machine, and the states of a WebSocket connection and of a WebSocket
//! stream.  In-memory streams for tests come along.
//!
//! The library decides; the socket I/O that carries out its decisions is
//! left to the caller.
use vstd::prelude::*;

pub mod borrowed_buffer;
pub mod detachable_buffer;
pub mod error;
pub mod find_sequence;
pub mod frame_controller;
pub mod handler;
pub mod head_arena;
pub mod head_arena_buffer;
pub mod http_header_parser;
pub mod masker;
pub mod mocks;
pub mod read_stream_ext;
pub mod socket;
pub mod stream_request_parser;
pub mod text;
pub mod web_socket;
pub mod ws_frame;
pub mod ws_stream;

verus! {

} // verus!
