use nanooctopus::frame_controller::{
    CloseCode, ControlAction, FrameController, FrameHeaderInfo, FrameKind, FrameReadError,
    FrameReader, MessageType, ReadStep,
};
use nanooctopus::web_socket::{SocketState, WebSocket, WebSocketError};
use nanooctopus::ws_stream::{self, CloseStep, PipeState};
use nanooctopus::ws_frame::{WSFrameHeader, WSOpcode, WSPayloadReader};

fn header(frame_type: FrameKind, payload_len: u64) -> FrameHeaderInfo {
    FrameHeaderInfo { frame_type, payload_len, mask_key: None }
}

// ---- close codes ----

#[test]
fn close_codes_round_trip() {
    for code in [
        CloseCode::NormalClosure,
        CloseCode::GoingAway,
        CloseCode::ProtocolError,
        CloseCode::UnsupportedData,
        CloseCode::NoStatusReceived,
        CloseCode::AbnormalClosure,
        CloseCode::InvalidFramePayloadData,
        CloseCode::PolicyViolation,
        CloseCode::MessageTooBig,
        CloseCode::MandatoryExtension,
        CloseCode::InternalServerError,
        CloseCode::TryAgainLater,
    ] {
        let bytes = code.to_be_bytes();
        assert_eq!(u16::from_be_bytes(bytes), code.as_u16());
        assert!(matches!(CloseCode::from_be_bytes::<()>(bytes), Ok(c) if c == code));
    }
    assert_eq!(CloseCode::NormalClosure.as_u16(), 1000);
    assert_eq!(CloseCode::TryAgainLater.to_be_bytes(), [0x03, 0xf5]);
    assert!(matches!(CloseCode::from_be_bytes::<()>([0x03, 0xec]), Err(FrameReadError::InvalidFrame)));
}

// ---- control frames ----

#[test]
fn data_frames_pass_through() {
    let mut c = FrameController::new();
    for kind in [FrameKind::Text(false), FrameKind::Binary(true), FrameKind::Continue(true)] {
        assert!(matches!(c.on_frame_header::<()>(&header(kind, 1000)), ControlAction::Data));
    }
    assert!(!c.is_waiting_for_pong());
    assert!(!c.is_waiting_for_close_response());
}

#[test]
fn ping_is_answered_with_pong() {
    let mut c = FrameController::new();
    assert!(matches!(
        c.on_frame_header::<()>(&header(FrameKind::Ping, 5)),
        ControlAction::Reply(FrameKind::Pong)
    ));
}

#[test]
fn long_control_frames_are_refused() {
    let mut c = FrameController::new();
    assert!(matches!(
        c.on_frame_header::<()>(&header(FrameKind::Ping, 126)),
        ControlAction::Fail(FrameReadError::InvalidControlFrame)
    ));
}

#[test]
fn pong_answers_one_ping() {
    let mut c = FrameController::new();
    assert!(matches!(
        c.on_frame_header::<()>(&header(FrameKind::Pong, 0)),
        ControlAction::Fail(FrameReadError::InvalidControlFrame)
    ));
    let ping = c.send_ping().unwrap();
    assert_eq!(ping, header(FrameKind::Ping, 0));
    c.ping_sent();
    assert!(c.is_waiting_for_pong());
    assert!(c.send_ping().is_none());
    assert!(matches!(c.on_frame_header::<()>(&header(FrameKind::Pong, 0)), ControlAction::Continue));
    assert!(!c.is_waiting_for_pong());
    assert!(matches!(
        c.on_frame_header::<()>(&header(FrameKind::Pong, 0)),
        ControlAction::Fail(FrameReadError::InvalidControlFrame)
    ));
}

#[test]
fn close_handshake_started_by_us() {
    let mut c = FrameController::new();
    let (h, payload) = c.send_close(CloseCode::NormalClosure).unwrap();
    assert_eq!(h, header(FrameKind::Close, 2));
    assert_eq!(payload, [0x03, 0xe8]);
    c.close_sent();
    assert!(c.is_waiting_for_close_response());
    assert!(c.send_close(CloseCode::GoingAway).is_none());
    assert!(matches!(
        c.on_frame_header::<()>(&header(FrameKind::Close, 2)),
        ControlAction::Fail(FrameReadError::ClosedByPeer)
    ));
    assert!(!c.is_waiting_for_close_response());
    assert!(!c.is_waiting_for_pong());
}

#[test]
fn close_started_by_peer_is_echoed() {
    let mut c = FrameController::new();
    assert!(matches!(c.on_frame_header::<()>(&header(FrameKind::Close, 2)), ControlAction::ReplyAndClose));
    assert!(matches!(c.close_replied::<()>(), FrameReadError::ClosedByPeer));
}

// ---- frame reader ----

#[test]
fn reader_reads_a_fragmented_message() {
    let mut r = FrameReader::from_data_header::<()>(&header(FrameKind::Text(true), 3)).unwrap();
    assert_eq!(r.message_type(), MessageType::Text);
    assert_eq!(r.next_step(10), ReadStep::Payload(3));
    assert_eq!(r.next_step(0), ReadStep::Done);
    let mut buf = [1u8, 2, 3, 9];
    r.payload_received(&mut buf, 3);
    assert_eq!(buf, [1, 2, 3, 9]);
    assert_eq!(r.next_step(10), ReadStep::NeedContinuation);
    assert!(!r.is_finished());
    assert!(matches!(r.continuation::<()>(&header(FrameKind::Text(false), 1)), Err(FrameReadError::InvalidFrame)));
    r.continuation::<()>(&FrameHeaderInfo {
        frame_type: FrameKind::Continue(true),
        payload_len: 4,
        mask_key: Some(0x01020304),
    })
    .unwrap();
    assert_eq!(r.next_step(2), ReadStep::Payload(2));
    let mut buf = [0u8; 2];
    r.payload_received(&mut buf, 2);
    assert_eq!(buf, [0x01, 0x02]);
    let mut buf = [0u8; 2];
    r.payload_received(&mut buf, 2);
    assert_eq!(buf, [0x03, 0x04]);
    assert!(r.is_finished());
    assert_eq!(r.next_step(5), ReadStep::Done);
}

#[test]
fn continue_frame_cannot_open_a_message() {
    assert!(matches!(
        FrameReader::from_data_header::<()>(&header(FrameKind::Continue(true), 1)),
        Err(FrameReadError::InvalidFrame)
    ));
}

// ---- server connection ----

#[test]
fn new_connection_is_ready_and_binary() {
    let mut ws = WebSocket::new(());
    assert_eq!(ws.get_send_frame_type(), MessageType::Binary);
    ws.set_send_frame_type(MessageType::Text);
    assert_eq!(ws.get_send_frame_type(), MessageType::Text);
    assert!(!ws.is_message_pending());
    assert_eq!(ws.get_read_message_type(), None);
    assert!(ws.ensure_ready::<()>().is_ok());
    let h = ws.data_frame_header(7);
    assert_eq!(h, header(FrameKind::Text(false), 7));
}

#[test]
fn peer_close_while_waiting_for_data_resets_the_connection() {
    let mut ws = WebSocket::new(());
    let e = ws.data_frame_failed::<()>(FrameReadError::ClosedByPeer);
    assert!(matches!(e, WebSocketError::ConnectionReset));
    assert_eq!(ws.socket_state, SocketState::WsClosed);
    assert!(matches!(ws.ensure_ready::<()>(), Err(WebSocketError::ConnectionReset)));
    let e = ws.data_frame_failed::<u8>(FrameReadError::Socket(4));
    assert!(matches!(e, WebSocketError::Socket(4)));
}

#[test]
fn message_is_dropped_once_read() {
    let mut ws = WebSocket::new(());
    let reader = FrameReader::from_data_header::<()>(&header(FrameKind::Binary(false), 2)).unwrap();
    assert_eq!(ws.start_message(reader), MessageType::Binary);
    assert!(ws.is_message_pending());
    assert_eq!(ws.get_read_message_type(), Some(MessageType::Binary));
    ws.finish_read();
    assert!(ws.is_message_pending());
    let mut buf = [0u8; 2];
    ws.active_frame_reader.as_mut().unwrap().payload_received(&mut buf, 2);
    ws.finish_read();
    assert!(!ws.is_message_pending());
}

#[test]
fn close_handshake_outcomes() {
    let mut ws = WebSocket::new(());
    assert!(matches!(ws.close_handshake_done::<()>(Ok(())), Err(WebSocketError::InvalidFrame)));
    assert!(matches!(
        ws.close_handshake_done::<()>(Err(FrameReadError::InvalidControlFrame)),
        Err(WebSocketError::InvalidFrame)
    ));
    assert_eq!(ws.socket_state, SocketState::Ready);
    assert!(ws.close_handshake_done::<()>(Err(FrameReadError::ClosedByPeer)).is_ok());
    assert_eq!(ws.socket_state, SocketState::WsClosed);
    assert!(ws.needs_shutdown());
    ws.mark_closed();
    assert!(!ws.needs_shutdown());
}

#[test]
fn frame_errors_convert() {
    assert!(matches!(WebSocketError::from(FrameReadError::<u8>::ClosedByPeer), WebSocketError::ConnectionReset));
    assert!(matches!(WebSocketError::from(FrameReadError::<u8>::InvalidFrame), WebSocketError::InvalidFrame));
    assert!(matches!(WebSocketError::from(FrameReadError::<u8>::Socket(3)), WebSocketError::Socket(3)));
}

// ---- stream over frames ----

#[test]
fn stream_close_handshake_steps() {
    let mut ws = ws_stream::WebSocket::new(());
    assert_eq!(ws.begin_close_handshake(), CloseStep::SendCloseAndWait);
    assert_eq!(ws.close_frame_header(), 2);
    assert_eq!(&ws.send_header_buffer[..2], &[0x88, 0x00]);
    ws.close_sent();
    assert_eq!(ws.begin_close_handshake(), CloseStep::Done);

    let mut ws = ws_stream::WebSocket::new(());
    ws.close_received();
    assert_eq!(ws.begin_close_handshake(), CloseStep::SendClose);
    assert_eq!(ws.sending_state, PipeState::Closed);
}

#[test]
fn stream_reads_and_writes() {
    let mut ws = ws_stream::WebSocket::new(());
    assert!(matches!(ws.take_active_reader::<()>(), Ok(None)));
    let header = WSFrameHeader { fin: true, opcode: WSOpcode::Close, payload_len: 4, mask_key: None };
    let mut reader = WSPayloadReader::from_header(header);
    let mut buf = [1u8, 2];
    reader.decode_payload_in_place(&mut buf);
    ws.finish_read(reader);
    assert_eq!(ws.receiving_state, PipeState::Closed);
    assert!(matches!(ws.take_active_reader::<()>(), Ok(Some(_))));
    assert!(matches!(ws.take_active_reader::<()>(), Err(ws_stream::WebSocketError::Closed)));

    assert_eq!(ws.begin_write::<()>(5).unwrap(), 2);
    assert_eq!(&ws.send_header_buffer[..2], &[0x82, 5]);
    ws.close_sent();
    assert!(matches!(ws.begin_write::<()>(5), Err(ws_stream::WebSocketError::Closed)));
}

#[test]
fn masked_payload_read_in_parts_is_unmasked_whole() {
    let key: u32 = 0x0a0b0c0d;
    let key_bytes = key.to_be_bytes();
    let payload = b"Hello, parts";
    let wire: Vec<u8> = payload.iter().enumerate().map(|(i, b)| b ^ key_bytes[i % 4]).collect();
    let info = FrameHeaderInfo {
        frame_type: FrameKind::Binary(false),
        payload_len: payload.len() as u64,
        mask_key: Some(key),
    };
    let mut reader = FrameReader::from_data_header::<()>(&info).unwrap();
    let mut out = Vec::new();
    let mut pos = 0;
    for size in [3usize, 1, 5, 7] {
        let mut buf = [0u8; 7];
        match reader.next_step(size) {
            ReadStep::Payload(n) => {
                buf[..n].copy_from_slice(&wire[pos..pos + n]);
                reader.payload_received(&mut buf, n);
                out.extend_from_slice(&buf[..n]);
                pos += n;
            }
            other => panic!("unexpected step {:?}", other),
        }
    }
    assert_eq!(out, payload.to_vec());
    assert!(reader.is_finished());
    assert_eq!(reader.next_step(4), ReadStep::Done);
}
