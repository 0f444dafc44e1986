use ttgtiso_desk::protocol::capabilities::{
    has, negotiate, server_capabilities, CAP_AUDIO_OPUS, CAP_HW_CAPTURE, CAP_INPUT, CAP_MULTI_MONITOR,
    CAP_VIDEO_H264, CAP_VIDEO_PNG,
};
use ttgtiso_desk::protocol::file::FileChunkHeader;
use ttgtiso_desk::protocol::frame::{build_frame, Frame, FrameHeader, ProtocolError, PROTOCOL_VERSION};
use ttgtiso_desk::protocol::input::{InputDecodeError, InputEvent, KeyboardEvent, MouseEvent};
use ttgtiso_desk::shared_types::MouseButton;

#[test]
fn negotiate_returns_intersection_in_server_order() {
    let server = vec![CAP_VIDEO_H264.to_string(), CAP_VIDEO_PNG.to_string(), CAP_AUDIO_OPUS.to_string()];
    let client = vec![CAP_VIDEO_PNG.to_string(), CAP_VIDEO_H264.to_string(), "some.future.cap".to_string()];
    let negotiated = negotiate(&client, &server);
    assert_eq!(negotiated, vec![CAP_VIDEO_H264.to_string(), CAP_VIDEO_PNG.to_string()]);
}

#[test]
fn old_client_only_gets_png() {
    let server = server_capabilities();
    let legacy_client = vec![CAP_VIDEO_PNG.to_string(), CAP_INPUT.to_string()];
    let negotiated = negotiate(&legacy_client, &server);
    assert!(has(&negotiated, CAP_VIDEO_PNG));
    assert!(has(&negotiated, CAP_INPUT));
    assert!(!has(&negotiated, CAP_VIDEO_H264));
    assert!(!has(&negotiated, CAP_HW_CAPTURE));
}

#[test]
fn has_is_consistent() {
    let caps = vec![CAP_MULTI_MONITOR.to_string()];
    assert!(has(&caps, CAP_MULTI_MONITOR));
    assert!(!has(&caps, CAP_AUDIO_OPUS));
}

#[test]
fn negotiating_twice_changes_nothing() {
    let server = server_capabilities();
    let client = vec![CAP_INPUT.to_string(), CAP_VIDEO_H264.to_string(), "x".to_string()];
    let once = negotiate(&client, &server);
    let twice = negotiate(&once, &server);
    assert_eq!(once, twice);
}

#[test]
fn test_frame_serialization() {
    let frame = Frame {
        header: FrameHeader { version: PROTOCOL_VERSION, channel_id: 2, length: 5, flags: 0 },
        payload: vec![1, 2, 3, 4, 5],
    };
    let bytes = frame.to_bytes();
    let parsed = Frame::from_bytes(&bytes).unwrap();
    assert_eq!(parsed.header.channel_id, 2);
    assert_eq!(parsed.payload, vec![1, 2, 3, 4, 5]);
}

#[test]
fn test_invalid_magic() {
    let bytes = vec![0, 0, 0, 0, 1, 2, 0, 0, 0, 0, 0];
    assert!(Frame::from_bytes(&bytes).is_err());
}

#[test]
fn frame_errors_are_distinguished() {
    assert_eq!(Frame::from_bytes(&[0x54, 0x54]).unwrap_err(), ProtocolError::IncompleteHeader);
    let wrong_version = build_frame(2, 0, 0, &[]);
    assert_eq!(Frame::from_bytes(&wrong_version).unwrap_err(), ProtocolError::UnsupportedVersion(2));
    let mut short = build_frame(1, 0, 0, &[9, 9, 9]);
    short.pop();
    assert_eq!(Frame::from_bytes(&short).unwrap_err(), ProtocolError::PayloadIncomplete);
}

#[test]
fn build_frame_layout() {
    let bytes = build_frame(1, 3, 7, &[0xaa, 0xbb]);
    assert_eq!(bytes, vec![0x54, 0x54, 0x47, 0x54, 1, 3, 0, 0, 0, 2, 7, 0xaa, 0xbb]);
}

#[test]
fn test_mouse_input_binary_serialization() {
    let mouse_event = InputEvent::Mouse(MouseEvent {
        event_type: 0x01,
        button: MouseButton::Left,
        x: 800,
        y: 600,
        scroll_delta: 0,
    });
    let bytes = mouse_event.to_bytes();
    let parsed = InputEvent::from_bytes(&bytes).unwrap();
    assert_eq!(mouse_event, parsed);
}

#[test]
fn test_keyboard_input_binary_serialization() {
    let key_event = InputEvent::Keyboard(KeyboardEvent { event_type: 0x05, keysym: 0xff51 });
    let bytes = key_event.to_bytes();
    let parsed = InputEvent::from_bytes(&bytes).unwrap();
    assert_eq!(key_event, parsed);
}

#[test]
fn input_decode_errors() {
    assert_eq!(InputEvent::from_bytes(&[]), Err(InputDecodeError::Empty));
    assert_eq!(InputEvent::from_bytes(&[0x01, 0, 0]), Err(InputDecodeError::MouseTooShort));
    assert_eq!(InputEvent::from_bytes(&[0x05, 0]), Err(InputDecodeError::KeyboardTooShort));
    assert_eq!(InputEvent::from_bytes(&[0x09]), Err(InputDecodeError::UnknownEventType(0x09)));
}

#[test]
fn negative_scroll_roundtrips() {
    let ev = InputEvent::Mouse(MouseEvent { event_type: 0x04, button: MouseButton::NoButton, x: 0, y: 0, scroll_delta: -3 });
    let bytes = ev.to_bytes();
    assert_eq!(bytes, vec![0x04, 0x00, 0, 0, 0, 0, 0xff, 0xfd]);
    assert_eq!(InputEvent::from_bytes(&bytes).unwrap(), ev);
}

#[test]
fn test_file_chunk_header_binary_serialization() {
    let header = FileChunkHeader { transfer_id: 123456789, offset: 4096 };
    let bytes = header.to_bytes();
    let parsed = FileChunkHeader::from_bytes(&bytes).unwrap();
    assert_eq!(header, parsed);
}

#[test]
fn short_chunk_header_is_refused() {
    assert!(FileChunkHeader::from_bytes(&[0u8; 15]).is_err());
}
