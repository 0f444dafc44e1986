use ttgtiso_desk::client::{handshake_ack_valid, handshake_frame, keyboard_event_frame, mouse_event_frame, TransportStats};
use ttgtiso_desk::protocol::frame::{Frame, FrameHeader};
use ttgtiso_desk::protocol::input::{InputEvent, KeyboardEvent};
use ttgtiso_desk::shared_types::MouseButton;

#[test]
fn client_frames() {
    let f = handshake_frame(b"{}".to_vec());
    assert_eq!(f.header.channel_id, 0);
    assert_eq!(f.header.length, 2);
    let ack = Frame { header: FrameHeader { version: 1, channel_id: 0, length: 2, flags: 1 }, payload: b"OK".to_vec() };
    assert!(handshake_ack_valid(&ack));
    let bad = Frame { header: FrameHeader { version: 1, channel_id: 1, length: 2, flags: 1 }, payload: b"OK".to_vec() };
    assert!(!handshake_ack_valid(&bad));
    let m = mouse_event_frame(2, 3, 1, 2, 0);
    assert_eq!(m.header.channel_id, 2);
    assert_eq!(m.payload[1], 0x03);
    let parsed = InputEvent::from_bytes(&m.payload).unwrap();
    match parsed {
        InputEvent::Mouse(ev) => assert_eq!(ev.button, MouseButton::Middle),
        _ => panic!("expected a mouse event"),
    }
    assert_eq!(mouse_event_frame(2, 9, 1, 2, 0).payload[1], 0x00);
    let k = keyboard_event_frame(5, 0x61);
    assert_eq!(InputEvent::from_bytes(&k.payload).unwrap(), InputEvent::Keyboard(KeyboardEvent { event_type: 5, keysym: 0x61 }));
}

#[test]
fn transfer_counters_wrap() {
    let mut s = TransportStats::new();
    s.record_sent(10);
    s.record_received(u64::MAX);
    s.record_received(2);
    assert_eq!(s.frames_sent, 1);
    assert_eq!(s.bytes_sent, 10);
    assert_eq!(s.frames_received, 2);
    assert_eq!(s.bytes_received, 1);
}
