use wqv_link::codec::{encode_frame, Frame};
use wqv_link::errors::WqvError;
use wqv_link::session::{Addr, Farewell, Handshake, ProtocolState};

fn interior(wire: &[u8]) -> Vec<u8> {
    wire[1..wire.len() - 1].to_vec()
}

#[test]
fn build_frame_resolves_each_address_mode() {
    let mut proto = ProtocolState::new();
    proto.watch_addr = 0x2A;
    assert_eq!(
        proto.build_frame(Addr::Auto, 0x63, &[]),
        encode_frame(0x2A, 0x63, &[])
    );
    assert_eq!(
        proto.build_frame(Addr::Broadcast, 0x63, &[]),
        encode_frame(0xFF, 0x63, &[])
    );
    assert_eq!(
        proto.build_frame(Addr::Fixed(0x07), 0x63, &[]),
        encode_frame(0x07, 0x63, &[])
    );
}

#[test]
fn accept_frame_learns_peer_address() {
    let mut proto = ProtocolState::new();
    assert_eq!(proto.watch_addr, 0xFF);

    let wire = encode_frame(0x00, 0x93, &[0x0D, 0x25, 0x07, 0x00, 0x2A]);
    let frame = proto.accept_frame(&interior(&wire)).unwrap();
    assert_eq!(frame.command, 0x93);
    assert_eq!(proto.watch_addr, 0x2A);
}

#[test]
fn accept_frame_ignores_short_address_offer() {
    let mut proto = ProtocolState::new();
    let wire = encode_frame(0x00, 0x93, &[0x0D, 0x25, 0x07, 0x00]);
    proto.accept_frame(&interior(&wire)).unwrap();
    assert_eq!(proto.watch_addr, 0xFF);
}

#[test]
fn accept_frame_reports_decode_errors() {
    let mut proto = ProtocolState::new();
    assert!(matches!(
        proto.accept_frame(&[0x01, 0x02, 0x00, 0x00]),
        Err(WqvError::ChecksumMismatch)
    ));
    assert_eq!(proto.watch_addr, 0xFF);
}

fn incoming(command: u8, payload: &[u8]) -> Frame {
    Frame { address: 0x00, command, payload: payload.to_vec() }
}

#[test]
fn handshake_emits_five_replies_in_order() {
    let mut proto = ProtocolState::new();
    let mut hs = Handshake::new(13, 37, 7);
    assert!(!hs.is_done());

    // greeting: reply carries the time, broadcast
    let w1 = hs.on_frame(&proto, &incoming(0xB3, &[])).unwrap();
    assert_eq!(w1, encode_frame(0xFF, 0xA3, &[13, 37, 7, 0x00]));

    // address offer: decoded through the session, which learns 0x2A
    let offer = encode_frame(0x00, 0x93, &[13, 37, 7, 0x00, 0x2A]);
    let offer_frame = proto.accept_frame(&interior(&offer)).unwrap();
    assert_eq!(proto.watch_addr, 0x2A);
    let w2 = hs.on_frame(&proto, &offer_frame).unwrap();
    assert_eq!(w2, encode_frame(0x2A, 0x63, &[]));

    let w3 = hs.on_frame(&proto, &incoming(0x11, &[])).unwrap();
    assert_eq!(w3, encode_frame(0x2A, 0x01, &[]));

    let w4 = hs.on_frame(&proto, &incoming(0x10, &[])).unwrap();
    assert_eq!(w4, encode_frame(0x2A, 0x21, &[]));

    assert!(!hs.is_done());
    let w5 = hs.on_frame(&proto, &incoming(0x11, &[])).unwrap();
    assert_eq!(w5, encode_frame(0x2A, 0x20, &[0x06]));
    assert!(hs.is_done());

    // a finished handshake stays silent
    assert!(hs.on_frame(&proto, &incoming(0x11, &[])).is_none());
}

#[test]
fn handshake_skips_unexpected_commands() {
    let proto = ProtocolState::new();
    let mut hs = Handshake::new(1, 2, 3);
    assert!(hs.on_frame(&proto, &incoming(0x93, &[])).is_none());
    assert!(hs.on_frame(&proto, &incoming(0x42, &[])).is_none());
    assert!(!hs.is_done());
    // still waiting for the greeting
    assert!(hs.on_frame(&proto, &incoming(0xB3, &[])).is_some());
}

#[test]
fn farewell_announces_waits_and_signs_off() {
    let mut proto = ProtocolState::new();
    proto.watch_addr = 0x2A;
    let mut fw = Farewell::new();
    assert!(!fw.is_done());

    let notice = fw.opening_frame(&proto).unwrap();
    assert_eq!(notice, encode_frame(0x2A, 0x42, &[0x06]));
    assert!(fw.opening_frame(&proto).is_none());

    // anything but the acknowledgment is skipped
    assert!(fw.on_frame(&proto, &incoming(0x11, &[])).is_none());
    assert!(!fw.is_done());

    let bye = fw.on_frame(&proto, &incoming(0x53, &[])).unwrap();
    assert_eq!(bye, encode_frame(0x2A, 0x63, &[]));
    assert!(fw.is_done());
    assert!(fw.on_frame(&proto, &incoming(0x53, &[])).is_none());
}
