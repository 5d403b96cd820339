//! One whole session against a scripted device: every byte the "device"
//! sends goes through the same scan/decode/decide path the live loop
//! uses, with the physical reads replaced by slices of a script.

use wqv_link::codec::encode_frame;
use wqv_link::image::{parse_image_blob, Timestamp};
use wqv_link::link::FrameScanner;
use wqv_link::session::{Handshake, ProtocolState};
use wqv_link::transfer::{BulkTransfer, TransferStep};

/// Reads one frame from the script as the live loop would: residual
/// bytes first, then the next scripted read.
fn read_frame(
    proto: &mut ProtocolState,
    script: &mut Vec<Vec<u8>>,
) -> wqv_link::codec::Frame {
    let mut scanner = FrameScanner::new();
    loop {
        let chunk = if proto.has_residual() {
            proto.take_residual()
        } else {
            script.remove(0)
        };
        if let Some(raw) = proto.scan_bytes(&mut scanner, &chunk) {
            return proto.accept_frame(&raw).unwrap();
        }
    }
}

#[test]
fn full_session_handshake_transfer_and_parse() {
    // the blob the device will send: name, date, 7200 pixel bytes
    let mut blob = Vec::new();
    blob.extend_from_slice(b"TEST  ");
    blob.resize(24, b' ');
    blob.extend_from_slice(&[25, 12, 31, 23, 59]);
    blob.resize(7229, 0x11);

    // the device's side of the conversation, one physical read per entry;
    // the second handshake frame is split across two reads, and the first
    // two chunk frames arrive in a single read
    let hs_frames: Vec<Vec<u8>> = vec![
        encode_frame(0x00, 0xB3, &[]),
        encode_frame(0x00, 0x93, &[1, 2, 3, 0, 0x2A]),
        encode_frame(0x00, 0x11, &[]),
        encode_frame(0x00, 0x10, &[]),
        encode_frame(0x00, 0x11, &[]),
    ];
    let mut script: Vec<Vec<u8>> = Vec::new();
    script.push(hs_frames[0].clone());
    script.push(hs_frames[1][..4].to_vec());
    script.push(hs_frames[1][4..].to_vec());
    script.push(hs_frames[2].clone());
    script.push(hs_frames[3].clone());
    script.push(hs_frames[4].clone());

    let puts = [0x32u8, 0x34, 0x36, 0x38, 0x3A, 0x3C, 0x3E, 0x30];
    let mut combined = Vec::new();
    for (i, chunk) in blob.chunks(1024).enumerate() {
        let mut payload = vec![0x05u8];
        payload.extend_from_slice(chunk);
        let frame = encode_frame(0x00, puts[i % 8], &payload);
        if i < 2 {
            combined.extend_from_slice(&frame);
        } else {
            script.push(frame);
        }
    }
    script.insert(6, combined);
    script.push(encode_frame(0x00, 0x31, &[]));

    // run the engine over the script
    let mut proto = ProtocolState::new();
    let mut hs = Handshake::new(13, 37, 7);
    let mut replies = Vec::new();
    while !hs.is_done() {
        let frame = read_frame(&mut proto, &mut script);
        if let Some(reply) = hs.on_frame(&proto, &frame) {
            replies.push(reply);
        }
    }
    assert_eq!(proto.watch_addr, 0x2A);
    assert_eq!(replies.len(), 5);
    assert_eq!(replies[0], encode_frame(0xFF, 0xA3, &[13, 37, 7, 0]));
    assert_eq!(replies[4], encode_frame(0x2A, 0x20, &[0x06]));

    let mut bt = BulkTransfer::new();
    let mut next_offset = 0usize;
    while !bt.done {
        let frame = read_frame(&mut proto, &mut script);
        match bt.on_frame(&proto, &frame).unwrap() {
            TransferStep::Finished => {}
            TransferStep::Chunk { chunk, offset, .. } => {
                assert_eq!(offset, next_offset);
                next_offset += chunk.len();
            }
        }
    }
    assert!(script.is_empty());

    let data = bt.into_data();
    assert_eq!(data, blob);
    let img = parse_image_blob(&data).unwrap();
    assert_eq!(img.name, "TEST");
    assert_eq!(
        img.date,
        Timestamp { year: 2025, month: 12, day: 31, hour: 23, minute: 59 }
    );
    assert_eq!(img.img.len(), 7200);
    assert!(img.img.iter().all(|&b| b == 0x11));
}
