use wqv_link::codec::encode_frame;
use wqv_link::link::FrameScanner;
use wqv_link::session::ProtocolState;

#[test]
fn scanner_skips_leading_noise() {
    let wire = encode_frame(0x12, 0x34, &[0x01, 0x02]);
    let mut noisy: Vec<u8> = vec![0x00, 0x55, 0xAA, 0xC1, 0x7D];
    noisy.extend_from_slice(&wire);

    let mut clean_scanner = FrameScanner::new();
    let (clean_frame, clean_rest) = clean_scanner.feed(&wire).unwrap();
    let mut noisy_scanner = FrameScanner::new();
    let (noisy_frame, noisy_rest) = noisy_scanner.feed(&noisy).unwrap();

    assert_eq!(noisy_frame, clean_frame);
    assert_eq!(clean_frame, wire[1..wire.len() - 1].to_vec());
    assert!(clean_rest.is_empty() && noisy_rest.is_empty());
}

#[test]
fn scanner_joins_split_reads() {
    let wire = encode_frame(0x12, 0x34, &[0x0A, 0x0B, 0x0C]);
    let mut scanner = FrameScanner::new();
    assert!(scanner.feed(&wire[..2]).is_none());
    assert!(scanner.feed(&wire[2..4]).is_none());
    let (frame, rest) = scanner.feed(&wire[4..]).unwrap();
    assert_eq!(frame, wire[1..wire.len() - 1].to_vec());
    assert!(rest.is_empty());
}

#[test]
fn scanner_returns_two_frames_in_order() {
    let first = encode_frame(0x12, 0x34, &[0x01]);
    let second = encode_frame(0x12, 0x36, &[0x02]);
    let mut stream = first.clone();
    stream.extend_from_slice(&second);
    stream.push(0x99); // trailing bytes beyond the second frame

    let mut scanner = FrameScanner::new();
    let (frame1, rest1) = scanner.feed(&stream).unwrap();
    assert_eq!(frame1, first[1..first.len() - 1].to_vec());
    let mut expected_rest: Vec<u8> = second.clone();
    expected_rest.push(0x99);
    assert_eq!(rest1, expected_rest);

    let (frame2, rest2) = scanner.feed(&rest1).unwrap();
    assert_eq!(frame2, second[1..second.len() - 1].to_vec());
    assert_eq!(rest2, vec![0x99]);
}

#[test]
fn session_keeps_residual_between_scans() {
    let first = encode_frame(0x12, 0x34, &[0x01]);
    let second = encode_frame(0x12, 0x36, &[0x02]);
    let mut stream = first.clone();
    stream.extend_from_slice(&second);

    let mut proto = ProtocolState::new();
    let mut scanner = FrameScanner::new();
    assert!(!proto.has_residual());

    let frame1 = proto.scan_bytes(&mut scanner, &stream).unwrap();
    assert_eq!(frame1, first[1..first.len() - 1].to_vec());
    assert!(proto.has_residual());

    let held = proto.take_residual();
    assert_eq!(held, second);
    assert!(!proto.has_residual());

    let frame2 = proto.scan_bytes(&mut scanner, &held).unwrap();
    assert_eq!(frame2, second[1..second.len() - 1].to_vec());
    assert!(!proto.has_residual());
}

#[test]
fn scanner_drops_a_second_start_delimiter_but_keeps_collected_bytes() {
    // a stray start delimiter inside a frame re-arms the scanner without
    // clearing what it already collected
    let stream = [0xC0u8, 0x01, 0xC0, 0x02, 0xC1];
    let mut scanner = FrameScanner::new();
    let (frame, rest) = scanner.feed(&stream).unwrap();
    assert_eq!(frame, vec![0x01, 0x02]);
    assert!(rest.is_empty());
}
