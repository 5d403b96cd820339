use wqv_link::codec::{checksum, decode_frame, encode_frame, escp_data, unescp_data};
use wqv_link::errors::WqvError;

#[test]
fn checksum_sums_bytes() {
    assert_eq!(checksum(&[]), 0);
    assert_eq!(checksum(&[1, 2, 3]), 6);
    assert_eq!(checksum(&[0x12, 0x34, 0x01]), 0x47);
    assert_eq!(checksum(&[0xFF, 0xFF]), 0x1FE);
}

#[test]
fn checksum_wraps_at_sixteen_bits() {
    // 257 bytes of 0xFF sum to 65535; one more byte of 1 makes exactly 65536
    let mut data = vec![0xFFu8; 257];
    data.push(1);
    assert_eq!(checksum(&data), 0);
    // one past the wrap point
    data.push(1);
    assert_eq!(checksum(&data), 1);
}

#[test]
fn escape_hides_reserved_bytes() {
    assert_eq!(escp_data(&[0x01, 0x02]), vec![0x01, 0x02]);
    assert_eq!(escp_data(&[0xC0]), vec![0x7D, 0xE0]);
    assert_eq!(escp_data(&[0xC1]), vec![0x7D, 0xE1]);
    assert_eq!(escp_data(&[0x7D]), vec![0x7D, 0x5D]);
}

#[test]
fn unescape_undoes_escape() {
    let cases: Vec<Vec<u8>> = vec![
        vec![],
        vec![0x00, 0x7F, 0xFF],
        vec![0xC0, 0xC1, 0x7D],
        vec![0x7D, 0x7D, 0xC0, 0x55, 0xC1],
    ];
    for case in cases {
        let escaped = escp_data(&case);
        assert_eq!(unescp_data(&escaped), case);
    }
}

#[test]
fn encode_emits_exact_wire_bytes() {
    // checksum 0x12 + 0x34 + 0x01 = 0x0047; nothing to escape
    assert_eq!(
        encode_frame(0x12, 0x34, &[0x01]),
        vec![0xC0, 0x12, 0x34, 0x01, 0x00, 0x47, 0xC1]
    );
    // payload byte 0xC0 is escaped, checksum covers the unescaped byte
    assert_eq!(
        encode_frame(0x12, 0x34, &[0xC0]),
        vec![0xC0, 0x12, 0x34, 0x7D, 0xE0, 0x01, 0x06, 0xC1]
    );
    // empty payload
    assert_eq!(
        encode_frame(0xFF, 0xA3, &[]),
        vec![0xC0, 0xFF, 0xA3, 0x01, 0xA2, 0xC1]
    );
}

#[test]
fn decode_undoes_encode() {
    let payloads: Vec<Vec<u8>> = vec![
        vec![],
        vec![0x2A],
        vec![0xC0, 0xC1, 0x7D, 0x00, 0xFF],
        (0..=255u8).collect(),
    ];
    for payload in payloads {
        let wire = encode_frame(0x12, 0x34, &payload);
        // the scanner hands decode the interior, delimiters stripped
        let frame = decode_frame(&wire[1..wire.len() - 1]).unwrap();
        assert_eq!(frame.address, 0x12);
        assert_eq!(frame.command, 0x34);
        assert_eq!(frame.payload, payload);
    }
}

#[test]
fn decode_rejects_short_frame() {
    assert!(matches!(
        decode_frame(&[0x01, 0x02, 0x03]),
        Err(WqvError::FrameTooShort)
    ));
    assert!(matches!(decode_frame(&[]), Err(WqvError::FrameTooShort)));
}

#[test]
fn decode_rejects_truncated_escape() {
    assert!(matches!(
        decode_frame(&[0x01, 0x02, 0x03, 0x04, 0x7D]),
        Err(WqvError::TruncatedEscape)
    ));
}

#[test]
fn decode_rejects_bad_checksum() {
    // sum of [0x01, 0x02] is 0x0003, trailer says 0x0000
    assert!(matches!(
        decode_frame(&[0x01, 0x02, 0x00, 0x00]),
        Err(WqvError::ChecksumMismatch)
    ));
    // a single flipped payload bit breaks a valid frame
    let mut wire = encode_frame(0x12, 0x34, &[0x55, 0x66]);
    wire[3] ^= 0x01;
    assert!(matches!(
        decode_frame(&wire[1..wire.len() - 1]),
        Err(WqvError::ChecksumMismatch)
    ));
}
