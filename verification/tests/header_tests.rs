//! Header encode/decode and checksum verification.

use futu::header::HeaderError;
use futu::header::PacketHeader;
use futu::header::HEADER_SIZE;

#[test]
fn test_header_roundtrip() {
    let body = b"hello world";
    let header = PacketHeader::new(1001, 1, body);

    let mut buf: Vec<u8> = Vec::new();
    header.encode(&mut buf);
    assert_eq!(buf.len(), HEADER_SIZE);

    let decoded = PacketHeader::decode(&mut buf).unwrap();
    assert_eq!(decoded.proto_id, 1001);
    assert_eq!(decoded.serial_no, 1);
    assert_eq!(decoded.body_len, body.len() as u32);
    assert!(decoded.verify_body(body));
}

#[test]
fn test_header_magic() {
    let mut buf: Vec<u8> = b"XX".to_vec();
    buf.extend_from_slice(&[0u8; 42]);
    assert!(matches!(
        PacketHeader::decode(&mut buf),
        Err(HeaderError::InvalidMagic)
    ));
}

#[test]
fn test_header_insufficient_data() {
    let mut buf: Vec<u8> = b"FT".to_vec();
    assert!(matches!(
        PacketHeader::decode(&mut buf),
        Err(HeaderError::InsufficientData)
    ));
}

#[test]
fn test_header_zero_length_body() {
    let body: &[u8] = b"";
    let header = PacketHeader::new(3001, 5, body);
    assert_eq!(header.body_len, 0);

    let mut buf: Vec<u8> = Vec::new();
    header.encode(&mut buf);
    let decoded = PacketHeader::decode(&mut buf).unwrap();
    assert_eq!(decoded.body_len, 0);
    assert!(decoded.verify_body(body));
}

#[test]
fn test_header_sha1_verification_fail() {
    let body = b"original data";
    let header = PacketHeader::new(1001, 1, body);
    // Verify with different body should fail
    assert!(!header.verify_body(b"tampered data"));
}

#[test]
fn test_header_various_proto_ids() {
    for proto_id in [1001u32, 3001, 3103, u32::MAX] {
        let header = PacketHeader::new(proto_id, 1, b"test");
        let mut buf: Vec<u8> = Vec::new();
        header.encode(&mut buf);
        let decoded = PacketHeader::decode(&mut buf).unwrap();
        assert_eq!(decoded.proto_id, proto_id);
    }
}

#[test]
fn header_digest_matches_known_sha1() {
    // SHA-1 of the empty input, a published constant.
    let expected: [u8; 20] = [
        0xda, 0x39, 0xa3, 0xee, 0x5e, 0x6b, 0x4b, 0x0d, 0x32, 0x55, 0xbf, 0xef, 0x95, 0x60,
        0x18, 0x90, 0xaf, 0xd8, 0x07, 0x09,
    ];
    let header = PacketHeader::new(1, 1, b"");
    assert_eq!(header.body_sha1.as_slice(), &expected);
}
