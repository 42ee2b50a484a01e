use aether_radio::{
    decode_frame, encode_frame, AetherHeader, Packet, ProtocolError, Sequence, StreamId, Timestamp,
};

#[test]
fn encode_decode_roundtrip() {
    let header = AetherHeader::new(StreamId(7), Timestamp(123456), Sequence(99), 1500);
    let bytes = header.encode();
    let decoded = AetherHeader::decode(&bytes).unwrap();
    assert_eq!(header, decoded);
}

#[test]
fn reject_bad_magic() {
    let mut bytes = AetherHeader::new(StreamId(1), Timestamp(0), Sequence(0), 0).encode();
    bytes[0] = 0;
    assert!(matches!(
        AetherHeader::decode(&bytes),
        Err(ProtocolError::BadMagic(_))
    ));
}

#[test]
fn reject_truncated() {
    assert!(matches!(
        AetherHeader::decode(&[0u8; 8]),
        Err(ProtocolError::Truncated { .. })
    ));
}

#[test]
fn frame_roundtrip() {
    let pkt = Packet::new(StreamId(3), Sequence(9), Timestamp(42), vec![1, 2, 3, 4]);
    let bytes = encode_frame(&pkt);
    let back = decode_frame(&bytes).unwrap();
    assert_eq!(pkt, back);
}

#[test]
fn header_is_32_bytes_little_endian() {
    let bytes = AetherHeader::new(StreamId(0x0102_0304), Timestamp(5), Sequence(6), 7).encode();
    assert_eq!(bytes.len(), 32);
    assert_eq!(&bytes[8..12], &[4, 3, 2, 1]);
}

#[test]
fn truncated_reports_sizes() {
    assert_eq!(
        AetherHeader::decode(&[0u8; 8]),
        Err(ProtocolError::Truncated { got: 8, need: 32 })
    );
}

#[test]
fn unsupported_version_is_refused() {
    let mut bytes = AetherHeader::new(StreamId(1), Timestamp(0), Sequence(0), 0).encode();
    bytes[4] = 9;
    assert!(matches!(
        AetherHeader::decode(&bytes),
        Err(ProtocolError::UnsupportedVersion(_))
    ));
}

#[test]
fn frame_with_short_body_is_refused() {
    let pkt = Packet::new(StreamId(3), Sequence(9), Timestamp(42), vec![1, 2, 3, 4]);
    let mut bytes = encode_frame(&pkt);
    bytes.pop();
    assert_eq!(
        decode_frame(&bytes),
        Err(ProtocolError::PayloadLenMismatch { header: 4, body: 3 })
    );
}

#[test]
fn frame_length_is_header_plus_payload() {
    let pkt = Packet::new(StreamId(1), Sequence(1), Timestamp(1), vec![0; 100]);
    assert_eq!(encode_frame(&pkt).len(), 132);
}
