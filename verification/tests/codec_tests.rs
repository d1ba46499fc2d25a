use append_store::codec::{decode, encode, CodecError, HEADER_WIDTH};

#[test]
fn round_trip_small() {
    let payload = b"hello".to_vec();
    let framed = encode(&payload).unwrap();
    assert_eq!(framed.len(), HEADER_WIDTH + payload.len());
    let (decoded, consumed) = decode(&framed).unwrap();
    assert_eq!(decoded, payload);
    assert_eq!(consumed, framed.len());
}

#[test]
fn round_trip_empty_payload() {
    let framed = encode(&[]).unwrap();
    assert_eq!(framed, vec![0u8, 0, 0, 0]);
    let (decoded, consumed) = decode(&framed).unwrap();
    assert_eq!(decoded, Vec::<u8>::new());
    assert_eq!(consumed, HEADER_WIDTH);
}

#[test]
fn encode_exact_wire_bytes() {
    // Little-endian 4-byte header holding the length, then the payload.
    let framed = encode(&[7u8, 8u8]).unwrap();
    assert_eq!(framed, vec![2u8, 0, 0, 0, 7, 8]);

    let framed = encode(&[0xABu8; 300]).unwrap();
    assert_eq!(&framed[0..4], &[0x2C, 0x01, 0, 0]);
    assert_eq!(&framed[4..], &[0xABu8; 300][..]);
}

#[test]
fn decode_truncated_header() {
    assert_eq!(decode(&[]), Err(CodecError::TruncatedHeader));
    assert_eq!(decode(&[1u8, 2, 3]), Err(CodecError::TruncatedHeader));
}

#[test]
fn decode_truncated_payload() {
    // Header declares 5 payload bytes; only 2 follow.
    assert_eq!(decode(&[5u8, 0, 0, 0, 1, 2]), Err(CodecError::TruncatedPayload));
    // Header declares 1 byte; none follow.
    assert_eq!(decode(&[1u8, 0, 0, 0]), Err(CodecError::TruncatedPayload));
}

#[test]
fn decode_ignores_trailing_bytes() {
    let mut buffer = encode(b"abc").unwrap();
    let frame_len = buffer.len();
    buffer.extend_from_slice(b"zzzz");
    let (decoded, consumed) = decode(&buffer).unwrap();
    assert_eq!(decoded, b"abc".to_vec());
    assert_eq!(consumed, frame_len);
}
