use orchestrator::frame::{decode_frame, encode_frame, finish_frame, parse_size, push_decimal, FrameError};

#[test]
fn encode_writes_length_space_payload_nul() {
    assert_eq!(encode_frame(b"INFO 64 1"), b"9 INFO 64 1\0".to_vec());
    assert_eq!(encode_frame(b""), b"0 \0".to_vec());
    let long = vec![7u8; 123];
    let f = encode_frame(&long);
    assert_eq!(&f[..4], b"123 ");
    assert_eq!(f.len(), 4 + 123 + 1);
    assert_eq!(*f.last().unwrap(), 0);
}

#[test]
fn decimal_digits() {
    let mut out = Vec::new();
    push_decimal(0, &mut out);
    assert_eq!(out, b"0".to_vec());
    let mut out = b"x".to_vec();
    push_decimal(1234567890, &mut out);
    assert_eq!(out, b"x1234567890".to_vec());
    let mut out = Vec::new();
    push_decimal(usize::MAX, &mut out);
    assert_eq!(out, usize::MAX.to_string().into_bytes());
}

#[test]
fn decode_round_trips_payloads() {
    let payloads: Vec<Vec<u8>> = vec![
        b"".to_vec(),
        b"LOGIN worker-1".to_vec(),
        vec![0u8, 32, 0, 255, 32],
        (0..=255u8).collect(),
        vec![b' '; 1000],
    ];
    for p in payloads {
        let mut stream = encode_frame(&p);
        let n = stream.len();
        stream.extend_from_slice(b"5 extra\0");
        assert_eq!(decode_frame(&stream), Ok((p.clone(), n)));
    }
}

#[test]
fn decode_reads_leading_zeros() {
    assert_eq!(decode_frame(b"007 CAMDONE\0"), Ok((b"CAMDONE".to_vec(), 12)));
}

#[test]
fn decode_malformed_size() {
    assert_eq!(decode_frame(b" x\0"), Err(FrameError::MalformedSize));
    assert_eq!(decode_frame(b"1a x\0"), Err(FrameError::MalformedSize));
    assert_eq!(decode_frame(b"+1 x\0"), Err(FrameError::MalformedSize));
    assert_eq!(decode_frame(b"99999999999999999999999 x\0"), Err(FrameError::MalformedSize));
}

#[test]
fn decode_unexpected_eof() {
    assert_eq!(decode_frame(b""), Err(FrameError::UnexpectedEof));
    assert_eq!(decode_frame(b"12"), Err(FrameError::UnexpectedEof));
    assert_eq!(decode_frame(b"5 abc"), Err(FrameError::UnexpectedEof));
    assert_eq!(decode_frame(b"3 abc"), Err(FrameError::UnexpectedEof));
}

#[test]
fn decode_missing_terminator() {
    assert_eq!(decode_frame(b"3 abcd"), Err(FrameError::MissingTerminator));
    assert_eq!(decode_frame(b"0 x"), Err(FrameError::MissingTerminator));
}

#[test]
fn parse_size_accepts_digits_only() {
    assert_eq!(parse_size(b"0"), Ok(0));
    assert_eq!(parse_size(b"42"), Ok(42));
    assert_eq!(parse_size(usize::MAX.to_string().as_bytes()), Ok(usize::MAX));
    assert_eq!(parse_size(b""), Err(FrameError::MalformedSize));
    assert_eq!(parse_size(b"-1"), Err(FrameError::MalformedSize));
    assert_eq!(parse_size(b"4 "), Err(FrameError::MalformedSize));
    assert_eq!(parse_size(b"18446744073709551616"), Err(FrameError::MalformedSize));
}

#[test]
fn finish_frame_strips_nul() {
    assert_eq!(finish_frame(b"INFODONE\0".to_vec(), 8), Ok(b"INFODONE".to_vec()));
    assert_eq!(finish_frame(b"\0".to_vec(), 0), Ok(Vec::new()));
    assert_eq!(finish_frame(b"INFODONE!".to_vec(), 8), Err(FrameError::MissingTerminator));
}
