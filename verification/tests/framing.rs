use dap::framing::{decode_frame, encode_frame, Decoded, FrameDecoder, FrameError};

#[test]
fn encode_frame_writes_header_and_payload() {
    assert_eq!(encode_frame(b"{}"), b"Content-Length: 2\r\n\r\n{}".to_vec());
    assert_eq!(encode_frame(b""), b"Content-Length: 0\r\n\r\n".to_vec());
    let payload = vec![b'x'; 120];
    let mut expected = b"Content-Length: 120\r\n\r\n".to_vec();
    expected.extend_from_slice(&payload);
    assert_eq!(encode_frame(&payload), expected);
}

#[test]
fn decode_frame_reads_what_encode_frame_wrote() {
    let bytes = encode_frame(b"{\"seq\":1}");
    match decode_frame(&bytes) {
        Decoded::Frame { payload, consumed } => {
            assert_eq!(payload, b"{\"seq\":1}".to_vec());
            assert_eq!(consumed, bytes.len());
        }
        other => panic!("unexpected {:?}", other),
    }
}

#[test]
fn decode_frame_leaves_what_follows_the_frame() {
    let mut bytes = encode_frame(b"abc");
    let frame_len = bytes.len();
    bytes.extend_from_slice(b"Content-Le");
    match decode_frame(&bytes) {
        Decoded::Frame { payload, consumed } => {
            assert_eq!(payload, b"abc".to_vec());
            assert_eq!(consumed, frame_len);
        }
        other => panic!("unexpected {:?}", other),
    }
}

#[test]
fn decode_frame_payload_may_hold_line_ends() {
    let payload = b"a\r\n\r\nb\r\n".to_vec();
    let bytes = encode_frame(&payload);
    match decode_frame(&bytes) {
        Decoded::Frame { payload: got, consumed } => {
            assert_eq!(got, payload);
            assert_eq!(consumed, bytes.len());
        }
        other => panic!("unexpected {:?}", other),
    }
}

#[test]
fn decode_frame_skips_other_header_lines() {
    let bytes = b"Content-Type: application/json\r\nContent-Length: 2\r\nX: y\r\n\r\n{}";
    match decode_frame(bytes) {
        Decoded::Frame { payload, consumed } => {
            assert_eq!(payload, b"{}".to_vec());
            assert_eq!(consumed, bytes.len());
        }
        other => panic!("unexpected {:?}", other),
    }
}

#[test]
fn decode_frame_takes_the_last_length_line() {
    let bytes = b"Content-Length: 1\r\nContent-Length: 3\r\n\r\nabcd";
    match decode_frame(bytes) {
        Decoded::Frame { payload, consumed } => {
            assert_eq!(payload, b"abc".to_vec());
            assert_eq!(consumed, bytes.len() - 1);
        }
        other => panic!("unexpected {:?}", other),
    }
}

#[test]
fn decode_frame_accepts_leading_zeros() {
    match decode_frame(b"Content-Length: 002\r\n\r\nhi") {
        Decoded::Frame { payload, consumed } => {
            assert_eq!(payload, b"hi".to_vec());
            assert_eq!(consumed, 25);
        }
        other => panic!("unexpected {:?}", other),
    }
}

#[test]
fn decode_frame_asks_for_more_on_every_proper_prefix() {
    let bytes = encode_frame(b"{\"seq\":12}");
    for k in 0..bytes.len() {
        assert!(
            matches!(decode_frame(&bytes[..k]), Decoded::Incomplete),
            "prefix of {} bytes",
            k
        );
    }
    assert!(matches!(decode_frame(&bytes), Decoded::Frame { .. }));
}

#[test]
fn decode_frame_reports_missing_length() {
    assert!(matches!(
        decode_frame(b"Content-Type: x\r\n\r\n{}"),
        Decoded::Malformed(FrameError::MissingContentLength)
    ));
    assert!(matches!(
        decode_frame(b"\r\n{}"),
        Decoded::Malformed(FrameError::MissingContentLength)
    ));
    assert!(matches!(
        decode_frame(b"content-length: 2\r\n\r\n{}"),
        Decoded::Malformed(FrameError::MissingContentLength)
    ));
}

#[test]
fn decode_frame_reports_invalid_length() {
    assert!(matches!(
        decode_frame(b"Content-Length: 1x\r\n\r\n{}"),
        Decoded::Malformed(FrameError::InvalidContentLength)
    ));
    assert!(matches!(
        decode_frame(b"Content-Length: \r\n\r\n{}"),
        Decoded::Malformed(FrameError::InvalidContentLength)
    ));
    assert!(matches!(
        decode_frame(b"Content-Length: -1\r\n\r\n{}"),
        Decoded::Malformed(FrameError::InvalidContentLength)
    ));
    assert!(matches!(
        decode_frame(b"Content-Length: 2 \r\n\r\n{}"),
        Decoded::Malformed(FrameError::InvalidContentLength)
    ));
    assert!(matches!(
        decode_frame(b"Content-Length: 99999999999999999999999999\r\n\r\n{}"),
        Decoded::Malformed(FrameError::InvalidContentLength)
    ));
}

#[test]
fn decode_frame_largest_length_is_only_incomplete() {
    let header = format!("Content-Length: {}\r\n\r\n", usize::MAX);
    assert!(matches!(decode_frame(header.as_bytes()), Decoded::Incomplete));
}

#[test]
fn decoder_buffers_across_partial_reads() {
    let mut wire = encode_frame(b"first");
    wire.extend_from_slice(&encode_frame(b"second"));
    let mut decoder = FrameDecoder::new();
    let mut seen: Vec<Vec<u8>> = Vec::new();
    for byte in wire.iter() {
        decoder.feed(&[*byte]);
        while let Some(frame) = decoder.next_frame() {
            seen.push(frame.unwrap());
        }
    }
    assert_eq!(seen, vec![b"first".to_vec(), b"second".to_vec()]);
    assert_eq!(decoder.buffered(), 0);
}

#[test]
fn decoder_hands_out_many_frames_of_one_read() {
    let mut wire = Vec::new();
    for payload in [&b"a"[..], &b""[..], &b"ccc"[..]] {
        wire.extend_from_slice(&encode_frame(payload));
    }
    wire.extend_from_slice(b"Content-Length: 5\r\n\r\nab");
    let mut decoder = FrameDecoder::new();
    decoder.feed(&wire);
    assert_eq!(decoder.next_frame(), Some(Ok(b"a".to_vec())));
    assert_eq!(decoder.next_frame(), Some(Ok(b"".to_vec())));
    assert_eq!(decoder.next_frame(), Some(Ok(b"ccc".to_vec())));
    assert_eq!(decoder.next_frame(), None);
    assert_eq!(decoder.buffered(), 23);
    decoder.feed(b"cde");
    assert_eq!(decoder.next_frame(), Some(Ok(b"abcde".to_vec())));
    assert_eq!(decoder.next_frame(), None);
    assert_eq!(decoder.buffered(), 0);
}

#[test]
fn decoder_keeps_reporting_a_malformed_header() {
    let mut decoder = FrameDecoder::new();
    decoder.feed(b"Content-Length: ten\r\n\r\n");
    assert_eq!(decoder.next_frame(), Some(Err(FrameError::InvalidContentLength)));
    decoder.feed(&encode_frame(b"{}"));
    assert_eq!(decoder.next_frame(), Some(Err(FrameError::InvalidContentLength)));
}

#[test]
fn decoder_empty_read_changes_nothing() {
    let mut decoder = FrameDecoder::new();
    decoder.feed(b"");
    assert_eq!(decoder.buffered(), 0);
    assert_eq!(decoder.next_frame(), None);
}
