use blizzard::server::framing::{decode_frame, decode_stream, encode_frame, frame_len, DELIMITER};

#[test]
fn frame_round_trip() {
    let payloads: Vec<&[u8]> = vec![b"", b"\"W\"", b"{\"x\":1,\"y\":-2}", b"  spaced  ", b"\r", &[0, 255, 7]];
    for payload in payloads {
        let frame = encode_frame(payload);
        assert_eq!(frame.len(), payload.len() + 1);
        assert_eq!(*frame.last().unwrap(), DELIMITER);
        assert_eq!(frame_len(&frame), frame.len());
        assert_eq!(decode_frame(&frame), payload.to_vec());
    }
}

#[test]
fn frames_come_out_in_the_order_sent() {
    let sent: Vec<Vec<u8>> = vec![
        b"first".to_vec(),
        b"".to_vec(),
        b"second".to_vec(),
        b"{\"third\":3}".to_vec(),
    ];
    let mut stream = Vec::new();
    for payload in &sent {
        stream.extend(encode_frame(payload));
    }
    assert_eq!(stream, b"first\n\nsecond\n{\"third\":3}\n".to_vec());
    assert_eq!(decode_stream(&stream), sent);
}

#[test]
fn frame_len_stops_at_the_first_delimiter() {
    assert_eq!(DELIMITER, b'\n');
    assert_eq!(frame_len(b""), 0);
    assert_eq!(frame_len(b"\n"), 1);
    assert_eq!(frame_len(b"abc"), 3);
    assert_eq!(frame_len(b"abc\n"), 4);
    assert_eq!(frame_len(b"abc\ndef\n"), 4);
    assert_eq!(frame_len(b"\n\n"), 1);
}

#[test]
fn decode_frame_drops_one_closing_delimiter() {
    assert_eq!(decode_frame(b""), b"".to_vec());
    assert_eq!(decode_frame(b"\n"), b"".to_vec());
    assert_eq!(decode_frame(b"abc"), b"abc".to_vec());
    assert_eq!(decode_frame(b"abc\n"), b"abc".to_vec());
    assert_eq!(decode_frame(b"abc\n\n"), b"abc\n".to_vec());
    assert_eq!(decode_frame(b" abc \n"), b" abc ".to_vec());
}

#[test]
fn a_stream_cut_short_ends_in_a_partial_frame() {
    assert_eq!(decode_stream(b""), Vec::<Vec<u8>>::new());
    assert_eq!(decode_stream(b"one\ntw"), vec![b"one".to_vec(), b"tw".to_vec()]);
    assert_eq!(decode_stream(b"\n"), vec![b"".to_vec()]);
}

#[test]
fn an_embedded_delimiter_splits_a_payload() {
    let frame = encode_frame(b"a\nb");
    assert_eq!(frame, b"a\nb\n".to_vec());
    assert_eq!(decode_stream(&frame), vec![b"a".to_vec(), b"b".to_vec()]);
}
