use simple_ws_server::frame::{Frame, FrameError};
use simple_ws_server::websocket::{respond_to_frame, SessionAction};

fn decode_ok(raw: &[u8], max: usize) -> Frame {
    let (frame, used) = Frame::decode(raw, max).unwrap();
    assert_eq!(used, raw.len());
    frame
}

#[test]
fn test_decode_ping_frame() {
    // ping frame with "hello" payload
    let raw_data = vec![0x89, 0x85, 0x78, 0xaf, 0x8c, 0x35, 0x10, 0xca, 0xe0, 0x59, 0x17];
    let frame = decode_ok(&raw_data, 1024);
    assert!(matches!(
        frame,
        Frame::Ping { data } if data == vec![b'h', b'e', b'l', b'l', b'o']
    ))
}

#[test]
fn test_encode_pong_frame() {
    let frame = Frame::Pong { data: vec![b'h', b'e', b'l', b'l', b'o'] };
    let expected = vec![0x8a, 0x05, b'h', b'e', b'l', b'l', b'o'];
    assert_eq!(frame.encode().unwrap(), expected);
}

#[test]
fn test_decode_close_frame() {
    let raw_data = vec![0x88, 0x80, 0x1e, 0x04, 0x7d, 0x84];
    let frame = decode_ok(&raw_data, 1024);
    assert!(matches!(
        frame,
        Frame::Close { status_code: None, message } if message.is_empty()
    ));
}

#[test]
fn test_decode_close_frame_with_payload() {
    // status_code: 1002, message: hi
    let raw_data = vec![0x88, 0x84, 0x1e, 0x04, 0x7d, 0x84, 0x1d, 0xee, 0x15, 0xed];
    let frame = decode_ok(&raw_data, 1024);
    assert!(matches!(
        frame,
        Frame::Close { status_code: Some(1002), message } if message == vec![b'h', b'i']
    ));
}

#[test]
fn test_encode_close_frame() {
    let frame = Frame::Close { status_code: None, message: vec![] };
    let expected = vec![0x88, 0x00];
    assert_eq!(frame.encode().unwrap(), expected);
}

#[test]
fn test_encode_close_frame_with_payload() {
    let frame = Frame::Close { status_code: Some(1000), message: vec![b'h', b'i'] };
    let expected = vec![0x88, 0x04, 0x03, 0xe8, b'h', b'i'];
    assert_eq!(frame.encode().unwrap(), expected);
}

#[test]
fn test_decode_binary_frame() {
    let raw_data = vec![0x82, 0x83, 0xec, 0xf6, 0xd7, 0x1c, 0xed, 0xf4, 0xd4];
    let frame = decode_ok(&raw_data, 1024);
    assert!(matches!(frame, Frame::Binary { data } if data == vec![0x1, 0x2, 0x3]))
}

#[test]
fn test_encode_binary_frame() {
    let frame = Frame::Binary { data: vec![0x1, 0x2, 0x3] };
    let expected = vec![0x82, 0x03, 0x01, 0x02, 0x03];
    assert_eq!(frame.encode().unwrap(), expected);
}

#[test]
fn test_decode_text_frame() {
    let raw_data = vec![0x81u8, 0x85, 0x36, 0x80, 0xd6, 0x47, 0x5e, 0xe5, 0xba, 0x2b, 0x59];
    let frame = decode_ok(&raw_data, 1024);
    assert!(matches!(frame, Frame::Text { message } if message == "hello"))
}

#[test]
fn test_encode_text_frame() {
    let frame = Frame::Text { message: "hello".to_owned() };
    let expected = vec![0x81, 0x05, b'h', b'e', b'l', b'l', b'o'];
    assert_eq!(frame.encode().unwrap(), expected);
}

#[test]
fn test_decode_data_frame_with_middle_size_data() {
    // payload is "a" repeating `len` times
    let len = 128;
    let mut raw_data = vec![0x81u8, 0xfe, 0x00, 0x80, 0x61, 0xfc, 0xfd, 0x86];
    raw_data.extend(vec![0x00, 0x9d, 0x9c, 0xe7].repeat(len / 4).iter());
    let frame = decode_ok(&raw_data, 1024);
    if let Frame::Text { message } = frame {
        assert_eq!(message.len(), len);
    } else {
        panic!("Expected Frame::Text but: {:?}", frame);
    }
}

#[test]
fn test_decode_data_frame_with_long_size_data() {
    // payload is "a" repeating `len` times
    let len = 256 * 256 + 4;
    let mut raw_data = vec![
        0x81u8, 0xff, 0x00, 0x00, 0x00, 0x00, 0x00, 0x01, 0x00, 0x04, 0x61, 0xfc, 0xfd, 0x86,
    ];
    raw_data.extend(vec![0x00, 0x9d, 0x9c, 0xe7].repeat(len / 4).iter());
    let frame = decode_ok(&raw_data, len);
    if let Frame::Text { message } = frame {
        assert_eq!(message.len(), len);
    } else {
        panic!("Expected Frame::Text but: {:?}", frame);
    }
}

#[test]
fn test_encode_data_frame_with_middle_size_data() {
    let len = 128;
    let frame = Frame::Text { message: "a".repeat(len) };
    let expected = {
        let mut buf = vec![0x81, 0x7e, 0x00, 0x80];
        buf.extend("a".repeat(len).bytes());
        buf
    };
    assert_eq!(frame.encode().unwrap(), expected);
}

#[test]
fn test_encode_data_frame_with_long_size_data() {
    let len = 256 * 256 + 4;
    let frame = Frame::Text { message: "a".repeat(len) };
    let expected = {
        let mut buf = vec![0x81, 0x7f, 0x00, 0x00, 0x00, 0x00, 0x00, 0x01, 0x00, 0x04];
        buf.extend("a".repeat(len).bytes());
        buf
    };
    assert_eq!(frame.encode().unwrap(), expected);
}

#[test]
fn test_failed_to_decode_bigger_frame_than_limit() {
    let raw_data = vec![0x81u8, 0x85, 0x36, 0x80, 0xd6, 0x47, 0x5e, 0xe5, 0xba, 0x2b, 0x59];
    let res = Frame::decode(&raw_data, 4);
    assert!(res.is_err());
}

fn round_trip(frame: Frame) {
    let bytes = frame.encode().unwrap();
    let (back, used) = Frame::decode(&bytes, 1 << 20).unwrap();
    assert_eq!(used, bytes.len());
    assert_eq!(back.get_data(), frame.get_data());
    assert_eq!(back.encode().unwrap(), bytes);
}

#[test]
fn round_trip_of_each_kind() {
    round_trip(Frame::Text { message: "héllo wörld".to_owned() });
    round_trip(Frame::Binary { data: vec![0, 1, 2, 255] });
    round_trip(Frame::Close { status_code: Some(1000), message: b"bye".to_vec() });
    round_trip(Frame::Close { status_code: None, message: vec![] });
    round_trip(Frame::Ping { data: vec![] });
    round_trip(Frame::Pong { data: vec![9; 300] });
    round_trip(Frame::Binary { data: vec![5; 126] });
    round_trip(Frame::Text { message: "b".repeat(127) });
}

#[test]
fn close_without_code_but_with_message_does_not_round_trip() {
    let frame = Frame::Close { status_code: None, message: b"hi".to_vec() };
    let bytes = frame.encode().unwrap();
    let (back, _) = Frame::decode(&bytes, 1024).unwrap();
    assert!(matches!(back, Frame::Close { status_code: Some(0x6869), message } if message.is_empty()));
}

#[test]
fn masked_payload_is_unmasked_with_the_key() {
    let key = [0x11u8, 0x22, 0x33, 0x44];
    let payload = b"abcdefg".to_vec();
    let mut raw = vec![0x82u8, 0x80 | payload.len() as u8];
    raw.extend_from_slice(&key);
    for (i, b) in payload.iter().enumerate() {
        raw.push(b ^ key[i % 4]);
    }
    let frame = decode_ok(&raw, 1024);
    assert!(matches!(frame, Frame::Binary { data } if data == payload));
    assert_eq!(Frame::unmask(vec![0x10, 0x20, 0x30, 0x40, 0x50], key), vec![0x01, 0x02, 0x03, 0x04, 0x41]);
}

fn header_of(len: usize) -> Vec<u8> {
    let frame = Frame::Binary { data: vec![7u8; len] };
    let bytes = frame.encode().unwrap();
    assert_eq!(&bytes[bytes.len() - len..], &vec![7u8; len][..]);
    bytes[..bytes.len() - len].to_vec()
}

#[test]
fn length_field_thresholds() {
    assert_eq!(header_of(0), vec![0x82, 0]);
    assert_eq!(header_of(125), vec![0x82, 125]);
    assert_eq!(header_of(126), vec![0x82, 126, 0, 126]);
    assert_eq!(header_of(127), vec![0x82, 126, 0, 127]);
    assert_eq!(header_of(128), vec![0x82, 126, 0, 128]);
    assert_eq!(header_of(65535), vec![0x82, 126, 0xff, 0xff]);
    assert_eq!(header_of(65536), vec![0x82, 127, 0, 0, 0, 0, 0, 1, 0, 0]);
}

#[test]
fn length_boundaries_decode_as_encoded() {
    for len in [0usize, 125, 126, 127, 65535, 65536] {
        let frame = Frame::Binary { data: vec![1u8; len] };
        let bytes = frame.encode().unwrap();
        let (back, used) = Frame::decode(&bytes, 1 << 20).unwrap();
        assert_eq!(used, bytes.len());
        assert_eq!(back.get_data().len(), len);
    }
}

#[test]
fn oversize_is_refused_from_the_header_alone() {
    // declares 65536 bytes, carries none of them
    let raw = vec![0x82u8, 127, 0, 0, 0, 0, 0, 1, 0, 0];
    assert_eq!(Frame::decode(&raw, 1000).err(), Some(FrameError::PayloadTooBig));
    let raw16 = vec![0x82u8, 126, 0x01, 0x00];
    assert_eq!(Frame::decode(&raw16, 255).err(), Some(FrameError::PayloadTooBig));
}

#[test]
fn decode_errors() {
    assert_eq!(Frame::decode(&[0x81], 10).err(), Some(FrameError::Truncated));
    assert_eq!(Frame::decode(&[0x81, 0x05, b'h'], 10).err(), Some(FrameError::Truncated));
    assert_eq!(Frame::decode(&[0x81, 126, 0], 1000).err(), Some(FrameError::Truncated));
    assert_eq!(Frame::decode(&[0x83, 0x00], 10).err(), Some(FrameError::UnknownOpcode(3)));
    assert_eq!(Frame::decode(&[0x81, 0x02, 0xc3, 0x28], 10).err(), Some(FrameError::InvalidText));
}

#[test]
fn decode_reports_bytes_used() {
    let raw = vec![0x89u8, 0x01, b'x', 0x8a, 0x00];
    let (frame, used) = Frame::decode(&raw, 10).unwrap();
    assert_eq!(used, 3);
    assert!(matches!(frame, Frame::Ping { data } if data == b"x".to_vec()));
}

#[test]
fn close_data_puts_code_first() {
    let frame = Frame::Close { status_code: Some(1002), message: b"no".to_vec() };
    assert_eq!(frame.get_data(), vec![0x03, 0xea, b'n', b'o']);
}

#[test]
fn replies_to_frames() {
    match respond_to_frame(Frame::Ping { data: b"hello".to_vec() }).unwrap() {
        SessionAction::Reply(b) => assert_eq!(b, vec![0x8a, 5, b'h', b'e', b'l', b'l', b'o']),
        _ => panic!("a ping is answered"),
    }
    assert!(matches!(respond_to_frame(Frame::Pong { data: vec![1] }).unwrap(), SessionAction::Ignore));
    match respond_to_frame(Frame::Text { message: "hi".to_owned() }).unwrap() {
        SessionAction::Reply(b) => assert_eq!(b, vec![0x81, 2, b'h', b'i']),
        _ => panic!("text is echoed"),
    }
    match respond_to_frame(Frame::Binary { data: vec![1, 2] }).unwrap() {
        SessionAction::Reply(b) => assert_eq!(b, vec![0x82, 2, 1, 2]),
        _ => panic!("binary is echoed"),
    }
    match respond_to_frame(Frame::Close { status_code: Some(1000), message: vec![] }).unwrap() {
        SessionAction::ReplyAndClose(b) => assert_eq!(b, vec![0x88, 2, 0x03, 0xe8]),
        _ => panic!("close is echoed and ends the session"),
    }
}

#[test]
fn decode_of_the_listed_length_headers() {
    for (len, header) in [
        (0usize, vec![0u8]),
        (125, vec![125]),
        (126, vec![126, 0x00, 0x7e]),
        (65535, vec![126, 0xff, 0xff]),
        (65536, vec![127, 0, 0, 0, 0, 0, 1, 0, 0]),
    ] {
        let mut raw = vec![0x82u8];
        raw.extend(header);
        raw.extend(vec![0u8; len]);
        let (frame, used) = Frame::decode(&raw, len).unwrap();
        assert_eq!(used, raw.len());
        assert!(matches!(&frame, Frame::Binary { data } if *data == vec![0u8; len]));
        assert_eq!(frame.encode().unwrap(), raw);
    }
}
