use broadcast::message::{
    ClientMessage, CommandRequest, CommandResponse, Message, PathText, WriteError,
};
use broadcast::protocol::{
    decode_msg, decode_payload, encode_msg, payload_len, ProtocolError, ProtocolResult, PORT,
};
use broadcast::wire::DecodeError;

fn request() -> CommandRequest {
    CommandRequest {
        command: "ls -la".to_string(),
        working_dir: PathText::new("C:\\Users".to_string()),
        wsl_mode: true,
        terminal_size: Some((80, 300)),
        interactive: false,
    }
}

fn early_eof() -> ProtocolError {
    ProtocolError::Io("early eof".to_string())
}

#[test]
fn port_is_fixed() {
    assert_eq!(PORT, 9877);
}

#[test]
fn client_messages_have_exact_frames() {
    assert_eq!(
        encode_msg(&ClientMessage::Input(vec![7, 8])).unwrap(),
        vec![0, 0, 0, 4, 0, 2, 7, 8]
    );
    assert_eq!(
        encode_msg(&ClientMessage::Resize(80, 300)).unwrap(),
        vec![0, 0, 0, 5, 1, 80, 251, 44, 1]
    );
    assert_eq!(encode_msg(&ClientMessage::Eof).unwrap(), vec![0, 0, 0, 1, 2]);
}

#[test]
fn responses_have_exact_frames() {
    assert_eq!(
        encode_msg(&CommandResponse::Stdout(vec![104, 105])).unwrap(),
        vec![0, 0, 0, 4, 0, 2, 104, 105]
    );
    assert_eq!(
        encode_msg(&CommandResponse::Stderr(vec![])).unwrap(),
        vec![0, 0, 0, 2, 1, 0]
    );
    assert_eq!(encode_msg(&CommandResponse::Exit(0)).unwrap(), vec![0, 0, 0, 2, 2, 0]);
    assert_eq!(encode_msg(&CommandResponse::Exit(1)).unwrap(), vec![0, 0, 0, 2, 2, 2]);
    assert_eq!(encode_msg(&CommandResponse::Exit(-1)).unwrap(), vec![0, 0, 0, 2, 2, 1]);
    assert_eq!(
        encode_msg(&CommandResponse::Exit(i32::MIN)).unwrap(),
        vec![0, 0, 0, 6, 2, 252, 255, 255, 255, 255]
    );
    assert_eq!(
        encode_msg(&CommandResponse::Error("é".to_string())).unwrap(),
        vec![0, 0, 0, 4, 3, 2, 0xc3, 0xa9]
    );
}

#[test]
fn request_has_exact_frame() {
    let bytes = encode_msg(&request()).unwrap();
    let mut expected = vec![0, 0, 0, 23, 6];
    expected.extend_from_slice(b"ls -la");
    expected.push(8);
    expected.extend_from_slice(b"C:\\Users");
    expected.extend_from_slice(&[1, 1, 80, 251, 44, 1, 0]);
    assert_eq!(bytes, expected);
}

#[test]
fn payload_agrees_with_bincode() {
    let config = bincode::config::standard();
    let fields = ("ls -la", "C:\\Users", true, Some((80u16, 300u16)), false);
    assert_eq!(request().write().unwrap(), bincode::encode_to_vec(fields, config).unwrap());
    let long = vec![9u8; 70_000];
    assert_eq!(
        ClientMessage::Input(long.clone()).write().unwrap(),
        bincode::encode_to_vec((0u32, long), config).unwrap()
    );
}

#[test]
fn path_that_is_not_unicode_cannot_be_sent() {
    let mut bad = request();
    bad.working_dir.unicode = false;
    assert_eq!(
        encode_msg(&bad),
        Err(ProtocolError::Encode(WriteError::InvalidPathCharacters))
    );
}

#[test]
fn frames_are_received_as_sent() {
    let mut stream = encode_msg(&request()).unwrap();
    stream.extend(encode_msg(&request()).unwrap());
    let mut reader: &[u8] = &stream;
    assert_eq!(decode_msg(&mut reader), Ok(request()));
    assert_eq!(decode_msg(&mut reader), Ok(request()));
    assert!(reader.is_empty());
}

#[test]
fn every_message_is_received_as_sent() {
    let long = vec![5u8; 70_000];
    let sent = vec![
        CommandResponse::Stdout(vec![]),
        CommandResponse::Stdout(long),
        CommandResponse::Stderr(vec![1, 2, 3]),
        CommandResponse::Exit(i32::MIN),
        CommandResponse::Exit(i32::MAX),
        CommandResponse::Error("no such thing: ü".to_string()),
    ];
    let mut stream: Vec<u8> = Vec::new();
    for message in &sent {
        stream.extend(encode_msg(message).unwrap());
    }
    stream.push(77);
    let mut reader: &[u8] = &stream;
    for message in sent {
        assert_eq!(decode_msg(&mut reader), Ok(message));
    }
    assert_eq!(reader, &[77]);

    for message in vec![
        ClientMessage::Input(vec![250; 251]),
        ClientMessage::Resize(u16::MAX, 250),
        ClientMessage::Eof,
    ] {
        let stream = encode_msg(&message).unwrap();
        let mut reader: &[u8] = &stream;
        assert_eq!(decode_msg(&mut reader), Ok(message));
    }
}

#[test]
fn cut_frame_is_early_eof() {
    let whole = encode_msg(&ClientMessage::Input(vec![1, 2, 3])).unwrap();
    for held in 0..whole.len() {
        let mut reader: &[u8] = &whole[..held];
        let received: ProtocolResult<ClientMessage> = decode_msg(&mut reader);
        assert_eq!(received, Err(early_eof()));
        assert!(reader.is_empty());
    }
}

#[test]
fn bad_payload_is_passed_over() {
    let mut stream = vec![0, 0, 0, 2, 9, 9];
    stream.extend(encode_msg(&ClientMessage::Eof).unwrap());
    let mut reader: &[u8] = &stream;
    let received: ProtocolResult<ClientMessage> = decode_msg(&mut reader);
    assert_eq!(
        received,
        Err(ProtocolError::Decode(DecodeError::UnexpectedVariant { found: 9 }))
    );
    assert_eq!(decode_msg(&mut reader), Ok(ClientMessage::Eof));
}

#[test]
fn rest_of_a_payload_is_not_looked_at() {
    assert_eq!(decode_payload::<ClientMessage>(&[2, 1, 2, 3]), Ok(ClientMessage::Eof));
}

#[test]
fn header_is_big_endian() {
    assert_eq!(payload_len(&[1, 2, 3, 4]), 0x0102_0304);
    assert_eq!(payload_len(&[255, 255, 255, 255]), u32::MAX);
}

#[test]
fn empty_payload_holds_no_message() {
    assert_eq!(
        decode_payload::<CommandResponse>(&[]),
        Err(ProtocolError::Decode(DecodeError::UnexpectedEnd { additional: 1 }))
    );
}

#[test]
fn short_values_say_how_much_is_missing() {
    assert_eq!(
        ClientMessage::read(&[0, 5, 1, 2]),
        Err(DecodeError::UnexpectedEnd { additional: 3 })
    );
    assert_eq!(
        ClientMessage::read(&[1, 251, 1]),
        Err(DecodeError::UnexpectedEnd { additional: 1 })
    );
    assert_eq!(
        CommandResponse::read(&[2, 252, 1]),
        Err(DecodeError::UnexpectedEnd { additional: 3 })
    );
    assert_eq!(
        CommandRequest::read(&[1, 97, 0, 1]),
        Err(DecodeError::UnexpectedEnd { additional: 1 })
    );
    assert_eq!(
        ClientMessage::read(&[0, 253, 0, 0, 0, 0, 0, 0, 0, 16]),
        Err(DecodeError::UnexpectedEnd { additional: 1 << 60 })
    );
}

#[test]
fn wide_integers_are_refused() {
    assert_eq!(ClientMessage::read(&[253, 0]), Err(DecodeError::InvalidIntegerType));
    assert_eq!(ClientMessage::read(&[1, 252, 0]), Err(DecodeError::InvalidIntegerType));
    assert_eq!(ClientMessage::read(&[255]), Err(DecodeError::InvalidIntegerType));
    assert_eq!(CommandResponse::read(&[2, 253, 0]), Err(DecodeError::InvalidIntegerType));
    assert_eq!(CommandResponse::read(&[0, 254, 0]), Err(DecodeError::InvalidIntegerType));
    assert_eq!(CommandResponse::read(&[3, 255]), Err(DecodeError::InvalidIntegerType));
}

#[test]
fn wide_marks_are_read_like_narrow_ones() {
    assert_eq!(
        ClientMessage::read(&[252, 1, 0, 0, 0, 251, 80, 0, 24]),
        Ok(ClientMessage::Resize(80, 24))
    );
}

#[test]
fn bad_flags_and_texts_are_refused() {
    assert_eq!(
        CommandRequest::read(&[0, 0, 2]),
        Err(DecodeError::InvalidBooleanValue(2))
    );
    assert_eq!(
        CommandRequest::read(&[0, 0, 0, 7]),
        Err(DecodeError::UnexpectedVariant { found: 7 })
    );
    assert_eq!(CommandRequest::read(&[1, 0xff]), Err(DecodeError::Utf8));
    assert_eq!(CommandResponse::read(&[3, 2, 0xc3, 0x28]), Err(DecodeError::Utf8));
    assert_eq!(
        CommandResponse::read(&[4]),
        Err(DecodeError::UnexpectedVariant { found: 4 })
    );
}

#[test]
fn request_without_a_terminal_is_received_as_sent() {
    let mut sent = request();
    sent.terminal_size = None;
    sent.interactive = true;
    let stream = encode_msg(&sent).unwrap();
    let mut reader: &[u8] = &stream;
    assert_eq!(decode_msg(&mut reader), Ok(sent));
}

#[test]
fn errors_convert() {
    assert_eq!(
        ProtocolError::from(WriteError::InvalidPathCharacters),
        ProtocolError::Encode(WriteError::InvalidPathCharacters)
    );
    assert_eq!(
        ProtocolError::from(DecodeError::Utf8),
        ProtocolError::Decode(DecodeError::Utf8)
    );
}

#[test]
fn cut_stream_gives_whole_messages() {
    let sent = vec![ClientMessage::Input(vec![1]), ClientMessage::Eof, ClientMessage::Resize(1, 2)];
    let ends = vec![7, 12, 19];
    let mut stream: Vec<u8> = Vec::new();
    for message in &sent {
        stream.extend(encode_msg(message).unwrap());
    }
    assert_eq!(stream.len(), 19);
    for held in 0..stream.len() + 1 {
        let mut reader: &[u8] = &stream[..held];
        for (message, end) in sent.iter().zip(&ends) {
            if *end <= held {
                assert_eq!(decode_msg(&mut reader).as_ref(), Ok(message));
            }
        }
        let received: ProtocolResult<ClientMessage> = decode_msg(&mut reader);
        assert_eq!(received, Err(early_eof()));
    }
}
