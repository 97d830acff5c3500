use broadcast::message::{ClientMessage, CommandResponse};
use broadcast::protocol::{decode_msg, encode_msg, ProtocolError};
use broadcast::server::pty_size;
use broadcast::session::{is_last_message, output_event, Session, SessionAction, SessionEvent};

fn frame(response: CommandResponse) -> Vec<u8> {
    encode_msg(&response).unwrap()
}

fn output(text: &[u8]) -> SessionEvent {
    SessionEvent::Output(text.to_vec())
}

fn from_client(message: ClientMessage) -> SessionEvent {
    SessionEvent::Client(Ok(message))
}

fn lost_client() -> SessionEvent {
    SessionEvent::Client(Err(ProtocolError::Io("early eof".to_string())))
}

fn finish(code: i32) -> SessionAction {
    SessionAction::Finish(frame(CommandResponse::Exit(code)))
}

#[test]
fn output_is_sent_before_the_status() {
    let mut session = Session::start();
    assert_eq!(
        session.step(output(b"one")),
        SessionAction::Send(frame(CommandResponse::Stdout(b"one".to_vec())))
    );
    assert_eq!(session.step(SessionEvent::Exited(3)), SessionAction::StopReading);
    assert_eq!(
        session.step(output(b"two")),
        SessionAction::Send(frame(CommandResponse::Stdout(b"two".to_vec())))
    );
    assert!(!session.done);
    assert_eq!(session.step(SessionEvent::OutputEnded), finish(3));
    assert!(session.done);
}

#[test]
fn status_may_come_last() {
    let mut session = Session::start();
    assert_eq!(session.step(SessionEvent::OutputEnded), SessionAction::Nothing);
    assert_eq!(session.step(output(b"late")), SessionAction::Nothing);
    assert_eq!(session.step(SessionEvent::Exited(0)), finish(0));
}

#[test]
fn status_is_a_signed_number() {
    for (status, code) in vec![(1u32, 1i32), (0x7fff_ffff, i32::MAX), (0x8000_0000, i32::MIN), (u32::MAX, -1)] {
        let mut session = Session::start();
        session.step(SessionEvent::OutputEnded);
        assert_eq!(session.step(SessionEvent::Exited(status)), finish(code));
    }
}

#[test]
fn ended_session_is_silent() {
    let mut session = Session::start();
    session.step(SessionEvent::OutputEnded);
    session.step(SessionEvent::Exited(0));
    let end = session;
    for event in vec![
        output(b"x"),
        SessionEvent::OutputEnded,
        SessionEvent::SendFailed,
        from_client(ClientMessage::Eof),
        SessionEvent::PtyFailed,
        SessionEvent::Exited(9),
    ] {
        assert_eq!(session.step(event), SessionAction::Nothing);
        assert_eq!(session, end);
    }
}

#[test]
fn client_drives_the_terminal_until_its_end() {
    let mut session = Session::start();
    assert_eq!(
        session.step(from_client(ClientMessage::Input(b"ls\r".to_vec()))),
        SessionAction::WritePty(b"ls\r".to_vec())
    );
    assert_eq!(
        session.step(from_client(ClientMessage::Resize(100, 40))),
        SessionAction::ResizePty(pty_size(100, 40))
    );
    assert_eq!(session.step(from_client(ClientMessage::Eof)), SessionAction::StopReading);
    assert_eq!(
        session.step(from_client(ClientMessage::Input(b"x".to_vec()))),
        SessionAction::Nothing
    );
    assert_eq!(session.step(SessionEvent::Exited(0)), SessionAction::Nothing);
}

#[test]
fn lost_client_and_failed_terminal_stop_the_reading() {
    let mut session = Session::start();
    assert_eq!(session.step(lost_client()), SessionAction::StopReading);
    assert_eq!(session.step(lost_client()), SessionAction::Nothing);
    let mut session = Session::start();
    assert_eq!(session.step(SessionEvent::PtyFailed), SessionAction::StopReading);
    assert_eq!(session.step(SessionEvent::PtyFailed), SessionAction::Nothing);
}

#[test]
fn failed_send_fails_the_session_at_the_end_of_the_command() {
    let mut session = Session::start();
    assert_eq!(session.step(SessionEvent::SendFailed), SessionAction::Nothing);
    assert_eq!(session.step(output(b"x")), SessionAction::Nothing);
    assert_eq!(session.step(SessionEvent::Exited(0)), SessionAction::Fail);
    assert!(session.done);
    let mut session = Session::start();
    session.step(SessionEvent::Exited(0));
    assert_eq!(session.step(SessionEvent::SendFailed), SessionAction::Fail);
}

#[test]
fn second_status_is_ignored() {
    let mut session = Session::start();
    session.step(SessionEvent::Exited(1));
    assert_eq!(session.step(SessionEvent::Exited(2)), SessionAction::Nothing);
    assert_eq!(session.step(SessionEvent::OutputEnded), finish(1));
}

#[test]
fn reads_of_the_terminal_are_events() {
    let buffer = [1u8, 2, 3, 4];
    assert_eq!(output_event(&buffer, &Ok(0)), SessionEvent::OutputEnded);
    assert_eq!(output_event(&buffer, &Ok(3)), output(&[1, 2, 3]));
    assert_eq!(output_event(&buffer, &Ok(4)), output(&buffer));
    assert_eq!(output_event(&buffer, &Err("gone".to_string())), SessionEvent::OutputEnded);
}

#[test]
fn client_receives_a_whole_session() {
    let mut session = Session::start();
    let mut stream: Vec<u8> = Vec::new();
    for event in vec![
        output(b"a"),
        from_client(ClientMessage::Resize(1, 1)),
        output(b""),
        SessionEvent::Exited(7),
        output(b"bc"),
        SessionEvent::OutputEnded,
    ] {
        match session.step(event) {
            SessionAction::Send(bytes) | SessionAction::Finish(bytes) => stream.extend(bytes),
            _ => {}
        }
    }
    let mut reader: &[u8] = &stream;
    for expected in vec![
        CommandResponse::Stdout(b"a".to_vec()),
        CommandResponse::Stdout(b"".to_vec()),
        CommandResponse::Stdout(b"bc".to_vec()),
        CommandResponse::Exit(7),
    ] {
        assert_eq!(decode_msg(&mut reader), Ok(expected));
    }
    assert!(reader.is_empty());
}

#[test]
fn last_messages_are_told_apart() {
    assert!(!is_last_message(&Ok(ClientMessage::Input(vec![1]))));
    assert!(!is_last_message(&Ok(ClientMessage::Resize(1, 2))));
    assert!(is_last_message(&Ok(ClientMessage::Eof)));
    assert!(is_last_message(&Err(ProtocolError::Io("early eof".to_string()))));
}

#[test]
fn output_does_not_change_what_is_heard() {
    let mut session = Session::start();
    let mut written: Vec<u8> = Vec::new();
    for event in vec![
        from_client(ClientMessage::Input(b"l".to_vec())),
        output(b"l"),
        from_client(ClientMessage::Input(b"s".to_vec())),
        SessionEvent::OutputEnded,
        SessionEvent::SendFailed,
        from_client(ClientMessage::Input(b"!".to_vec())),
        SessionEvent::Exited(0),
        from_client(ClientMessage::Input(b"?".to_vec())),
    ] {
        if let SessionAction::WritePty(data) = session.step(event) {
            written.extend(data);
        }
    }
    assert_eq!(written, b"ls!".to_vec());
}

#[test]
fn lost_client_is_heard_so_far() {
    let mut stream = encode_msg(&ClientMessage::Input(b"ab".to_vec())).unwrap();
    let first = stream.len();
    stream.extend(encode_msg(&ClientMessage::Input(b"cd".to_vec())).unwrap());
    for held in 0..stream.len() {
        let mut session = Session::start();
        let mut reader: &[u8] = &stream[..held];
        let mut written: Vec<u8> = Vec::new();
        while session.reading {
            session.step(output(b"meanwhile"));
            if let SessionAction::WritePty(data) =
                session.step(SessionEvent::Client(decode_msg(&mut reader)))
            {
                written.extend(data);
            }
        }
        let expected = if held < first { b"".to_vec() } else { b"ab".to_vec() };
        assert_eq!(written, expected);
    }
}
