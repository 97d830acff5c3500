use broadcast::client::{
    build_request, input_action, is_last_reply, join_words, log_plan, output_action, ClientAction, ClientEvent,
    ClientSession, LogLevel, LogPlan, FAILED, INTERRUPTED,
};
use broadcast::keys::{KeyCode, KeyEvent, KeyEventKind, Modifiers, TerminalEvent};
use broadcast::message::{ClientMessage, CommandRequest, CommandResponse, PathText};
use broadcast::protocol::{decode_msg, encode_msg, ProtocolError, ProtocolResult};
use broadcast::session::{Session, SessionAction, SessionEvent};

const NONE: Modifiers = Modifiers { shift: false, control: false, alt: false };
const CONTROL: Modifiers = Modifiers { shift: false, control: true, alt: false };

fn key(c: char, modifiers: Modifiers, kind: KeyEventKind) -> TerminalEvent {
    TerminalEvent::Key(KeyEvent { code: KeyCode::Char(c), modifiers, kind })
}

fn frame(message: ClientMessage) -> Vec<u8> {
    encode_msg(&message).unwrap()
}

fn words(text: &[&str]) -> Vec<String> {
    text.iter().map(|w| w.to_string()).collect()
}

#[test]
fn words_are_joined_with_blanks() {
    assert_eq!(join_words(&words(&[])), "");
    assert_eq!(join_words(&words(&["ls"])), "ls");
    assert_eq!(join_words(&words(&["ls", "-l", "a b"])), "ls -l a b");
    assert_eq!(join_words(&words(&["", "", "x"])), "  x");
}

#[test]
fn request_holds_the_command_line() {
    assert_eq!(
        build_request(&words(&["echo", "hi"]), "C:\\w".to_string(), true, Some((80, 25)), false),
        CommandRequest {
            command: "echo hi".to_string(),
            working_dir: PathText { text: "C:\\w".to_string(), unicode: true },
            wsl_mode: true,
            terminal_size: Some((80, 25)),
            interactive: false,
        }
    );
}

#[test]
fn replies_are_shown_or_end_the_client() {
    assert_eq!(
        output_action(Ok(CommandResponse::Stdout(vec![1, 2]))),
        ClientAction::Print(vec![1, 2])
    );
    assert_eq!(output_action(Ok(CommandResponse::Stderr(vec![1]))), ClientAction::Nothing);
    assert_eq!(output_action(Ok(CommandResponse::Exit(42))), ClientAction::Exit(42));
    assert_eq!(
        output_action(Ok(CommandResponse::Error("no".to_string()))),
        ClientAction::Exit(1)
    );
    assert_eq!(
        output_action(Err(ProtocolError::Io("early eof".to_string()))),
        ClientAction::Exit(1)
    );
    assert_eq!(FAILED, 1);
}

#[test]
fn control_c_and_control_d_end_the_client() {
    let pressed = KeyEventKind::Press;
    let mut session = ClientSession::start();
    assert_eq!(
        session.step(ClientEvent::Terminal(key('c', CONTROL, pressed))),
        ClientAction::SendAndExit(frame(ClientMessage::Input(vec![3])), 130)
    );
    assert!(session.done);
    let mut session = ClientSession::start();
    assert_eq!(
        session.step(ClientEvent::Terminal(key('d', CONTROL, pressed))),
        ClientAction::SendAndExit(frame(ClientMessage::Eof), 130)
    );
    assert!(session.done);
    assert_eq!(INTERRUPTED, 130);
}

#[test]
fn only_pressed_keys_count() {
    for kind in vec![KeyEventKind::Repeat, KeyEventKind::Release] {
        for modifiers in vec![NONE, CONTROL] {
            let event = key('c', modifiers, kind);
            assert_eq!(input_action(&event, Some(vec![1])), ClientAction::Nothing);
            let mut session = ClientSession::start();
            assert_eq!(session.step(ClientEvent::Terminal(event)), ClientAction::Nothing);
            assert!(!session.done);
        }
    }
}

#[test]
fn bytes_of_an_event_are_sent_on() {
    let pressed = KeyEventKind::Press;
    let send = ClientAction::Send(frame(ClientMessage::Input(vec![9, 9])));
    assert_eq!(input_action(&key('x', NONE, pressed), Some(vec![9, 9])), send);
    assert_eq!(input_action(&key('x', NONE, pressed), None), ClientAction::Nothing);
    assert_eq!(input_action(&TerminalEvent::Escape, Some(vec![9, 9])), send);
    assert_eq!(input_action(&TerminalEvent::Escape, None), ClientAction::Nothing);
    assert_eq!(input_action(&TerminalEvent::Other, Some(vec![9])), ClientAction::Nothing);
    assert_eq!(
        input_action(&key('c', CONTROL, pressed), Some(vec![9])),
        ClientAction::SendAndExit(frame(ClientMessage::Input(vec![3])), 130)
    );
    assert_eq!(
        input_action(&TerminalEvent::WindowResized { cols: 7, rows: 8 }, Some(vec![9])),
        ClientAction::Send(frame(ClientMessage::Resize(7, 8)))
    );
}

#[test]
fn keys_are_sent_as_their_bytes() {
    let mut session = ClientSession::start();
    assert_eq!(
        session.step(ClientEvent::Terminal(key('x', NONE, KeyEventKind::Press))),
        ClientAction::Send(frame(ClientMessage::Input(b"x".to_vec())))
    );
    let shifted = Modifiers { shift: true, control: true, alt: false };
    assert_eq!(
        session.step(ClientEvent::Terminal(key('C', shifted, KeyEventKind::Press))),
        ClientAction::Nothing
    );
    assert!(!session.done);
    assert_eq!(
        session.step(ClientEvent::Terminal(TerminalEvent::Escape)),
        ClientAction::Nothing
    );
}

#[test]
fn first_end_decides() {
    let mut session = ClientSession::start();
    assert_eq!(session.step(ClientEvent::InputEnded), ClientAction::Exit(130));
    assert_eq!(
        session.step(ClientEvent::Reply(Ok(CommandResponse::Exit(0)))),
        ClientAction::Nothing
    );
    let mut session = ClientSession::start();
    assert_eq!(
        session.step(ClientEvent::Reply(Ok(CommandResponse::Exit(5)))),
        ClientAction::Exit(5)
    );
    assert_eq!(session.step(ClientEvent::InputEnded), ClientAction::Nothing);
    let mut session = ClientSession::start();
    assert_eq!(session.step(ClientEvent::PrintFailed), ClientAction::Fail);
    assert!(session.done);
}

#[test]
fn logging_follows_the_options() {
    let all = LogPlan { level: LogLevel::Debug, to_file: true };
    let little = LogPlan { level: LogLevel::Info, to_file: false };
    assert_eq!(log_plan(false, false), little);
    assert_eq!(log_plan(true, false), all);
    assert_eq!(log_plan(false, true), all);
    assert_eq!(log_plan(true, true), all);
}

fn watch(stream: &[u8]) -> (Vec<u8>, Option<i32>) {
    let mut session = ClientSession::start();
    let mut reader = stream;
    let mut shown: Vec<u8> = Vec::new();
    let mut code: Option<i32> = None;
    while !session.done {
        let received: ProtocolResult<CommandResponse> = decode_msg(&mut reader);
        match session.step(ClientEvent::Reply(received)) {
            ClientAction::Print(data) => shown.extend(data),
            ClientAction::Exit(c) => code = Some(c),
            _ => {}
        }
    }
    (shown, code)
}

#[test]
fn user_sees_output_and_status() {
    let mut session = Session::start();
    let mut stream: Vec<u8> = Vec::new();
    for event in vec![
        SessionEvent::Output(b"hello ".to_vec()),
        SessionEvent::Exited(4),
        SessionEvent::Output(b"world".to_vec()),
    ] {
        if let SessionAction::Send(bytes) = session.step(event) {
            stream.extend(bytes);
        }
    }
    assert_eq!(watch(&stream), (b"hello world".to_vec(), Some(1)));
    if let SessionAction::Finish(bytes) = session.step(SessionEvent::OutputEnded) {
        stream.extend(bytes);
    }
    stream.extend_from_slice(&[1, 2, 3]);
    assert_eq!(watch(&stream), (b"hello world".to_vec(), Some(4)));
}

#[test]
fn client_comes_to_an_end_on_any_bytes() {
    assert_eq!(watch(&[]), (vec![], Some(1)));
    assert_eq!(watch(&[0, 0, 0, 1, 9]), (vec![], Some(1)));
    assert_eq!(watch(&[255, 255, 255, 255, 0]), (vec![], Some(1)));
}

#[test]
fn terminal_gets_what_is_typed() {
    let pressed = KeyEventKind::Press;
    let mut client = ClientSession::start();
    let mut stream: Vec<u8> = Vec::new();
    for event in vec![
        key('l', NONE, pressed),
        key('l', NONE, KeyEventKind::Release),
        key('s', NONE, pressed),
        TerminalEvent::WindowResized { cols: 90, rows: 30 },
        key('d', CONTROL, pressed),
        key('x', NONE, pressed),
    ] {
        match client.step(ClientEvent::Terminal(event)) {
            ClientAction::Send(bytes) | ClientAction::SendAndExit(bytes, _) => {
                stream.extend(bytes)
            }
            _ => {}
        }
    }
    let mut server = Session::start();
    let mut reader: &[u8] = &stream;
    let mut input: Vec<u8> = Vec::new();
    while server.reading {
        let received: ProtocolResult<ClientMessage> = decode_msg(&mut reader);
        match server.step(SessionEvent::Client(received)) {
            SessionAction::WritePty(data) => input.extend(data),
            SessionAction::ResizePty(size) => assert_eq!((size.cols, size.rows), (90, 30)),
            action => assert_eq!(action, SessionAction::StopReading),
        }
    }
    assert_eq!(input, b"ls".to_vec());
    assert!(reader.is_empty());
}

#[test]
fn lost_server_shows_what_came_whole() {
    let mut stream = encode_msg(&CommandResponse::Stdout(b"one".to_vec())).unwrap();
    let first = stream.len();
    stream.extend(encode_msg(&CommandResponse::Stdout(b"two".to_vec())).unwrap());
    let second = stream.len();
    stream.extend(encode_msg(&CommandResponse::Exit(0)).unwrap());
    assert_eq!(watch(&stream[..first - 1]), (vec![], Some(1)));
    assert_eq!(watch(&stream[..first]), (b"one".to_vec(), Some(1)));
    assert_eq!(watch(&stream[..second - 1]), (b"one".to_vec(), Some(1)));
    assert_eq!(watch(&stream[..stream.len() - 1]), (b"onetwo".to_vec(), Some(1)));
    assert_eq!(watch(&stream), (b"onetwo".to_vec(), Some(0)));
}

#[test]
fn last_replies_are_told_apart() {
    assert!(!is_last_reply(&Ok(CommandResponse::Stdout(vec![1]))));
    assert!(!is_last_reply(&Ok(CommandResponse::Stderr(vec![1]))));
    assert!(is_last_reply(&Ok(CommandResponse::Exit(0))));
    assert!(is_last_reply(&Ok(CommandResponse::Error("no".to_string()))));
    assert!(is_last_reply(&Err(ProtocolError::Io("early eof".to_string()))));
}

#[test]
fn typing_changes_nothing_that_is_shown() {
    let pressed = KeyEventKind::Press;
    let mut session = ClientSession::start();
    let mut shown: Vec<u8> = Vec::new();
    let mut code: Option<i32> = None;
    for event in vec![
        ClientEvent::Terminal(key('x', NONE, pressed)),
        ClientEvent::Reply(Ok(CommandResponse::Stdout(b"a".to_vec()))),
        ClientEvent::Terminal(TerminalEvent::WindowResized { cols: 1, rows: 2 }),
        ClientEvent::Reply(Ok(CommandResponse::Stdout(b"b".to_vec()))),
        ClientEvent::Terminal(TerminalEvent::Other),
        ClientEvent::Reply(Ok(CommandResponse::Exit(6))),
        ClientEvent::Terminal(key('c', CONTROL, pressed)),
    ] {
        match session.step(event) {
            ClientAction::Print(data) => shown.extend(data),
            ClientAction::Exit(c) | ClientAction::SendAndExit(_, c) => code = Some(c),
            _ => {}
        }
    }
    assert_eq!((shown, code), (b"ab".to_vec(), Some(6)));
}
