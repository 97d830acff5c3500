//! What the client decides: the request it makes, what it shows of the replies,
//! and what it sends for the events of the local terminal.

use crate::keys;
use crate::keys::{event_to_bytes, KeyCode, KeyEvent, KeyEventKind, TerminalEvent};
use crate::message::{
    ClientMessage, ClientView, CommandRequest, CommandResponse, PathText, PathView, RequestView,
    ResponseView,
};
use crate::protocol;
use crate::protocol::{encode_msg, ProtocolFault, ProtocolResult};
use vstd::prelude::*;

verus! {

/// The exit code of a client whose input ended before the command did.
pub const INTERRUPTED: i32 = 130;

/// The exit code of a client that was not told how the command ended.
pub const FAILED: i32 = 1;

// ---------------------------------------------------------------------------
// The request
// ---------------------------------------------------------------------------

/// Words with a blank between each two of them.
pub open spec fn joined(words: Seq<Seq<char>>) -> Seq<char>
    decreases words.len(),
{
    if words.len() == 0 {
        Seq::empty()
    } else if words.len() == 1 {
        words[0]
    } else {
        joined(words.drop_last()).push(' ') + words.last()
    }
}

/// The texts of some words.
pub open spec fn texts(words: Seq<String>) -> Seq<Seq<char>> {
    words.map_values(|word: String| word@)
}

/// The words of a command, with a blank between each two of them.
pub fn join_words(words: &Vec<String>) -> (r: String)
    ensures
        r@ == joined(texts(words@)),
{
    let mut command = String::new();
    let ghost all = texts(words@);
    assert(all.take(0) =~= Seq::<Seq<char>>::empty());
    for i in 0..words.len()
        invariant
            all == texts(words@),
            command@ == joined(all.take(i as int)),
    {
        assert(all.take(i + 1).drop_last() =~= all.take(i as int));
        if i > 0 {
            command.push(' ');
        }
        command.append(words[i].as_str());
        assert(command@ =~= joined(all.take(i + 1)));
    }
    assert(all.take(words@.len() as int) =~= all);
    command
}

/// The request to run the command of some words in a directory.
pub open spec fn request_for(
    words: Seq<Seq<char>>,
    cwd: Seq<char>,
    wsl_mode: bool,
    terminal_size: Option<(u16, u16)>,
    interactive: bool,
) -> RequestView {
    RequestView {
        command: joined(words),
        working_dir: PathView { text: cwd, unicode: true },
        wsl_mode,
        terminal_size,
        interactive,
    }
}

/// The request to run a command in the client's own directory.
pub fn build_request(
    words: &Vec<String>,
    cwd: String,
    wsl_mode: bool,
    terminal_size: Option<(u16, u16)>,
    interactive: bool,
) -> (r: CommandRequest)
    ensures
        r@ == (RequestView {
            command: joined(texts(words@)),
            working_dir: PathView { text: cwd@, unicode: true },
            wsl_mode,
            terminal_size,
            interactive,
        }),
        r@ == request_for(texts(words@), cwd@, wsl_mode, terminal_size, interactive),
{
    CommandRequest {
        command: join_words(words),
        working_dir: PathText::new(cwd),
        wsl_mode,
        terminal_size,
        interactive,
    }
}

// ---------------------------------------------------------------------------
// Replies and events
// ---------------------------------------------------------------------------

/// What has happened around a running client.
#[derive(Debug, PartialEq, Eq)]
pub enum ClientEvent {
    /// A reply of the server was received, or could not be.
    Reply(ProtocolResult<CommandResponse>),
    /// The local terminal did not take output.
    PrintFailed,
    /// The local terminal reports an event.
    Terminal(TerminalEvent),
    /// There is no terminal to read from, it could not be read, or a frame could
    /// not be sent.
    InputEnded,
}

/// The contents of a [`ClientEvent`].
pub enum ClientEventView {
    Reply(Result<ResponseView, ProtocolFault>),
    PrintFailed,
    Terminal(TerminalEvent),
    InputEnded,
}

impl View for ClientEvent {
    type V = ClientEventView;

    open spec fn view(&self) -> ClientEventView {
        match self {
            ClientEvent::Reply(received) => ClientEventView::Reply(
                protocol::outcome(*received),
            ),
            ClientEvent::PrintFailed => ClientEventView::PrintFailed,
            ClientEvent::Terminal(event) => ClientEventView::Terminal(*event),
            ClientEvent::InputEnded => ClientEventView::InputEnded,
        }
    }
}

/// What is to be done next.
#[derive(Debug, PartialEq, Eq)]
pub enum ClientAction {
    /// Wait for the next event.
    Nothing,
    /// Write these bytes to the local terminal.
    Print(Vec<u8>),
    /// Send this frame to the server.
    Send(Vec<u8>),
    /// Send this frame to the server, then exit with this code.
    SendAndExit(Vec<u8>, i32),
    /// Exit with this code.
    Exit(i32),
    /// Give up, with the error of the output that could not be written.
    Fail,
}

/// The contents of a [`ClientAction`].
pub enum ClientActionView {
    Nothing,
    Print(Seq<u8>),
    Send(Seq<u8>),
    SendAndExit(Seq<u8>, i32),
    Exit(i32),
    Fail,
}

impl View for ClientAction {
    type V = ClientActionView;

    open spec fn view(&self) -> ClientActionView {
        match self {
            ClientAction::Nothing => ClientActionView::Nothing,
            ClientAction::Print(data) => ClientActionView::Print(data@),
            ClientAction::Send(bytes) => ClientActionView::Send(bytes@),
            ClientAction::SendAndExit(bytes, code) => ClientActionView::SendAndExit(bytes@, *code),
            ClientAction::Exit(code) => ClientActionView::Exit(*code),
            ClientAction::Fail => ClientActionView::Fail,
        }
    }
}

/// What is done about a reply: output is shown, error output is part of it
/// already, and an exit code, an error or a closed connection ends the client.
pub open spec fn output_for(received: Result<ResponseView, ProtocolFault>) -> ClientActionView {
    match received {
        Ok(ResponseView::Stdout(data)) => ClientActionView::Print(data),
        Ok(ResponseView::Stderr(_)) => ClientActionView::Nothing,
        Ok(ResponseView::Exit(code)) => ClientActionView::Exit(code),
        Ok(ResponseView::Error(_)) => ClientActionView::Exit(FAILED),
        Err(_) => ClientActionView::Exit(FAILED),
    }
}

/// What is to be done about a reply, or about the failure to receive one.
pub fn output_action(received: ProtocolResult<CommandResponse>) -> (r: ClientAction)
    ensures
        r@ == output_for(protocol::outcome(received)),
{
    match received {
        Ok(CommandResponse::Stdout(data)) => ClientAction::Print(data),
        Ok(CommandResponse::Stderr(_)) => ClientAction::Nothing,
        Ok(CommandResponse::Exit(code)) => ClientAction::Exit(code),
        Ok(CommandResponse::Error(_)) => ClientAction::Exit(FAILED),
        Err(_) => ClientAction::Exit(FAILED),
    }
}

/// Whether a reply, or the failure to receive one, is the last that is looked at.
pub fn is_last_reply(received: &ProtocolResult<CommandResponse>) -> (r: bool)
    ensures
        r == is_last(output_for(protocol::outcome(*received))),
{
    match received {
        Ok(CommandResponse::Stdout(_)) | Ok(CommandResponse::Stderr(_)) => false,
        Ok(CommandResponse::Exit(_)) | Ok(CommandResponse::Error(_)) | Err(_) => true,
    }
}

/// The bytes that are sent for a message.
pub open spec fn message_bytes(message: ClientView) -> Seq<u8> {
    protocol::sent::<ClientMessage>(message)->Ok_0
}

/// Bytes for the command are sent on, where there are any.
pub open spec fn forwarded(encoded: Option<Seq<u8>>) -> ClientActionView {
    match encoded {
        Some(data) => ClientActionView::Send(message_bytes(ClientView::Input(data))),
        None => ClientActionView::Nothing,
    }
}

/// Whether a key is a character pressed with Control.
pub open spec fn is_control(key: KeyEvent, c: char) -> bool {
    key.kind is Press && key.modifiers.control && key.code == KeyCode::Char(c)
}

/// What is done about an event for which a program would read `encoded`.
///
/// Control-C is passed on as the interrupt character and Control-D as the end of
/// the input; both end the client. Keys count when they are pressed.
pub open spec fn input_for(event: TerminalEvent, encoded: Option<Seq<u8>>) -> ClientActionView {
    match event {
        TerminalEvent::Key(key) => if !(key.kind is Press) {
            ClientActionView::Nothing
        } else if is_control(key, 'c') {
            ClientActionView::SendAndExit(message_bytes(ClientView::Input(seq![3u8])), INTERRUPTED)
        } else if is_control(key, 'd') {
            ClientActionView::SendAndExit(message_bytes(ClientView::Eof), INTERRUPTED)
        } else {
            forwarded(encoded)
        },
        TerminalEvent::WindowResized { cols, rows } => ClientActionView::Send(
            message_bytes(ClientView::Resize(cols, rows)),
        ),
        TerminalEvent::Escape => forwarded(encoded),
        TerminalEvent::Other => ClientActionView::Nothing,
    }
}

/// The frame of a message.
fn message_frame(message: &ClientMessage) -> (r: Vec<u8>)
    ensures
        r@ == message_bytes(message@),
{
    encode_msg(message).unwrap()
}

fn pressed_with_control(key: &KeyEvent, c: char) -> (r: bool)
    ensures
        r == is_control(*key, c),
        r ==> key.modifiers.control,
{
    key.kind == KeyEventKind::Press && key.modifiers.control && key.code == KeyCode::Char(c)
}

fn forward(encoded: Option<Vec<u8>>) -> (r: ClientAction)
    ensures
        r@ == forwarded(bytes_of(encoded)),
{
    match encoded {
        Some(data) => ClientAction::Send(message_frame(&ClientMessage::Input(data))),
        None => ClientAction::Nothing,
    }
}

/// The contents of bytes that may be there.
pub open spec fn bytes_of(encoded: Option<Vec<u8>>) -> Option<Seq<u8>> {
    match encoded {
        Some(data) => Some(data@),
        None => None,
    }
}

/// What is to be done about an event for which a program would read `encoded`.
pub fn input_action(event: &TerminalEvent, encoded: Option<Vec<u8>>) -> (r: ClientAction)
    ensures
        r@ == input_for(*event, bytes_of(encoded)),
        !(r is Exit) && !(r is Print) && !(r is Fail),
        r is SendAndExit ==> (event matches TerminalEvent::Key(key) && key.modifiers.control && (
        key.code == KeyCode::Char('c') || key.code == KeyCode::Char('d'))),
{
    match event {
        TerminalEvent::Key(key) => if key.kind != KeyEventKind::Press {
            ClientAction::Nothing
        } else if pressed_with_control(key, 'c') {
            let mut interrupt: Vec<u8> = Vec::new();
            interrupt.push(3);
            assert(interrupt@ =~= seq![3u8]);
            ClientAction::SendAndExit(message_frame(&ClientMessage::Input(interrupt)), INTERRUPTED)
        } else if pressed_with_control(key, 'd') {
            ClientAction::SendAndExit(message_frame(&ClientMessage::Eof), INTERRUPTED)
        } else {
            forward(encoded)
        },
        TerminalEvent::WindowResized { cols, rows } => {
            ClientAction::Send(message_frame(&ClientMessage::Resize(*cols, *rows)))
        },
        TerminalEvent::Escape => forward(encoded),
        TerminalEvent::Other => ClientAction::Nothing,
    }
}

/// A running client: replies and events are taken until one of them ends it.
#[derive(Debug, Clone, Copy, PartialEq, Eq, Structural)]
pub struct ClientSession {
    /// The client is at its end.
    pub done: bool,
}

/// Whether an action is the last of a client.
pub open spec fn is_last(action: ClientActionView) -> bool {
    action is Exit || action is SendAndExit || action is Fail
}

/// What is done about an event by a client that is not at its end.
pub open spec fn action_for(event: ClientEventView) -> ClientActionView {
    match event {
        ClientEventView::Reply(received) => output_for(received),
        ClientEventView::PrintFailed => ClientActionView::Fail,
        ClientEventView::Terminal(event) => input_for(event, keys::event_bytes(event)),
        ClientEventView::InputEnded => ClientActionView::Exit(INTERRUPTED),
    }
}

/// What a client does with an event. The first event that ends it decides how it
/// ends.
pub open spec fn client_next(session: ClientSession, event: ClientEventView) -> (
    ClientSession,
    ClientActionView,
) {
    if session.done {
        (session, ClientActionView::Nothing)
    } else {
        (ClientSession { done: is_last(action_for(event)) }, action_for(event))
    }
}

impl ClientSession {
    /// A client that has sent its request.
    pub fn start() -> (r: ClientSession)
        ensures
            !r.done,
    {
        ClientSession { done: false }
    }

    /// Takes an event and says what is to be done about it.
    pub fn step(&mut self, event: ClientEvent) -> (r: ClientAction)
        ensures
            (*final(self), r@) == client_next(*old(self), event@),
    {
        if self.done {
            return ClientAction::Nothing;
        }
        let action = match event {
            ClientEvent::Reply(received) => output_action(received),
            ClientEvent::PrintFailed => ClientAction::Fail,
            ClientEvent::Terminal(event) => input_action(&event, event_to_bytes(&event)),
            ClientEvent::InputEnded => ClientAction::Exit(INTERRUPTED),
        };
        self.done = matches!(
            action,
            ClientAction::Exit(_) | ClientAction::SendAndExit(_, _) | ClientAction::Fail
        );
        action
    }
}

// ---------------------------------------------------------------------------
// Logging
// ---------------------------------------------------------------------------

/// How much is logged.
#[derive(Debug, Clone, Copy, PartialEq, Eq, Structural)]
pub enum LogLevel {
    Info,
    Debug,
}

/// How much is logged, and whether to a file.
#[derive(Debug, Clone, Copy, PartialEq, Eq, Structural)]
pub struct LogPlan {
    pub level: LogLevel,
    pub to_file: bool,
}

/// The plan for the two options.
pub open spec fn plan_for(debug: bool, verbose: bool) -> LogPlan {
    if debug || verbose {
        LogPlan { level: LogLevel::Debug, to_file: true }
    } else {
        LogPlan { level: LogLevel::Info, to_file: false }
    }
}

/// The plan for the two options: with either of them everything is logged, to a
/// file.
pub fn log_plan(debug: bool, verbose: bool) -> (r: LogPlan)
    ensures
        r.to_file == (debug || verbose),
        r.level == (if debug || verbose {
            LogLevel::Debug
        } else {
            LogLevel::Info
        }),
        r == plan_for(debug, verbose),
{
    if debug || verbose {
        LogPlan { level: LogLevel::Debug, to_file: true }
    } else {
        LogPlan { level: LogLevel::Info, to_file: false }
    }
}

} // verus!
