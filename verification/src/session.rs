//! A running command, as the server sees it.
//!
//! Output of the terminal goes to the client, messages of the client go to the
//! terminal, and the exit code goes to the client once the command has ended and
//! all of its output was sent. Reads, writes and the wait for the command run
//! side by side; what they report comes here as events, one at a time, in any
//! order.

use crate::message::{ClientMessage, ClientView, CommandResponse, ResponseView};
use crate::protocol;
use crate::protocol::{encode_msg, ProtocolFault, ProtocolResult};
use crate::server;
use crate::server::{pty_size, PtySize};
use vstd::prelude::*;

verus! {

/// What has happened around a running command.
#[derive(Debug, PartialEq, Eq)]
pub enum SessionEvent {
    /// The terminal gave output.
    Output(Vec<u8>),
    /// The terminal will give no more output.
    OutputEnded,
    /// A frame could not be sent to the client.
    SendFailed,
    /// A message of the client was received, or could not be.
    Client(ProtocolResult<ClientMessage>),
    /// The terminal did not take input or a size.
    PtyFailed,
    /// The command has ended with this status.
    Exited(u32),
}

/// The contents of a [`SessionEvent`].
pub enum EventView {
    Output(Seq<u8>),
    OutputEnded,
    SendFailed,
    Client(Result<ClientView, ProtocolFault>),
    PtyFailed,
    Exited(u32),
}

impl View for SessionEvent {
    type V = EventView;

    open spec fn view(&self) -> EventView {
        match self {
            SessionEvent::Output(data) => EventView::Output(data@),
            SessionEvent::OutputEnded => EventView::OutputEnded,
            SessionEvent::SendFailed => EventView::SendFailed,
            SessionEvent::Client(received) => EventView::Client(
                protocol::outcome(*received),
            ),
            SessionEvent::PtyFailed => EventView::PtyFailed,
            SessionEvent::Exited(status) => EventView::Exited(*status),
        }
    }
}

/// What is to be done next.
#[derive(Debug, PartialEq, Eq)]
pub enum SessionAction {
    /// Wait for the next event.
    Nothing,
    /// Send this frame to the client.
    Send(Vec<u8>),
    /// Write these bytes to the terminal.
    WritePty(Vec<u8>),
    /// Give the terminal this size.
    ResizePty(PtySize),
    /// Read no more messages of the client.
    StopReading,
    /// Send this last frame to the client: the session is over.
    Finish(Vec<u8>),
    /// The session is over, with the error of the frame that could not be sent.
    Fail,
}

/// The contents of a [`SessionAction`].
pub enum ActionView {
    Nothing,
    Send(Seq<u8>),
    WritePty(Seq<u8>),
    ResizePty(PtySize),
    StopReading,
    Finish(Seq<u8>),
    Fail,
}

impl View for SessionAction {
    type V = ActionView;

    open spec fn view(&self) -> ActionView {
        match self {
            SessionAction::Nothing => ActionView::Nothing,
            SessionAction::Send(bytes) => ActionView::Send(bytes@),
            SessionAction::WritePty(data) => ActionView::WritePty(data@),
            SessionAction::ResizePty(size) => ActionView::ResizePty(*size),
            SessionAction::StopReading => ActionView::StopReading,
            SessionAction::Finish(bytes) => ActionView::Finish(bytes@),
            SessionAction::Fail => ActionView::Fail,
        }
    }
}

/// How far a session has come.
#[derive(Debug, Clone, Copy, PartialEq, Eq, Structural)]
pub struct Session {
    /// Messages of the client are still looked at.
    pub reading: bool,
    /// The client still takes frames.
    pub sending: bool,
    /// The terminal has given all of its output.
    pub drained: bool,
    /// The status that the command ended with.
    pub status: Option<u32>,
    /// The session is over.
    pub done: bool,
}

/// A session whose command was just started.
pub open spec fn started() -> Session {
    Session { reading: true, sending: true, drained: false, status: None, done: false }
}

/// The exit code for the status of a command: its 32 bits as a signed number.
pub open spec fn exit_code(status: u32) -> i32 {
    if status < 0x8000_0000 {
        status as i32
    } else {
        (status - 0x1_0000_0000) as i32
    }
}

/// The bytes that are sent for a response.
pub open spec fn response_bytes(response: ResponseView) -> Seq<u8> {
    protocol::sent::<CommandResponse>(response)->Ok_0
}

/// Ends a session that has nothing left to wait for.
pub open spec fn settled(session: Session, otherwise: ActionView) -> (Session, ActionView) {
    match session.status {
        Some(status) => if !session.sending {
            (Session { done: true, ..session }, ActionView::Fail)
        } else if session.drained {
            (
                Session { done: true, ..session },
                ActionView::Finish(response_bytes(ResponseView::Exit(exit_code(status)))),
            )
        } else {
            (session, otherwise)
        },
        None => (session, otherwise),
    }
}

/// Whether what the client sent is the last that is looked at: the end of its
/// input, or nothing that could be received.
pub open spec fn ends_input(received: Result<ClientView, ProtocolFault>) -> bool {
    match received {
        Ok(message) => message is Eof,
        Err(_) => true,
    }
}

/// What a session does with what the client sent.
pub open spec fn client_step(
    session: Session,
    received: Result<ClientView, ProtocolFault>,
) -> (Session, ActionView) {
    if !session.reading {
        (session, ActionView::Nothing)
    } else {
        match received {
            Ok(ClientView::Input(data)) => (session, ActionView::WritePty(data)),
            Ok(ClientView::Resize(cols, rows)) => (
                session,
                ActionView::ResizePty(server::character_size(cols, rows)),
            ),
            Ok(ClientView::Eof) => (
                Session { reading: false, ..session },
                ActionView::StopReading,
            ),
            Err(_) => (Session { reading: false, ..session }, ActionView::StopReading),
        }
    }
}

/// What a session does with an event.
pub open spec fn next(session: Session, event: EventView) -> (Session, ActionView) {
    if session.done {
        (session, ActionView::Nothing)
    } else {
        match event {
            EventView::Output(data) => if session.sending && !session.drained {
                (session, ActionView::Send(response_bytes(ResponseView::Stdout(data))))
            } else {
                (session, ActionView::Nothing)
            },
            EventView::OutputEnded => settled(
                Session { drained: true, ..session },
                ActionView::Nothing,
            ),
            EventView::SendFailed => settled(
                Session { sending: false, ..session },
                ActionView::Nothing,
            ),
            EventView::Client(received) => client_step(session, received),
            EventView::PtyFailed => if session.reading {
                (Session { reading: false, ..session }, ActionView::StopReading)
            } else {
                (session, ActionView::Nothing)
            },
            EventView::Exited(status) => if session.status is Some {
                (session, ActionView::Nothing)
            } else {
                settled(
                    Session { status: Some(status), reading: false, ..session },
                    if session.reading {
                        ActionView::StopReading
                    } else {
                        ActionView::Nothing
                    },
                )
            },
        }
    }
}

/// The event for a read of the terminal that gave the first `n` bytes of `buffer`.
pub open spec fn read_event(buffer: Seq<u8>, n: nat) -> EventView {
    if n == 0 {
        EventView::OutputEnded
    } else {
        EventView::Output(buffer.take(n as int))
    }
}

/// The event for what a read of the terminal into `buffer` came to. No bytes, or
/// an error, mean that no more output follows.
pub fn output_event(buffer: &[u8], read: &Result<usize, String>) -> (r: SessionEvent)
    requires
        read is Ok ==> read->Ok_0 <= buffer@.len(),
    ensures
        r@ == match read {
            Ok(n) => if *n == 0 {
                EventView::OutputEnded
            } else {
                EventView::Output(buffer@.take(*n as int))
            },
            Err(_) => EventView::OutputEnded,
        },
        read is Ok ==> r@ == read_event(buffer@, read->Ok_0 as nat),
{
    match read {
        Ok(n) => if *n == 0 {
            SessionEvent::OutputEnded
        } else {
            let chunk = vstd::slice::slice_subrange(buffer, 0, *n);
            SessionEvent::Output(vstd::slice::slice_to_vec(chunk))
        },
        Err(_) => SessionEvent::OutputEnded,
    }
}

/// Whether a message of the client, or the failure to receive one, is the last
/// that is looked at.
pub fn is_last_message(received: &ProtocolResult<ClientMessage>) -> (r: bool)
    ensures
        r == ends_input(protocol::outcome(*received)),
{
    match received {
        Ok(ClientMessage::Input(_)) | Ok(ClientMessage::Resize(_, _)) => false,
        Ok(ClientMessage::Eof) | Err(_) => true,
    }
}

/// The frame of a response.
fn response_frame(response: &CommandResponse) -> (r: Vec<u8>)
    ensures
        r@ == response_bytes(response@),
{
    encode_msg(response).unwrap()
}

fn status_to_code(status: u32) -> (r: i32)
    ensures
        r == exit_code(status),
        r as int % 0x1_0000_0000 == status,
{
    if status < 0x8000_0000 {
        status as i32
    } else {
        -1 - (u32::MAX - status) as i32
    }
}

impl Session {
    /// Between two events a session is consistent: it is over exactly when the
    /// command has ended and nothing is left to send, and once the command has
    /// ended the client is not listened to.
    pub open spec fn consistent(self) -> bool {
        &&& self.done <==> self.status is Some && (self.drained || !self.sending)
        &&& self.status is Some ==> !self.reading
    }

    /// A session whose command was just started.
    pub fn start() -> (r: Session)
        ensures
            r == started(),
            r.consistent(),
    {
        Session { reading: true, sending: true, drained: false, status: None, done: false }
    }

    fn settle(&mut self, otherwise: SessionAction) -> (r: SessionAction)
        ensures
            (*final(self), r@) == settled(*old(self), otherwise@),
    {
        match self.status {
            Some(status) => if !self.sending {
                self.done = true;
                SessionAction::Fail
            } else if self.drained {
                self.done = true;
                let exit = CommandResponse::Exit(status_to_code(status));
                SessionAction::Finish(response_frame(&exit))
            } else {
                otherwise
            },
            None => otherwise,
        }
    }

    fn take_message(&mut self, received: ProtocolResult<ClientMessage>) -> (r: SessionAction)
        ensures
            (*final(self), r@) == client_step(*old(self), protocol::outcome(received)),
    {
        if !self.reading {
            return SessionAction::Nothing;
        }
        match received {
            Ok(ClientMessage::Input(data)) => SessionAction::WritePty(data),
            Ok(ClientMessage::Resize(cols, rows)) => {
                SessionAction::ResizePty(pty_size(cols, rows))
            },
            Ok(ClientMessage::Eof) | Err(_) => {
                self.reading = false;
                SessionAction::StopReading
            },
        }
    }

    /// Takes an event and says what is to be done about it.
    pub fn step(&mut self, event: SessionEvent) -> (r: SessionAction)
        ensures
            (*final(self), r@) == next(*old(self), event@),
            old(self).consistent() ==> final(self).consistent(),
    {
        if self.done {
            return SessionAction::Nothing;
        }
        match event {
            SessionEvent::Output(data) => if self.sending && !self.drained {
                SessionAction::Send(response_frame(&CommandResponse::Stdout(data)))
            } else {
                SessionAction::Nothing
            },
            SessionEvent::OutputEnded => {
                self.drained = true;
                self.settle(SessionAction::Nothing)
            },
            SessionEvent::SendFailed => {
                self.sending = false;
                self.settle(SessionAction::Nothing)
            },
            SessionEvent::Client(received) => self.take_message(received),
            SessionEvent::PtyFailed => if self.reading {
                self.reading = false;
                SessionAction::StopReading
            } else {
                SessionAction::Nothing
            },
            SessionEvent::Exited(status) => if self.status.is_some() {
                SessionAction::Nothing
            } else {
                let otherwise = if self.reading {
                    SessionAction::StopReading
                } else {
                    SessionAction::Nothing
                };
                self.status = Some(status);
                self.reading = false;
                self.settle(otherwise)
            },
        }
    }
}

} // verus!
