//! What the operations of client and server are for, each stated by itself: of
//! what a user types, sees and asks for, and of the bytes on the wire.

use crate::client;
use crate::client::{ClientAction, ClientActionView, ClientEvent, ClientEventView, ClientSession};
use crate::failure;
use crate::failure::{ServerError, ServerFault, ServerResult};
use crate::keys;
use crate::keys::{
    EncoderCode, EncoderKey, KeyCode, KeyEvent, KeyEventKind, Modifiers, NamedKey, TerminalEvent,
};
use crate::message::{
    ClientMessage, ClientView, CommandRequest, CommandResponse, Message, PathText, PathView,
    RequestView, ResponseView, WriteError,
};
use crate::path;
use crate::protocol;
use crate::protocol::{ProtocolError, ProtocolFault, ProtocolResult};
use crate::server;
use crate::server::ShellCommand;
use crate::session;
use crate::session::{ActionView, EventView, Session, SessionAction, SessionEvent};
use crate::wire;
use crate::wire::DecodeError;
use vstd::prelude::*;

verus! {

// ---------------------------------------------------------------------------
// What is typed
// ---------------------------------------------------------------------------

/// Whether `action` sends exactly the message `message`, and does not end the
/// client.
pub open spec fn sends(action: ClientActionView, message: ClientView) -> bool {
    match action {
        ClientActionView::Send(bytes) => protocol::sent::<ClientMessage>(message)
            == Ok::<Seq<u8>, ProtocolFault>(bytes),
        _ => false,
    }
}

/// Whether `action` sends exactly the message `message` and then exits with 130.
pub open spec fn sends_and_exits(action: ClientActionView, message: ClientView) -> bool {
    match action {
        ClientActionView::SendAndExit(bytes, code) => code == 130 && protocol::sent::<
            ClientMessage,
        >(message) == Ok::<Seq<u8>, ProtocolFault>(bytes),
        _ => false,
    }
}

/// A key that is pressed without Control is passed on as its bytes, all of them
/// and nothing else, or not at all where it has none; it never ends the client.
pub proof fn law_plain_key_is_passed_on(key: KeyEvent, encoded: Option<Seq<u8>>)
    requires
        key.kind == KeyEventKind::Press,
        !key.modifiers.control,
    ensures
        encoded is None ==> client::input_for(TerminalEvent::Key(key), encoded) is Nothing,
        encoded is Some ==> sends(
            client::input_for(TerminalEvent::Key(key), encoded),
            ClientView::Input(encoded->0),
        ),
{
}

/// So is a key that is pressed with Control, unless it is the letter c or d.
pub proof fn law_control_key_is_passed_on(key: KeyEvent, encoded: Option<Seq<u8>>)
    requires
        key.kind == KeyEventKind::Press,
        key.code != KeyCode::Char('c'),
        key.code != KeyCode::Char('d'),
    ensures
        encoded is None ==> client::input_for(TerminalEvent::Key(key), encoded) is Nothing,
        encoded is Some ==> sends(
            client::input_for(TerminalEvent::Key(key), encoded),
            ClientView::Input(encoded->0),
        ),
{
}

/// Control-C, whatever else is held, sends the interrupt character and ends the
/// client; Control-D sends the end of the input and ends it.
pub proof fn law_control_c_and_d_end_the_client(
    shift: bool,
    alt: bool,
    encoded: Option<Seq<u8>>,
)
    ensures
        sends_and_exits(
            client::input_for(
                TerminalEvent::Key(
                    KeyEvent {
                        code: KeyCode::Char('c'),
                        modifiers: Modifiers { shift, control: true, alt },
                        kind: KeyEventKind::Press,
                    },
                ),
                encoded,
            ),
            ClientView::Input(seq![3u8]),
        ),
        sends_and_exits(
            client::input_for(
                TerminalEvent::Key(
                    KeyEvent {
                        code: KeyCode::Char('d'),
                        modifiers: Modifiers { shift, control: true, alt },
                        kind: KeyEventKind::Press,
                    },
                ),
                encoded,
            ),
            ClientView::Eof,
        ),
{
}

/// No event of the terminal but Control-C and Control-D ends a client.
pub proof fn law_nothing_else_typed_ends_the_client(
    event: TerminalEvent,
    encoded: Option<Seq<u8>>,
)
    requires
        ({
            let action = client::input_for(event, encoded);
            action is Exit || action is SendAndExit || action is Fail
        }),
    ensures
        event matches TerminalEvent::Key(key) && key.kind == KeyEventKind::Press
            && key.modifiers.control && (key.code == KeyCode::Char('c') || key.code
            == KeyCode::Char('d')),
{
}

/// A key that is released or repeats does nothing; nor do the mouse, the focus and
/// pasted text.
pub proof fn law_only_presses_count(key: KeyEvent, encoded: Option<Seq<u8>>)
    ensures
        key.kind != KeyEventKind::Press ==> client::input_for(
            TerminalEvent::Key(key),
            encoded,
        ) is Nothing,
        client::input_for(TerminalEvent::Other, encoded) is Nothing,
{
}

/// A new size is sent as it is, columns first.
pub proof fn law_size_is_sent(cols: u16, rows: u16, encoded: Option<Seq<u8>>)
    ensures
        sends(
            client::input_for(TerminalEvent::WindowResized { cols, rows }, encoded),
            ClientView::Resize(cols, rows),
        ),
{
}

/// An escape sequence that answers a query is passed on like a key.
pub proof fn law_escape_is_passed_on(encoded: Option<Seq<u8>>)
    ensures
        encoded is None ==> client::input_for(TerminalEvent::Escape, encoded) is Nothing,
        encoded is Some ==> sends(
            client::input_for(TerminalEvent::Escape, encoded),
            ClientView::Input(encoded->0),
        ),
{
}

/// A running client does what its replies and its terminal ask for, and its end is
/// its last action. Where its input ends it exits with 130.
pub proof fn law_client_follows_its_events(
    reply: Result<ResponseView, ProtocolFault>,
    event: TerminalEvent,
    any: ClientEventView,
)
    ensures
        ({
            let running = ClientSession { done: false };
            let over = ClientSession { done: true };
            let (after, action) = client::client_next(running, any);
            &&& client::client_next(running, ClientEventView::Reply(reply)).1
                == client::output_for(reply)
            &&& client::client_next(running, ClientEventView::Terminal(event)).1
                == client::input_for(event, keys::event_bytes(event))
            &&& client::client_next(running, ClientEventView::InputEnded).1
                == ClientActionView::Exit(130)
            &&& client::client_next(running, ClientEventView::PrintFailed).1 is Fail
            &&& after.done <==> action is Exit || action is SendAndExit || action is Fail
            &&& client::client_next(over, any) == (over, ClientActionView::Nothing)
        }),
{
}

// ---------------------------------------------------------------------------
// What is shown
// ---------------------------------------------------------------------------

/// Output is shown byte for byte, whatever it is.
pub proof fn law_output_is_shown(data: Seq<u8>)
    ensures
        client::output_for(Ok(ResponseView::Stdout(data))) == ClientActionView::Print(data),
        client::output_for(Ok(ResponseView::Stderr(data))) is Nothing,
{
}

/// The exit code of the command is that of the client, whatever it is; an error of
/// the server and a lost connection are 1.
pub proof fn law_client_exits_as_told(code: i32, text: Seq<char>, fault: ProtocolFault)
    ensures
        client::output_for(Ok(ResponseView::Exit(code))) == ClientActionView::Exit(code),
        client::output_for(Ok(ResponseView::Error(text))) == ClientActionView::Exit(1),
        client::output_for(Err(fault)) == ClientActionView::Exit(1),
{
}

/// The client stops receiving with a reply exactly where that reply ends it, and
/// the server with a message exactly where it is the end of the input.
pub proof fn law_receiving_ends(
    reply: Result<ResponseView, ProtocolFault>,
    message: Result<ClientView, ProtocolFault>,
)
    ensures
        client::is_last(client::output_for(reply)) <==> (reply is Err || reply->Ok_0 is Exit
            || reply->Ok_0 is Error),
        session::ends_input(message) <==> (message is Err || message->Ok_0 is Eof),
{
}

// ---------------------------------------------------------------------------
// The command and its end
// ---------------------------------------------------------------------------

/// The exit code has the 32 bits of the status. A status below 2^31 is the code
/// itself.
pub proof fn law_exit_code_keeps_the_status(status: u32)
    ensures
        session::exit_code(status) as int % 0x1_0000_0000 == status,
        status < 0x8000_0000 ==> session::exit_code(status) == status,
        status >= 0x8000_0000 ==> session::exit_code(status) < 0,
{
}

/// Two statuses have two codes.
pub proof fn law_exit_codes_differ(a: u32, b: u32)
    requires
        session::exit_code(a) == session::exit_code(b),
    ensures
        a == b,
{
}

/// A read of the terminal gives exactly the bytes that were read, in order; one
/// that gives none is the end.
pub proof fn law_bytes_read_are_output(buffer: Seq<u8>, n: nat)
    requires
        n <= buffer.len(),
    ensures
        n == 0 <==> session::read_event(buffer, n) is OutputEnded,
        n > 0 ==> (session::read_event(buffer, n) matches EventView::Output(data) && data.len() == n
            && forall|i: int| 0 <= i < n ==> #[trigger] data[i] == buffer[i]),
{
}

/// Output of a running session is sent as it is, and changes nothing else, until
/// the output has ended or a frame could not be sent.
pub proof fn law_output_is_sent(running: Session, data: Seq<u8>)
    requires
        !running.done,
    ensures
        ({
            let (after, action) = session::next(running, EventView::Output(data));
            &&& after == running
            &&& running.sending && !running.drained ==> (action matches ActionView::Send(bytes)
                && protocol::sent::<CommandResponse>(ResponseView::Stdout(data)) == Ok::<
                Seq<u8>,
                ProtocolFault,
            >(bytes))
            &&& !(running.sending && !running.drained) ==> action is Nothing
        }),
{
}

/// Whether `action` sends, as the last frame, the exit code for `status`.
pub open spec fn tells_status(action: ActionView, status: u32) -> bool {
    exists|code: i32|
        code as int % 0x1_0000_0000 == status && action == (ActionView::Finish(
            protocol::sent::<CommandResponse>(ResponseView::Exit(code))->Ok_0,
        ))
}

/// A session is over with the later of the end of the output and the end of the
/// command, and then sends the exit code.
pub proof fn law_status_is_told_at_the_end(running: Session, status: u32)
    requires
        !running.done,
        running.sending,
    ensures
        ({
            let (after, action) = session::next(running, EventView::OutputEnded);
            &&& after == (Session { drained: true, done: running.status is Some, ..running })
            &&& running.status is Some ==> tells_status(action, running.status->0)
            &&& running.status is None ==> action is Nothing
        }),
        running.status is None ==> ({
            let (after, action) = session::next(running, EventView::Exited(status));
            &&& after == (Session {
                status: Some(status),
                reading: false,
                done: running.drained,
                ..running
            })
            &&& running.drained ==> tells_status(action, status)
            &&& !running.drained ==> action == (if running.reading {
                ActionView::StopReading
            } else {
                ActionView::Nothing
            })
        }),
        running.status is Some ==> session::next(running, EventView::Exited(status)) == (
            running,
            ActionView::Nothing,
        ),
{
    if running.status is Some {
        let told = running.status->0;
        law_exit_code_keeps_the_status(told);
        assert(session::exit_code(told) as int % 0x1_0000_0000 == told);
    }
    law_exit_code_keeps_the_status(status);
    assert(session::exit_code(status) as int % 0x1_0000_0000 == status);
}

/// Where a frame could not be sent the session fails, as soon as the command has
/// ended, and sends nothing more.
pub proof fn law_failed_send_fails_the_session(running: Session, status: u32, event: EventView)
    requires
        !running.done,
    ensures
        ({
            let (after, action) = session::next(running, EventView::SendFailed);
            &&& after == (Session { sending: false, done: running.status is Some, ..running })
            &&& running.status is Some ==> action is Fail
            &&& running.status is None ==> action is Nothing
        }),
        !running.sending && running.status is None ==> ({
            let (after, action) = session::next(running, EventView::Exited(status));
            after.done && action is Fail && after.status == Some(status)
        }),
        !running.sending ==> !(session::next(running, event).1 is Send) && !(session::next(
            running,
            event,
        ).1 is Finish),
{
}

/// While the client is listened to, its input goes to the terminal as it is, its
/// sizes too, and the end of its input or a lost connection ends the listening;
/// nothing else about the session changes.
pub proof fn law_client_is_obeyed(
    running: Session,
    data: Seq<u8>,
    cols: u16,
    rows: u16,
    fault: ProtocolFault,
)
    requires
        !running.done,
        running.reading,
    ensures
        session::next(running, EventView::Client(Ok(ClientView::Input(data)))) == (
            running,
            ActionView::WritePty(data),
        ),
        ({
            let (after, action) = session::next(
                running,
                EventView::Client(Ok(ClientView::Resize(cols, rows))),
            );
            &&& after == running
            &&& action matches ActionView::ResizePty(size) && size.cols == cols && size.rows == rows
                && size.pixel_width == 0 && size.pixel_height == 0
        }),
        session::next(running, EventView::Client(Ok(ClientView::Eof))) == (
            Session { reading: false, ..running },
            ActionView::StopReading,
        ),
        session::next(running, EventView::Client(Err(fault))) == (
            Session { reading: false, ..running },
            ActionView::StopReading,
        ),
        session::next(running, EventView::PtyFailed) == (
            Session { reading: false, ..running },
            ActionView::StopReading,
        ),
{
}

/// A client that is no longer listened to changes nothing, and nothing changes a
/// session that is over.
pub proof fn law_unheard_client_changes_nothing(
    any: Session,
    message: Result<ClientView, ProtocolFault>,
    event: EventView,
)
    ensures
        !any.reading ==> session::next(any, EventView::Client(message)) == (
            any,
            ActionView::Nothing,
        ),
        !any.reading ==> session::next(any, EventView::PtyFailed) == (any, ActionView::Nothing),
        any.done ==> session::next(any, event) == (any, ActionView::Nothing),
{
}

/// A session starts with everything open.
pub proof fn law_session_starts_open()
    ensures
        session::started().reading && session::started().sending,
        !session::started().drained && !session::started().done,
        session::started().status is None,
{
}

// ---------------------------------------------------------------------------
// The request
// ---------------------------------------------------------------------------

/// Between two runs of words there is one blank, and a word by itself is as it is.
pub proof fn law_words_are_joined_by_one_blank(a: Seq<Seq<char>>, b: Seq<Seq<char>>)
    requires
        a.len() > 0,
        b.len() > 0,
    ensures
        client::joined(a + b) == client::joined(a) + seq![' '] + client::joined(b),
        a.len() == 1 ==> client::joined(a) == a[0],
    decreases b.len(),
{
    let all = a + b;
    if b.len() == 1 {
        assert(all.drop_last() =~= a);
        assert(client::joined(all) =~= client::joined(a) + seq![' '] + client::joined(b));
    } else {
        let front = b.drop_last();
        law_words_are_joined_by_one_blank(a, front);
        assert(all.drop_last() =~= a + front);
        assert(client::joined(all) =~= client::joined(a) + seq![' '] + client::joined(b));
    }
}

/// No words are an empty command.
pub proof fn law_no_words_are_empty()
    ensures
        client::joined(Seq::empty()).len() == 0,
{
}

/// The words are taken as they are, in order.
pub proof fn law_words_are_taken_as_they_are(words: Seq<String>)
    ensures
        client::texts(words).len() == words.len(),
        forall|i: int| 0 <= i < words.len() ==> #[trigger] client::texts(words)[i] == words[i]@,
{
}

/// A request asks for what the client was given, field by field.
pub proof fn law_request_asks_for_what_was_given(
    words: Seq<Seq<char>>,
    cwd: Seq<char>,
    wsl_mode: bool,
    terminal_size: Option<(u16, u16)>,
    interactive: bool,
)
    ensures
        ({
            let request = client::request_for(words, cwd, wsl_mode, terminal_size, interactive);
            &&& request.command == client::joined(words)
            &&& request.working_dir.text == cwd
            &&& request.working_dir.unicode
            &&& request.wsl_mode == wsl_mode
            &&& request.terminal_size == terminal_size
            &&& request.interactive == interactive
        }),
{
}

/// A request that is not interactive runs exactly its command, whatever else it
/// asks for; an interactive one runs a shell without one. Either is started by
/// `sh`, in the directory of the request.
pub proof fn law_command_is_run(request: RequestView)
    ensures
        server::shell_for(request).program == "sh"@,
        server::shell_for(request).cwd == request.working_dir,
        !request.interactive ==> server::shell_for(request).args.len() == 2 && server::shell_for(
            request,
        ).args[0] == "-c"@ && server::shell_for(request).args[1] == request.command,
        request.interactive ==> server::shell_for(request).args.len() == 0,
{
}

/// The terminal of the command has the columns and the rows of the client's, or 80
/// and 24.
pub proof fn law_terminal_has_the_clients_size(cols: u16, rows: u16)
    ensures
        ({
            let size = server::starting_size(Some((cols, rows)));
            size.cols == cols && size.rows == rows && size.pixel_width == 0 && size.pixel_height
                == 0
        }),
        ({
            let size = server::starting_size(None);
            size.cols == 80 && size.rows == 24 && size.pixel_width == 0 && size.pixel_height == 0
        }),
        ({
            let size = server::character_size(cols, rows);
            size.cols == cols && size.rows == rows && size.pixel_width == 0 && size.pixel_height
                == 0
        }),
{
}

/// A directory is taken as it is unless a conversion is asked for.
pub proof fn law_directory_is_converted_on_demand(request: RequestView)
    ensures
        !request.wsl_mode ==> server::requested_dir(request) == Ok::<PathView, ServerFault>(
            request.working_dir,
        ),
        request.wsl_mode ==> server::requested_dir(request) == path::wsl_path(request.working_dir),
{
}

/// A request that was received is opened unchanged, with the directory it names; a
/// failure to receive it, and a directory it cannot name, are passed on.
pub proof fn law_request_is_opened_unchanged(
    received: Result<RequestView, ProtocolFault>,
    dir: PathView,
    fault: ServerFault,
)
    ensures
        received is Err ==> server::opened(received) == Err::<(RequestView, PathView), ServerFault>(
            ServerFault::Protocol(received->Err_0),
        ),
        received is Ok && server::requested_dir(received->Ok_0) == Ok::<PathView, ServerFault>(dir)
            ==> server::opened(received) == Ok::<(RequestView, PathView), ServerFault>(
            (received->Ok_0, dir),
        ),
        received is Ok && server::requested_dir(received->Ok_0) == Err::<PathView, ServerFault>(
            fault,
        ) ==> server::opened(received) == Err::<(RequestView, PathView), ServerFault>(fault),
{
}

/// A request whose directory exists runs there, and is otherwise as it was; one
/// whose directory does not exist is refused, with the directory's name.
pub proof fn law_request_is_accepted_where_its_directory_exists(
    request: RequestView,
    dir: PathView,
    quoted: Seq<char>,
)
    ensures
        ({
            let accepted = server::accepted(request, dir, true, quoted);
            &&& accepted is Ok
            &&& accepted->Ok_0.working_dir == dir
            &&& accepted->Ok_0.command == request.command
            &&& accepted->Ok_0.wsl_mode == request.wsl_mode
            &&& accepted->Ok_0.terminal_size == request.terminal_size
            &&& accepted->Ok_0.interactive == request.interactive
        }),
        server::accepted(request, dir, false, quoted) == Err::<RequestView, ServerFault>(
            ServerFault::InvalidPath(
                "The specified working directory does not exist: "@ + quoted,
            ),
        ),
{
}

/// Either option, and nothing else, logs everything, and to a file.
pub proof fn law_options_turn_on_logging(debug: bool, verbose: bool)
    ensures
        client::plan_for(debug, verbose).to_file <==> debug || verbose,
        client::plan_for(debug, verbose).level is Debug <==> debug || verbose,
{
}

// ---------------------------------------------------------------------------
// Paths
// ---------------------------------------------------------------------------

/// A letter A to Z becomes the small letter 32 places on; any other character is
/// kept.
pub proof fn law_capitals_become_small(c: char)
    ensures
        'A' <= c <= 'Z' ==> path::ascii_lower(c) as u32 == c as u32 + 32,
        !('A' <= c <= 'Z') ==> path::ascii_lower(c) == c,
{
}

/// The WSL form of a path, character by character. Behind "/mnt/" stands the first
/// character, in lower case; then, without the colons that follow it, the rest,
/// in which each backslash is a slash and every other character is kept.
pub proof fn law_path_is_kept_character_by_character(path: PathView, below: int)
    requires
        1 <= below <= path.text.len(),
        forall|i: int| 1 <= i < below ==> #[trigger] path.text[i] == ':',
        below < path.text.len() ==> path.text[below] != ':',
    ensures
        path::wsl_path(path) is Ok,
        ({
            let text = path.text;
            let form = path::wsl_path(path)->Ok_0.text;
            &&& form.len() == 6 + text.len() - below
            &&& form[0] == '/' && form[1] == 'm' && form[2] == 'n' && form[3] == 't' && form[4]
                == '/'
            &&& form[5] == path::ascii_lower(text[0])
            &&& forall|i: int|
                below <= i < text.len() ==> (#[trigger] text[i] != '\\' ==> form[6 + i - below]
                    == text[i])
            &&& forall|i: int|
                below <= i < text.len() ==> (#[trigger] text[i] == '\\' ==> form[6 + i - below]
                    == '/')
        }),
        path::wsl_path(path)->Ok_0.unicode,
{
    reveal_strlit("/mnt/");
    assert(path::drive_ends(path.text, below));
    path::lemma_kept_below(path.text, below);
}

/// Only a path without a character has no WSL form.
pub proof fn law_only_an_empty_path_is_refused(path: PathView)
    ensures
        path::wsl_path(path) is Err <==> path.text.len() == 0,
        path::wsl_path(path) is Err ==> path::wsl_path(path)->Err_0 == ServerFault::InvalidPath(
            "Empty path provided"@,
        ),
{
}

// ---------------------------------------------------------------------------
// Keys
// ---------------------------------------------------------------------------

/// The encoder gets a key with its own modifiers and its own kind, and which key it
/// gets depends on the key alone.
pub proof fn law_key_keeps_modifiers_and_kind(a: KeyEvent, b: KeyEvent)
    ensures
        keys::encoder_key(a) matches Some(key) ==> key.modifiers == a.modifiers && key.kind
            == a.kind,
        a.code == b.code ==> (keys::encoder_key(a) is Some <==> keys::encoder_key(b) is Some),
        a.code == b.code && keys::encoder_key(a) is Some ==> keys::encoder_key(a)->0.code
            == keys::encoder_key(b)->0.code,
{
}

/// Two keys are the same to the encoder only where they are the same key, or both
/// are tabs.
pub proof fn law_keys_stay_apart(a: KeyEvent, b: KeyEvent)
    requires
        keys::encoder_key(a) is Some,
        keys::encoder_key(b) is Some,
        keys::encoder_key(a)->0.code == keys::encoder_key(b)->0.code,
    ensures
        a.code == b.code || ((a.code is Tab || a.code is BackTab) && (b.code is Tab || b.code
            is BackTab)),
{
}

/// Every character, every function key and every named key is itself to the
/// encoder.
pub proof fn law_keys_are_themselves(key: KeyEvent)
    ensures
        ({
            let code = match keys::encoder_key(key) {
                Some(k) => Some(k.code),
                None => None,
            };
            let named = |k: NamedKey| code == Some(EncoderCode::Named(k));
            &&& key.code matches KeyCode::Char(c) ==> code == Some(EncoderCode::Char(c))
            &&& key.code matches KeyCode::Function(n) ==> code == Some(EncoderCode::F(n))
            &&& key.code is Enter <==> named(NamedKey::Enter)
            &&& key.code is Backspace <==> named(NamedKey::Backspace)
            &&& (key.code is Tab || key.code is BackTab) <==> named(NamedKey::Tab)
            &&& key.code is Escape <==> named(NamedKey::Esc)
            &&& key.code is Up <==> named(NamedKey::Up)
            &&& key.code is Down <==> named(NamedKey::Down)
            &&& key.code is Left <==> named(NamedKey::Left)
            &&& key.code is Right <==> named(NamedKey::Right)
            &&& key.code is Home <==> named(NamedKey::Home)
            &&& key.code is End <==> named(NamedKey::End)
            &&& key.code is PageUp <==> named(NamedKey::PageUp)
            &&& key.code is PageDown <==> named(NamedKey::PageDown)
            &&& key.code is Insert <==> named(NamedKey::Insert)
            &&& key.code is Delete <==> named(NamedKey::Delete)
        }),
{
}

/// Bytes that the encoder gives for a key are the bytes of the key, all of them,
/// with the modifiers that are held; other events have none.
pub proof fn law_encoded_bytes_are_kept(key: KeyEvent, code: EncoderCode)
    requires
        keys::encoder_key(key) is Some,
        keys::encoder_key(key)->0.code == code,
    ensures
        ({
            let held = key.modifiers;
            let given = keys::xterm_bytes(code, held.shift, held.alt, held.control, key.kind);
            let uncounted = key.kind == KeyEventKind::Press && held.control && (code matches
                EncoderCode::Char(c) && c as u32 % 256 == 255);
            let bytes = keys::event_bytes(TerminalEvent::Key(key));
            &&& !uncounted && given is Some && given->0.len() <= 32 ==> bytes == given
            &&& uncounted || given is None ==> bytes is None
        }),
{
}

/// What has no key of the encoder has no bytes.
pub proof fn law_other_events_have_no_bytes(key: KeyEvent, cols: u16, rows: u16)
    ensures
        keys::encoder_key(key) is None ==> keys::event_bytes(TerminalEvent::Key(key)) is None,
        keys::event_bytes(TerminalEvent::WindowResized { cols, rows }) is None,
        keys::event_bytes(TerminalEvent::Escape) is None,
        keys::event_bytes(TerminalEvent::Other) is None,
{
}

// ---------------------------------------------------------------------------
// Bytes on the wire
// ---------------------------------------------------------------------------

/// The number that four bytes of a stream give, most significant first.
pub open spec fn announced(stream: Seq<u8>) -> int {
    stream[0] as int * 16777216 + stream[1] as int * 65536 + stream[2] as int * 256
        + stream[3] as int
}

/// What is sent for a message is its length, most significant byte first, and then
/// what is written for it; a message that cannot be written is not sent.
pub proof fn law_message_is_sent_behind_its_length<T: Message>(v: T::V)
    ensures
        T::written(v) is Err ==> protocol::sent::<T>(v) == Err::<Seq<u8>, ProtocolFault>(
            ProtocolFault::Encode(T::written(v)->Err_0),
        ),
        T::written(v) is Ok ==> ({
            let payload = T::written(v)->Ok_0;
            let bytes = protocol::sent::<T>(v)->Ok_0;
            &&& protocol::sent::<T>(v) is Ok
            &&& bytes.len() == 4 + payload.len()
            &&& bytes.skip(4) == payload
            &&& payload.len() < 0x1_0000_0000 ==> announced(bytes) == payload.len()
        }),
{
    if T::written(v) is Ok {
        let payload = T::written(v)->Ok_0;
        let bytes = protocol::sent::<T>(v)->Ok_0;
        assert(bytes.skip(4) =~= payload);
        if payload.len() < 0x1_0000_0000 {
            let header = protocol::be_bytes(payload.len());
            protocol::lemma_be_round_trip(payload.len());
            assert(bytes[0] == header[0] && bytes[1] == header[1] && bytes[2] == header[2]
                && bytes[3] == header[3]);
            assert(announced(bytes) == protocol::be_value(header));
        }
    }
}

/// Of any stream exactly the announced bytes are taken, and the message is what
/// they hold; where they are not all there, nothing is left.
pub proof fn law_announced_bytes_are_taken<T: Message>(stream: Seq<u8>)
    ensures
        stream.len() < 4 || stream.len() < 4 + announced(stream) ==> protocol::received::<T>(stream)
            == (
            Err::<T::V, ProtocolFault>(ProtocolFault::Io("early eof"@)),
            Seq::<u8>::empty(),
        ),
        stream.len() >= 4 && stream.len() >= 4 + announced(stream) ==> ({
            let (message, rest) = protocol::received::<T>(stream);
            let payload = stream.subrange(4, 4 + announced(stream));
            &&& rest == stream.skip(4 + announced(stream))
            &&& T::parsed(payload) is Ok ==> message == Ok::<T::V, ProtocolFault>(
                T::parsed(payload)->Ok_0,
            )
            &&& T::parsed(payload) is Err ==> message == Err::<T::V, ProtocolFault>(
                ProtocolFault::Decode(T::parsed(payload)->Err_0),
            )
        }),
{
    if stream.len() >= 4 {
        let header = stream.take(4);
        assert(header[0] == stream[0] && header[1] == stream[1] && header[2] == stream[2]
            && header[3] == stream[3]);
        assert(protocol::be_value(header) == announced(stream));
    }
}

/// The bytes that are written for a message of the client.
pub proof fn law_client_message_layout(data: Seq<u8>, cols: u16, rows: u16)
    ensures
        ClientMessage::written(ClientView::Input(data)) == Ok::<Seq<u8>, WriteError>(
            seq![0u8] + wire::varint(data.len()) + data,
        ),
        ClientMessage::written(ClientView::Resize(cols, rows)) == Ok::<Seq<u8>, WriteError>(
            seq![1u8] + wire::varint(cols as nat) + wire::varint(rows as nat),
        ),
        ClientMessage::written(ClientView::Eof) == Ok::<Seq<u8>, WriteError>(seq![2u8]),
{
    assert(ClientMessage::written(ClientView::Input(data))->Ok_0 =~= seq![0u8] + wire::varint(
        data.len(),
    ) + data);
    assert(ClientMessage::written(ClientView::Resize(cols, rows))->Ok_0 =~= seq![1u8]
        + wire::varint(cols as nat) + wire::varint(rows as nat));
}

/// The bytes that are written for a response.
pub proof fn law_response_layout(data: Seq<u8>, code: i32, text: Seq<char>)
    ensures
        CommandResponse::written(ResponseView::Stdout(data)) == Ok::<Seq<u8>, WriteError>(
            seq![0u8] + wire::varint(data.len()) + data,
        ),
        CommandResponse::written(ResponseView::Stderr(data)) == Ok::<Seq<u8>, WriteError>(
            seq![1u8] + wire::varint(data.len()) + data,
        ),
        code >= 0 ==> CommandResponse::written(ResponseView::Exit(code)) == Ok::<
            Seq<u8>,
            WriteError,
        >(seq![2u8] + wire::varint((2 * code) as nat)),
        code < 0 ==> CommandResponse::written(ResponseView::Exit(code)) == Ok::<
            Seq<u8>,
            WriteError,
        >(seq![2u8] + wire::varint((-2 * code - 1) as nat)),
        ({
            let bytes = vstd::utf8::encode_utf8(text);
            CommandResponse::written(ResponseView::Error(text)) == Ok::<Seq<u8>, WriteError>(
                seq![3u8] + wire::varint(bytes.len()) + bytes,
            )
        }),
{
    let bytes = vstd::utf8::encode_utf8(text);
    assert(CommandResponse::written(ResponseView::Stdout(data))->Ok_0 =~= seq![0u8] + wire::varint(
        data.len(),
    ) + data);
    assert(CommandResponse::written(ResponseView::Stderr(data))->Ok_0 =~= seq![1u8] + wire::varint(
        data.len(),
    ) + data);
    assert(CommandResponse::written(ResponseView::Error(text))->Ok_0 =~= seq![3u8] + wire::varint(
        bytes.len(),
    ) + bytes);
}

/// The bytes that are written for a request: its fields one behind the other. It
/// cannot be written exactly where its directory is not Unicode.
pub proof fn law_request_layout(request: RequestView)
    ensures
        !request.working_dir.unicode ==> CommandRequest::written(request) == Err::<
            Seq<u8>,
            WriteError,
        >(WriteError::InvalidPathCharacters),
        request.working_dir.unicode ==> ({
            let command = vstd::utf8::encode_utf8(request.command);
            let dir = vstd::utf8::encode_utf8(request.working_dir.text);
            let flag = |b: bool|
                if b {
                    seq![1u8]
                } else {
                    seq![0u8]
                };
            let size = match request.terminal_size {
                Some((cols, rows)) => seq![1u8] + wire::varint(cols as nat) + wire::varint(
                    rows as nat,
                ),
                None => seq![0u8],
            };
            CommandRequest::written(request) == Ok::<Seq<u8>, WriteError>(
                wire::varint(command.len()) + command + wire::varint(dir.len()) + dir + flag(
                    request.wsl_mode,
                ) + size + flag(request.interactive),
            )
        }),
{
    if request.working_dir.unicode {
        let command = vstd::utf8::encode_utf8(request.command);
        let dir = vstd::utf8::encode_utf8(request.working_dir.text);
        let head = wire::text_bytes(request.command);
        let size = wire::opt_pair_bytes(request.terminal_size);
        assert(head + wire::text_bytes(request.working_dir.text) =~= wire::varint(command.len())
            + command + wire::varint(dir.len()) + dir);
        if let Some((cols, rows)) = request.terminal_size {
            assert(size =~= seq![1u8] + wire::varint(cols as nat) + wire::varint(rows as nat));
        }
    }
}

/// A small number is its own byte; a larger one stands, least significant byte
/// first, behind the mark of the width that it needs.
pub proof fn law_integer_layout(n: nat)
    requires
        n < 0x1_0000_0000_0000_0000,
    ensures
        n < 251 ==> wire::varint(n) == seq![n as u8],
        251 <= n < 0x1_0000 ==> wire::varint(n)[0] == 251 && wire::varint(n).len() == 3,
        0x1_0000 <= n < 0x1_0000_0000 ==> wire::varint(n)[0] == 252 && wire::varint(n).len() == 5,
        0x1_0000_0000 <= n ==> wire::varint(n)[0] == 253 && wire::varint(n).len() == 9,
        251 <= n ==> wire::le_value(wire::varint(n).skip(1)) == n,
{
    if n >= 251 {
        let rest = Seq::<u8>::empty();
        wire::lemma_capacity_of_eight();
        wire::lemma_varint(n, 8, rest);
        assert(wire::varint(n) + rest =~= wire::varint(n));
        let width = wire::marked_width(wire::varint(n)[0]);
        assert(wire::varint(n).subrange(1, 1 + width as int) =~= wire::varint(n).skip(1));
    }
}

/// How a message of the client is read: the index says which it is, and what is
/// wrong with any part is wrong with the message.
pub proof fn law_client_message_is_read_by_its_index(bytes: Seq<u8>)
    ensures
        ({
            let parsed = ClientMessage::parsed(bytes);
            match wire::parse_varint(bytes, 4) {
                Err(e) => parsed == Err::<ClientView, DecodeError>(e),
                Ok((index, n)) => {
                    let blob = wire::parse_blob(bytes.skip(n as int));
                    let pair = wire::parse_pair(bytes.skip(n as int));
                    &&& index == 0 && blob is Ok ==> parsed == Ok::<ClientView, DecodeError>(
                        ClientView::Input(blob->Ok_0.0),
                    )
                    &&& index == 0 && blob is Err ==> parsed == Err::<ClientView, DecodeError>(
                        blob->Err_0,
                    )
                    &&& index == 1 && pair is Ok ==> parsed == Ok::<ClientView, DecodeError>(
                        ClientView::Resize(pair->Ok_0.0.0, pair->Ok_0.0.1),
                    )
                    &&& index == 1 && pair is Err ==> parsed == Err::<ClientView, DecodeError>(
                        pair->Err_0,
                    )
                    &&& index == 2 ==> parsed == Ok::<ClientView, DecodeError>(ClientView::Eof)
                    &&& index > 2 ==> parsed == Err::<ClientView, DecodeError>(
                        DecodeError::UnexpectedVariant { found: index as u32 },
                    )
                },
            }
        }),
{
}

/// How a response is read.
pub proof fn law_response_is_read_by_its_index(bytes: Seq<u8>)
    ensures
        ({
            let parsed = CommandResponse::parsed(bytes);
            match wire::parse_varint(bytes, 4) {
                Err(e) => parsed == Err::<ResponseView, DecodeError>(e),
                Ok((index, n)) => {
                    let blob = wire::parse_blob(bytes.skip(n as int));
                    let code = wire::parse_i32(bytes.skip(n as int));
                    let text = wire::parse_text(bytes.skip(n as int));
                    &&& index == 0 && blob is Ok ==> parsed == Ok::<ResponseView, DecodeError>(
                        ResponseView::Stdout(blob->Ok_0.0),
                    )
                    &&& index == 1 && blob is Ok ==> parsed == Ok::<ResponseView, DecodeError>(
                        ResponseView::Stderr(blob->Ok_0.0),
                    )
                    &&& index <= 1 && blob is Err ==> parsed == Err::<ResponseView, DecodeError>(
                        blob->Err_0,
                    )
                    &&& index == 2 && code is Ok ==> parsed == Ok::<ResponseView, DecodeError>(
                        ResponseView::Exit(code->Ok_0.0 as i32),
                    )
                    &&& index == 2 && code is Err ==> parsed == Err::<ResponseView, DecodeError>(
                        code->Err_0,
                    )
                    &&& index == 3 && text is Ok ==> parsed == Ok::<ResponseView, DecodeError>(
                        ResponseView::Error(text->Ok_0.0),
                    )
                    &&& index == 3 && text is Err ==> parsed == Err::<ResponseView, DecodeError>(
                        text->Err_0,
                    )
                    &&& index > 3 ==> parsed == Err::<ResponseView, DecodeError>(
                        DecodeError::UnexpectedVariant { found: index as u32 },
                    )
                },
            }
        }),
{
}

/// How a request is read: from five places, each where the one before it ends.
/// What is wrong at the first place where something is wrong, is wrong with the
/// request.
pub proof fn law_request_is_read_field_by_field(at: Seq<Seq<u8>>)
    requires
        at.len() == 5,
        wire::parse_text(at[0]) is Ok ==> at[1] == at[0].skip(wire::parse_text(at[0])->Ok_0.1 as int),
        wire::parse_text(at[1]) is Ok ==> at[2] == at[1].skip(wire::parse_text(at[1])->Ok_0.1 as int),
        wire::parse_bool(at[2]) is Ok ==> at[3] == at[2].skip(wire::parse_bool(at[2])->Ok_0.1 as int),
        wire::parse_opt_pair(at[3]) is Ok ==> at[4] == at[3].skip(
            wire::parse_opt_pair(at[3])->Ok_0.1 as int,
        ),
    ensures
        ({
            let command = wire::parse_text(at[0]);
            let dir = wire::parse_text(at[1]);
            let wsl = wire::parse_bool(at[2]);
            let size = wire::parse_opt_pair(at[3]);
            let shell = wire::parse_bool(at[4]);
            let parsed = CommandRequest::parsed(at[0]);
            let fails = |e: DecodeError| parsed == Err::<RequestView, DecodeError>(e);
            &&& command is Err ==> fails(command->Err_0)
            &&& command is Ok && dir is Err ==> fails(dir->Err_0)
            &&& command is Ok && dir is Ok && wsl is Err ==> fails(wsl->Err_0)
            &&& command is Ok && dir is Ok && wsl is Ok && size is Err ==> fails(size->Err_0)
            &&& command is Ok && dir is Ok && wsl is Ok && size is Ok && shell is Err ==> fails(
                shell->Err_0,
            )
            &&& command is Ok && dir is Ok && wsl is Ok && size is Ok && shell is Ok ==> {
                &&& parsed is Ok
                &&& parsed->Ok_0.command == command->Ok_0.0
                &&& parsed->Ok_0.working_dir.text == dir->Ok_0.0
                &&& parsed->Ok_0.working_dir.unicode
                &&& parsed->Ok_0.wsl_mode == wsl->Ok_0.0
                &&& parsed->Ok_0.terminal_size == size->Ok_0.0
                &&& parsed->Ok_0.interactive == shell->Ok_0.0
            }
        }),
{
}

// ---------------------------------------------------------------------------
// Contents
// ---------------------------------------------------------------------------

/// The contents of a message are its own, field by field.
pub proof fn law_contents_of_messages(
    message: ClientMessage,
    response: CommandResponse,
    request: CommandRequest,
    path: PathText,
)
    ensures
        message matches ClientMessage::Input(data) ==> message@ == ClientView::Input(data@),
        message matches ClientMessage::Resize(cols, rows) ==> message@ == ClientView::Resize(
            cols,
            rows,
        ),
        message is Eof ==> message@ is Eof,
        response matches CommandResponse::Stdout(data) ==> response@ == ResponseView::Stdout(data@),
        response matches CommandResponse::Stderr(data) ==> response@ == ResponseView::Stderr(data@),
        response matches CommandResponse::Exit(code) ==> response@ == ResponseView::Exit(code),
        response matches CommandResponse::Error(text) ==> response@ == ResponseView::Error(text@),
        request@.command == request.command@,
        request@.working_dir == request.working_dir@,
        request@.wsl_mode == request.wsl_mode,
        request@.terminal_size == request.terminal_size,
        request@.interactive == request.interactive,
        path@.text == path.text@,
        path@.unicode == path.unicode,
{
}

/// The contents of an event or an action of the server are its own.
pub proof fn law_contents_of_sessions(event: SessionEvent, action: SessionAction)
    ensures
        event matches SessionEvent::Output(data) ==> event@ == EventView::Output(data@),
        event is OutputEnded ==> event@ is OutputEnded,
        event is SendFailed ==> event@ is SendFailed,
        event is PtyFailed ==> event@ is PtyFailed,
        event matches SessionEvent::Exited(status) ==> event@ == EventView::Exited(status),
        event matches SessionEvent::Client(Ok(message)) ==> event@ == EventView::Client(
            Ok(message@),
        ),
        event matches SessionEvent::Client(Err(e)) ==> event@ == EventView::Client(Err(e@)),
        action is Nothing <==> action@ is Nothing,
        action is StopReading <==> action@ is StopReading,
        action is Fail <==> action@ is Fail,
        action matches SessionAction::Send(bytes) ==> action@ == ActionView::Send(bytes@),
        action matches SessionAction::WritePty(data) ==> action@ == ActionView::WritePty(data@),
        action matches SessionAction::ResizePty(size) ==> action@ == ActionView::ResizePty(size),
        action matches SessionAction::Finish(bytes) ==> action@ == ActionView::Finish(bytes@),
{
}

/// The contents of an event or an action of the client are its own.
pub proof fn law_contents_of_clients(event: ClientEvent, action: ClientAction)
    ensures
        event matches ClientEvent::Reply(Ok(response)) ==> event@ == ClientEventView::Reply(
            Ok(response@),
        ),
        event matches ClientEvent::Reply(Err(e)) ==> event@ == ClientEventView::Reply(Err(e@)),
        event matches ClientEvent::Terminal(e) ==> event@ == ClientEventView::Terminal(e),
        event is PrintFailed ==> event@ is PrintFailed,
        event is InputEnded ==> event@ is InputEnded,
        action is Nothing <==> action@ is Nothing,
        action is Fail <==> action@ is Fail,
        action matches ClientAction::Print(data) ==> action@ == ClientActionView::Print(data@),
        action matches ClientAction::Send(bytes) ==> action@ == ClientActionView::Send(bytes@),
        action matches ClientAction::Exit(code) ==> action@ == ClientActionView::Exit(code),
        action matches ClientAction::SendAndExit(bytes, code) ==> action@
            == ClientActionView::SendAndExit(bytes@, code),
{
}

/// The contents of what came of sending, receiving or serving are those of the
/// value or of the error.
pub proof fn law_contents_of_outcomes<T: View>(sent: ProtocolResult<T>, served: ServerResult<T>)
    ensures
        sent is Ok ==> protocol::outcome(sent) == Ok::<T::V, ProtocolFault>(sent->Ok_0@),
        sent is Err ==> protocol::outcome(sent) == Err::<T::V, ProtocolFault>(sent->Err_0@),
        served is Ok ==> failure::server_outcome(served) == Ok::<T::V, ServerFault>(served->Ok_0@),
        served is Err ==> failure::server_outcome(served) == Err::<T::V, ServerFault>(
            served->Err_0@,
        ),
{
}

/// The contents of an error are its own; so are those of a program to start, and
/// of bytes that may be there.
pub proof fn law_contents_of_errors(
    error: ProtocolError,
    served: ServerError,
    shell: ShellCommand,
    encoded: Option<Vec<u8>>,
)
    ensures
        error matches ProtocolError::Encode(e) ==> error@ == ProtocolFault::Encode(e),
        error matches ProtocolError::Decode(e) ==> error@ == ProtocolFault::Decode(e),
        error matches ProtocolError::Io(text) ==> error@ == ProtocolFault::Io(text@),
        served matches ServerError::Io(text) ==> served@ == ServerFault::Io(text@),
        served matches ServerError::Join(text) ==> served@ == ServerFault::Join(text@),
        served matches ServerError::Protocol(e) ==> served@ == ServerFault::Protocol(e@),
        served matches ServerError::InvalidPath(text) ==> served@ == ServerFault::InvalidPath(
            text@,
        ),
        served matches ServerError::Pty(text) ==> served@ == ServerFault::Pty(text@),
        shell@.program == shell.program@,
        shell@.cwd == shell.cwd@,
        shell@.args.len() == shell.args@.len(),
        forall|i: int| 0 <= i < shell.args@.len() ==> #[trigger] shell@.args[i] == shell.args@[i]@,
        encoded is None ==> client::bytes_of(encoded) is None,
        encoded is Some ==> client::bytes_of(encoded) == Some(encoded->0@),
{
}

} // verus!
