//! What holds of whole sessions: of all that a server or a client does with the
//! events that come to it, and of the two together.

use crate::client;
use crate::client::{ClientActionView, ClientEventView, ClientSession};
use crate::keys;
use crate::keys::TerminalEvent;
use crate::message::{ClientMessage, ClientView, CommandResponse, ResponseView};
use crate::protocol;
use crate::protocol::ProtocolFault;
use crate::session;
use crate::session::{ActionView, EventView, Session};
use crate::wire;
use vstd::prelude::*;

verus! {

// ---------------------------------------------------------------------------
// The server
// ---------------------------------------------------------------------------

/// What a session comes to, and what it does, over some events.
pub open spec fn run(session: Session, events: Seq<EventView>) -> (Session, Seq<ActionView>)
    decreases events.len(),
{
    if events.len() == 0 {
        (session, Seq::empty())
    } else {
        let (after, action) = session::next(session, events[0]);
        let (end, actions) = run(after, events.drop_first());
        (end, seq![action] + actions)
    }
}

/// The bytes that some actions send to the client.
pub open spec fn to_client(actions: Seq<ActionView>) -> Seq<u8>
    decreases actions.len(),
{
    if actions.len() == 0 {
        Seq::empty()
    } else {
        let first = match actions[0] {
            ActionView::Send(bytes) => bytes,
            ActionView::Finish(bytes) => bytes,
            _ => Seq::empty(),
        };
        first + to_client(actions.drop_first())
    }
}

/// The output that the terminal gave before its end.
pub open spec fn outputs(events: Seq<EventView>) -> Seq<Seq<u8>>
    decreases events.len(),
{
    if events.len() == 0 {
        Seq::empty()
    } else {
        match events[0] {
            EventView::Output(data) => seq![data] + outputs(events.drop_first()),
            EventView::OutputEnded => Seq::empty(),
            _ => outputs(events.drop_first()),
        }
    }
}

/// Whether the output of the terminal has ended.
pub open spec fn output_ends(events: Seq<EventView>) -> bool
    decreases events.len(),
{
    events.len() > 0 && (events[0] is OutputEnded || output_ends(events.drop_first()))
}

/// Whether a frame could not be sent.
pub open spec fn send_fails(events: Seq<EventView>) -> bool
    decreases events.len(),
{
    events.len() > 0 && (events[0] is SendFailed || send_fails(events.drop_first()))
}

/// The status that the command ended with.
pub open spec fn status_of(events: Seq<EventView>) -> Option<u32>
    decreases events.len(),
{
    if events.len() == 0 {
        None
    } else {
        match events[0] {
            EventView::Exited(status) => Some(status),
            _ => status_of(events.drop_first()),
        }
    }
}

/// Each output as a response.
pub open spec fn stdout_responses(data: Seq<Seq<u8>>) -> Seq<ResponseView> {
    data.map_values(|d: Seq<u8>| ResponseView::Stdout(d))
}

/// The responses that are owed for some output and, if it is known, a status.
pub open spec fn owed(data: Seq<Seq<u8>>, status: Option<u32>) -> Seq<ResponseView> {
    match status {
        Some(status) => stdout_responses(data).push(
            ResponseView::Exit(session::exit_code(status)),
        ),
        None => stdout_responses(data),
    }
}

/// The responses that a session still owes over some events.
spec fn owed_from(session: Session, events: Seq<EventView>) -> Seq<ResponseView> {
    let data = if session.drained {
        Seq::empty()
    } else {
        outputs(events)
    };
    let status = if session.status is Some {
        session.status
    } else {
        status_of(events)
    };
    if session.done {
        Seq::empty()
    } else if session.drained || output_ends(events) {
        owed(data, status)
    } else {
        owed(data, None)
    }
}

proof fn lemma_sent_from(session: Session, events: Seq<EventView>)
    requires
        session.consistent(),
        session.sending,
        !send_fails(events),
    ensures
        to_client(run(session, events).1) == protocol::sent_all::<CommandResponse>(
            owed_from(session, events),
        ),
        run(session, events).0.done <==> session.done || ((session.drained || output_ends(events))
            && (session.status is Some || status_of(events) is Some)),
    decreases events.len(),
{
    let owing = owed_from(session, events);
    if events.len() == 0 {
        assert(owing =~= Seq::empty());
    } else {
        let (after, action) = session::next(session, events[0]);
        let rest = events.drop_first();
        lemma_sent_from(after, rest);
        let actions = run(after, rest).1;
        assert((seq![action] + actions).drop_first() =~= actions);
        let owing_after = owed_from(after, rest);
        match action {
            ActionView::Send(_) => {
                assert(owing.drop_first() =~= owing_after);
            },
            ActionView::Finish(bytes) => {
                assert(owing.drop_first() =~= owing_after);
                assert(owing_after =~= Seq::empty());
            },
            _ => {
                assert(owing =~= owing_after);
                assert(to_client(seq![action] + actions) =~= to_client(actions));
            },
        }
    }
}

/// The client is sent every output of the terminal, in order and unchanged, and
/// behind the last of it, once the command has ended too, the exit code; nothing
/// else. It does not matter whether the command or its output ends first, nor
/// what the client sends meanwhile. With the exit code the session is over.
pub proof fn law_client_is_sent_output_and_status(events: Seq<EventView>)
    requires
        !send_fails(events),
    ensures
        to_client(run(session::started(), events).1) == protocol::sent_all::<
            CommandResponse,
        >(
            owed(
                outputs(events),
                if output_ends(events) {
                    status_of(events)
                } else {
                    None
                },
            ),
        ),
        run(session::started(), events).0.done <==> output_ends(events) && status_of(
            events,
        ) is Some,
{
    lemma_sent_from(session::started(), events);
}

/// Once a frame could not be sent, nothing more is sent, and the session is over
/// as soon as the command has ended.
pub proof fn law_nothing_is_sent_after_a_failure(session: Session, events: Seq<EventView>)
    requires
        session.consistent(),
        !session.sending,
    ensures
        to_client(run(session, events).1) == Seq::<u8>::empty(),
        run(session, events).0.done <==> session.status is Some || status_of(events) is Some,
    decreases events.len(),
{
    if events.len() > 0 {
        let (after, action) = session::next(session, events[0]);
        let rest = events.drop_first();
        law_nothing_is_sent_after_a_failure(after, rest);
        let actions = run(after, rest).1;
        assert((seq![action] + actions).drop_first() =~= actions);
    }
}

/// A session that is over does nothing more.
pub proof fn law_ended_session_is_silent(session: Session, events: Seq<EventView>)
    requires
        session.done,
    ensures
        run(session, events).0 == session,
        forall|i: int|
            0 <= i < events.len() ==> #[trigger] run(session, events).1[i] is Nothing,
        run(session, events).1.len() == events.len(),
    decreases events.len(),
{
    if events.len() > 0 {
        law_ended_session_is_silent(session, events.drop_first());
    }
}

/// What some actions do to the terminal, as the messages that ask for it.
pub open spec fn applied(actions: Seq<ActionView>) -> Seq<ClientView>
    decreases actions.len(),
{
    if actions.len() == 0 {
        Seq::empty()
    } else {
        let first = match actions[0] {
            ActionView::WritePty(data) => seq![ClientView::Input(data)],
            ActionView::ResizePty(size) => seq![ClientView::Resize(size.cols, size.rows)],
            _ => Seq::empty(),
        };
        first + applied(actions.drop_first())
    }
}

/// The input and the sizes that the client sends before it is no longer listened
/// to: before it sends the end of its input or nothing that can be read, the
/// terminal fails, or the command ends.
pub open spec fn heard(events: Seq<EventView>) -> Seq<ClientView>
    decreases events.len(),
{
    if events.len() == 0 {
        Seq::empty()
    } else {
        let rest = events.drop_first();
        match events[0] {
            EventView::Client(Ok(ClientView::Input(data))) => seq![ClientView::Input(data)]
                + heard(rest),
            EventView::Client(Ok(ClientView::Resize(cols, rows))) => seq![
                ClientView::Resize(cols, rows),
            ] + heard(rest),
            EventView::Client(_) => Seq::empty(),
            EventView::PtyFailed => Seq::empty(),
            EventView::Exited(_) => Seq::empty(),
            _ => heard(rest),
        }
    }
}

proof fn lemma_applied_from(session: Session, events: Seq<EventView>)
    requires
        session.consistent(),
    ensures
        applied(run(session, events).1) == (if session.reading {
            heard(events)
        } else {
            Seq::empty()
        }),
    decreases events.len(),
{
    if events.len() > 0 {
        let (after, action) = session::next(session, events[0]);
        let rest = events.drop_first();
        lemma_applied_from(after, rest);
        let actions = run(after, rest).1;
        assert((seq![action] + actions).drop_first() =~= actions);
        assert(Seq::<ClientView>::empty() + applied(actions) =~= applied(actions));
    }
}

/// The terminal gets every input and every size that the client sends, in order
/// and unchanged, until the client is no longer listened to; and nothing else.
pub proof fn law_terminal_gets_what_the_client_sends(events: Seq<EventView>)
    ensures
        applied(run(session::started(), events).1) == heard(events),
{
    lemma_applied_from(session::started(), events);
}

// ---------------------------------------------------------------------------
// The client
// ---------------------------------------------------------------------------

/// A client that has just sent its request.
pub open spec fn fresh() -> ClientSession {
    ClientSession { done: false }
}

/// What a client does over some events.
pub open spec fn client_run(session: ClientSession, events: Seq<ClientEventView>) -> Seq<
    ClientActionView,
>
    decreases events.len(),
{
    if events.len() == 0 {
        Seq::empty()
    } else {
        let (after, action) = client::client_next(session, events[0]);
        seq![action] + client_run(after, events.drop_first())
    }
}

/// The bytes that some actions write to the local terminal.
pub open spec fn printed(actions: Seq<ClientActionView>) -> Seq<u8>
    decreases actions.len(),
{
    if actions.len() == 0 {
        Seq::empty()
    } else {
        let first = match actions[0] {
            ClientActionView::Print(data) => data,
            _ => Seq::empty(),
        };
        first + printed(actions.drop_first())
    }
}

/// The bytes that some actions send to the server.
pub open spec fn to_server(actions: Seq<ClientActionView>) -> Seq<u8>
    decreases actions.len(),
{
    if actions.len() == 0 {
        Seq::empty()
    } else {
        let first = match actions[0] {
            ClientActionView::Send(bytes) => bytes,
            ClientActionView::SendAndExit(bytes, _) => bytes,
            _ => Seq::empty(),
        };
        first + to_server(actions.drop_first())
    }
}

/// The code that some actions exit with.
pub open spec fn exit_of(actions: Seq<ClientActionView>) -> Option<i32>
    decreases actions.len(),
{
    if actions.len() == 0 {
        None
    } else {
        match actions[0] {
            ClientActionView::Exit(code) => Some(code),
            ClientActionView::SendAndExit(_, code) => Some(code),
            _ => exit_of(actions.drop_first()),
        }
    }
}

/// The events up to the first that ends a client, and that one.
pub open spec fn until_end(events: Seq<ClientEventView>) -> Seq<ClientEventView>
    decreases events.len(),
{
    if events.len() == 0 {
        Seq::empty()
    } else if client::is_last(client::action_for(events[0])) {
        seq![events[0]]
    } else {
        seq![events[0]] + until_end(events.drop_first())
    }
}

/// The replies that a client receives from a stream. It receives none behind the
/// one that ends it.
pub open spec fn replies(stream: Seq<u8>) -> Seq<ClientEventView> {
    until_end(
        protocol::received_all::<CommandResponse>(stream).map_values(
            |r: Result<ResponseView, ProtocolFault>| ClientEventView::Reply(r),
        ),
    )
}

/// Some events without those of the terminal that do not end the client.
pub open spec fn without_typing(events: Seq<ClientEventView>) -> Seq<ClientEventView>
    decreases events.len(),
{
    if events.len() == 0 {
        Seq::empty()
    } else {
        let rest = without_typing(events.drop_first());
        if events[0] is Terminal && !client::is_last(client::action_for(events[0])) {
            rest
        } else {
            seq![events[0]] + rest
        }
    }
}

/// A client that is at its end does nothing more.
pub proof fn law_ended_client_is_silent(session: ClientSession, events: Seq<ClientEventView>)
    requires
        session.done,
    ensures
        client_run(session, events).len() == events.len(),
        forall|i: int|
            0 <= i < events.len() ==> #[trigger] client_run(session, events)[i] is Nothing,
        printed(client_run(session, events)) == Seq::<u8>::empty(),
        to_server(client_run(session, events)) == Seq::<u8>::empty(),
        exit_of(client_run(session, events)) is None,
    decreases events.len(),
{
    if events.len() > 0 {
        let rest = events.drop_first();
        law_ended_client_is_silent(session, rest);
        let actions = client_run(session, rest);
        assert((seq![ClientActionView::Nothing] + actions).drop_first() =~= actions);
    }
}

/// The first event that ends a client decides its exit code, and nothing that
/// comes behind it is looked at.
pub proof fn law_first_end_decides(
    before: Seq<ClientEventView>,
    last: ClientEventView,
    after: Seq<ClientEventView>,
)
    requires
        forall|i: int|
            0 <= i < before.len() ==> !client::is_last(
                client::action_for(#[trigger] before[i]),
            ),
        client::is_last(client::action_for(last)),
    ensures
        exit_of(client_run(fresh(), before + seq![last] + after)) == match client::action_for(
            last,
        ) {
            ClientActionView::Exit(code) => Some(code),
            ClientActionView::SendAndExit(_, code) => Some(code),
            _ => None,
        },
        printed(client_run(fresh(), before + seq![last] + after)) == printed(
            client_run(fresh(), before),
        ),
    decreases before.len(),
{
    let events = before + seq![last] + after;
    let (session, action) = client::client_next(fresh(), events[0]);
    let rest = events.drop_first();
    let actions = client_run(session, rest);
    assert((seq![action] + actions).drop_first() =~= actions);
    if before.len() == 0 {
        law_ended_client_is_silent(session, rest);
    } else {
        let tail = before.drop_first();
        assert(rest =~= tail + seq![last] + after);
        assert forall|i: int| 0 <= i < tail.len() implies !client::is_last(
            client::action_for(#[trigger] tail[i]),
        ) by {
            assert(tail[i] == before[i + 1]);
        }
        law_first_end_decides(tail, last, after);
        let fewer = client_run(session, tail);
        assert((seq![action] + fewer).drop_first() =~= fewer);
    }
}

proof fn lemma_stdout_is_printed(data: Seq<Seq<u8>>, behind: Seq<ClientEventView>)
    ensures
        ({
            let shown = data.map_values(
                |d: Seq<u8>| ClientEventView::Reply(Ok(ResponseView::Stdout(d))),
            );
            let actions = client_run(fresh(), shown + behind);
            &&& printed(actions) == data.flatten() + printed(client_run(fresh(), behind))
            &&& exit_of(actions) == exit_of(client_run(fresh(), behind))
        }),
    decreases data.len(),
{
    let reply = |d: Seq<u8>| ClientEventView::Reply(Ok(ResponseView::Stdout(d)));
    let shown = data.map_values(reply);
    if data.len() == 0 {
        assert(shown + behind =~= behind);
        assert(data.flatten() =~= Seq::empty());
    } else {
        let tail = data.drop_first();
        lemma_stdout_is_printed(tail, behind);
        let events = shown + behind;
        assert(events.drop_first() =~= tail.map_values(reply) + behind);
        let actions = client_run(fresh(), events.drop_first());
        let first = ClientActionView::Print(data[0]);
        assert((seq![first] + actions).drop_first() =~= actions);
        assert(data.flatten() =~= data[0] + tail.flatten());
    }
}

/// What is typed changes neither what a client shows nor how it ends, unless it
/// ends the client.
pub proof fn law_typing_shows_nothing(session: ClientSession, events: Seq<ClientEventView>)
    ensures
        printed(client_run(session, events)) == printed(
            client_run(session, without_typing(events)),
        ),
        exit_of(client_run(session, events)) == exit_of(
            client_run(session, without_typing(events)),
        ),
    decreases events.len(),
{
    if session.done {
        law_ended_client_is_silent(session, events);
        law_ended_client_is_silent(session, without_typing(events));
    } else if events.len() > 0 {
        let (after, action) = client::client_next(session, events[0]);
        let rest = events.drop_first();
        law_typing_shows_nothing(after, rest);
        let actions = client_run(after, rest);
        assert((seq![action] + actions).drop_first() =~= actions);
        let kept = without_typing(rest);
        let fewer = client_run(after, kept);
        assert((seq![action] + fewer).drop_first() =~= fewer);
        assert((seq![events[0]] + kept).drop_first() =~= kept);
        if events[0] is Terminal && !client::is_last(action) {
            assert(after == session);
            assert(printed(client_run(session, events)) =~= printed(actions));
        }
    }
}

proof fn lemma_until_end(
    before: Seq<ClientEventView>,
    last: ClientEventView,
    after: Seq<ClientEventView>,
)
    requires
        forall|i: int|
            0 <= i < before.len() ==> !client::is_last(client::action_for(#[trigger] before[i])),
        client::is_last(client::action_for(last)),
    ensures
        until_end(before + seq![last] + after) == before + seq![last],
    decreases before.len(),
{
    let events = before + seq![last] + after;
    if before.len() == 0 {
        assert(before + seq![last] =~= seq![last]);
    } else {
        let tail = before.drop_first();
        assert forall|i: int| 0 <= i < tail.len() implies !client::is_last(
            client::action_for(#[trigger] tail[i]),
        ) by {
            assert(tail[i] == before[i + 1]);
        }
        lemma_until_end(tail, last, after);
        assert(events[0] == before[0]);
        assert(events.drop_first() =~= tail + seq![last] + after);
        assert(before + seq![last] =~= seq![before[0]] + (tail + seq![last]));
    }
}

/// A client for which, apart from what is typed, first `before` and then its end
/// comes.
proof fn lemma_end_among_typing(
    before: Seq<ClientEventView>,
    last: ClientEventView,
    events: Seq<ClientEventView>,
)
    requires
        forall|i: int|
            0 <= i < before.len() ==> !client::is_last(client::action_for(#[trigger] before[i])),
        client::is_last(client::action_for(last)),
        (before + seq![last]).is_prefix_of(without_typing(events)),
    ensures
        printed(client_run(fresh(), events)) == printed(client_run(fresh(), before)),
        exit_of(client_run(fresh(), events)) == match client::action_for(last) {
            ClientActionView::Exit(code) => Some(code),
            ClientActionView::SendAndExit(_, code) => Some(code),
            _ => None,
        },
{
    let kept = without_typing(events);
    let after = kept.skip(before.len() as int + 1);
    assert(kept =~= before + seq![last] + after);
    law_typing_shows_nothing(fresh(), events);
    law_first_end_decides(before, last, after);
}

/// Events that come to an end: what stands before it and the end itself.
proof fn lemma_until_end_parts(events: Seq<ClientEventView>)
    requires
        events.len() > 0,
        client::is_last(client::action_for(events.last())),
    ensures
        until_end(events).len() > 0,
        client::is_last(client::action_for(until_end(events).last())),
        events.contains(until_end(events).last()),
        forall|i: int|
            0 <= i < until_end(events).len() - 1 ==> !client::is_last(
                client::action_for(#[trigger] until_end(events)[i]),
            ),
    decreases events.len(),
{
    assert(events.contains(events[0]));
    if !client::is_last(client::action_for(events[0])) {
        let rest = events.drop_first();
        lemma_until_end_parts(rest);
        let last = until_end(rest).last();
        let i = choose|i: int| 0 <= i < rest.len() && rest[i] == last;
        assert(events[i + 1] == last);
    }
}

/// A stream ends in a failure to receive.
proof fn lemma_received_all_ends(stream: Seq<u8>)
    ensures
        protocol::received_all::<CommandResponse>(stream).len() > 0,
        protocol::received_all::<CommandResponse>(stream).last() is Err,
    decreases stream.len(),
{
    let (message, rest) = protocol::received::<CommandResponse>(stream);
    if message is Ok {
        lemma_received_all_ends(rest);
    }
}

/// Among the replies of a stream there is nothing that is typed: a client at which
/// nothing else happens is one of those that the laws on typing speak of.
pub proof fn law_replies_are_not_typed(stream: Seq<u8>)
    ensures
        without_typing(replies(stream)) == replies(stream),
{
    lemma_replies_are_not_typed(
        protocol::received_all::<CommandResponse>(stream).map_values(
            |r: Result<ResponseView, ProtocolFault>| ClientEventView::Reply(r),
        ),
    );
}

proof fn lemma_replies_are_not_typed(events: Seq<ClientEventView>)
    requires
        forall|i: int| 0 <= i < events.len() ==> #[trigger] events[i] is Reply,
    ensures
        without_typing(until_end(events)) == until_end(events),
    decreases events.len(),
{
    if events.len() > 0 {
        let rest = events.drop_first();
        assert(events[0] is Reply);
        assert forall|i: int| 0 <= i < rest.len() implies #[trigger] rest[i] is Reply by {
            assert(rest[i] == events[i + 1]);
        }
        lemma_replies_are_not_typed(rest);
        let behind = if client::is_last(client::action_for(events[0])) {
            Seq::empty()
        } else {
            until_end(rest)
        };
        assert(without_typing(behind) =~= behind);
        assert(until_end(events).drop_first() =~= behind);
        assert(until_end(events) =~= seq![events[0]] + behind);
    }
}

/// Whatever bytes come from the server, wherever they end, and whatever is typed
/// meanwhile, a client that has received what there is to receive has come to an
/// exit code.
pub proof fn law_client_comes_to_an_end(stream: Seq<u8>, events: Seq<ClientEventView>)
    requires
        replies(stream).is_prefix_of(without_typing(events)),
    ensures
        exit_of(client_run(fresh(), events)) is Some,
{
    let reply = |r: Result<ResponseView, ProtocolFault>| ClientEventView::Reply(r);
    let all = protocol::received_all::<CommandResponse>(stream).map_values(reply);
    lemma_received_all_ends(stream);
    assert(all.last() == reply(protocol::received_all::<CommandResponse>(stream).last()));
    lemma_until_end_parts(all);
    let got = replies(stream);
    let before = got.drop_last();
    assert(before + seq![got.last()] =~= got);
    assert forall|i: int| 0 <= i < before.len() implies !client::is_last(
        client::action_for(#[trigger] before[i]),
    ) by {
        assert(before[i] == got[i]);
    }
    lemma_end_among_typing(before, got.last(), events);
}

// ---------------------------------------------------------------------------
// The two together
// ---------------------------------------------------------------------------

/// Bytes that a message can carry: with at most ten bytes before them they stay
/// below 2^32.
pub open spec fn carries(data: Seq<u8>) -> bool {
    data.len() <= 0xffff_fff0
}

/// Output of that length can be sent, and so can every exit code.
pub proof fn law_responses_are_sendable(data: Seq<u8>, code: i32)
    requires
        carries(data),
    ensures
        protocol::sendable::<CommandResponse>(ResponseView::Stdout(data)),
        protocol::sendable::<CommandResponse>(ResponseView::Exit(code)),
{
    lemma_varint_len(data.len());
    lemma_varint_len(wire::zigzag(code as int));
}

/// Input of that length can be sent, and so can every size and the end.
pub proof fn law_messages_are_sendable(data: Seq<u8>, cols: u16, rows: u16)
    requires
        carries(data),
    ensures
        protocol::sendable::<ClientMessage>(ClientView::Input(data)),
        protocol::sendable::<ClientMessage>(ClientView::Resize(cols, rows)),
        protocol::sendable::<ClientMessage>(ClientView::Eof),
{
    lemma_varint_len(data.len());
    lemma_varint_len(cols as nat);
    lemma_varint_len(rows as nat);
}

proof fn lemma_varint_len(n: nat)
    ensures
        wire::varint(n).len() <= 9,
{
    reveal_with_fuel(wire::le_bytes, 9);
}

proof fn lemma_owed_sendable(data: Seq<Seq<u8>>, status: Option<u32>)
    requires
        forall|i: int| 0 <= i < data.len() ==> carries(#[trigger] data[i]),
    ensures
        forall|i: int|
            0 <= i < owed(data, status).len() ==> protocol::sendable::<CommandResponse>(
                #[trigger] owed(data, status)[i],
            ),
{
    let all = owed(data, status);
    assert forall|i: int| 0 <= i < all.len() implies protocol::sendable::<CommandResponse>(
        #[trigger] all[i],
    ) by {
        if i < data.len() {
            assert(carries(data[i]));
            law_responses_are_sendable(data[i], 0);
        } else {
            law_responses_are_sendable(Seq::empty(), session::exit_code(status->0));
        }
    }
}

/// Each output as a reply.
pub open spec fn stdout_replies(data: Seq<Seq<u8>>) -> Seq<ClientEventView> {
    data.map_values(|d: Seq<u8>| ClientEventView::Reply(Ok(ResponseView::Stdout(d))))
}

/// What the command writes is what the user sees, and the command's exit code is
/// the client's, whatever follows in the stream and whatever is typed meanwhile.
/// `seen` is all that happens at the client: but for what is typed, it starts with
/// the replies in the stream.
pub proof fn law_user_sees_output_and_status(
    events: Seq<EventView>,
    rest: Seq<u8>,
    seen: Seq<ClientEventView>,
)
    requires
        !send_fails(events),
        output_ends(events),
        status_of(events) is Some,
        forall|i: int| 0 <= i < outputs(events).len() ==> carries(#[trigger] outputs(events)[i]),
        replies(to_client(run(session::started(), events).1) + rest).is_prefix_of(
            without_typing(seen),
        ),
    ensures
        printed(client_run(fresh(), seen)) == outputs(events).flatten(),
        exit_of(client_run(fresh(), seen)) == Some(session::exit_code(status_of(events)->0)),
        exit_of(client_run(fresh(), seen))->0 as int % 0x1_0000_0000 == status_of(events)->0,
{
    let data = outputs(events);
    let status = status_of(events);
    law_client_is_sent_output_and_status(events);
    lemma_owed_sendable(data, status);
    lemma_finished_replies(data, status->0, rest);
    let exit = ResponseView::Exit(session::exit_code(status->0));
    lemma_shown(data, ClientEventView::Reply(Ok(exit)), seen);
}

/// Where the connection ends before the exit code has come, wherever that is, the
/// user sees the output that has come whole, and the client exits with 1,
/// whatever is typed meanwhile. `seen` is all that happens at the client: but for
/// what is typed, it starts with the replies in what has come of the stream.
pub proof fn law_lost_server_is_failure(
    events: Seq<EventView>,
    held: nat,
    seen: Seq<ClientEventView>,
)
    requires
        !send_fails(events),
        forall|i: int| 0 <= i < outputs(events).len() ==> carries(#[trigger] outputs(events)[i]),
        ({
            let stream = to_client(run(session::started(), events).1);
            &&& held <= stream.len()
            &&& held == stream.len() ==> !(output_ends(events) && status_of(events) is Some)
            &&& replies(stream.take(held as int)).is_prefix_of(without_typing(seen))
        }),
    ensures
        ({
            let whole = protocol::whole::<CommandResponse>(
                stdout_responses(outputs(events)),
                held,
            );
            printed(client_run(fresh(), seen)) == outputs(events).take(whole as int).flatten()
        }),
        exit_of(client_run(fresh(), seen)) == Some(client::FAILED),
{
    let data = outputs(events);
    let status = if output_ends(events) {
        status_of(events)
    } else {
        None
    };
    law_client_is_sent_output_and_status(events);
    lemma_owed_sendable(data, status);
    lemma_cut_replies(data, status, held);
    let whole = protocol::whole::<CommandResponse>(stdout_responses(data), held) as int;
    let failure = ClientEventView::Reply(Err(ProtocolFault::Io(protocol::early_eof())));
    lemma_shown(data.take(whole), failure, seen);
}

/// What a client shows that receives output, and then its end.
proof fn lemma_shown(data: Seq<Seq<u8>>, last: ClientEventView, seen: Seq<ClientEventView>)
    requires
        client::is_last(client::action_for(last)),
        (stdout_replies(data) + seq![last]).is_prefix_of(without_typing(seen)),
    ensures
        printed(client_run(fresh(), seen)) == data.flatten(),
        exit_of(client_run(fresh(), seen)) == match client::action_for(last) {
            ClientActionView::Exit(code) => Some(code),
            ClientActionView::SendAndExit(_, code) => Some(code),
            _ => None,
        },
{
    let none = Seq::<ClientEventView>::empty();
    lemma_end_among_typing(stdout_replies(data), last, seen);
    lemma_stdout_is_printed(data, none);
    assert(stdout_replies(data) + none =~= stdout_replies(data));
    assert(data.flatten() + Seq::empty() =~= data.flatten());
}

/// What comes to a client that receives a whole session.
proof fn lemma_finished_replies(data: Seq<Seq<u8>>, status: u32, rest: Seq<u8>)
    requires
        forall|i: int|
            0 <= i < owed(data, Some(status)).len() ==> protocol::sendable::<CommandResponse>(
                #[trigger] owed(data, Some(status))[i],
            ),
    ensures
        replies(protocol::sent_all::<CommandResponse>(owed(data, Some(status))) + rest)
            == stdout_replies(data) + seq![
            ClientEventView::Reply(Ok(ResponseView::Exit(session::exit_code(status)))),
        ],
{
    let all = owed(data, Some(status));
    let stream = protocol::sent_all::<CommandResponse>(all) + rest;
    protocol::law_all_received_in_order::<CommandResponse>(all, rest);
    let reply = |r: Result<ResponseView, ProtocolFault>| ClientEventView::Reply(r);
    let last = ClientEventView::Reply(Ok(ResponseView::Exit(session::exit_code(status))));
    let after = protocol::received_all::<CommandResponse>(rest).map_values(reply);
    assert(protocol::received_all::<CommandResponse>(stream).map_values(reply)
        =~= stdout_replies(data) + seq![last] + after);
    lemma_until_end(stdout_replies(data), last, after);
}

/// What comes to a client whose connection ends before the exit code has come.
proof fn lemma_cut_replies(data: Seq<Seq<u8>>, status: Option<u32>, held: nat)
    requires
        forall|i: int|
            0 <= i < owed(data, status).len() ==> protocol::sendable::<CommandResponse>(
                #[trigger] owed(data, status)[i],
            ),
        held <= protocol::sent_all::<CommandResponse>(owed(data, status)).len(),
        held == protocol::sent_all::<CommandResponse>(owed(data, status)).len()
            ==> status is None,
    ensures
        ({
            let stream = protocol::sent_all::<CommandResponse>(owed(data, status)).take(
                held as int,
            );
            let whole = protocol::whole::<CommandResponse>(stdout_responses(data), held);
            let failure = Err(ProtocolFault::Io(protocol::early_eof()));
            replies(stream) == stdout_replies(data.take(whole as int)) + seq![
                ClientEventView::Reply(failure),
            ]
        }),
{
    let all = owed(data, status);
    let stdout = stdout_responses(data);
    let stream = protocol::sent_all::<CommandResponse>(all).take(held as int);
    protocol::law_cut_stream_gives_whole_messages::<CommandResponse>(all, held);
    let whole = protocol::whole::<CommandResponse>(all, held) as int;
    assert(whole <= data.len());
    assert(stdout =~= all.take(stdout.len() as int));
    lemma_whole_prefix(stdout, all, held);
    let reply = |r: Result<ResponseView, ProtocolFault>| ClientEventView::Reply(r);
    let last = ClientEventView::Reply(Err(ProtocolFault::Io(protocol::early_eof())));
    let shown = stdout_replies(data.take(whole));
    let none = Seq::<ClientEventView>::empty();
    assert(protocol::received_all::<CommandResponse>(stream).map_values(reply) =~= shown + seq![
        last,
    ] + none);
    lemma_until_end(shown, last, none);
}

/// Messages behind the ones that count do not change how many arrive whole.
proof fn lemma_whole_prefix(messages: Seq<ResponseView>, all: Seq<ResponseView>, held: nat)
    requires
        messages.len() <= all.len(),
        messages == all.take(messages.len() as int),
        protocol::whole::<CommandResponse>(all, held) <= messages.len(),
    ensures
        protocol::whole::<CommandResponse>(messages, held)
            == protocol::whole::<CommandResponse>(all, held),
    decreases messages.len(),
{
    if messages.len() > 0 {
        let first = protocol::sent::<CommandResponse>(all[0])->Ok_0.len();
        if held >= first {
            let tail = messages.drop_first();
            assert(tail =~= all.drop_first().take(tail.len() as int));
            lemma_whole_prefix(tail, all.drop_first(), (held - first) as nat);
        }
    }
}

/// The message that is sent for an event of the terminal.
pub open spec fn message_for(event: ClientEventView) -> Option<ClientView> {
    match event {
        ClientEventView::Terminal(TerminalEvent::Key(key)) => if !(key.kind is Press) {
            None
        } else if client::is_control(key, 'c') {
            Some(ClientView::Input(seq![3u8]))
        } else if client::is_control(key, 'd') {
            Some(ClientView::Eof)
        } else {
            match keys::key_bytes(key) {
                Some(data) => Some(ClientView::Input(data)),
                None => None,
            }
        },
        ClientEventView::Terminal(TerminalEvent::WindowResized { cols, rows }) => Some(
            ClientView::Resize(cols, rows),
        ),
        _ => None,
    }
}

/// The messages that a client sends over some events, up to its end.
pub open spec fn typed(events: Seq<ClientEventView>) -> Seq<ClientView>
    decreases events.len(),
{
    if events.len() == 0 {
        Seq::empty()
    } else {
        let rest = if client::is_last(client::action_for(events[0])) {
            Seq::empty()
        } else {
            typed(events.drop_first())
        };
        match message_for(events[0]) {
            Some(message) => seq![message] + rest,
            None => rest,
        }
    }
}

/// A client sends the server one message for each key and each size that counts,
/// in order, up to its end; and nothing else.
pub proof fn law_server_is_sent_what_is_typed(events: Seq<ClientEventView>)
    ensures
        to_server(client_run(fresh(), events)) == protocol::sent_all::<ClientMessage>(
            typed(events),
        ),
    decreases events.len(),
{
    if events.len() > 0 {
        let (session, action) = client::client_next(fresh(), events[0]);
        let rest = events.drop_first();
        let actions = client_run(session, rest);
        assert((seq![action] + actions).drop_first() =~= actions);
        if session.done {
            law_ended_client_is_silent(session, rest);
        } else {
            law_server_is_sent_what_is_typed(rest);
        }
        let behind = if session.done {
            Seq::empty()
        } else {
            typed(rest)
        };
        match message_for(events[0]) {
            Some(message) => {
                assert(typed(events).drop_first() =~= behind);
            },
            None => {
                assert(typed(events) =~= behind);
            },
        }
        assert(protocol::sent_all::<ClientMessage>(Seq::empty()) =~= Seq::empty());
    }
}

/// The messages in front of the end of the input.
pub open spec fn before_eof(messages: Seq<ClientView>) -> Seq<ClientView>
    decreases messages.len(),
{
    if messages.len() == 0 || messages[0] is Eof {
        Seq::empty()
    } else {
        seq![messages[0]] + before_eof(messages.drop_first())
    }
}

/// The events up to the first with which the client is no longer listened to, and
/// that one.
pub open spec fn until_input_ends(events: Seq<Result<ClientView, ProtocolFault>>) -> Seq<EventView>
    decreases events.len(),
{
    if events.len() == 0 {
        Seq::empty()
    } else if session::ends_input(events[0]) {
        seq![EventView::Client(events[0])]
    } else {
        seq![EventView::Client(events[0])] + until_input_ends(events.drop_first())
    }
}

/// The messages that a session receives from a stream. It receives none behind
/// the end of the input.
pub open spec fn arrivals(stream: Seq<u8>) -> Seq<EventView> {
    until_input_ends(protocol::received_all::<ClientMessage>(stream))
}

/// Some events without the output of the command and what becomes of it.
pub open spec fn without_output(events: Seq<EventView>) -> Seq<EventView>
    decreases events.len(),
{
    if events.len() == 0 {
        Seq::empty()
    } else {
        let rest = without_output(events.drop_first());
        match events[0] {
            EventView::Output(_) | EventView::OutputEnded | EventView::SendFailed => rest,
            _ => seq![events[0]] + rest,
        }
    }
}

/// Output does not change what is heard of the client.
proof fn lemma_heard_among_output(events: Seq<EventView>)
    ensures
        heard(events) == heard(without_output(events)),
        forall|i: int|
            0 <= i < without_output(events).len() ==> match #[trigger] without_output(events)[i] {
                EventView::Output(_) | EventView::OutputEnded | EventView::SendFailed => false,
                _ => true,
            },
    decreases events.len(),
{
    if events.len() > 0 {
        let kept = without_output(events.drop_first());
        lemma_heard_among_output(events.drop_first());
        assert((seq![events[0]] + kept).drop_first() =~= kept);
    }
}

/// Among the messages of a stream there is no output: a session in which nothing
/// else happens is one of those that the laws on output speak of.
pub proof fn law_arrivals_are_not_output(stream: Seq<u8>)
    ensures
        without_output(arrivals(stream)) == arrivals(stream),
{
    lemma_arrivals_are_not_output(protocol::received_all::<ClientMessage>(stream));
}

proof fn lemma_arrivals_are_not_output(received: Seq<Result<ClientView, ProtocolFault>>)
    ensures
        without_output(until_input_ends(received)) == until_input_ends(received),
    decreases received.len(),
{
    if received.len() > 0 {
        let rest = received.drop_first();
        lemma_arrivals_are_not_output(rest);
        let behind = if session::ends_input(received[0]) {
            Seq::empty()
        } else {
            until_input_ends(rest)
        };
        assert(without_output(behind) =~= behind);
        assert(until_input_ends(received).drop_first() =~= behind);
        assert(until_input_ends(received) =~= seq![EventView::Client(received[0])] + behind);
    }
}

/// Messages as they come to a session.
pub open spec fn message_events(messages: Seq<ClientView>) -> Seq<EventView> {
    messages.map_values(|m: ClientView| EventView::Client(Ok(m)))
}

proof fn lemma_heard(messages: Seq<ClientView>, behind: Seq<EventView>)
    requires
        forall|i: int| 0 <= i < messages.len() ==> !(#[trigger] messages[i] is Eof),
    ensures
        heard(message_events(messages) + behind) == messages + heard(behind),
    decreases messages.len(),
{
    let events = message_events(messages) + behind;
    if messages.len() == 0 {
        assert(events =~= behind);
        assert(messages + heard(behind) =~= heard(behind));
    } else {
        let tail = messages.drop_first();
        assert(!(messages[0] is Eof));
        assert forall|i: int| 0 <= i < tail.len() implies !(#[trigger] tail[i] is Eof) by {
            assert(tail[i] == messages[i + 1]);
        }
        lemma_heard(tail, behind);
        assert(events[0] == EventView::Client(Ok(messages[0])));
        assert(events.drop_first() =~= message_events(tail) + behind);
        assert(messages + heard(behind) =~= seq![messages[0]] + (tail + heard(behind)));
    }
}

/// What a session receives of some messages behind which the stream ends: those
/// before the end of the input, and one event more.
proof fn lemma_arrivals(messages: Seq<ClientView>, failure: ProtocolFault)
    ensures
        ({
            let all = messages.map_values(|m: ClientView| Ok::<ClientView, ProtocolFault>(m)).push(
                Err::<ClientView, ProtocolFault>(failure),
            );
            let heard = before_eof(messages);
            let events = until_input_ends(all);
            &&& events.len() == heard.len() + 1
            &&& events.take(heard.len() as int) == message_events(heard)
            &&& events.last() matches EventView::Client(r) && session::ends_input(r)
            &&& forall|i: int| 0 <= i < heard.len() ==> !(#[trigger] heard[i] is Eof)
        }),
    decreases messages.len(),
{
    let good = |m: ClientView| Ok::<ClientView, ProtocolFault>(m);
    let all = messages.map_values(good).push(Err::<ClientView, ProtocolFault>(failure));
    let heard = before_eof(messages);
    let events = until_input_ends(all);
    if messages.len() == 0 || messages[0] is Eof {
        assert(events.take(0) =~= message_events(heard));
    } else {
        let tail = messages.drop_first();
        lemma_arrivals(tail, failure);
        assert(all.drop_first() =~= tail.map_values(good).push(
            Err::<ClientView, ProtocolFault>(failure),
        ));
        let fewer = until_input_ends(all.drop_first());
        let less = before_eof(tail);
        assert(events =~= seq![EventView::Client(Ok(messages[0]))] + fewer);
        assert(events.take(heard.len() as int) =~= seq![EventView::Client(Ok(messages[0]))]
            + fewer.take(less.len() as int));
        assert(message_events(heard) =~= seq![EventView::Client(Ok(messages[0]))]
            + message_events(less));
    }
}

/// The first `come` messages, or all where there are not so many.
pub open spec fn first_of(messages: Seq<ClientView>, come: nat) -> Seq<ClientView> {
    if come < messages.len() {
        messages.take(come as int)
    } else {
        messages
    }
}

/// Whether, but for the output, the events of a session start with the first
/// `come` of what it receives, and where that is not all of it, the terminal
/// fails or the command ends before the next is received, or nothing more has
/// happened yet.
pub open spec fn comes_of(arriving: Seq<EventView>, come: nat, events: Seq<EventView>) -> bool {
    let kept = without_output(events);
    &&& come <= arriving.len()
    &&& arriving.take(come as int).is_prefix_of(kept)
    &&& come < arriving.len() && come < kept.len() ==> !(kept[come as int] is Client)
}

/// What the terminal gets of messages behind which the stream ends, where the
/// first `come` of what is received comes before the command ends.
proof fn lemma_applied(
    messages: Seq<ClientView>,
    failure: ProtocolFault,
    come: nat,
    events: Seq<EventView>,
)
    requires
        ({
            let all = messages.map_values(|m: ClientView| Ok::<ClientView, ProtocolFault>(m)).push(
                Err::<ClientView, ProtocolFault>(failure),
            );
            comes_of(until_input_ends(all), come, events)
        }),
    ensures
        applied(run(session::started(), events).1) == first_of(before_eof(messages), come),
{
    let all = messages.map_values(|m: ClientView| Ok::<ClientView, ProtocolFault>(m)).push(
        Err::<ClientView, ProtocolFault>(failure),
    );
    let arriving = until_input_ends(all);
    let before = before_eof(messages);
    let got = first_of(before, come);
    let kept = without_output(events);
    let behind = kept.skip(got.len() as int);
    lemma_arrivals(messages, failure);
    assert(arriving.take(got.len() as int) =~= arriving.take(before.len() as int).take(
        got.len() as int,
    ));
    assert(message_events(got) =~= message_events(before).take(got.len() as int));
    assert forall|i: int| 0 <= i < got.len() implies kept[i] == message_events(got)[i] by {
        assert(arriving.take(come as int)[i] == kept[i]);
        assert(arriving.take(got.len() as int)[i] == arriving[i]);
    }
    assert(kept =~= message_events(got) + behind);
    assert forall|i: int| 0 <= i < got.len() implies !(#[trigger] got[i] is Eof) by {
        assert(got[i] == before[i]);
    }
    if come == arriving.len() {
        assert(arriving.take(come as int)[got.len() as int] == kept[got.len() as int]);
        assert(behind[0] == arriving.last());
    }
    lemma_heard(got, behind);
    lemma_heard_among_output(events);
    if behind.len() > 0 {
        assert(behind[0] == kept[got.len() as int]);
    }
    assert(heard(behind) =~= Seq::empty());
    assert(got + heard(behind) =~= got);
    law_terminal_gets_what_the_client_sends(events);
}

proof fn lemma_typed_sendable(typing: Seq<ClientEventView>)
    ensures
        forall|i: int|
            0 <= i < typed(typing).len() ==> protocol::sendable::<ClientMessage>(
                #[trigger] typed(typing)[i],
            ),
    decreases typing.len(),
{
    if typing.len() > 0 {
        lemma_typed_sendable(typing.drop_first());
        if let Some(message) = message_for(typing[0]) {
            match message {
                ClientView::Input(data) => law_messages_are_sendable(data, 0, 0),
                ClientView::Resize(cols, rows) => law_messages_are_sendable(
                    Seq::empty(),
                    cols,
                    rows,
                ),
                ClientView::Eof => law_messages_are_sendable(Seq::empty(), 0, 0),
            }
        }
        let all = typed(typing);
        let tail = typed(typing.drop_first());
        assert forall|i: int| 0 <= i < all.len() implies protocol::sendable::<ClientMessage>(
            #[trigger] all[i],
        ) by {
            if message_for(typing[0]) is None {
                assert(all[i] == tail[i]);
            } else if i > 0 {
                assert(all[i] == tail[i - 1]);
            }
        }
    }
}

/// What is typed at the client reaches the terminal of the command, in order and
/// unchanged, up to the end of the input, and so do the sizes; whatever the
/// command writes meanwhile. Where the terminal fails or the command ends before
/// all has come, the terminal has got what has come.
pub proof fn law_terminal_gets_what_is_typed(
    typing: Seq<ClientEventView>,
    come: nat,
    events: Seq<EventView>,
)
    requires
        comes_of(arrivals(to_server(client_run(fresh(), typing))), come, events),
    ensures
        applied(run(session::started(), events).1) == first_of(before_eof(typed(typing)), come),
        come == arrivals(to_server(client_run(fresh(), typing))).len() ==> applied(
            run(session::started(), events).1,
        ) == before_eof(typed(typing)),
{
    let messages = typed(typing);
    let stream = to_server(client_run(fresh(), typing));
    let nothing = Seq::<u8>::empty();
    law_server_is_sent_what_is_typed(typing);
    lemma_typed_sendable(typing);
    protocol::law_all_received_in_order::<ClientMessage>(messages, nothing);
    assert(stream + nothing =~= stream);
    let good = |m: ClientView| Ok::<ClientView, ProtocolFault>(m);
    let failure = ProtocolFault::Io(protocol::early_eof());
    let all = messages.map_values(good).push(Err::<ClientView, ProtocolFault>(failure));
    assert(protocol::received_all::<ClientMessage>(stream) =~= all);
    lemma_arrivals(messages, failure);
    lemma_applied(messages, failure, come, events);
}

/// Where the connection ends before all that is typed has come, wherever that is,
/// the terminal gets the messages that have come whole, and nothing of the next.
pub proof fn law_lost_client_is_heard_so_far(
    typing: Seq<ClientEventView>,
    held: nat,
    come: nat,
    events: Seq<EventView>,
)
    requires
        held <= to_server(client_run(fresh(), typing)).len(),
        comes_of(
            arrivals(to_server(client_run(fresh(), typing)).take(held as int)),
            come,
            events,
        ),
    ensures
        ({
            let whole = protocol::whole::<ClientMessage>(typed(typing), held);
            applied(run(session::started(), events).1) == first_of(
                before_eof(typed(typing).take(whole as int)),
                come,
            )
        }),
{
    let messages = typed(typing);
    law_server_is_sent_what_is_typed(typing);
    lemma_typed_sendable(typing);
    protocol::law_cut_stream_gives_whole_messages::<ClientMessage>(messages, held);
    let whole = protocol::whole::<ClientMessage>(messages, held) as int;
    lemma_applied(
        messages.take(whole),
        ProtocolFault::Io(protocol::early_eof()),
        come,
        events,
    );
}

} // verus!
