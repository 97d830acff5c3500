//! Frames: a message behind its length.

use crate::message::{Message, WriteError};
use crate::wire::DecodeError;
use vstd::prelude::*;
use vstd::slice::slice_subrange;

verus! {

/// The port that the server listens on.
pub const PORT: u16 = 9877;

/// Why a message was not sent or not received.
#[derive(Debug, PartialEq, Eq)]
pub enum ProtocolError {
    /// The message cannot be written.
    Encode(WriteError),
    /// The bytes of a frame hold no such message.
    Decode(DecodeError),
    /// Reading or writing failed, with this description.
    Io(String),
}

/// The contents of a [`ProtocolError`].
pub enum ProtocolFault {
    Encode(WriteError),
    Decode(DecodeError),
    Io(Seq<char>),
}

impl View for ProtocolError {
    type V = ProtocolFault;

    open spec fn view(&self) -> ProtocolFault {
        match self {
            ProtocolError::Encode(e) => ProtocolFault::Encode(*e),
            ProtocolError::Decode(e) => ProtocolFault::Decode(*e),
            ProtocolError::Io(text) => ProtocolFault::Io(text@),
        }
    }
}

impl From<WriteError> for ProtocolError {
    fn from(e: WriteError) -> (r: ProtocolError) {
        ProtocolError::Encode(e)
    }
}

impl vstd::std_specs::convert::FromSpecImpl<WriteError> for ProtocolError {
    open spec fn obeys_from_spec() -> bool {
        true
    }

    open spec fn from_spec(e: WriteError) -> ProtocolError {
        ProtocolError::Encode(e)
    }
}

impl From<DecodeError> for ProtocolError {
    fn from(e: DecodeError) -> (r: ProtocolError) {
        ProtocolError::Decode(e)
    }
}

impl vstd::std_specs::convert::FromSpecImpl<DecodeError> for ProtocolError {
    open spec fn obeys_from_spec() -> bool {
        true
    }

    open spec fn from_spec(e: DecodeError) -> ProtocolError {
        ProtocolError::Decode(e)
    }
}

pub type ProtocolResult<T> = Result<T, ProtocolError>;

/// The contents of what came of sending or receiving.
pub open spec fn outcome<T: View>(r: ProtocolResult<T>) -> Result<T::V, ProtocolFault> {
    match r {
        Ok(value) => Ok(value@),
        Err(e) => Err(e@),
    }
}

/// The four low bytes of `n`, most significant first.
pub open spec fn be_bytes(n: nat) -> Seq<u8> {
    seq![
        ((n / 0x100_0000) % 256) as u8,
        ((n / 0x1_0000) % 256) as u8,
        ((n / 0x100) % 256) as u8,
        (n % 256) as u8,
    ]
}

/// The number whose four bytes, most significant first, are `bytes`.
pub open spec fn be_value(bytes: Seq<u8>) -> nat {
    (bytes[0] * 0x100_0000 + bytes[1] * 0x1_0000 + bytes[2] * 0x100 + bytes[3]) as nat
}

/// The frame of a payload: the low 32 bits of its length, then the payload.
pub open spec fn frame(payload: Seq<u8>) -> Seq<u8> {
    be_bytes(payload.len()) + payload
}

/// The bytes that are sent for a message.
pub open spec fn sent<T: Message>(v: T::V) -> Result<Seq<u8>, ProtocolFault> {
    match T::written(v) {
        Ok(payload) => Ok(frame(payload)),
        Err(e) => Err(ProtocolFault::Encode(e)),
    }
}

/// The description of the error where the bytes end too early.
pub open spec fn early_eof() -> Seq<char> {
    "early eof"@
}

/// What is received from a stream of bytes, and what is left of the stream.
///
/// Where the stream ends within a frame nothing is left of it. Where the payload
/// holds no message, the whole frame is taken all the same.
pub open spec fn received<T: Message>(stream: Seq<u8>) -> (Result<T::V, ProtocolFault>, Seq<u8>) {
    if stream.len() < 4 {
        (Err(ProtocolFault::Io(early_eof())), Seq::empty())
    } else {
        let end = 4 + be_value(stream.take(4));
        if stream.len() < end {
            (Err(ProtocolFault::Io(early_eof())), Seq::empty())
        } else {
            let message = match T::parsed(stream.subrange(4, end as int)) {
                Ok(v) => Ok(v),
                Err(e) => Err(ProtocolFault::Decode(e)),
            };
            (message, stream.skip(end as int))
        }
    }
}

/// The bytes of a length, most significant first.
fn len_to_bytes(len: u32) -> (r: [u8; 4])
    ensures
        r@ == be_bytes(len as nat),
{
    [
        (len / 0x100_0000) as u8,
        ((len / 0x1_0000) % 0x100) as u8,
        ((len / 0x100) % 0x100) as u8,
        (len % 0x100) as u8,
    ]
}

/// The length of the payload that follows the header of a frame.
pub fn payload_len(header: &[u8; 4]) -> (len: u32)
    ensures
        len == be_value(header@),
{
    header[0] as u32 * 0x100_0000 + header[1] as u32 * 0x1_0000 + header[2] as u32 * 0x100
        + header[3] as u32
}

/// The message that a payload holds.
pub fn decode_payload<T: Message>(payload: &[u8]) -> (r: ProtocolResult<T>)
    ensures
        outcome(r) == match T::parsed(payload@) {
            Ok(v) => Ok::<T::V, ProtocolFault>(v),
            Err(e) => Err::<T::V, ProtocolFault>(ProtocolFault::Decode(e)),
        },
{
    match T::read(payload) {
        Ok(message) => Ok(message),
        Err(e) => Err(ProtocolError::from(e)),
    }
}

/// Only the low 32 bits of a number show in its four bytes.
proof fn lemma_be_low(n: u64)
    ensures
        be_bytes((n as u32) as nat) == be_bytes(n as nat),
{
    assert((n as u32 / 0x100_0000u32) % 256 == (n / 0x100_0000) % 256) by (bit_vector);
    assert((n as u32 / 0x1_0000u32) % 256 == (n / 0x1_0000) % 256) by (bit_vector);
    assert((n as u32 / 0x100u32) % 256 == (n / 0x100) % 256) by (bit_vector);
    assert(n as u32 % 256 == n % 256) by (bit_vector);
}

/// The frame of a message.
pub fn encode_msg<T: Message>(msg: &T) -> (r: ProtocolResult<Vec<u8>>)
    ensures
        outcome(r) == sent::<T>(msg@),
{
    let data = match msg.write() {
        Ok(data) => data,
        Err(e) => return Err(ProtocolError::from(e)),
    };
    let held: u64 = data.len() as u64;
    let len = len_to_bytes(#[verifier::truncate] (held as u32));
    proof {
        lemma_be_low(held);
    }
    let mut result: Vec<u8> = Vec::new();
    result.extend_from_slice(&len);
    result.extend_from_slice(data.as_slice());
    assert(result@ =~= frame(data@));
    Ok(result)
}

/// Takes a frame from the front of `reader` and gives the message in it.
pub fn decode_msg<T: Message>(reader: &mut &[u8]) -> (r: ProtocolResult<T>)
    ensures
        (outcome(r), (*final(reader))@) == received::<T>((*old(reader))@),
{
    let stream = *reader;
    let held: usize = stream.len();
    if held < 4 {
        *reader = slice_subrange(stream, held, held);
        return Err(ProtocolError::Io("early eof".to_owned()));
    }
    let header = [stream[0], stream[1], stream[2], stream[3]];
    let len: usize = payload_len(&header) as usize;
    if held - 4 < len {
        *reader = slice_subrange(stream, held, held);
        return Err(ProtocolError::Io("early eof".to_owned()));
    }
    let payload = slice_subrange(stream, 4, 4 + len);
    *reader = slice_subrange(stream, 4 + len, held);
    decode_payload(payload)
}

// ---------------------------------------------------------------------------
// Laws
// ---------------------------------------------------------------------------

/// Whether a message can be sent and its length can stand in the header.
pub open spec fn sendable<T: Message>(v: T::V) -> bool {
    &&& T::fits(v)
    &&& T::written(v) is Ok
    &&& T::written(v)->Ok_0.len() < 0x1_0000_0000
}

/// The bytes that are sent for some messages, one behind the other.
pub open spec fn sent_all<T: Message>(messages: Seq<T::V>) -> Seq<u8>
    decreases messages.len(),
{
    if messages.len() == 0 {
        Seq::empty()
    } else {
        sent::<T>(messages[0])->Ok_0 + sent_all::<T>(messages.drop_first())
    }
}

/// All that is received from a stream, up to the first failure.
pub open spec fn received_all<T: Message>(stream: Seq<u8>) -> Seq<Result<T::V, ProtocolFault>>
    decreases stream.len(),
{
    let (message, rest) = received::<T>(stream);
    if message is Ok {
        seq![message] + received_all::<T>(rest)
    } else {
        seq![message]
    }
}

/// A length below 2^32 is read back from the header.
pub proof fn lemma_be_round_trip(n: nat)
    requires
        n < 0x1_0000_0000,
    ensures
        be_value(be_bytes(n)) == n,
{
    let m = n as u32;
    assert(((m / 0x100_0000) % 256) * 0x100_0000 + ((m / 0x1_0000) % 256) * 0x1_0000 + ((m / 0x100)
        % 256) * 0x100 + m % 256 == m) by (bit_vector);
}

/// What is received is what was sent, and all that follows it is left.
pub proof fn law_received_is_sent<T: Message>(v: T::V, rest: Seq<u8>)
    requires
        sendable::<T>(v),
    ensures
        sent::<T>(v) is Ok,
        received::<T>(sent::<T>(v)->Ok_0 + rest) == (Ok::<T::V, ProtocolFault>(v), rest),
{
    let payload = T::written(v)->Ok_0;
    let stream = frame(payload) + rest;
    lemma_be_round_trip(payload.len());
    assert(stream.take(4) =~= be_bytes(payload.len()));
    assert(stream.subrange(4, (4 + payload.len()) as int) =~= payload + Seq::empty());
    assert(stream.skip((4 + payload.len()) as int) =~= rest);
    T::read_after_write(v, Seq::empty());
}

/// A stream that ends within the frame of a message gives no message, and
/// nothing is left of it.
pub proof fn law_cut_frame_is_early_eof<T: Message>(v: T::V, held: nat)
    requires
        sendable::<T>(v),
        held < sent::<T>(v)->Ok_0.len(),
    ensures
        received::<T>(sent::<T>(v)->Ok_0.take(held as int)) == (
            Err::<T::V, ProtocolFault>(ProtocolFault::Io(early_eof())),
            Seq::<u8>::empty(),
        ),
{
    let payload = T::written(v)->Ok_0;
    let stream = frame(payload).take(held as int);
    lemma_be_round_trip(payload.len());
    if held >= 4 {
        assert(stream.take(4) =~= be_bytes(payload.len()));
    }
}

/// A frame whose payload holds no message is passed over whole: what follows it
/// is received as if it stood alone.
pub proof fn law_bad_payload_is_passed_over<T: Message>(payload: Seq<u8>, rest: Seq<u8>)
    requires
        T::parsed(payload) is Err,
        payload.len() < 0x1_0000_0000,
    ensures
        received::<T>(frame(payload) + rest) == (
            Err::<T::V, ProtocolFault>(ProtocolFault::Decode(T::parsed(payload)->Err_0)),
            rest,
        ),
{
    let stream = frame(payload) + rest;
    lemma_be_round_trip(payload.len());
    assert(stream.take(4) =~= be_bytes(payload.len()));
    assert(stream.subrange(4, (4 + payload.len()) as int) =~= payload);
    assert(stream.skip((4 + payload.len()) as int) =~= rest);
}

/// What is received are the messages that were sent, in their order, and then
/// what follows them in the stream.
pub proof fn law_all_received_in_order<T: Message>(messages: Seq<T::V>, rest: Seq<u8>)
    requires
        forall|i: int| 0 <= i < messages.len() ==> sendable::<T>(#[trigger] messages[i]),
    ensures
        received_all::<T>(sent_all::<T>(messages) + rest) == messages.map_values(
            |v: T::V| Ok::<T::V, ProtocolFault>(v),
        ) + received_all::<T>(rest),
    decreases messages.len(),
{
    let good = |v: T::V| Ok::<T::V, ProtocolFault>(v);
    if messages.len() == 0 {
        assert(sent_all::<T>(messages) + rest =~= rest);
        assert(messages.map_values(good) + received_all::<T>(rest) =~= received_all::<T>(rest));
    } else {
        let tail = messages.drop_first();
        let first = sent::<T>(messages[0])->Ok_0;
        let behind = sent_all::<T>(tail) + rest;
        assert(sent_all::<T>(messages) + rest =~= first + behind);
        law_received_is_sent::<T>(messages[0], behind);
        assert forall|i: int| 0 <= i < tail.len() implies sendable::<T>(#[trigger] tail[i]) by {
            assert(tail[i] == messages[i + 1]);
        }
        law_all_received_in_order::<T>(tail, rest);
        assert(messages.map_values(good) =~= seq![good(messages[0])] + tail.map_values(good));
        assert(received_all::<T>(first + behind) =~= seq![good(messages[0])] + received_all::<T>(
            behind,
        ));
    }
}

/// How many of the messages arrive whole in the first `held` bytes that are sent
/// for them.
pub open spec fn whole<T: Message>(messages: Seq<T::V>, held: nat) -> nat
    decreases messages.len(),
{
    if messages.len() == 0 {
        0
    } else {
        let first = sent::<T>(messages[0])->Ok_0.len();
        if held < first {
            0
        } else {
            1 + whole::<T>(messages.drop_first(), (held - first) as nat)
        }
    }
}

/// A stream that ends early, wherever it does, gives the messages that have
/// arrived whole, and then the failure; never part of a message.
pub proof fn law_cut_stream_gives_whole_messages<T: Message>(messages: Seq<T::V>, held: nat)
    requires
        forall|i: int| 0 <= i < messages.len() ==> sendable::<T>(#[trigger] messages[i]),
        held <= sent_all::<T>(messages).len(),
    ensures
        whole::<T>(messages, held) <= messages.len(),
        held < sent_all::<T>(messages).len() ==> whole::<T>(messages, held) < messages.len(),
        received_all::<T>(sent_all::<T>(messages).take(held as int)) == messages.take(
            whole::<T>(messages, held) as int,
        ).map_values(|v: T::V| Ok::<T::V, ProtocolFault>(v)).push(
            Err::<T::V, ProtocolFault>(ProtocolFault::Io(early_eof())),
        ),
    decreases messages.len(),
{
    let good = |v: T::V| Ok::<T::V, ProtocolFault>(v);
    let failure = Err::<T::V, ProtocolFault>(ProtocolFault::Io(early_eof()));
    let stream = sent_all::<T>(messages).take(held as int);
    let count = whole::<T>(messages, held) as int;
    if messages.len() == 0 {
        assert(messages.take(count).map_values(good).push(failure) =~= seq![failure]);
    } else {
        let first = sent::<T>(messages[0])->Ok_0;
        let tail = messages.drop_first();
        if held < first.len() {
            assert(stream =~= first.take(held as int));
            law_cut_frame_is_early_eof::<T>(messages[0], held);
            assert(messages.take(count).map_values(good).push(failure) =~= seq![failure]);
        } else {
            let left = (held - first.len()) as nat;
            let behind = sent_all::<T>(tail).take(left as int);
            assert(stream =~= first + behind);
            law_received_is_sent::<T>(messages[0], behind);
            assert forall|i: int| 0 <= i < tail.len() implies sendable::<T>(#[trigger] tail[i]) by {
                assert(tail[i] == messages[i + 1]);
            }
            law_cut_stream_gives_whole_messages::<T>(tail, left);
            let fewer = whole::<T>(tail, left) as int;
            assert(messages.take(count).map_values(good).push(failure) =~= seq![good(messages[0])]
                + tail.take(fewer).map_values(good).push(failure));
        }
    }
}

} // verus!
