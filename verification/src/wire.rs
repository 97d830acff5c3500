//! The layout of values on the wire.
//!
//! Values are written by the `bincode` crate in its standard configuration:
//! little endian, integers of variable length, no size limit. The spec
//! functions of this module state that layout, one pair for each kind of value:
//! what is written for it, and what is read back from any bytes. The functions
//! marked `external_body` make the calls into `bincode`.

use bincode::config::standard;
use bincode::error::DecodeError as WireError;
use vstd::prelude::*;

verus! {

/// Why bytes do not hold the value that was expected of them.
#[derive(Debug, Clone, Copy, PartialEq, Eq, Structural)]
pub enum DecodeError {
    /// The bytes end within the value; `additional` more were needed at the
    /// place where they ended.
    UnexpectedEnd { additional: usize },
    /// An integer is marked as wider than the one that is read, or with a mark
    /// that no integer has.
    InvalidIntegerType,
    /// A boolean is neither 0 nor 1.
    InvalidBooleanValue(u8),
    /// No variant has the index that was found.
    UnexpectedVariant { found: u32 },
    /// The bytes of a text are not UTF-8.
    Utf8,
    /// A length does not fit in `usize`.
    OutsideUsizeRange(u64),
}

/// What reading gives: a value and the number of bytes it took.
pub type Parsed<V> = Result<(V, nat), DecodeError>;

// ---------------------------------------------------------------------------
// Integers
// ---------------------------------------------------------------------------

/// The `width` low bytes of `n`, least significant first.
pub open spec fn le_bytes(n: nat, width: nat) -> Seq<u8>
    decreases width,
{
    if width == 0 {
        Seq::empty()
    } else {
        seq![(n % 256) as u8] + le_bytes(n / 256, (width - 1) as nat)
    }
}

/// The number whose bytes, least significant first, are `bytes`.
pub open spec fn le_value(bytes: Seq<u8>) -> nat
    decreases bytes.len(),
{
    if bytes.len() == 0 {
        0
    } else {
        bytes[0] as nat + 256 * le_value(bytes.drop_first())
    }
}

/// `n` in as few bytes as the format allows: alone below 251, else behind a mark
/// that gives the width.
pub open spec fn varint(n: nat) -> Seq<u8> {
    if n < 251 {
        seq![n as u8]
    } else if n < 0x1_0000 {
        seq![251u8] + le_bytes(n, 2)
    } else if n < 0x1_0000_0000 {
        seq![252u8] + le_bytes(n, 4)
    } else {
        seq![253u8] + le_bytes(n, 8)
    }
}

/// The number of bytes that follow the mark `mark` of an integer.
pub open spec fn marked_width(mark: u8) -> nat {
    if mark < 251 {
        0
    } else if mark == 251 {
        2
    } else if mark == 252 {
        4
    } else if mark == 253 {
        8
    } else {
        16
    }
}

/// Reads an unsigned integer of at most `width` bytes. The mark need not be the
/// smallest that would do.
pub open spec fn parse_varint(bytes: Seq<u8>, width: nat) -> Parsed<nat> {
    if bytes.len() == 0 {
        Err(DecodeError::UnexpectedEnd { additional: 1 })
    } else {
        let w = marked_width(bytes[0]);
        let held = (bytes.len() - 1) as nat;
        if w == 0 {
            Ok((bytes[0] as nat, 1))
        } else if w > width {
            Err(DecodeError::InvalidIntegerType)
        } else if held < w {
            Err(DecodeError::UnexpectedEnd { additional: (w - held) as usize })
        } else {
            Ok((le_value(bytes.subrange(1, 1 + w as int)), 1 + w))
        }
    }
}

/// Signed integers as unsigned ones: 0, -1, 1, -2, 2 and so on.
pub open spec fn zigzag(v: int) -> nat {
    if v < 0 {
        (-2 * v - 1) as nat
    } else {
        (2 * v) as nat
    }
}

/// The signed integer that `n` stands for.
pub open spec fn unzigzag(n: nat) -> int {
    if n % 2 == 0 {
        (n / 2) as int
    } else {
        -(n / 2) - 1
    }
}

/// Reads a signed integer of at most four bytes.
pub open spec fn parse_i32(bytes: Seq<u8>) -> Parsed<int> {
    match parse_varint(bytes, 4) {
        Ok((n, used)) => Ok((unzigzag(n), used)),
        Err(e) => Err(e),
    }
}

// ---------------------------------------------------------------------------
// Pairs of short integers, flags, options
// ---------------------------------------------------------------------------

/// Two short integers, one behind the other.
pub open spec fn pair_bytes(pair: (u16, u16)) -> Seq<u8> {
    varint(pair.0 as nat) + varint(pair.1 as nat)
}

/// Reads two short integers.
pub open spec fn parse_pair(bytes: Seq<u8>) -> Parsed<(u16, u16)> {
    match parse_varint(bytes, 2) {
        Ok((a, n)) => match parse_varint(bytes.skip(n as int), 2) {
            Ok((b, m)) => Ok(((a as u16, b as u16), n + m)),
            Err(e) => Err(e),
        },
        Err(e) => Err(e),
    }
}

/// A boolean: one byte, 0 or 1.
pub open spec fn bool_bytes(b: bool) -> Seq<u8> {
    if b {
        seq![1u8]
    } else {
        seq![0u8]
    }
}

/// Reads a boolean.
pub open spec fn parse_bool(bytes: Seq<u8>) -> Parsed<bool> {
    if bytes.len() == 0 {
        Err(DecodeError::UnexpectedEnd { additional: 1 })
    } else if bytes[0] == 0 {
        Ok((false, 1))
    } else if bytes[0] == 1 {
        Ok((true, 1))
    } else {
        Err(DecodeError::InvalidBooleanValue(bytes[0]))
    }
}

/// An optional pair: one byte that says whether it is there, then the pair.
pub open spec fn opt_pair_bytes(value: Option<(u16, u16)>) -> Seq<u8> {
    match value {
        None => seq![0u8],
        Some(pair) => seq![1u8] + pair_bytes(pair),
    }
}

/// Reads an optional pair.
pub open spec fn parse_opt_pair(bytes: Seq<u8>) -> Parsed<Option<(u16, u16)>> {
    if bytes.len() == 0 {
        Err(DecodeError::UnexpectedEnd { additional: 1 })
    } else if bytes[0] == 0 {
        Ok((None, 1))
    } else if bytes[0] == 1 {
        match parse_pair(bytes.skip(1)) {
            Ok((pair, n)) => Ok((Some(pair), 1 + n)),
            Err(e) => Err(e),
        }
    } else {
        Err(DecodeError::UnexpectedVariant { found: bytes[0] as u32 })
    }
}

// ---------------------------------------------------------------------------
// Byte strings and texts
// ---------------------------------------------------------------------------

/// A byte string: its length, then its bytes.
pub open spec fn blob_bytes(data: Seq<u8>) -> Seq<u8> {
    varint(data.len()) + data
}

/// Reads a byte string.
pub open spec fn parse_blob(bytes: Seq<u8>) -> Parsed<Seq<u8>> {
    match parse_varint(bytes, 8) {
        Ok((n, used)) => {
            let held = (bytes.len() - used) as nat;
            if n > usize::MAX {
                Err(DecodeError::OutsideUsizeRange(n as u64))
            } else if n > held {
                Err(DecodeError::UnexpectedEnd { additional: (n - held) as usize })
            } else {
                Ok((bytes.subrange(used as int, (used + n) as int), used + n))
            }
        },
        Err(e) => Err(e),
    }
}

/// A text: the byte string of its UTF-8 form.
pub open spec fn text_bytes(text: Seq<char>) -> Seq<u8> {
    blob_bytes(vstd::utf8::encode_utf8(text))
}

/// Reads a text.
pub open spec fn parse_text(bytes: Seq<u8>) -> Parsed<Seq<char>> {
    match parse_blob(bytes) {
        Ok((data, used)) => if vstd::utf8::valid_utf8(data) {
            Ok((vstd::utf8::decode_utf8(data), used))
        } else {
            Err(DecodeError::Utf8)
        },
        Err(e) => Err(e),
    }
}

// ---------------------------------------------------------------------------
// Calls into bincode
// ---------------------------------------------------------------------------

/// `bincode::error::EncodeError`, the error of writing. Nothing looks inside it:
/// none of the writers below returns one.
#[verifier::external_type_specification]
#[verifier::external_body]
pub struct ExEncodeError(bincode::error::EncodeError);

/// `bincode::encode_to_vec` on an index alone. A vector takes all that is written
/// to it, so the call succeeds, and an index is written as a variable integer.
#[verifier::external_body]
pub(crate) fn write_index(index: u32) -> (r: Result<Vec<u8>, bincode::error::EncodeError>)
    ensures
        r is Ok,
        r->Ok_0@ == varint(index as nat),
{
    bincode::encode_to_vec(index, standard())
}

/// `bincode::encode_to_vec` on an index and a byte string. The call succeeds; the
/// parts of a tuple are written one behind the other, with nothing between them.
#[verifier::external_body]
pub(crate) fn write_indexed_blob(index: u32, data: &[u8]) -> (r: Result<
    Vec<u8>,
    bincode::error::EncodeError,
>)
    ensures
        r is Ok,
        r->Ok_0@ == varint(index as nat) + blob_bytes(data@),
{
    bincode::encode_to_vec((index, data), standard())
}

/// `bincode::encode_to_vec` on an index and a text. The call succeeds; a text is
/// written as the byte string of its UTF-8 form.
#[verifier::external_body]
pub(crate) fn write_indexed_text(index: u32, text: &str) -> (r: Result<
    Vec<u8>,
    bincode::error::EncodeError,
>)
    ensures
        r is Ok,
        r->Ok_0@ == varint(index as nat) + text_bytes(text@),
{
    bincode::encode_to_vec((index, text), standard())
}

/// `bincode::encode_to_vec` on an index and a signed integer. The call succeeds;
/// a signed integer is written as the unsigned one that stands for it.
#[verifier::external_body]
pub(crate) fn write_indexed_i32(index: u32, value: i32) -> (r: Result<
    Vec<u8>,
    bincode::error::EncodeError,
>)
    ensures
        r is Ok,
        r->Ok_0@ == varint(index as nat) + varint(zigzag(value as int)),
{
    bincode::encode_to_vec((index, value), standard())
}

/// `bincode::encode_to_vec` on an index and a pair of short integers. The call
/// succeeds.
#[verifier::external_body]
pub(crate) fn write_indexed_pair(index: u32, pair: (u16, u16)) -> (r: Result<
    Vec<u8>,
    bincode::error::EncodeError,
>)
    ensures
        r is Ok,
        r->Ok_0@ == varint(index as nat) + pair_bytes(pair),
{
    bincode::encode_to_vec((index, pair), standard())
}

/// `bincode::encode_to_vec` on the five fields of a request, in their order. The
/// call succeeds.
#[verifier::external_body]
pub(crate) fn write_request(
    command: &str,
    dir: &str,
    wsl: bool,
    size: Option<(u16, u16)>,
    interactive: bool,
) -> (r: Result<Vec<u8>, bincode::error::EncodeError>)
    ensures
        r is Ok,
        r->Ok_0@ == text_bytes(command@) + text_bytes(dir@) + bool_bytes(wsl)
            + opt_pair_bytes(size) + bool_bytes(interactive),
{
    bincode::encode_to_vec((command, dir, wsl, size, interactive), standard())
}

/// `bincode::decode_from_slice` on an unsigned integer of four bytes: the value
/// and the bytes taken, or the first thing wrong. What follows is not looked at.
#[verifier::external_body]
pub(crate) fn read_u32(bytes: &[u8]) -> (r: Result<(u32, usize), DecodeError>)
    ensures
        match r {
            Ok((v, n)) => parse_varint(bytes@, 4) == Ok::<(nat, nat), DecodeError>(
                (v as nat, n as nat),
            ),
            Err(e) => parse_varint(bytes@, 4) == Err::<(nat, nat), DecodeError>(e),
        },
{
    match bincode::decode_from_slice::<u32, _>(bytes, standard()) {
        Ok(parsed) => Ok(parsed),
        Err(WireError::UnexpectedEnd { additional }) => Err(
            DecodeError::UnexpectedEnd { additional },
        ),
        Err(_) => Err(DecodeError::InvalidIntegerType),
    }
}

/// `bincode::decode_from_slice` on a signed integer of four bytes.
#[verifier::external_body]
pub(crate) fn read_i32(bytes: &[u8]) -> (r: Result<(i32, usize), DecodeError>)
    ensures
        match r {
            Ok((v, n)) => parse_i32(bytes@) == Ok::<(int, nat), DecodeError>((v as int, n as nat)),
            Err(e) => parse_i32(bytes@) == Err::<(int, nat), DecodeError>(e),
        },
{
    match bincode::decode_from_slice::<i32, _>(bytes, standard()) {
        Ok(parsed) => Ok(parsed),
        Err(WireError::UnexpectedEnd { additional }) => Err(
            DecodeError::UnexpectedEnd { additional },
        ),
        Err(_) => Err(DecodeError::InvalidIntegerType),
    }
}

/// `bincode::decode_from_slice` on a pair of short integers.
#[verifier::external_body]
pub(crate) fn read_pair(bytes: &[u8]) -> (r: Result<((u16, u16), usize), DecodeError>)
    ensures
        match r {
            Ok((v, n)) => parse_pair(bytes@) == Ok::<((u16, u16), nat), DecodeError>((v, n as nat)),
            Err(e) => parse_pair(bytes@) == Err::<((u16, u16), nat), DecodeError>(e),
        },
{
    match bincode::decode_from_slice::<(u16, u16), _>(bytes, standard()) {
        Ok(parsed) => Ok(parsed),
        Err(WireError::UnexpectedEnd { additional }) => Err(
            DecodeError::UnexpectedEnd { additional },
        ),
        Err(_) => Err(DecodeError::InvalidIntegerType),
    }
}

/// `bincode::decode_from_slice` on a boolean.
#[verifier::external_body]
pub(crate) fn read_bool(bytes: &[u8]) -> (r: Result<(bool, usize), DecodeError>)
    ensures
        match r {
            Ok((v, n)) => parse_bool(bytes@) == Ok::<(bool, nat), DecodeError>((v, n as nat)),
            Err(e) => parse_bool(bytes@) == Err::<(bool, nat), DecodeError>(e),
        },
{
    match bincode::decode_from_slice::<bool, _>(bytes, standard()) {
        Ok(parsed) => Ok(parsed),
        Err(WireError::UnexpectedEnd { additional }) => Err(
            DecodeError::UnexpectedEnd { additional },
        ),
        Err(WireError::InvalidBooleanValue(found)) => Err(DecodeError::InvalidBooleanValue(found)),
        Err(_) => Err(DecodeError::InvalidIntegerType),
    }
}

/// `bincode::decode_from_slice` on an optional pair of short integers.
#[verifier::external_body]
pub(crate) fn read_opt_pair(bytes: &[u8]) -> (r: Result<
    (Option<(u16, u16)>, usize),
    DecodeError,
>)
    ensures
        match r {
            Ok((v, n)) => parse_opt_pair(bytes@) == Ok::<(Option<(u16, u16)>, nat), DecodeError>(
                (v, n as nat),
            ),
            Err(e) => parse_opt_pair(bytes@) == Err::<(Option<(u16, u16)>, nat), DecodeError>(e),
        },
{
    match bincode::decode_from_slice::<Option<(u16, u16)>, _>(bytes, standard()) {
        Ok(parsed) => Ok(parsed),
        Err(WireError::UnexpectedEnd { additional }) => Err(
            DecodeError::UnexpectedEnd { additional },
        ),
        Err(WireError::UnexpectedVariant { found, .. }) => Err(
            DecodeError::UnexpectedVariant { found },
        ),
        Err(_) => Err(DecodeError::InvalidIntegerType),
    }
}

/// `bincode::borrow_decode_from_slice` on a byte string. It borrows from `bytes`,
/// so a length that the bytes do not bear out costs no memory.
#[verifier::external_body]
pub(crate) fn read_blob(bytes: &[u8]) -> (r: Result<(&[u8], usize), DecodeError>)
    ensures
        match r {
            Ok((v, n)) => parse_blob(bytes@) == Ok::<(Seq<u8>, nat), DecodeError>((v@, n as nat)),
            Err(e) => parse_blob(bytes@) == Err::<(Seq<u8>, nat), DecodeError>(e),
        },
{
    match bincode::borrow_decode_from_slice::<&[u8], _>(bytes, standard()) {
        Ok(parsed) => Ok(parsed),
        Err(WireError::UnexpectedEnd { additional }) => Err(
            DecodeError::UnexpectedEnd { additional },
        ),
        Err(WireError::OutsideUsizeRange(length)) => Err(DecodeError::OutsideUsizeRange(length)),
        Err(_) => Err(DecodeError::InvalidIntegerType),
    }
}

/// `bincode::borrow_decode_from_slice` on a text.
#[verifier::external_body]
pub(crate) fn read_text(bytes: &[u8]) -> (r: Result<(&str, usize), DecodeError>)
    ensures
        match r {
            Ok((v, n)) => parse_text(bytes@) == Ok::<(Seq<char>, nat), DecodeError>((v@, n as nat)),
            Err(e) => parse_text(bytes@) == Err::<(Seq<char>, nat), DecodeError>(e),
        },
{
    match bincode::borrow_decode_from_slice::<&str, _>(bytes, standard()) {
        Ok(parsed) => Ok(parsed),
        Err(WireError::UnexpectedEnd { additional }) => Err(
            DecodeError::UnexpectedEnd { additional },
        ),
        Err(WireError::OutsideUsizeRange(length)) => Err(DecodeError::OutsideUsizeRange(length)),
        Err(WireError::Utf8 { .. }) => Err(DecodeError::Utf8),
        Err(_) => Err(DecodeError::InvalidIntegerType),
    }
}

// ---------------------------------------------------------------------------
// What is written is read back, whatever follows it
// ---------------------------------------------------------------------------

/// 256 to the power of `width`.
pub open spec fn capacity(width: nat) -> nat
    decreases width,
{
    if width == 0 {
        1
    } else {
        256 * capacity((width - 1) as nat)
    }
}

proof fn lemma_le_bytes(n: nat, width: nat)
    requires
        n < capacity(width),
    ensures
        le_bytes(n, width).len() == width,
        le_value(le_bytes(n, width)) == n,
    decreases width,
{
    if width > 0 {
        lemma_le_bytes(n / 256, (width - 1) as nat);
        assert(le_bytes(n, width).drop_first() =~= le_bytes(n / 256, (width - 1) as nat));
    }
}

proof fn lemma_capacities()
    ensures
        capacity(2) == 0x1_0000,
        capacity(4) == 0x1_0000_0000,
        capacity(8) == 0x1_0000_0000_0000_0000,
{
    reveal_with_fuel(capacity, 9);
}

/// Eight bytes hold every number below 2^64.
pub proof fn lemma_capacity_of_eight()
    ensures
        capacity(8) == 0x1_0000_0000_0000_0000,
{
    lemma_capacities();
}

/// An integer that fits in `width` bytes is read back from what was written for
/// it, and nothing behind it is touched.
pub proof fn lemma_varint(n: nat, width: nat, rest: Seq<u8>)
    requires
        width == 2 || width == 4 || width == 8,
        n < capacity(width),
    ensures
        parse_varint(varint(n) + rest, width) == Ok::<(nat, nat), DecodeError>(
            (n, varint(n).len()),
        ),
        1 <= varint(n).len() <= 9,
{
    lemma_capacities();
    if n >= 251 {
        let w: nat = if n < 0x1_0000 {
            2
        } else if n < 0x1_0000_0000 {
            4
        } else {
            8
        };
        lemma_le_bytes(n, w);
        assert((varint(n) + rest).subrange(1, 1 + w as int) =~= le_bytes(n, w));
    }
}

/// A signed integer is read back.
pub proof fn lemma_i32(v: i32, rest: Seq<u8>)
    ensures
        parse_i32(varint(zigzag(v as int)) + rest) == Ok::<(int, nat), DecodeError>(
            (v as int, varint(zigzag(v as int)).len()),
        ),
{
    lemma_capacities();
    lemma_varint(zigzag(v as int), 4, rest);
}

/// A pair of short integers is read back.
pub proof fn lemma_pair(pair: (u16, u16), rest: Seq<u8>)
    ensures
        parse_pair(pair_bytes(pair) + rest) == Ok::<((u16, u16), nat), DecodeError>(
            (pair, pair_bytes(pair).len()),
        ),
{
    lemma_capacities();
    let first = varint(pair.0 as nat);
    let second = varint(pair.1 as nat);
    assert(pair_bytes(pair) + rest =~= first + (second + rest));
    lemma_varint(pair.0 as nat, 2, second + rest);
    assert((first + (second + rest)).skip(first.len() as int) =~= second + rest);
    lemma_varint(pair.1 as nat, 2, rest);
}

/// A boolean is read back.
pub proof fn lemma_bool(b: bool, rest: Seq<u8>)
    ensures
        parse_bool(bool_bytes(b) + rest) == Ok::<(bool, nat), DecodeError>((b, 1)),
        bool_bytes(b).len() == 1,
{
}

/// An optional pair is read back.
pub proof fn lemma_opt_pair(value: Option<(u16, u16)>, rest: Seq<u8>)
    ensures
        parse_opt_pair(opt_pair_bytes(value) + rest) == Ok::<
            (Option<(u16, u16)>, nat),
            DecodeError,
        >((value, opt_pair_bytes(value).len())),
{
    if let Some(pair) = value {
        assert((opt_pair_bytes(value) + rest).skip(1) =~= pair_bytes(pair) + rest);
        lemma_pair(pair, rest);
    }
}

/// A byte string is read back.
pub proof fn lemma_blob(data: Seq<u8>, rest: Seq<u8>)
    requires
        data.len() <= usize::MAX,
    ensures
        parse_blob(blob_bytes(data) + rest) == Ok::<(Seq<u8>, nat), DecodeError>(
            (data, blob_bytes(data).len()),
        ),
{
    lemma_capacities();
    let head = varint(data.len());
    assert(blob_bytes(data) + rest =~= head + (data + rest));
    lemma_varint(data.len(), 8, data + rest);
    assert((head + (data + rest)).subrange(head.len() as int, (head.len() + data.len()) as int)
        =~= data);
}

/// A text is read back.
pub proof fn lemma_text(text: Seq<char>, rest: Seq<u8>)
    requires
        vstd::utf8::encode_utf8(text).len() <= usize::MAX,
    ensures
        parse_text(text_bytes(text) + rest) == Ok::<(Seq<char>, nat), DecodeError>(
            (text, text_bytes(text).len()),
        ),
{
    lemma_blob(vstd::utf8::encode_utf8(text), rest);
    vstd::utf8::encode_utf8_valid_utf8(text);
    vstd::utf8::encode_utf8_decode_utf8(text);
}

} // verus!
