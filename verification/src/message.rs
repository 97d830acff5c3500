//! The messages that client and server exchange.

use crate::wire;
use crate::wire::DecodeError;
use vstd::prelude::*;
use vstd::slice::{slice_subrange, slice_to_vec};

verus! {

/// Why a message cannot be written.
#[derive(Debug, Clone, Copy, PartialEq, Eq, Structural)]
pub enum WriteError {
    /// A path in it is not Unicode.
    InvalidPathCharacters,
}

/// A path, as far as the messages and the server look into it.
#[derive(Debug, PartialEq, Eq)]
pub struct PathText {
    /// The path as text. What is not Unicode in it stands as U+FFFD.
    pub text: String,
    /// Whether all of the path is Unicode.
    pub unicode: bool,
}

/// The contents of a [`PathText`].
pub struct PathView {
    pub text: Seq<char>,
    pub unicode: bool,
}

impl View for PathText {
    type V = PathView;

    open spec fn view(&self) -> PathView {
        PathView { text: self.text@, unicode: self.unicode }
    }
}

impl PathText {
    /// The path that a text names.
    pub fn new(text: String) -> (r: PathText)
        ensures
            r@ == (PathView { text: text@, unicode: true }),
    {
        PathText { text, unicode: true }
    }
}

/// What a client asks of the server.
#[derive(Debug, PartialEq, Eq)]
pub struct CommandRequest {
    /// The command to execute.
    pub command: String,
    /// The working directory for the command to be executed in.
    pub working_dir: PathText,
    /// Whether to convert Windows paths to WSL paths.
    pub wsl_mode: bool,
    /// The terminal size (columns, rows), if there is a terminal.
    pub terminal_size: Option<(u16, u16)>,
    /// Whether to spawn an interactive shell instead of running a single command.
    pub interactive: bool,
}

/// The contents of a [`CommandRequest`].
pub struct RequestView {
    pub command: Seq<char>,
    pub working_dir: PathView,
    pub wsl_mode: bool,
    pub terminal_size: Option<(u16, u16)>,
    pub interactive: bool,
}

impl View for CommandRequest {
    type V = RequestView;

    open spec fn view(&self) -> RequestView {
        RequestView {
            command: self.command@,
            working_dir: self.working_dir@,
            wsl_mode: self.wsl_mode,
            terminal_size: self.terminal_size,
            interactive: self.interactive,
        }
    }
}

/// What a client sends while its command runs.
#[derive(Debug, PartialEq, Eq)]
pub enum ClientMessage {
    /// Bytes for the command's terminal.
    Input(Vec<u8>),
    /// The terminal now has this many columns and rows.
    Resize(u16, u16),
    /// No more input follows.
    Eof,
}

/// The contents of a [`ClientMessage`].
pub enum ClientView {
    Input(Seq<u8>),
    Resize(u16, u16),
    Eof,
}

impl View for ClientMessage {
    type V = ClientView;

    open spec fn view(&self) -> ClientView {
        match self {
            ClientMessage::Input(data) => ClientView::Input(data@),
            ClientMessage::Resize(cols, rows) => ClientView::Resize(*cols, *rows),
            ClientMessage::Eof => ClientView::Eof,
        }
    }
}

/// What the server sends back.
#[derive(Debug, PartialEq, Eq)]
pub enum CommandResponse {
    /// Output of the command.
    Stdout(Vec<u8>),
    /// Error output of the command.
    Stderr(Vec<u8>),
    /// The command has ended with this code.
    Exit(i32),
    /// The server could not do what was asked.
    Error(String),
}

/// The contents of a [`CommandResponse`].
pub enum ResponseView {
    Stdout(Seq<u8>),
    Stderr(Seq<u8>),
    Exit(i32),
    Error(Seq<char>),
}

impl View for CommandResponse {
    type V = ResponseView;

    open spec fn view(&self) -> ResponseView {
        match self {
            CommandResponse::Stdout(data) => ResponseView::Stdout(data@),
            CommandResponse::Stderr(data) => ResponseView::Stderr(data@),
            CommandResponse::Exit(code) => ResponseView::Exit(*code),
            CommandResponse::Error(text) => ResponseView::Error(text@),
        }
    }
}

/// A value that can stand in a frame.
pub trait Message: View + Sized {
    /// The bytes that are written for a message, or why it cannot be written.
    spec fn written(v: Self::V) -> Result<Seq<u8>, WriteError>;

    /// The message that stands at the front of `bytes`, or what is wrong there.
    spec fn parsed(bytes: Seq<u8>) -> Result<Self::V, DecodeError>;

    /// Whether every byte string and text in the message is of a length that
    /// memory can hold.
    spec fn fits(v: Self::V) -> bool;

    /// Writes the message.
    fn write(&self) -> (r: Result<Vec<u8>, WriteError>)
        ensures
            match r {
                Ok(bytes) => Self::written(self@) == Ok::<Seq<u8>, WriteError>(bytes@),
                Err(e) => Self::written(self@) == Err::<Seq<u8>, WriteError>(e),
            },
    ;

    /// Reads a message from the front of `bytes`. What follows it is not looked at.
    fn read(bytes: &[u8]) -> (r: Result<Self, DecodeError>)
        ensures
            match r {
                Ok(m) => Self::parsed(bytes@) == Ok::<Self::V, DecodeError>(m@),
                Err(e) => Self::parsed(bytes@) == Err::<Self::V, DecodeError>(e),
            },
    ;

    /// What was written is read back, whatever follows it.
    proof fn read_after_write(v: Self::V, rest: Seq<u8>)
        requires
            Self::fits(v),
            Self::written(v) is Ok,
        ensures
            Self::parsed(Self::written(v)->Ok_0 + rest) == Ok::<Self::V, DecodeError>(v),
    ;
}

impl Message for ClientMessage {
    open spec fn written(v: ClientView) -> Result<Seq<u8>, WriteError> {
        Ok(
            match v {
                ClientView::Input(data) => wire::varint(0) + wire::blob_bytes(data),
                ClientView::Resize(cols, rows) => wire::varint(1) + wire::pair_bytes((cols, rows)),
                ClientView::Eof => wire::varint(2),
            },
        )
    }

    open spec fn parsed(bytes: Seq<u8>) -> Result<ClientView, DecodeError> {
        match wire::parse_varint(bytes, 4) {
            Err(e) => Err(e),
            Ok((index, n)) => {
                let rest = bytes.skip(n as int);
                if index == 0 {
                    match wire::parse_blob(rest) {
                        Ok((data, _)) => Ok(ClientView::Input(data)),
                        Err(e) => Err(e),
                    }
                } else if index == 1 {
                    match wire::parse_pair(rest) {
                        Ok((pair, _)) => Ok(ClientView::Resize(pair.0, pair.1)),
                        Err(e) => Err(e),
                    }
                } else if index == 2 {
                    Ok(ClientView::Eof)
                } else {
                    Err(DecodeError::UnexpectedVariant { found: index as u32 })
                }
            },
        }
    }

    open spec fn fits(v: ClientView) -> bool {
        v matches ClientView::Input(data) ==> data.len() <= usize::MAX
    }

    fn write(&self) -> (r: Result<Vec<u8>, WriteError>) {
        let written = match self {
            ClientMessage::Input(data) => wire::write_indexed_blob(0, data.as_slice()),
            ClientMessage::Resize(cols, rows) => wire::write_indexed_pair(1, (*cols, *rows)),
            ClientMessage::Eof => wire::write_index(2),
        };
        Ok(written.unwrap())
    }

    fn read(bytes: &[u8]) -> (r: Result<Self, DecodeError>) {
        let (index, n) = match wire::read_u32(bytes) {
            Ok(parsed) => parsed,
            Err(e) => return Err(e),
        };
        let rest = slice_subrange(bytes, n, bytes.len());
        match index {
            0 => match wire::read_blob(rest) {
                Ok((data, _)) => Ok(ClientMessage::Input(slice_to_vec(data))),
                Err(e) => Err(e),
            },
            1 => match wire::read_pair(rest) {
                Ok((pair, _)) => Ok(ClientMessage::Resize(pair.0, pair.1)),
                Err(e) => Err(e),
            },
            2 => Ok(ClientMessage::Eof),
            found => Err(DecodeError::UnexpectedVariant { found }),
        }
    }

    proof fn read_after_write(v: ClientView, rest: Seq<u8>) {
        match v {
            ClientView::Input(data) => {
                lemma_indexed(0, wire::blob_bytes(data), rest);
                wire::lemma_blob(data, rest);
            },
            ClientView::Resize(cols, rows) => {
                lemma_indexed(1, wire::pair_bytes((cols, rows)), rest);
                wire::lemma_pair((cols, rows), rest);
            },
            ClientView::Eof => {
                lemma_indexed(2, Seq::empty(), rest);
                assert(wire::varint(2) + Seq::empty() =~= wire::varint(2));
            },
        }
    }
}

impl Message for CommandResponse {
    open spec fn written(v: ResponseView) -> Result<Seq<u8>, WriteError> {
        Ok(
            match v {
                ResponseView::Stdout(data) => wire::varint(0) + wire::blob_bytes(data),
                ResponseView::Stderr(data) => wire::varint(1) + wire::blob_bytes(data),
                ResponseView::Exit(code) => wire::varint(2) + wire::varint(
                    wire::zigzag(code as int),
                ),
                ResponseView::Error(text) => wire::varint(3) + wire::text_bytes(text),
            },
        )
    }

    open spec fn parsed(bytes: Seq<u8>) -> Result<ResponseView, DecodeError> {
        match wire::parse_varint(bytes, 4) {
            Err(e) => Err(e),
            Ok((index, n)) => {
                let rest = bytes.skip(n as int);
                if index == 0 {
                    match wire::parse_blob(rest) {
                        Ok((data, _)) => Ok(ResponseView::Stdout(data)),
                        Err(e) => Err(e),
                    }
                } else if index == 1 {
                    match wire::parse_blob(rest) {
                        Ok((data, _)) => Ok(ResponseView::Stderr(data)),
                        Err(e) => Err(e),
                    }
                } else if index == 2 {
                    match wire::parse_i32(rest) {
                        Ok((code, _)) => Ok(ResponseView::Exit(code as i32)),
                        Err(e) => Err(e),
                    }
                } else if index == 3 {
                    match wire::parse_text(rest) {
                        Ok((text, _)) => Ok(ResponseView::Error(text)),
                        Err(e) => Err(e),
                    }
                } else {
                    Err(DecodeError::UnexpectedVariant { found: index as u32 })
                }
            },
        }
    }

    open spec fn fits(v: ResponseView) -> bool {
        match v {
            ResponseView::Stdout(data) => data.len() <= usize::MAX,
            ResponseView::Stderr(data) => data.len() <= usize::MAX,
            ResponseView::Exit(_) => true,
            ResponseView::Error(text) => vstd::utf8::encode_utf8(text).len() <= usize::MAX,
        }
    }

    fn write(&self) -> (r: Result<Vec<u8>, WriteError>) {
        let written = match self {
            CommandResponse::Stdout(data) => wire::write_indexed_blob(0, data.as_slice()),
            CommandResponse::Stderr(data) => wire::write_indexed_blob(1, data.as_slice()),
            CommandResponse::Exit(code) => wire::write_indexed_i32(2, *code),
            CommandResponse::Error(text) => wire::write_indexed_text(3, text.as_str()),
        };
        Ok(written.unwrap())
    }

    fn read(bytes: &[u8]) -> (r: Result<Self, DecodeError>) {
        let (index, n) = match wire::read_u32(bytes) {
            Ok(parsed) => parsed,
            Err(e) => return Err(e),
        };
        let rest = slice_subrange(bytes, n, bytes.len());
        match index {
            0 => match wire::read_blob(rest) {
                Ok((data, _)) => Ok(CommandResponse::Stdout(slice_to_vec(data))),
                Err(e) => Err(e),
            },
            1 => match wire::read_blob(rest) {
                Ok((data, _)) => Ok(CommandResponse::Stderr(slice_to_vec(data))),
                Err(e) => Err(e),
            },
            2 => match wire::read_i32(rest) {
                Ok((code, _)) => Ok(CommandResponse::Exit(code)),
                Err(e) => Err(e),
            },
            3 => match wire::read_text(rest) {
                Ok((text, _)) => Ok(CommandResponse::Error(text.to_owned())),
                Err(e) => Err(e),
            },
            found => Err(DecodeError::UnexpectedVariant { found }),
        }
    }

    proof fn read_after_write(v: ResponseView, rest: Seq<u8>) {
        match v {
            ResponseView::Stdout(data) => {
                lemma_indexed(0, wire::blob_bytes(data), rest);
                wire::lemma_blob(data, rest);
            },
            ResponseView::Stderr(data) => {
                lemma_indexed(1, wire::blob_bytes(data), rest);
                wire::lemma_blob(data, rest);
            },
            ResponseView::Exit(code) => {
                lemma_indexed(2, wire::varint(wire::zigzag(code as int)), rest);
                wire::lemma_i32(code, rest);
            },
            ResponseView::Error(text) => {
                lemma_indexed(3, wire::text_bytes(text), rest);
                wire::lemma_text(text, rest);
            },
        }
    }
}

impl Message for CommandRequest {
    open spec fn written(v: RequestView) -> Result<Seq<u8>, WriteError> {
        if v.working_dir.unicode {
            Ok(
                wire::text_bytes(v.command) + wire::text_bytes(v.working_dir.text)
                    + wire::bool_bytes(v.wsl_mode) + wire::opt_pair_bytes(v.terminal_size)
                    + wire::bool_bytes(v.interactive),
            )
        } else {
            Err(WriteError::InvalidPathCharacters)
        }
    }

    open spec fn parsed(bytes: Seq<u8>) -> Result<RequestView, DecodeError> {
        match wire::parse_text(bytes) {
            Err(e) => Err(e),
            Ok((command, n)) => {
                let bytes = bytes.skip(n as int);
                match wire::parse_text(bytes) {
                    Err(e) => Err(e),
                    Ok((text, n)) => {
                        let bytes = bytes.skip(n as int);
                        match wire::parse_bool(bytes) {
                            Err(e) => Err(e),
                            Ok((wsl_mode, n)) => {
                                let bytes = bytes.skip(n as int);
                                match wire::parse_opt_pair(bytes) {
                                    Err(e) => Err(e),
                                    Ok((terminal_size, n)) => {
                                        let bytes = bytes.skip(n as int);
                                        match wire::parse_bool(bytes) {
                                            Err(e) => Err(e),
                                            Ok((interactive, _)) => Ok(
                                                RequestView {
                                                    command,
                                                    working_dir: PathView { text, unicode: true },
                                                    wsl_mode,
                                                    terminal_size,
                                                    interactive,
                                                },
                                            ),
                                        }
                                    },
                                }
                            },
                        }
                    },
                }
            },
        }
    }

    open spec fn fits(v: RequestView) -> bool {
        &&& vstd::utf8::encode_utf8(v.command).len() <= usize::MAX
        &&& vstd::utf8::encode_utf8(v.working_dir.text).len() <= usize::MAX
    }

    fn write(&self) -> (r: Result<Vec<u8>, WriteError>) {
        if !self.working_dir.unicode {
            return Err(WriteError::InvalidPathCharacters);
        }
        let written = wire::write_request(
            self.command.as_str(),
            self.working_dir.text.as_str(),
            self.wsl_mode,
            self.terminal_size,
            self.interactive,
        );
        Ok(written.unwrap())
    }

    fn read(bytes: &[u8]) -> (r: Result<Self, DecodeError>) {
        let (command, n) = match wire::read_text(bytes) {
            Ok(parsed) => parsed,
            Err(e) => return Err(e),
        };
        let bytes = slice_subrange(bytes, n, bytes.len());
        let (text, n) = match wire::read_text(bytes) {
            Ok(parsed) => parsed,
            Err(e) => return Err(e),
        };
        let bytes = slice_subrange(bytes, n, bytes.len());
        let (wsl_mode, n) = match wire::read_bool(bytes) {
            Ok(parsed) => parsed,
            Err(e) => return Err(e),
        };
        let bytes = slice_subrange(bytes, n, bytes.len());
        let (terminal_size, n) = match wire::read_opt_pair(bytes) {
            Ok(parsed) => parsed,
            Err(e) => return Err(e),
        };
        let bytes = slice_subrange(bytes, n, bytes.len());
        let (interactive, _) = match wire::read_bool(bytes) {
            Ok(parsed) => parsed,
            Err(e) => return Err(e),
        };
        Ok(
            CommandRequest {
                command: command.to_owned(),
                working_dir: PathText { text: text.to_owned(), unicode: true },
                wsl_mode,
                terminal_size,
                interactive,
            },
        )
    }

    #[verifier::rlimit(40)]
    proof fn read_after_write(v: RequestView, rest: Seq<u8>) {
        let command = wire::text_bytes(v.command);
        let dir = wire::text_bytes(v.working_dir.text);
        let wsl = wire::bool_bytes(v.wsl_mode);
        let size = wire::opt_pair_bytes(v.terminal_size);
        let shell = wire::bool_bytes(v.interactive);
        let after_size = shell + rest;
        let after_wsl = size + after_size;
        let after_dir = wsl + after_wsl;
        let after_command = dir + after_dir;
        lemma_regroup(command, dir, wsl, size, shell, rest);
        wire::lemma_text(v.command, after_command);
        lemma_skip(command, after_command);
        wire::lemma_text(v.working_dir.text, after_dir);
        lemma_skip(dir, after_dir);
        wire::lemma_bool(v.wsl_mode, after_wsl);
        lemma_skip(wsl, after_wsl);
        wire::lemma_opt_pair(v.terminal_size, after_size);
        lemma_skip(size, after_size);
        wire::lemma_bool(v.interactive, rest);
    }
}

proof fn lemma_regroup(a: Seq<u8>, b: Seq<u8>, c: Seq<u8>, d: Seq<u8>, e: Seq<u8>, f: Seq<u8>)
    ensures
        a + b + c + d + e + f == a + (b + (c + (d + (e + f)))),
{
    assert(a + b + c + d + e + f =~= a + (b + (c + (d + (e + f)))));
}

proof fn lemma_skip(head: Seq<u8>, tail: Seq<u8>)
    ensures
        (head + tail).skip(head.len() as int) == tail,
{
    assert((head + tail).skip(head.len() as int) =~= tail);
}

/// The index of a variant is read back, and what was written behind it is left.
proof fn lemma_indexed(index: nat, body: Seq<u8>, rest: Seq<u8>)
    requires
        index < 251,
    ensures
        wire::parse_varint(wire::varint(index) + body + rest, 4) == Ok::<(nat, nat), DecodeError>(
            (index, 1),
        ),
        (wire::varint(index) + body + rest).skip(1) == body + rest,
{
    assert((wire::varint(index) + body + rest).skip(1) =~= body + rest);
}

} // verus!
