//! Keys of the local terminal, and the bytes that a program reads for them.

use terminput::Encoding::Xterm;
use terminput::Event::Key;
use terminput::KeyCode::{
    Backspace, Char, Delete, Down, End, Enter, Esc, Home, Insert, Left, PageDown, PageUp, Right,
    Tab, Up, F,
};
use terminput::KeyEventKind::{Press, Release, Repeat};
use terminput::{KeyModifiers, ALT, CTRL, SHIFT};
use vstd::prelude::*;

verus! {

/// A key as the local terminal reports it.
#[derive(Debug, Clone, Copy, PartialEq, Eq, Structural)]
pub enum KeyCode {
    Char(char),
    Enter,
    Backspace,
    Tab,
    Escape,
    Left,
    Right,
    Up,
    Down,
    Home,
    End,
    BackTab,
    PageUp,
    PageDown,
    Insert,
    Delete,
    KeypadBegin,
    CapsLock,
    ScrollLock,
    NumLock,
    PrintScreen,
    Pause,
    Menu,
    Null,
    Function(u8),
    /// A modifier key by itself.
    Modifier,
    /// A media key.
    Media,
}

/// The modifiers that are held with a key.
#[derive(Debug, Clone, Copy, PartialEq, Eq, Structural)]
pub struct Modifiers {
    pub shift: bool,
    pub control: bool,
    pub alt: bool,
}

/// What happens to a key.
#[derive(Debug, Clone, Copy, PartialEq, Eq, Structural)]
pub enum KeyEventKind {
    Press,
    Repeat,
    Release,
}

/// A key event of the local terminal.
#[derive(Debug, Clone, Copy, PartialEq, Eq, Structural)]
pub struct KeyEvent {
    pub code: KeyCode,
    pub modifiers: Modifiers,
    pub kind: KeyEventKind,
}

/// The keys without a character or a number that have an escape sequence.
#[derive(Debug, Clone, Copy, PartialEq, Eq, Structural)]
pub enum NamedKey {
    Backspace,
    Enter,
    Left,
    Right,
    Up,
    Down,
    Home,
    End,
    PageUp,
    PageDown,
    Tab,
    Delete,
    Insert,
    Esc,
}

/// A key that the encoder knows.
#[derive(Debug, Clone, Copy, PartialEq, Eq, Structural)]
pub enum EncoderCode {
    Char(char),
    F(u8),
    Named(NamedKey),
}

/// A key event for the encoder.
#[derive(Debug, Clone, Copy, PartialEq, Eq, Structural)]
pub struct EncoderKey {
    pub code: EncoderCode,
    pub modifiers: Modifiers,
    pub kind: KeyEventKind,
}

/// An event of the local terminal.
#[derive(Debug, Clone, Copy, PartialEq, Eq, Structural)]
pub enum TerminalEvent {
    Key(KeyEvent),
    /// The terminal has a new size.
    WindowResized { cols: u16, rows: u16 },
    /// An escape sequence that answers a query.
    Escape,
    /// Anything else: the mouse, the focus, pasted text.
    Other,
}

/// The key that the encoder has for a key of the terminal. A tab backwards is a
/// tab; keys that move no text or cursor have none.
pub open spec fn encoder_code(code: KeyCode) -> Option<EncoderCode> {
    match code {
        KeyCode::Char(c) => Some(EncoderCode::Char(c)),
        KeyCode::Function(n) => Some(EncoderCode::F(n)),
        KeyCode::Enter => Some(EncoderCode::Named(NamedKey::Enter)),
        KeyCode::Backspace => Some(EncoderCode::Named(NamedKey::Backspace)),
        KeyCode::Tab => Some(EncoderCode::Named(NamedKey::Tab)),
        KeyCode::BackTab => Some(EncoderCode::Named(NamedKey::Tab)),
        KeyCode::Escape => Some(EncoderCode::Named(NamedKey::Esc)),
        KeyCode::Left => Some(EncoderCode::Named(NamedKey::Left)),
        KeyCode::Right => Some(EncoderCode::Named(NamedKey::Right)),
        KeyCode::Up => Some(EncoderCode::Named(NamedKey::Up)),
        KeyCode::Down => Some(EncoderCode::Named(NamedKey::Down)),
        KeyCode::Home => Some(EncoderCode::Named(NamedKey::Home)),
        KeyCode::End => Some(EncoderCode::Named(NamedKey::End)),
        KeyCode::PageUp => Some(EncoderCode::Named(NamedKey::PageUp)),
        KeyCode::PageDown => Some(EncoderCode::Named(NamedKey::PageDown)),
        KeyCode::Insert => Some(EncoderCode::Named(NamedKey::Insert)),
        KeyCode::Delete => Some(EncoderCode::Named(NamedKey::Delete)),
        _ => None,
    }
}

/// The event that the encoder gets for a key event of the terminal.
pub open spec fn encoder_key(key: KeyEvent) -> Option<EncoderKey> {
    match encoder_code(key.code) {
        Some(code) => Some(EncoderKey { code, modifiers: key.modifiers, kind: key.kind }),
        None => None,
    }
}

/// The bytes that `terminput` gives for a key event in the encoding of xterm, in
/// a buffer of 32 bytes, or `None` where it gives none.
pub uninterp spec fn xterm_bytes(
    code: EncoderCode,
    shift: bool,
    alt: bool,
    ctrl: bool,
    kind: KeyEventKind,
) -> Option<Seq<u8>>;

/// Whether a key is a character with Control whose low byte is 255: the encoder
/// counts up from that byte, so such a key has no control code.
pub open spec fn past_control_codes(key: EncoderKey) -> bool {
    key.kind is Press && key.modifiers.control && match key.code {
        EncoderCode::Char(c) => c as u32 % 256 == 255,
        _ => false,
    }
}

/// Bytes that a buffer of 32 bytes holds.
pub open spec fn buffered(encoded: Option<Seq<u8>>) -> Option<Seq<u8>> {
    match encoded {
        Some(bytes) => if bytes.len() <= 32 {
            Some(bytes)
        } else {
            None
        },
        None => None,
    }
}

/// The bytes that a program reads for a key event, if there are any. There are at
/// most 32 of them.
pub open spec fn key_bytes(key: KeyEvent) -> Option<Seq<u8>> {
    match encoder_key(key) {
        Some(k) => if past_control_codes(k) {
            None
        } else {
            buffered(
                xterm_bytes(
                    k.code,
                    k.modifiers.shift,
                    k.modifiers.alt,
                    k.modifiers.control,
                    k.kind,
                ),
            )
        },
        None => None,
    }
}

/// The bytes that a program reads for an event, if there are any.
pub open spec fn event_bytes(event: TerminalEvent) -> Option<Seq<u8>> {
    match event {
        TerminalEvent::Key(key) => key_bytes(key),
        _ => None,
    }
}

/// `terminput::Event::encode` on a key event in the encoding `Xterm`, into a
/// buffer of 32 bytes. The bytes depend on the key, its modifiers and its kind
/// alone, and there are no more of them than the buffer holds; an error is given
/// as `None`. The call would count past a byte on a character with Control whose
/// low byte is 255.
#[verifier::external_body]
pub(crate) fn xterm_encode(
    code: EncoderCode,
    shift: bool,
    alt: bool,
    ctrl: bool,
    kind: KeyEventKind,
) -> (r: Option<Vec<u8>>)
    requires
        !past_control_codes(
            (EncoderKey { code, modifiers: (Modifiers { shift, control: ctrl, alt }), kind }),
        ),
    ensures
        match r {
            Some(bytes) => xterm_bytes(code, shift, alt, ctrl, kind) == Some(bytes@),
            None => xterm_bytes(code, shift, alt, ctrl, kind) == None::<Seq<u8>>,
        },
        r is Some ==> r->Some_0@.len() <= 32,
{
    let key = terminput::KeyEvent::new(match code {
        EncoderCode::Char(c) => Char(c),
        EncoderCode::F(n) => F(n),
        EncoderCode::Named(k) => [
            Backspace, Enter, Left, Right, Up, Down, Home, End, PageUp, PageDown, Tab, Delete, Insert, Esc,
        ][k as usize],
    });
    let mut modifiers = KeyModifiers::empty();
    modifiers.set(SHIFT, shift);
    modifiers.set(ALT, alt);
    modifiers.set(CTRL, ctrl);
    let key = key.modifiers(modifiers).kind([Press, Repeat, Release][kind as usize]);
    let mut buf = [0u8; 32];
    let len = Key(key).encode(&mut buf, Xterm).ok()?;
    Some(buf[..len].to_vec())
}

/// The event that the encoder gets for a key event of the terminal, or `None` for
/// a key that has no bytes of its own.
pub fn convert_key_event_to_terminput(key: &KeyEvent) -> (r: Option<EncoderKey>)
    ensures
        r == encoder_key(*key),
{
    let code = match key.code {
        KeyCode::Char(c) => EncoderCode::Char(c),
        KeyCode::Enter => EncoderCode::Named(NamedKey::Enter),
        KeyCode::Backspace => EncoderCode::Named(NamedKey::Backspace),
        KeyCode::Tab => EncoderCode::Named(NamedKey::Tab),
        KeyCode::Escape => EncoderCode::Named(NamedKey::Esc),
        KeyCode::BackTab => EncoderCode::Named(NamedKey::Tab),
        KeyCode::Up => EncoderCode::Named(NamedKey::Up),
        KeyCode::Down => EncoderCode::Named(NamedKey::Down),
        KeyCode::Left => EncoderCode::Named(NamedKey::Left),
        KeyCode::Right => EncoderCode::Named(NamedKey::Right),
        KeyCode::Home => EncoderCode::Named(NamedKey::Home),
        KeyCode::End => EncoderCode::Named(NamedKey::End),
        KeyCode::PageUp => EncoderCode::Named(NamedKey::PageUp),
        KeyCode::PageDown => EncoderCode::Named(NamedKey::PageDown),
        KeyCode::Delete => EncoderCode::Named(NamedKey::Delete),
        KeyCode::Insert => EncoderCode::Named(NamedKey::Insert),
        KeyCode::Function(n) => EncoderCode::F(n),
        KeyCode::Null
        | KeyCode::KeypadBegin
        | KeyCode::CapsLock
        | KeyCode::ScrollLock
        | KeyCode::NumLock
        | KeyCode::PrintScreen
        | KeyCode::Pause
        | KeyCode::Menu
        | KeyCode::Modifier
        | KeyCode::Media => return None,
    };
    Some(EncoderKey { code, modifiers: key.modifiers, kind: key.kind })
}

/// The bytes that a program reads for an event of the terminal, if there are any.
pub fn event_to_bytes(event: &TerminalEvent) -> (r: Option<Vec<u8>>)
    ensures
        match r {
            Some(bytes) => event_bytes(*event) == Some(bytes@),
            None => event_bytes(*event) == None::<Seq<u8>>,
        },
        r is Some ==> r->Some_0@.len() <= 32,
{
    let key = match event {
        TerminalEvent::Key(key) => match convert_key_event_to_terminput(key) {
            Some(key) => key,
            None => return None,
        },
        _ => return None,
    };
    if let EncoderCode::Char(c) = key.code {
        if key.kind == KeyEventKind::Press && key.modifiers.control && c as u32 % 256 == 255 {
            return None;
        }
    }
    let held = key.modifiers;
    xterm_encode(key.code, held.shift, held.alt, held.control, key.kind)
}

} // verus!
