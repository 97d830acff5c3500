use broadcast::keys::{
    convert_key_event_to_terminput, event_to_bytes, EncoderCode, EncoderKey, KeyCode, KeyEvent,
    KeyEventKind, Modifiers, NamedKey, TerminalEvent,
};

const NONE: Modifiers = Modifiers { shift: false, control: false, alt: false };
const SHIFT: Modifiers = Modifiers { shift: true, control: false, alt: false };
const CONTROL: Modifiers = Modifiers { shift: false, control: true, alt: false };
const ALT: Modifiers = Modifiers { shift: false, control: false, alt: true };
const ALL: Modifiers = Modifiers { shift: true, control: true, alt: true };

fn press(code: KeyCode, modifiers: Modifiers) -> KeyEvent {
    KeyEvent { code, modifiers, kind: KeyEventKind::Press }
}

fn bytes(code: KeyCode, modifiers: Modifiers) -> Option<Vec<u8>> {
    event_to_bytes(&TerminalEvent::Key(press(code, modifiers)))
}

fn sequence(text: &[u8]) -> Option<Vec<u8>> {
    Some(text.to_vec())
}

#[test]
fn characters_are_their_text() {
    assert_eq!(bytes(KeyCode::Char('a'), NONE), sequence(b"a"));
    assert_eq!(bytes(KeyCode::Char('é'), NONE), sequence("é".as_bytes()));
    assert_eq!(bytes(KeyCode::Char('a'), SHIFT), sequence(b"A"));
    assert_eq!(bytes(KeyCode::Char('a'), ALT), sequence(b"\x1Ba"));
    assert_eq!(bytes(KeyCode::Char('a'), CONTROL), sequence(b"\x01"));
    assert_eq!(bytes(KeyCode::Char(' '), CONTROL), sequence(b"\x00"));
}

#[test]
fn every_named_key_has_its_sequence() {
    assert_eq!(bytes(KeyCode::Enter, NONE), sequence(b"\r"));
    assert_eq!(bytes(KeyCode::Backspace, NONE), sequence(b"\x7F"));
    assert_eq!(bytes(KeyCode::Tab, NONE), sequence(b"\t"));
    assert_eq!(bytes(KeyCode::Escape, NONE), sequence(b"\x1B"));
    assert_eq!(bytes(KeyCode::Left, NONE), sequence(b"\x1B[D"));
    assert_eq!(bytes(KeyCode::Right, NONE), sequence(b"\x1B[C"));
    assert_eq!(bytes(KeyCode::Up, NONE), sequence(b"\x1B[A"));
    assert_eq!(bytes(KeyCode::Down, NONE), sequence(b"\x1B[B"));
    assert_eq!(bytes(KeyCode::Home, NONE), sequence(b"\x1B[H"));
    assert_eq!(bytes(KeyCode::End, NONE), sequence(b"\x1B[F"));
    assert_eq!(bytes(KeyCode::PageUp, NONE), sequence(b"\x1B[5~"));
    assert_eq!(bytes(KeyCode::PageDown, NONE), sequence(b"\x1B[6~"));
    assert_eq!(bytes(KeyCode::Delete, NONE), sequence(b"\x1B[3~"));
    assert_eq!(bytes(KeyCode::Insert, NONE), sequence(b"\x1B[2~"));
    assert_eq!(bytes(KeyCode::Function(1), NONE), sequence(b"\x1BOP"));
    assert_eq!(bytes(KeyCode::Function(5), NONE), sequence(b"\x1B[15~"));
}

#[test]
fn modifiers_reach_the_encoder() {
    assert_eq!(bytes(KeyCode::Up, SHIFT), sequence(b"\x1B[1;2A"));
    assert_eq!(bytes(KeyCode::Up, ALT), sequence(b"\x1B[1;3A"));
    assert_eq!(bytes(KeyCode::Up, CONTROL), sequence(b"\x1B[1;5A"));
    assert_eq!(bytes(KeyCode::Up, ALL), sequence(b"\x1B[1;8A"));
    assert_eq!(bytes(KeyCode::BackTab, SHIFT), sequence(b"\x1B[Z"));
    assert_eq!(bytes(KeyCode::BackTab, NONE), sequence(b"\t"));
}

#[test]
fn repeated_and_released_keys_have_no_bytes() {
    for kind in vec![KeyEventKind::Repeat, KeyEventKind::Release] {
        let key = KeyEvent { code: KeyCode::Char('a'), modifiers: NONE, kind };
        assert_eq!(event_to_bytes(&TerminalEvent::Key(key)), None);
    }
}

#[test]
fn characters_past_the_control_codes_have_no_bytes() {
    assert_eq!(bytes(KeyCode::Char('ÿ'), CONTROL), None);
    assert_eq!(bytes(KeyCode::Char('\u{1ff}'), ALL), None);
    assert_eq!(bytes(KeyCode::Char('ÿ'), NONE), sequence("ÿ".as_bytes()));
    assert_eq!(bytes(KeyCode::Char('!'), CONTROL), None);
}

#[test]
fn other_events_have_no_bytes() {
    assert_eq!(event_to_bytes(&TerminalEvent::WindowResized { cols: 1, rows: 2 }), None);
    assert_eq!(event_to_bytes(&TerminalEvent::Escape), None);
    assert_eq!(event_to_bytes(&TerminalEvent::Other), None);
}

#[test]
fn keys_without_bytes_are_not_converted() {
    for code in vec![
        KeyCode::Null,
        KeyCode::KeypadBegin,
        KeyCode::CapsLock,
        KeyCode::ScrollLock,
        KeyCode::NumLock,
        KeyCode::PrintScreen,
        KeyCode::Pause,
        KeyCode::Menu,
        KeyCode::Modifier,
        KeyCode::Media,
    ] {
        assert_eq!(convert_key_event_to_terminput(&press(code, NONE)), None);
        assert_eq!(bytes(code, NONE), None);
    }
}

#[test]
fn conversion_keeps_modifiers_and_kind() {
    let key = KeyEvent { code: KeyCode::BackTab, modifiers: ALL, kind: KeyEventKind::Repeat };
    assert_eq!(
        convert_key_event_to_terminput(&key),
        Some(EncoderKey {
            code: EncoderCode::Named(NamedKey::Tab),
            modifiers: ALL,
            kind: KeyEventKind::Repeat,
        })
    );
    assert_eq!(
        convert_key_event_to_terminput(&press(KeyCode::Function(7), NONE)),
        Some(EncoderKey { code: EncoderCode::F(7), modifiers: NONE, kind: KeyEventKind::Press })
    );
    assert_eq!(
        convert_key_event_to_terminput(&press(KeyCode::Char('x'), ALT)),
        Some(EncoderKey {
            code: EncoderCode::Char('x'),
            modifiers: ALT,
            kind: KeyEventKind::Press,
        })
    );
}

#[test]
fn bytes_of_a_key_fit_the_buffer() {
    for modifiers in vec![NONE, SHIFT, CONTROL, ALT, ALL] {
        for n in 0..=u8::MAX {
            assert!(bytes(KeyCode::Function(n), modifiers).map_or(0, |b| b.len()) <= 32);
        }
        assert!(bytes(KeyCode::Char('\u{10ffff}'), modifiers).map_or(0, |b| b.len()) <= 32);
        assert!(bytes(KeyCode::PageUp, modifiers).map_or(0, |b| b.len()) <= 32);
    }
}
