use terminal_display::keys::{
    to_key_code, to_logical_key, KeyCode, LogicalKey, MediaKey, ModifierKey, RawKeyCode,
};

#[test]
fn letters_map_to_their_lower_case_key() {
    assert_eq!(to_key_code(RawKeyCode::Char('a')), Some(KeyCode::Letter('a')));
    assert_eq!(to_key_code(RawKeyCode::Char('Q')), Some(KeyCode::Letter('q')));
    assert_eq!(to_key_code(RawKeyCode::Char('Z')), Some(KeyCode::Letter('z')));
}

#[test]
fn digits_and_their_shifted_symbols() {
    assert_eq!(to_key_code(RawKeyCode::Char('7')), Some(KeyCode::Digit(7)));
    assert_eq!(to_key_code(RawKeyCode::Char('&')), Some(KeyCode::Digit(7)));
    assert_eq!(to_key_code(RawKeyCode::Char('0')), Some(KeyCode::Digit(0)));
    assert_eq!(to_key_code(RawKeyCode::Char(')')), Some(KeyCode::Digit(0)));
    assert_eq!(to_key_code(RawKeyCode::Char('^')), Some(KeyCode::Digit(6)));
}

#[test]
fn punctuation_keys() {
    assert_eq!(to_key_code(RawKeyCode::Char('?')), Some(KeyCode::Slash));
    assert_eq!(to_key_code(RawKeyCode::Char('"')), Some(KeyCode::Quote));
    assert_eq!(to_key_code(RawKeyCode::Char(' ')), Some(KeyCode::Space));
    assert_eq!(to_key_code(RawKeyCode::Char('{')), Some(KeyCode::BracketLeft));
}

#[test]
fn unknown_codes_name_no_key() {
    assert_eq!(to_key_code(RawKeyCode::Char('\u{e9}')), None);
    assert_eq!(to_key_code(RawKeyCode::Null), None);
    assert_eq!(to_key_code(RawKeyCode::KeypadBegin), None);
    assert_eq!(to_key_code(RawKeyCode::F(0)), None);
    assert_eq!(to_key_code(RawKeyCode::F(36)), None);
    assert_eq!(to_key_code(RawKeyCode::Media(MediaKey::Record)), None);
    assert_eq!(to_key_code(RawKeyCode::Modifier(ModifierKey::IsoLevel3Shift)), None);
}

#[test]
fn named_keys() {
    assert_eq!(to_key_code(RawKeyCode::F(1)), Some(KeyCode::F(1)));
    assert_eq!(to_key_code(RawKeyCode::F(35)), Some(KeyCode::F(35)));
    assert_eq!(to_key_code(RawKeyCode::BackTab), Some(KeyCode::Tab));
    assert_eq!(to_key_code(RawKeyCode::Left), Some(KeyCode::ArrowLeft));
    assert_eq!(to_key_code(RawKeyCode::Esc), Some(KeyCode::Escape));
    assert_eq!(to_key_code(RawKeyCode::Menu), Some(KeyCode::ContextMenu));
    assert_eq!(to_key_code(RawKeyCode::Media(MediaKey::Rewind)), Some(KeyCode::MediaTrackPrevious));
    assert_eq!(to_key_code(RawKeyCode::Modifier(ModifierKey::RightAlt)), Some(KeyCode::AltRight));
    assert_eq!(to_key_code(RawKeyCode::Modifier(ModifierKey::LeftMeta)), Some(KeyCode::Meta));
}

#[test]
fn logical_keys() {
    assert_eq!(to_logical_key(RawKeyCode::Char('Q')), Some(LogicalKey::Character('Q')));
    assert_eq!(to_logical_key(RawKeyCode::Char('\u{e9}')), Some(LogicalKey::Character('\u{e9}')));
    assert_eq!(to_logical_key(RawKeyCode::Modifier(ModifierKey::RightShift)), Some(LogicalKey::Shift));
    assert_eq!(to_logical_key(RawKeyCode::Modifier(ModifierKey::IsoLevel3Shift)), Some(LogicalKey::AltGraph));
    assert_eq!(to_logical_key(RawKeyCode::Modifier(ModifierKey::IsoLevel5Shift)), None);
    assert_eq!(to_logical_key(RawKeyCode::F(36)), None);
    assert_eq!(to_logical_key(RawKeyCode::Enter), Some(LogicalKey::Enter));
    assert_eq!(to_logical_key(RawKeyCode::Media(MediaKey::Play)), Some(LogicalKey::MediaPlayPause));
}
