use vstd::prelude::*;

use crate::glyph::char_from_scalar;

verus! {

/// A media key as the terminal reports it.
#[derive(Clone, Copy, Debug, PartialEq, Eq, Structural)]
pub enum MediaKey {
    Play,
    Pause,
    PlayPause,
    Reverse,
    Stop,
    FastForward,
    Rewind,
    TrackNext,
    TrackPrevious,
    Record,
    LowerVolume,
    RaiseVolume,
    MuteVolume,
}

/// A modifier key reported on its own, as the terminal reports it.
#[derive(Clone, Copy, Debug, PartialEq, Eq, Structural)]
pub enum ModifierKey {
    LeftShift,
    LeftControl,
    LeftAlt,
    LeftSuper,
    LeftHyper,
    LeftMeta,
    RightShift,
    RightControl,
    RightAlt,
    RightSuper,
    RightHyper,
    RightMeta,
    IsoLevel3Shift,
    IsoLevel5Shift,
}

/// A key code as the terminal reports it.
#[derive(Clone, Copy, Debug, PartialEq, Eq, Structural)]
pub enum RawKeyCode {
    Backspace,
    Enter,
    Left,
    Right,
    Up,
    Down,
    Home,
    End,
    PageUp,
    PageDown,
    Tab,
    BackTab,
    Delete,
    Insert,
    /// A function key, `F(1)` for F1.
    F(u8),
    /// The character that the key typed.
    Char(char),
    Null,
    Esc,
    CapsLock,
    ScrollLock,
    NumLock,
    PrintScreen,
    Pause,
    Menu,
    KeypadBegin,
    Media(MediaKey),
    Modifier(ModifierKey),
}

/// A physical key, independent of the terminal and of the keyboard layout.
#[derive(Clone, Copy, Debug, PartialEq, Eq, Structural)]
pub enum KeyCode {
    Backspace,
    Enter,
    ArrowLeft,
    ArrowRight,
    ArrowUp,
    ArrowDown,
    Home,
    End,
    PageUp,
    PageDown,
    Tab,
    Delete,
    Insert,
    /// Function key `F1` to `F35`.
    F(u8),
    /// The digit key `0` to `9` of the main block.
    Digit(u8),
    /// The letter key, named by its lower-case ASCII letter.
    Letter(char),
    Minus,
    Equal,
    Backquote,
    BracketLeft,
    BracketRight,
    Semicolon,
    Quote,
    Comma,
    Period,
    Slash,
    Space,
    Escape,
    CapsLock,
    ScrollLock,
    NumLock,
    PrintScreen,
    Pause,
    ContextMenu,
    MediaPlayPause,
    MediaStop,
    MediaTrackNext,
    MediaTrackPrevious,
    AudioVolumeDown,
    AudioVolumeUp,
    AudioVolumeMute,
    ShiftLeft,
    ShiftRight,
    ControlLeft,
    ControlRight,
    AltLeft,
    AltRight,
    SuperLeft,
    SuperRight,
    Hyper,
    Meta,
}

/// The meaning of a key press, as a text input or a named key.
#[derive(Clone, Copy, Debug, PartialEq, Eq, Structural)]
pub enum LogicalKey {
    Backspace,
    Enter,
    ArrowLeft,
    ArrowRight,
    ArrowUp,
    ArrowDown,
    Home,
    End,
    PageUp,
    PageDown,
    Tab,
    Delete,
    Insert,
    /// Function key `F1` to `F35`.
    F(u8),
    /// The character typed.
    Character(char),
    Escape,
    CapsLock,
    ScrollLock,
    NumLock,
    PrintScreen,
    Pause,
    ContextMenu,
    MediaPlayPause,
    MediaStop,
    MediaTrackNext,
    MediaTrackPrevious,
    AudioVolumeDown,
    AudioVolumeUp,
    AudioVolumeMute,
    Shift,
    Control,
    Alt,
    AltGraph,
    Super,
    Hyper,
    Meta,
}

/// Highest function key number that has a key code.
pub const LAST_FUNCTION_KEY: u8 = 35;

/// The key code of a function key number, if it has one.
pub open spec fn function_key_of(n: u8) -> Option<KeyCode> {
    if 1 <= n <= LAST_FUNCTION_KEY {
        Some(KeyCode::F(n))
    } else {
        None
    }
}

/// The physical key that types `c` on a US keyboard layout, shifted or not.
pub open spec fn char_key_code(c: char) -> Option<KeyCode> {
    if 'a' <= c <= 'z' {
        Some(KeyCode::Letter(c))
    } else if 'A' <= c <= 'Z' {
        Some(KeyCode::Letter(((c as u32) + 32) as char))
    } else if '0' <= c <= '9' {
        Some(KeyCode::Digit(((c as u32) - ('0' as u32)) as u8))
    } else {
        match c {
            ')' => Some(KeyCode::Digit(0)),
            '!' => Some(KeyCode::Digit(1)),
            '@' => Some(KeyCode::Digit(2)),
            '#' => Some(KeyCode::Digit(3)),
            '$' => Some(KeyCode::Digit(4)),
            '%' => Some(KeyCode::Digit(5)),
            '^' => Some(KeyCode::Digit(6)),
            '&' => Some(KeyCode::Digit(7)),
            '*' => Some(KeyCode::Digit(8)),
            '(' => Some(KeyCode::Digit(9)),
            '-' | '_' => Some(KeyCode::Minus),
            '=' | '+' => Some(KeyCode::Equal),
            '`' | '~' => Some(KeyCode::Backquote),
            '[' | '{' => Some(KeyCode::BracketLeft),
            ']' | '}' => Some(KeyCode::BracketRight),
            ';' | ':' => Some(KeyCode::Semicolon),
            '\'' | '"' => Some(KeyCode::Quote),
            ',' | '<' => Some(KeyCode::Comma),
            '.' | '>' => Some(KeyCode::Period),
            '/' | '?' => Some(KeyCode::Slash),
            ' ' => Some(KeyCode::Space),
            _ => None,
        }
    }
}

/// The physical key of a media key, if it has one.
pub open spec fn media_key_code(m: MediaKey) -> Option<KeyCode> {
    match m {
        MediaKey::Play | MediaKey::PlayPause => Some(KeyCode::MediaPlayPause),
        MediaKey::Pause => Some(KeyCode::Pause),
        MediaKey::Stop => Some(KeyCode::MediaStop),
        MediaKey::FastForward | MediaKey::TrackNext => Some(KeyCode::MediaTrackNext),
        MediaKey::Rewind | MediaKey::TrackPrevious => Some(KeyCode::MediaTrackPrevious),
        MediaKey::LowerVolume => Some(KeyCode::AudioVolumeDown),
        MediaKey::RaiseVolume => Some(KeyCode::AudioVolumeUp),
        MediaKey::MuteVolume => Some(KeyCode::AudioVolumeMute),
        MediaKey::Reverse | MediaKey::Record => None,
    }
}

/// The physical key of a modifier key, if it has one.
pub open spec fn modifier_key_code(m: ModifierKey) -> Option<KeyCode> {
    match m {
        ModifierKey::LeftShift => Some(KeyCode::ShiftLeft),
        ModifierKey::RightShift => Some(KeyCode::ShiftRight),
        ModifierKey::LeftControl => Some(KeyCode::ControlLeft),
        ModifierKey::RightControl => Some(KeyCode::ControlRight),
        ModifierKey::LeftAlt => Some(KeyCode::AltLeft),
        ModifierKey::RightAlt => Some(KeyCode::AltRight),
        ModifierKey::LeftSuper => Some(KeyCode::SuperLeft),
        ModifierKey::RightSuper => Some(KeyCode::SuperRight),
        ModifierKey::LeftHyper | ModifierKey::RightHyper => Some(KeyCode::Hyper),
        ModifierKey::LeftMeta | ModifierKey::RightMeta => Some(KeyCode::Meta),
        ModifierKey::IsoLevel3Shift | ModifierKey::IsoLevel5Shift => None,
    }
}

/// The physical key of a terminal key code; `None` for codes that name no key.
pub open spec fn key_code_of(code: RawKeyCode) -> Option<KeyCode> {
    match code {
        RawKeyCode::Backspace => Some(KeyCode::Backspace),
        RawKeyCode::Enter => Some(KeyCode::Enter),
        RawKeyCode::Left => Some(KeyCode::ArrowLeft),
        RawKeyCode::Right => Some(KeyCode::ArrowRight),
        RawKeyCode::Up => Some(KeyCode::ArrowUp),
        RawKeyCode::Down => Some(KeyCode::ArrowDown),
        RawKeyCode::Home => Some(KeyCode::Home),
        RawKeyCode::End => Some(KeyCode::End),
        RawKeyCode::PageUp => Some(KeyCode::PageUp),
        RawKeyCode::PageDown => Some(KeyCode::PageDown),
        RawKeyCode::Tab | RawKeyCode::BackTab => Some(KeyCode::Tab),
        RawKeyCode::Delete => Some(KeyCode::Delete),
        RawKeyCode::Insert => Some(KeyCode::Insert),
        RawKeyCode::F(n) => function_key_of(n),
        RawKeyCode::Char(c) => char_key_code(c),
        RawKeyCode::Esc => Some(KeyCode::Escape),
        RawKeyCode::CapsLock => Some(KeyCode::CapsLock),
        RawKeyCode::ScrollLock => Some(KeyCode::ScrollLock),
        RawKeyCode::NumLock => Some(KeyCode::NumLock),
        RawKeyCode::PrintScreen => Some(KeyCode::PrintScreen),
        RawKeyCode::Pause => Some(KeyCode::Pause),
        RawKeyCode::Menu => Some(KeyCode::ContextMenu),
        RawKeyCode::Media(m) => media_key_code(m),
        RawKeyCode::Modifier(m) => modifier_key_code(m),
        RawKeyCode::Null | RawKeyCode::KeypadBegin => None,
    }
}

/// The logical key of a media key, if it has one.
pub open spec fn media_logical_key(m: MediaKey) -> Option<LogicalKey> {
    match m {
        MediaKey::Play | MediaKey::PlayPause => Some(LogicalKey::MediaPlayPause),
        MediaKey::Pause => Some(LogicalKey::Pause),
        MediaKey::Stop => Some(LogicalKey::MediaStop),
        MediaKey::FastForward | MediaKey::TrackNext => Some(LogicalKey::MediaTrackNext),
        MediaKey::Rewind | MediaKey::TrackPrevious => Some(LogicalKey::MediaTrackPrevious),
        MediaKey::LowerVolume => Some(LogicalKey::AudioVolumeDown),
        MediaKey::RaiseVolume => Some(LogicalKey::AudioVolumeUp),
        MediaKey::MuteVolume => Some(LogicalKey::AudioVolumeMute),
        MediaKey::Reverse | MediaKey::Record => None,
    }
}

/// The logical key of a modifier key, if it has one; left and right are alike.
pub open spec fn modifier_logical_key(m: ModifierKey) -> Option<LogicalKey> {
    match m {
        ModifierKey::LeftShift | ModifierKey::RightShift => Some(LogicalKey::Shift),
        ModifierKey::LeftControl | ModifierKey::RightControl => Some(LogicalKey::Control),
        ModifierKey::LeftAlt | ModifierKey::RightAlt => Some(LogicalKey::Alt),
        ModifierKey::LeftSuper | ModifierKey::RightSuper => Some(LogicalKey::Super),
        ModifierKey::LeftHyper | ModifierKey::RightHyper => Some(LogicalKey::Hyper),
        ModifierKey::LeftMeta | ModifierKey::RightMeta => Some(LogicalKey::Meta),
        ModifierKey::IsoLevel3Shift => Some(LogicalKey::AltGraph),
        ModifierKey::IsoLevel5Shift => None,
    }
}

/// The logical key of a terminal key code; `None` for codes that mean nothing.
pub open spec fn logical_key_of(code: RawKeyCode) -> Option<LogicalKey> {
    match code {
        RawKeyCode::Backspace => Some(LogicalKey::Backspace),
        RawKeyCode::Enter => Some(LogicalKey::Enter),
        RawKeyCode::Left => Some(LogicalKey::ArrowLeft),
        RawKeyCode::Right => Some(LogicalKey::ArrowRight),
        RawKeyCode::Up => Some(LogicalKey::ArrowUp),
        RawKeyCode::Down => Some(LogicalKey::ArrowDown),
        RawKeyCode::Home => Some(LogicalKey::Home),
        RawKeyCode::End => Some(LogicalKey::End),
        RawKeyCode::PageUp => Some(LogicalKey::PageUp),
        RawKeyCode::PageDown => Some(LogicalKey::PageDown),
        RawKeyCode::Tab | RawKeyCode::BackTab => Some(LogicalKey::Tab),
        RawKeyCode::Delete => Some(LogicalKey::Delete),
        RawKeyCode::Insert => Some(LogicalKey::Insert),
        RawKeyCode::F(n) => if 1 <= n <= LAST_FUNCTION_KEY {
            Some(LogicalKey::F(n))
        } else {
            None
        },
        RawKeyCode::Char(c) => Some(LogicalKey::Character(c)),
        RawKeyCode::Esc => Some(LogicalKey::Escape),
        RawKeyCode::CapsLock => Some(LogicalKey::CapsLock),
        RawKeyCode::ScrollLock => Some(LogicalKey::ScrollLock),
        RawKeyCode::NumLock => Some(LogicalKey::NumLock),
        RawKeyCode::PrintScreen => Some(LogicalKey::PrintScreen),
        RawKeyCode::Pause => Some(LogicalKey::Pause),
        RawKeyCode::Menu => Some(LogicalKey::ContextMenu),
        RawKeyCode::Media(m) => media_logical_key(m),
        RawKeyCode::Modifier(m) => modifier_logical_key(m),
        RawKeyCode::Null | RawKeyCode::KeypadBegin => None,
    }
}

/// The physical key that types `c`, shifted or not.
fn char_to_key_code(c: char) -> (r: Option<KeyCode>)
    ensures
        r == char_key_code(c),
{
    if 'a' <= c && c <= 'z' {
        Some(KeyCode::Letter(c))
    } else if 'A' <= c && c <= 'Z' {
        Some(KeyCode::Letter(char_from_scalar(c as u32 + 32).unwrap()))
    } else if '0' <= c && c <= '9' {
        Some(KeyCode::Digit((c as u32 - '0' as u32) as u8))
    } else {
        match c {
            ')' => Some(KeyCode::Digit(0)),
            '!' => Some(KeyCode::Digit(1)),
            '@' => Some(KeyCode::Digit(2)),
            '#' => Some(KeyCode::Digit(3)),
            '$' => Some(KeyCode::Digit(4)),
            '%' => Some(KeyCode::Digit(5)),
            '^' => Some(KeyCode::Digit(6)),
            '&' => Some(KeyCode::Digit(7)),
            '*' => Some(KeyCode::Digit(8)),
            '(' => Some(KeyCode::Digit(9)),
            '-' | '_' => Some(KeyCode::Minus),
            '=' | '+' => Some(KeyCode::Equal),
            '`' | '~' => Some(KeyCode::Backquote),
            '[' | '{' => Some(KeyCode::BracketLeft),
            ']' | '}' => Some(KeyCode::BracketRight),
            ';' | ':' => Some(KeyCode::Semicolon),
            '\'' | '"' => Some(KeyCode::Quote),
            ',' | '<' => Some(KeyCode::Comma),
            '.' | '>' => Some(KeyCode::Period),
            '/' | '?' => Some(KeyCode::Slash),
            ' ' => Some(KeyCode::Space),
            _ => None,
        }
    }
}

/// The physical key of a terminal key code. Codes that name no key (`Null`,
/// `KeypadBegin`, function keys past F35, characters off the US layout, and a
/// few media and modifier keys) give `None`.
pub fn to_key_code(code: RawKeyCode) -> (r: Option<KeyCode>)
    ensures
        r == key_code_of(code),
{
    match code {
        RawKeyCode::Backspace => Some(KeyCode::Backspace),
        RawKeyCode::Enter => Some(KeyCode::Enter),
        RawKeyCode::Left => Some(KeyCode::ArrowLeft),
        RawKeyCode::Right => Some(KeyCode::ArrowRight),
        RawKeyCode::Up => Some(KeyCode::ArrowUp),
        RawKeyCode::Down => Some(KeyCode::ArrowDown),
        RawKeyCode::Home => Some(KeyCode::Home),
        RawKeyCode::End => Some(KeyCode::End),
        RawKeyCode::PageUp => Some(KeyCode::PageUp),
        RawKeyCode::PageDown => Some(KeyCode::PageDown),
        RawKeyCode::Tab | RawKeyCode::BackTab => Some(KeyCode::Tab),
        RawKeyCode::Delete => Some(KeyCode::Delete),
        RawKeyCode::Insert => Some(KeyCode::Insert),
        RawKeyCode::F(n) => if 1 <= n && n <= LAST_FUNCTION_KEY {
            Some(KeyCode::F(n))
        } else {
            None
        },
        RawKeyCode::Char(c) => char_to_key_code(c),
        RawKeyCode::Esc => Some(KeyCode::Escape),
        RawKeyCode::CapsLock => Some(KeyCode::CapsLock),
        RawKeyCode::ScrollLock => Some(KeyCode::ScrollLock),
        RawKeyCode::NumLock => Some(KeyCode::NumLock),
        RawKeyCode::PrintScreen => Some(KeyCode::PrintScreen),
        RawKeyCode::Pause => Some(KeyCode::Pause),
        RawKeyCode::Menu => Some(KeyCode::ContextMenu),
        RawKeyCode::Media(m) => match m {
            MediaKey::Play | MediaKey::PlayPause => Some(KeyCode::MediaPlayPause),
            MediaKey::Pause => Some(KeyCode::Pause),
            MediaKey::Stop => Some(KeyCode::MediaStop),
            MediaKey::FastForward | MediaKey::TrackNext => Some(KeyCode::MediaTrackNext),
            MediaKey::Rewind | MediaKey::TrackPrevious => Some(KeyCode::MediaTrackPrevious),
            MediaKey::LowerVolume => Some(KeyCode::AudioVolumeDown),
            MediaKey::RaiseVolume => Some(KeyCode::AudioVolumeUp),
            MediaKey::MuteVolume => Some(KeyCode::AudioVolumeMute),
            MediaKey::Reverse | MediaKey::Record => None,
        },
        RawKeyCode::Modifier(m) => match m {
            ModifierKey::LeftShift => Some(KeyCode::ShiftLeft),
            ModifierKey::RightShift => Some(KeyCode::ShiftRight),
            ModifierKey::LeftControl => Some(KeyCode::ControlLeft),
            ModifierKey::RightControl => Some(KeyCode::ControlRight),
            ModifierKey::LeftAlt => Some(KeyCode::AltLeft),
            ModifierKey::RightAlt => Some(KeyCode::AltRight),
            ModifierKey::LeftSuper => Some(KeyCode::SuperLeft),
            ModifierKey::RightSuper => Some(KeyCode::SuperRight),
            ModifierKey::LeftHyper | ModifierKey::RightHyper => Some(KeyCode::Hyper),
            ModifierKey::LeftMeta | ModifierKey::RightMeta => Some(KeyCode::Meta),
            ModifierKey::IsoLevel3Shift | ModifierKey::IsoLevel5Shift => None,
        },
        RawKeyCode::Null | RawKeyCode::KeypadBegin => None,
    }
}

/// The logical key of a terminal key code: the character for a character key,
/// the named key otherwise. `Null`, `KeypadBegin`, function keys past F35 and a
/// few media and modifier keys give `None`.
pub fn to_logical_key(code: RawKeyCode) -> (r: Option<LogicalKey>)
    ensures
        r == logical_key_of(code),
{
    match code {
        RawKeyCode::Backspace => Some(LogicalKey::Backspace),
        RawKeyCode::Enter => Some(LogicalKey::Enter),
        RawKeyCode::Left => Some(LogicalKey::ArrowLeft),
        RawKeyCode::Right => Some(LogicalKey::ArrowRight),
        RawKeyCode::Up => Some(LogicalKey::ArrowUp),
        RawKeyCode::Down => Some(LogicalKey::ArrowDown),
        RawKeyCode::Home => Some(LogicalKey::Home),
        RawKeyCode::End => Some(LogicalKey::End),
        RawKeyCode::PageUp => Some(LogicalKey::PageUp),
        RawKeyCode::PageDown => Some(LogicalKey::PageDown),
        RawKeyCode::Tab | RawKeyCode::BackTab => Some(LogicalKey::Tab),
        RawKeyCode::Delete => Some(LogicalKey::Delete),
        RawKeyCode::Insert => Some(LogicalKey::Insert),
        RawKeyCode::F(n) => if 1 <= n && n <= LAST_FUNCTION_KEY {
            Some(LogicalKey::F(n))
        } else {
            None
        },
        RawKeyCode::Char(c) => Some(LogicalKey::Character(c)),
        RawKeyCode::Esc => Some(LogicalKey::Escape),
        RawKeyCode::CapsLock => Some(LogicalKey::CapsLock),
        RawKeyCode::ScrollLock => Some(LogicalKey::ScrollLock),
        RawKeyCode::NumLock => Some(LogicalKey::NumLock),
        RawKeyCode::PrintScreen => Some(LogicalKey::PrintScreen),
        RawKeyCode::Pause => Some(LogicalKey::Pause),
        RawKeyCode::Menu => Some(LogicalKey::ContextMenu),
        RawKeyCode::Media(m) => match m {
            MediaKey::Play | MediaKey::PlayPause => Some(LogicalKey::MediaPlayPause),
            MediaKey::Pause => Some(LogicalKey::Pause),
            MediaKey::Stop => Some(LogicalKey::MediaStop),
            MediaKey::FastForward | MediaKey::TrackNext => Some(LogicalKey::MediaTrackNext),
            MediaKey::Rewind | MediaKey::TrackPrevious => Some(LogicalKey::MediaTrackPrevious),
            MediaKey::LowerVolume => Some(LogicalKey::AudioVolumeDown),
            MediaKey::RaiseVolume => Some(LogicalKey::AudioVolumeUp),
            MediaKey::MuteVolume => Some(LogicalKey::AudioVolumeMute),
            MediaKey::Reverse | MediaKey::Record => None,
        },
        RawKeyCode::Modifier(m) => match m {
            ModifierKey::LeftShift | ModifierKey::RightShift => Some(LogicalKey::Shift),
            ModifierKey::LeftControl | ModifierKey::RightControl => Some(LogicalKey::Control),
            ModifierKey::LeftAlt | ModifierKey::RightAlt => Some(LogicalKey::Alt),
            ModifierKey::LeftSuper | ModifierKey::RightSuper => Some(LogicalKey::Super),
            ModifierKey::LeftHyper | ModifierKey::RightHyper => Some(LogicalKey::Hyper),
            ModifierKey::LeftMeta | ModifierKey::RightMeta => Some(LogicalKey::Meta),
            ModifierKey::IsoLevel3Shift => Some(LogicalKey::AltGraph),
            ModifierKey::IsoLevel5Shift => None,
        },
        RawKeyCode::Null | RawKeyCode::KeypadBegin => None,
    }
}

} // verus!
