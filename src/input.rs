use vstd::prelude::*;

use crate::key_set::KeySet;
use crate::keys::{key_code_of, KeyCode, LogicalKey, RawKeyCode};

verus! {

/// What a key did.
#[derive(Clone, Copy, Debug, PartialEq, Eq, Structural)]
pub enum KeyEventKind {
    Press,
    Repeat,
    Release,
}

/// A key event as the terminal reports it.
#[derive(Clone, Copy, Debug, PartialEq, Eq, Structural)]
pub struct RawKeyEvent {
    pub code: RawKeyCode,
    pub kind: KeyEventKind,
    /// Modifier flags held during the event, one bit each.
    pub modifiers: u8,
}

/// A mouse button.
#[derive(Clone, Copy, Debug, PartialEq, Eq, Structural)]
pub enum MouseButton {
    Left,
    Right,
    Middle,
}

/// What the mouse did.
#[derive(Clone, Copy, Debug, PartialEq, Eq, Structural)]
pub enum MouseEventKind {
    Down(MouseButton),
    Up(MouseButton),
    Drag(MouseButton),
    Moved,
    ScrollDown,
    ScrollUp,
    ScrollLeft,
    ScrollRight,
}

/// A mouse event at a terminal cell.
#[derive(Clone, Copy, Debug, PartialEq, Eq, Structural)]
pub struct MouseEvent {
    pub kind: MouseEventKind,
    pub column: u16,
    pub row: u16,
    /// Modifier flags held during the event, one bit each.
    pub modifiers: u8,
}

/// An input event as the terminal reports it.
#[derive(Debug, PartialEq, Eq)]
pub enum RawInputEvent {
    Key(RawKeyEvent),
    Mouse(MouseEvent),
    /// The terminal now has this many columns and rows.
    Resize(u16, u16),
    FocusGained,
    FocusLost,
    Paste(String),
}

/// Whether a key went down or up.
#[derive(Clone, Copy, Debug, PartialEq, Eq, Structural)]
pub enum ButtonState {
    Pressed,
    Released,
}

/// A key transition, in terms that do not depend on the terminal.
#[derive(Clone, Copy, Debug, PartialEq, Eq, Structural)]
pub struct KeyInput {
    pub key_code: KeyCode,
    pub logical_key: LogicalKey,
    pub state: ButtonState,
    /// The key was already down: the terminal repeats it.
    pub repeat: bool,
}

/// An input event handed on to the rest of the program.
#[derive(Debug, PartialEq, Eq)]
pub enum TerminalInputEvent {
    Key(KeyInput),
    Mouse(MouseEvent),
    /// The terminal now has this many columns and rows.
    Resize(u16, u16),
    FocusGained,
    FocusLost,
    Paste(String),
}

/// The keys held down, and those that went down or up during the last tick.
pub ghost struct KeyStateModel {
    pub pressed: Set<KeyCode>,
    pub just_pressed: Set<KeyCode>,
    pub just_released: Set<KeyCode>,
}

impl KeyStateModel {
    /// The state at the start of a tick: nothing has just happened yet.
    pub open spec fn cleared(self) -> KeyStateModel {
        KeyStateModel {
            pressed: self.pressed,
            just_pressed: Set::empty(),
            just_released: Set::empty(),
        }
    }

    /// A key goes down; one already down stays as it is.
    pub open spec fn press(self, key: KeyCode) -> KeyStateModel {
        if self.pressed.contains(key) {
            self
        } else {
            KeyStateModel {
                pressed: self.pressed.insert(key),
                just_pressed: self.just_pressed.insert(key),
                just_released: self.just_released,
            }
        }
    }

    /// A key goes up, whether or not it was down.
    pub open spec fn release(self, key: KeyCode) -> KeyStateModel {
        KeyStateModel {
            pressed: self.pressed.remove(key),
            just_pressed: self.just_pressed,
            just_released: self.just_released.insert(key),
        }
    }

    /// The state after one key event; an event whose code names no key changes
    /// nothing.
    pub open spec fn apply(self, event: RawKeyEvent) -> KeyStateModel {
        match key_code_of(event.code) {
            Some(key) => match event.kind {
                KeyEventKind::Release => self.release(key),
                _ => self.press(key),
            },
            None => self,
        }
    }

    /// The state after the key events in order.
    pub open spec fn apply_all(self, events: Seq<RawKeyEvent>) -> KeyStateModel
        decreases events.len(),
    {
        if events.len() == 0 {
            self
        } else {
            self.apply_all(events.drop_last()).apply(events.last())
        }
    }

    /// No key is both held down and just released.
    pub open spec fn consistent(self) -> bool {
        forall|k: KeyCode| #[trigger] self.just_released.contains(k) ==> !self.pressed.contains(k)
    }
}

/// Which keys are held down, and which went down or up during the last tick.
pub struct TerminalInput {
    pressed: KeySet,
    just_pressed: KeySet,
    just_released: KeySet,
}

impl View for TerminalInput {
    type V = KeyStateModel;

    closed spec fn view(&self) -> KeyStateModel {
        KeyStateModel {
            pressed: self.pressed@,
            just_pressed: self.just_pressed@,
            just_released: self.just_released@,
        }
    }
}

impl TerminalInput {
    /// No key down, nothing happened.
    pub fn new() -> (r: TerminalInput)
        ensures
            r@.pressed == Set::<KeyCode>::empty(),
            r@.just_pressed == Set::<KeyCode>::empty(),
            r@.just_released == Set::<KeyCode>::empty(),
    {
        TerminalInput { pressed: KeySet::new(), just_pressed: KeySet::new(), just_released: KeySet::new() }
    }

    /// Whether `code` is held down.
    pub fn is_pressed(&self, code: KeyCode) -> (r: bool)
        ensures
            r == self@.pressed.contains(code),
    {
        self.pressed.contains(code)
    }

    /// Whether `code` went down during the last tick.
    pub fn is_just_pressed(&self, code: KeyCode) -> (r: bool)
        ensures
            r == self@.just_pressed.contains(code),
    {
        self.just_pressed.contains(code)
    }

    /// Whether `code` went up during the last tick.
    pub fn is_released(&self, code: KeyCode) -> (r: bool)
        ensures
            r == self@.just_released.contains(code),
    {
        self.just_released.contains(code)
    }

    /// Forgets what happened during the last tick.
    pub fn clear_transitions(&mut self)
        ensures
            final(self)@ == old(self)@.cleared(),
    {
        self.just_pressed.clear();
        self.just_released.clear();
    }

    /// Records that `code` went down.
    pub fn press(&mut self, code: KeyCode)
        ensures
            final(self)@ == old(self)@.press(code),
    {
        if !self.is_pressed(code) {
            self.pressed.insert(code);
            self.just_pressed.insert(code);
        }
    }

    /// Records that `code` went up.
    pub fn release(&mut self, code: KeyCode)
        ensures
            final(self)@ == old(self)@.release(code),
    {
        self.pressed.remove(code);
        self.just_released.insert(code);
    }
}

} // verus!
