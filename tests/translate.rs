use terminal_display::input::{
    ButtonState, KeyEventKind, KeyInput, MouseButton, MouseEvent, MouseEventKind, RawInputEvent,
    RawKeyEvent, TerminalInput, TerminalInputEvent,
};
use terminal_display::keys::{KeyCode, LogicalKey, RawKeyCode};
use terminal_display::resize::{resize_handling, target_size};
use terminal_display::translate::{input_handling, translate_events, EventQueue};

fn key(c: char, kind: KeyEventKind) -> RawInputEvent {
    RawInputEvent::Key(RawKeyEvent { code: RawKeyCode::Char(c), kind, modifiers: 0 })
}

fn key_input(c: char, state: ButtonState, repeat: bool) -> TerminalInputEvent {
    TerminalInputEvent::Key(KeyInput {
        key_code: KeyCode::Letter(c.to_ascii_lowercase()),
        logical_key: LogicalKey::Character(c),
        state,
        repeat,
    })
}

#[test]
fn release_then_press_in_one_tick_ends_released() {
    let mut queue = EventQueue::new();
    queue.push(key('x', KeyEventKind::Release));
    queue.push(key('x', KeyEventKind::Press));
    let mut state = TerminalInput::new();
    let out = input_handling(&mut queue, &mut state);
    let x = KeyCode::Letter('x');
    assert!(!state.is_pressed(x));
    assert!(state.is_just_pressed(x));
    assert!(state.is_released(x));
    assert_eq!(
        out,
        vec![
            key_input('x', ButtonState::Pressed, false),
            key_input('x', ButtonState::Released, false),
        ]
    );
    assert!(queue.drain().is_empty());
}

#[test]
fn press_then_release_in_one_tick_ends_released() {
    let mut state = TerminalInput::new();
    let out = translate_events(
        vec![key('x', KeyEventKind::Press), key('x', KeyEventKind::Release)],
        &mut state,
    );
    assert!(!state.is_pressed(KeyCode::Letter('x')));
    assert_eq!(out.len(), 2);
}

#[test]
fn empty_tick_clears_transitions_and_keeps_held_keys() {
    let mut state = TerminalInput::new();
    translate_events(
        vec![key('a', KeyEventKind::Press), key('b', KeyEventKind::Press), key('b', KeyEventKind::Release)],
        &mut state,
    );
    let a = KeyCode::Letter('a');
    let b = KeyCode::Letter('b');
    assert!(state.is_pressed(a));
    assert!(state.is_just_pressed(a));
    assert!(state.is_released(b));
    let out = translate_events(Vec::new(), &mut state);
    assert!(out.is_empty());
    assert!(state.is_pressed(a));
    assert!(!state.is_pressed(b));
    assert!(!state.is_just_pressed(a));
    assert!(!state.is_just_pressed(b));
    assert!(!state.is_released(b));
}

#[test]
fn repeat_does_not_count_as_a_new_press() {
    let mut state = TerminalInput::new();
    translate_events(vec![key('a', KeyEventKind::Press)], &mut state);
    let out = translate_events(vec![key('a', KeyEventKind::Repeat)], &mut state);
    let a = KeyCode::Letter('a');
    assert!(state.is_pressed(a));
    assert!(!state.is_just_pressed(a));
    assert_eq!(out, vec![key_input('a', ButtonState::Pressed, true)]);
}

#[test]
fn repeat_of_a_key_not_down_presses_it() {
    let mut state = TerminalInput::new();
    translate_events(vec![key('a', KeyEventKind::Repeat)], &mut state);
    assert!(state.is_pressed(KeyCode::Letter('a')));
    assert!(state.is_just_pressed(KeyCode::Letter('a')));
}

#[test]
fn other_events_come_first_in_arrival_order() {
    let click = MouseEvent { kind: MouseEventKind::Down(MouseButton::Left), column: 3, row: 4, modifiers: 0 };
    let events = vec![
        key('b', KeyEventKind::Release),
        RawInputEvent::Resize(80, 24),
        key('a', KeyEventKind::Press),
        RawInputEvent::Mouse(click),
        RawInputEvent::Paste(String::from("hi")),
        key('c', KeyEventKind::Repeat),
        RawInputEvent::FocusLost,
    ];
    let mut state = TerminalInput::new();
    let out = translate_events(events, &mut state);
    assert_eq!(
        out,
        vec![
            TerminalInputEvent::Resize(80, 24),
            TerminalInputEvent::Mouse(click),
            TerminalInputEvent::Paste(String::from("hi")),
            TerminalInputEvent::FocusLost,
            key_input('a', ButtonState::Pressed, false),
            key_input('c', ButtonState::Pressed, true),
            key_input('b', ButtonState::Released, false),
        ]
    );
}

#[test]
fn unknown_key_codes_are_dropped() {
    let events = vec![
        RawInputEvent::Key(RawKeyEvent { code: RawKeyCode::Null, kind: KeyEventKind::Press, modifiers: 0 }),
        RawInputEvent::Key(RawKeyEvent { code: RawKeyCode::F(40), kind: KeyEventKind::Press, modifiers: 0 }),
        RawInputEvent::FocusGained,
    ];
    let mut state = TerminalInput::new();
    let out = translate_events(events, &mut state);
    assert_eq!(out, vec![TerminalInputEvent::FocusGained]);
}

#[test]
fn release_of_a_key_not_down_is_still_reported() {
    let mut state = TerminalInput::new();
    translate_events(vec![key('q', KeyEventKind::Release)], &mut state);
    assert!(state.is_released(KeyCode::Letter('q')));
    assert!(!state.is_pressed(KeyCode::Letter('q')));
}

#[test]
fn queue_keeps_arrival_order_and_empties_on_drain() {
    let mut queue = EventQueue::new();
    queue.push(RawInputEvent::FocusGained);
    queue.push(RawInputEvent::Resize(1, 2));
    let drained = queue.drain();
    assert_eq!(drained, vec![RawInputEvent::FocusGained, RawInputEvent::Resize(1, 2)]);
    assert!(queue.drain().is_empty());
}

#[test]
fn resize_to_80_by_24_gives_160_by_96() {
    assert_eq!(target_size(80, 24), (160, 96));
    let events = vec![TerminalInputEvent::Resize(80, 24)];
    assert_eq!(resize_handling(&events), Some((160, 96)));
}

#[test]
fn last_resize_of_a_tick_wins() {
    let events = vec![
        TerminalInputEvent::Resize(10, 10),
        TerminalInputEvent::FocusLost,
        TerminalInputEvent::Resize(100, 30),
        TerminalInputEvent::FocusGained,
    ];
    assert_eq!(resize_handling(&events), Some((200, 120)));
    assert_eq!(resize_handling(&vec![TerminalInputEvent::FocusGained]), None);
    assert_eq!(target_size(u16::MAX, u16::MAX), (131070, 262140));
}

#[test]
fn key_released_anywhere_in_a_tick_is_not_held() {
    let mut state = TerminalInput::new();
    translate_events(
        vec![
            key('a', KeyEventKind::Press),
            key('a', KeyEventKind::Release),
            key('a', KeyEventKind::Press),
            key('b', KeyEventKind::Repeat),
        ],
        &mut state,
    );
    let a = KeyCode::Letter('a');
    assert!(!state.is_pressed(a));
    assert!(state.is_released(a));
    assert!(state.is_pressed(KeyCode::Letter('b')));
    assert!(!state.is_released(KeyCode::Letter('b')));
}
