use vstd::prelude::*;

use crate::input::{
    ButtonState, KeyEventKind, KeyInput, KeyStateModel, RawInputEvent, RawKeyEvent,
    TerminalInput, TerminalInputEvent,
};
use crate::keys::{key_code_of, logical_key_of, to_key_code, to_logical_key, KeyCode};

verus! {

/// Events read from the terminal and not yet translated, oldest first.
pub struct EventQueue {
    events: Vec<RawInputEvent>,
}

impl View for EventQueue {
    type V = Seq<RawInputEvent>;

    closed spec fn view(&self) -> Seq<RawInputEvent> {
        self.events@
    }
}

impl EventQueue {
    /// An empty queue.
    pub fn new() -> (r: EventQueue)
        ensures
            r@ == Seq::<RawInputEvent>::empty(),
    {
        EventQueue { events: Vec::new() }
    }

    /// Appends an event that was just read.
    pub fn push(&mut self, event: RawInputEvent)
        ensures
            final(self)@ == old(self)@.push(event),
    {
        self.events.push(event);
    }

    /// Takes every queued event out, oldest first, and leaves the queue empty.
    pub fn drain(&mut self) -> (r: Vec<RawInputEvent>)
        ensures
            r@ == old(self)@,
            final(self)@ == Seq::<RawInputEvent>::empty(),
    {
        let mut taken: Vec<RawInputEvent> = Vec::new();
        std::mem::swap(&mut taken, &mut self.events);
        taken
    }
}

/// The key events among `events`, in order.
pub open spec fn key_events(events: Seq<RawInputEvent>) -> Seq<RawKeyEvent>
    decreases events.len(),
{
    if events.len() == 0 {
        Seq::empty()
    } else {
        let init = key_events(events.drop_last());
        match events.last() {
            RawInputEvent::Key(k) => init.push(k),
            _ => init,
        }
    }
}

/// The events among `keys` of the given kind, in order.
pub open spec fn of_kind(keys: Seq<RawKeyEvent>, kind: KeyEventKind) -> Seq<RawKeyEvent>
    decreases keys.len(),
{
    if keys.len() == 0 {
        Seq::empty()
    } else {
        let init = of_kind(keys.drop_last(), kind);
        if keys.last().kind == kind {
            init.push(keys.last())
        } else {
            init
        }
    }
}

/// The key events of a tick in the order in which they are applied: presses,
/// then repeats, then releases, each in order of arrival.
pub open spec fn ordered_keys(events: Seq<RawInputEvent>) -> Seq<RawKeyEvent> {
    let keys = key_events(events);
    of_kind(keys, KeyEventKind::Press) + of_kind(keys, KeyEventKind::Repeat) + of_kind(
        keys,
        KeyEventKind::Release,
    )
}

/// The event handed on for an event that is not a key event.
pub open spec fn forward(event: RawInputEvent) -> TerminalInputEvent {
    match event {
        RawInputEvent::Mouse(m) => TerminalInputEvent::Mouse(m),
        RawInputEvent::Resize(c, r) => TerminalInputEvent::Resize(c, r),
        RawInputEvent::FocusGained => TerminalInputEvent::FocusGained,
        RawInputEvent::FocusLost => TerminalInputEvent::FocusLost,
        RawInputEvent::Paste(s) => TerminalInputEvent::Paste(s),
        RawInputEvent::Key(_) => TerminalInputEvent::FocusGained,
    }
}

/// The events handed on, in order, for the events of `events` that are not key
/// events.
pub open spec fn forwarded(events: Seq<RawInputEvent>) -> Seq<TerminalInputEvent>
    decreases events.len(),
{
    if events.len() == 0 {
        Seq::empty()
    } else {
        let init = forwarded(events.drop_last());
        match events.last() {
            RawInputEvent::Key(_) => init,
            e => init.push(forward(e)),
        }
    }
}

/// The key transition for a key event, if its code names a key.
pub open spec fn key_input_of(event: RawKeyEvent) -> Option<KeyInput> {
    match (key_code_of(event.code), logical_key_of(event.code)) {
        (Some(key_code), Some(logical_key)) => Some(
            KeyInput {
                key_code,
                logical_key,
                state: if event.kind == KeyEventKind::Release {
                    ButtonState::Released
                } else {
                    ButtonState::Pressed
                },
                repeat: event.kind == KeyEventKind::Repeat,
            },
        ),
        _ => None,
    }
}

/// The key transitions for `keys`, in order; events whose code names no key are
/// dropped.
pub open spec fn key_inputs(keys: Seq<RawKeyEvent>) -> Seq<TerminalInputEvent>
    decreases keys.len(),
{
    if keys.len() == 0 {
        Seq::empty()
    } else {
        let init = key_inputs(keys.drop_last());
        match key_input_of(keys.last()) {
            Some(k) => init.push(TerminalInputEvent::Key(k)),
            None => init,
        }
    }
}

/// Everything that one tick hands on for `events`: the other events in order of
/// arrival, then the key transitions in the order in which they were applied.
pub open spec fn translated(events: Seq<RawInputEvent>) -> Seq<TerminalInputEvent> {
    forwarded(events) + key_inputs(ordered_keys(events))
}

/// The key state after a tick that started in `state` and read `events`.
pub open spec fn after_tick(state: KeyStateModel, events: Seq<RawInputEvent>) -> KeyStateModel {
    state.cleared().apply_all(ordered_keys(events))
}

proof fn lemma_apply_all_concat(state: KeyStateModel, a: Seq<RawKeyEvent>, b: Seq<RawKeyEvent>)
    ensures
        state.apply_all(a + b) == state.apply_all(a).apply_all(b),
    decreases b.len(),
{
    if b.len() > 0 {
        lemma_apply_all_concat(state, a, b.drop_last());
        assert((a + b).drop_last() =~= a + b.drop_last());
        assert((a + b).last() == b.last());
    } else {
        assert(a + b =~= a);
    }
}

proof fn lemma_key_inputs_concat(a: Seq<RawKeyEvent>, b: Seq<RawKeyEvent>)
    ensures
        key_inputs(a + b) == key_inputs(a) + key_inputs(b),
    decreases b.len(),
{
    if b.len() > 0 {
        lemma_key_inputs_concat(a, b.drop_last());
        assert((a + b).drop_last() =~= a + b.drop_last());
        assert((a + b).last() == b.last());
        match key_input_of(b.last()) {
            Some(k) => {
                assert(key_inputs(a + b) =~= key_inputs(a) + key_inputs(b));
            },
            None => {},
        }
    } else {
        assert(a + b =~= a);
        assert(key_inputs(a) + key_inputs(b) =~= key_inputs(a));
    }
}

/// The events of `events` in reverse order.
fn reversed(events: Vec<RawInputEvent>) -> (r: Vec<RawInputEvent>)
    ensures
        r@.len() == events@.len(),
        forall|i: int| 0 <= i < r@.len() ==> #[trigger] r@[i] == events@[events@.len() - 1 - i],
{
    let ghost arrived = events@;
    let mut rest = events;
    let mut r: Vec<RawInputEvent> = Vec::new();
    while rest.len() > 0
        invariant
            rest@ == arrived.take(rest@.len() as int),
            rest@.len() <= arrived.len(),
            r@.len() == arrived.len() - rest@.len(),
            forall|i: int| 0 <= i < r@.len() ==> #[trigger] r@[i] == arrived[arrived.len() - 1 - i],
        decreases rest@.len(),
    {
        let event = rest.pop().unwrap();
        r.push(event);
        assert(rest@ =~= arrived.take(rest@.len() as int));
    }
    r
}

/// Applies the key events in order to `state` and appends their key transitions
/// to `out`.
fn apply_keys(keys: &Vec<RawKeyEvent>, state: &mut TerminalInput, out: &mut Vec<TerminalInputEvent>)
    ensures
        final(state)@ == old(state)@.apply_all(keys@),
        final(out)@ == old(out)@ + key_inputs(keys@),
{
    let ghost state0 = state@;
    let ghost out0 = out@;
    let mut i: usize = 0;
    assert(keys@.take(0) =~= Seq::<RawKeyEvent>::empty());
    assert(out0 + key_inputs(keys@.take(0)) =~= out0);
    while i < keys.len()
        invariant
            i <= keys@.len(),
            state@ == state0.apply_all(keys@.take(i as int)),
            out@ == out0 + key_inputs(keys@.take(i as int)),
        decreases keys@.len() - i,
    {
        let event = keys[i];
        assert(keys@.take(i as int + 1).drop_last() =~= keys@.take(i as int));
        assert(keys@.take(i as int + 1).last() == event);
        match to_key_code(event.code) {
            Some(key_code) => {
                match event.kind {
                    KeyEventKind::Release => state.release(key_code),
                    _ => state.press(key_code),
                }
                match to_logical_key(event.code) {
                    Some(logical_key) => {
                        let state_now = if event.kind == KeyEventKind::Release {
                            ButtonState::Released
                        } else {
                            ButtonState::Pressed
                        };
                        let input = KeyInput {
                            key_code,
                            logical_key,
                            state: state_now,
                            repeat: event.kind == KeyEventKind::Repeat,
                        };
                        out.push(TerminalInputEvent::Key(input));
                    },
                    None => {},
                }
            },
            None => {},
        }
        proof {
            assert(out@ =~= out0 + key_inputs(keys@.take(i as int + 1)));
        }
        i = i + 1;
    }
    assert(keys@.take(i as int) =~= keys@);
}

/// Translates the events of one tick, oldest first. The key state first forgets
/// what happened during the last tick. The events that are not key events are
/// handed on at once, in order of arrival. The key events are then applied in a
/// fixed order, presses before repeats before releases, each group in order of
/// arrival, so that a key pressed and released within one tick ends up released
/// whatever order the terminal reported them in; each one whose code names a key
/// is handed on as a key transition in that order, and the others are dropped.
pub fn translate_events(events: Vec<RawInputEvent>, state: &mut TerminalInput) -> (r: Vec<
    TerminalInputEvent,
>)
    ensures
        r@ == translated(events@),
        final(state)@ == after_tick(old(state)@, events@),
        final(state)@.consistent(),
{
    let ghost arrived = events@;
    let ghost n = events@.len();
    let ghost state0 = state@;
    state.clear_transitions();
    let mut rest = reversed(events);
    let mut out: Vec<TerminalInputEvent> = Vec::new();
    let mut presses: Vec<RawKeyEvent> = Vec::new();
    let mut repeats: Vec<RawKeyEvent> = Vec::new();
    let mut releases: Vec<RawKeyEvent> = Vec::new();
    assert(arrived.take(0) =~= Seq::<RawInputEvent>::empty());
    while rest.len() > 0
        invariant
            rest@.len() <= n,
            n == arrived.len(),
            forall|i: int|
                0 <= i < rest@.len() ==> #[trigger] rest@[i] == arrived[n - 1 - i],
            out@ == forwarded(arrived.take(n - rest@.len())),
            presses@ == of_kind(key_events(arrived.take(n - rest@.len())), KeyEventKind::Press),
            repeats@ == of_kind(key_events(arrived.take(n - rest@.len())), KeyEventKind::Repeat),
            releases@ == of_kind(key_events(arrived.take(n - rest@.len())), KeyEventKind::Release),
        decreases rest@.len(),
    {
        let ghost k = n - rest@.len();
        let ghost before = arrived.take(k);
        let ghost after = arrived.take(k + 1);
        assert(after.drop_last() =~= before);
        assert(rest@[rest@.len() - 1] == arrived[k]);
        let event = rest.pop().unwrap();
        assert(after.last() == event);
        match event {
            RawInputEvent::Key(key) => {
                assert(key_events(after) == key_events(before).push(key));
                assert(key_events(after).drop_last() =~= key_events(before));
                match key.kind {
                    KeyEventKind::Press => presses.push(key),
                    KeyEventKind::Repeat => repeats.push(key),
                    KeyEventKind::Release => releases.push(key),
                }
            },
            RawInputEvent::Mouse(m) => out.push(TerminalInputEvent::Mouse(m)),
            RawInputEvent::Resize(c, r) => out.push(TerminalInputEvent::Resize(c, r)),
            RawInputEvent::FocusGained => out.push(TerminalInputEvent::FocusGained),
            RawInputEvent::FocusLost => out.push(TerminalInputEvent::FocusLost),
            RawInputEvent::Paste(s) => out.push(TerminalInputEvent::Paste(s)),
        }
    }
    assert(arrived.take(n as int) =~= arrived);
    let ghost cleared = state@;
    apply_keys(&presses, state, &mut out);
    apply_keys(&repeats, state, &mut out);
    apply_keys(&releases, state, &mut out);
    proof {
        lemma_apply_all_concat(cleared, presses@, repeats@);
        lemma_apply_all_concat(cleared, presses@ + repeats@, releases@);
        lemma_key_inputs_concat(presses@, repeats@);
        lemma_key_inputs_concat(presses@ + repeats@, releases@);
        assert(out@ =~= translated(arrived));
        tick_leaves_state_consistent(state0, arrived);
    }
    out
}

/// Runs one tick of translation on everything queued so far and leaves the queue
/// empty; see [`translate_events`].
pub fn input_handling(queue: &mut EventQueue, state: &mut TerminalInput) -> (r: Vec<
    TerminalInputEvent,
>)
    ensures
        r@ == translated(old(queue)@),
        final(state)@ == after_tick(old(state)@, old(queue)@),
        final(state)@.consistent(),
        final(queue)@ == Seq::<RawInputEvent>::empty(),
{
    let events = queue.drain();
    translate_events(events, state)
}

proof fn lemma_of_kind_kinds(keys: Seq<RawKeyEvent>, kind: KeyEventKind)
    ensures
        forall|i: int| 0 <= i < of_kind(keys, kind).len() ==> (#[trigger] of_kind(keys, kind)[i]).kind == kind,
    decreases keys.len(),
{
    if keys.len() > 0 {
        lemma_of_kind_kinds(keys.drop_last(), kind);
    }
}

proof fn lemma_of_kind_contains(keys: Seq<RawKeyEvent>, kind: KeyEventKind, e: RawKeyEvent)
    requires
        keys.contains(e),
        e.kind == kind,
    ensures
        of_kind(keys, kind).contains(e),
    decreases keys.len(),
{
    let init = keys.drop_last();
    if keys.last() == e {
        assert(of_kind(keys, kind).last() == e);
    } else {
        let j = choose|j: int| 0 <= j < keys.len() && keys[j] == e;
        assert(init[j] == e);
        lemma_of_kind_contains(init, kind, e);
        let m = choose|m: int| 0 <= m < of_kind(init, kind).len() && of_kind(init, kind)[m] == e;
        if keys.last().kind == kind {
            assert(of_kind(keys, kind)[m] == e);
        }
    }
}

proof fn lemma_key_events_contains(events: Seq<RawInputEvent>, i: int, e: RawKeyEvent)
    requires
        0 <= i < events.len(),
        events[i] == RawInputEvent::Key(e),
    ensures
        key_events(events).contains(e),
    decreases events.len(),
{
    let init = events.drop_last();
    if i == events.len() - 1 {
        assert(key_events(events).last() == e);
    } else {
        lemma_key_events_contains(init, i, e);
        let m = choose|m: int| 0 <= m < key_events(init).len() && key_events(init)[m] == e;
        match events.last() {
            RawInputEvent::Key(k) => {
                assert(key_events(events)[m] == e);
            },
            _ => {},
        }
    }
}

/// Key events other than releases leave the set of just released keys alone.
proof fn lemma_no_release_keeps_released(state: KeyStateModel, keys: Seq<RawKeyEvent>)
    requires
        forall|i: int| 0 <= i < keys.len() ==> (#[trigger] keys[i]).kind != KeyEventKind::Release,
    ensures
        state.apply_all(keys).just_released == state.just_released,
    decreases keys.len(),
{
    if keys.len() > 0 {
        let init = keys.drop_last();
        assert forall|i: int| 0 <= i < init.len() implies (#[trigger] init[i]).kind != KeyEventKind::Release by {
            assert(init[i] == keys[i]);
        }
        lemma_no_release_keeps_released(state, init);
        assert(keys[keys.len() - 1].kind != KeyEventKind::Release);
    }
}

/// Releases keep a consistent state consistent.
proof fn lemma_releases_consistent(state: KeyStateModel, keys: Seq<RawKeyEvent>)
    requires
        state.consistent(),
        forall|i: int| 0 <= i < keys.len() ==> (#[trigger] keys[i]).kind == KeyEventKind::Release,
    ensures
        state.apply_all(keys).consistent(),
    decreases keys.len(),
{
    if keys.len() > 0 {
        let init = keys.drop_last();
        assert forall|i: int| 0 <= i < init.len() implies (#[trigger] init[i]).kind == KeyEventKind::Release by {
            assert(init[i] == keys[i]);
        }
        lemma_releases_consistent(state, init);
        let last = keys[keys.len() - 1];
        assert(last.kind == KeyEventKind::Release);
        let before = state.apply_all(init);
        let after = state.apply_all(keys);
        assert(after == before.apply(last));
    }
}

/// After any tick no key is both held down and just released.
pub proof fn tick_leaves_state_consistent(state: KeyStateModel, events: Seq<RawInputEvent>)
    ensures
        after_tick(state, events).consistent(),
{
    let keys = key_events(events);
    let presses = of_kind(keys, KeyEventKind::Press);
    let repeats = of_kind(keys, KeyEventKind::Repeat);
    let releases = of_kind(keys, KeyEventKind::Release);
    lemma_of_kind_kinds(keys, KeyEventKind::Press);
    lemma_of_kind_kinds(keys, KeyEventKind::Repeat);
    lemma_of_kind_kinds(keys, KeyEventKind::Release);
    let downs = presses + repeats;
    assert forall|i: int| 0 <= i < downs.len() implies (#[trigger] downs[i]).kind != KeyEventKind::Release by {
        if i < presses.len() {
            assert(downs[i] == presses[i]);
        } else {
            assert(downs[i] == repeats[i - presses.len()]);
        }
    }
    let start = state.cleared();
    lemma_no_release_keeps_released(start, downs);
    let middle = start.apply_all(downs);
    assert(middle.just_released =~= Set::<KeyCode>::empty());
    lemma_releases_consistent(middle, releases);
    lemma_apply_all_concat(start, downs, releases);
}

/// A key released during a tick ends the tick up and just released, even when
/// the same tick also pressed it, before or after the release.
pub proof fn released_key_ends_up(
    state: KeyStateModel,
    events: Seq<RawInputEvent>,
    i: int,
    key: KeyCode,
)
    requires
        0 <= i < events.len(),
        events[i] is Key,
        events[i]->Key_0.kind == KeyEventKind::Release,
        key_code_of(events[i]->Key_0.code) == Some(key),
    ensures
        !after_tick(state, events).pressed.contains(key),
        after_tick(state, events).just_released.contains(key),
{
    let e = events[i]->Key_0;
    let keys = key_events(events);
    let presses = of_kind(keys, KeyEventKind::Press);
    let repeats = of_kind(keys, KeyEventKind::Repeat);
    let releases = of_kind(keys, KeyEventKind::Release);
    lemma_key_events_contains(events, i, e);
    lemma_of_kind_contains(keys, KeyEventKind::Release, e);
    lemma_of_kind_kinds(keys, KeyEventKind::Release);
    let j = choose|j: int| 0 <= j < releases.len() && releases[j] == e;
    let downs = presses + repeats;
    let middle = state.cleared().apply_all(downs);
    lemma_release_drops(middle, releases, j, key);
    lemma_apply_all_concat(state.cleared(), downs, releases);
}

proof fn lemma_release_drops(state: KeyStateModel, keys: Seq<RawKeyEvent>, j: int, key: KeyCode)
    requires
        0 <= j < keys.len(),
        keys[j].kind == KeyEventKind::Release,
        key_code_of(keys[j].code) == Some(key),
        forall|i: int| 0 <= i < keys.len() ==> (#[trigger] keys[i]).kind == KeyEventKind::Release,
    ensures
        !state.apply_all(keys).pressed.contains(key),
        state.apply_all(keys).just_released.contains(key),
    decreases keys.len(),
{
    let init = keys.drop_last();
    let last = keys[keys.len() - 1];
    if j < keys.len() - 1 {
        assert forall|i: int| 0 <= i < init.len() implies (#[trigger] init[i]).kind == KeyEventKind::Release by {
            assert(init[i] == keys[i]);
        }
        assert(init[j] == keys[j]);
        lemma_release_drops(state, init, j, key);
    }
    assert(last.kind == KeyEventKind::Release);
}

/// A tick that reads no event keeps the keys held down and clears what had just
/// happened.
pub proof fn empty_tick_clears_transitions(state: KeyStateModel)
    ensures
        after_tick(state, Seq::empty()).pressed == state.pressed,
        after_tick(state, Seq::empty()).just_pressed == Set::<KeyCode>::empty(),
        after_tick(state, Seq::empty()).just_released == Set::<KeyCode>::empty(),
        translated(Seq::empty()) == Seq::<TerminalInputEvent>::empty(),
{
    let keys = key_events(Seq::<RawInputEvent>::empty());
    assert(keys =~= Seq::<RawKeyEvent>::empty());
    assert(ordered_keys(Seq::empty()) =~= Seq::<RawKeyEvent>::empty());
    assert(translated(Seq::empty()) =~= Seq::<TerminalInputEvent>::empty());
}

} // verus!
