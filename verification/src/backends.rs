use vstd::prelude::*;

use crate::event::{spec_is_press, Event, KeyCode, KeyEvent, KeyEventKind, KeyEventState, KeyModifiers};

verus! {

/// How the runtime and the focus system read the events of a terminal backend.
pub trait ManaBackend {
    type KeyEvent;
    type Event;

    /// The event that moves the focus on to the next element.
    fn default_cycle_event() -> Self::Event;

    /// The key event that an event holds, if any.
    fn event_as_key(ev: Self::Event) -> Option<Self::KeyEvent>;

    /// The direction that an event points in, as a step in columns and rows.
    fn event_as_direction(ev: &Self::Event) -> Option<(i16, i16)>;

    /// Whether an event confirms a choice.
    fn event_is_confirm(ev: &Self::Event) -> bool;
}

/// The backend that reads crossterm's terminal events.
pub struct CrosstermBackend;

/// A press of Tab with no modifier and empty state.
pub open spec fn spec_tab_press() -> Event {
    Event::Key(
        KeyEvent {
            code: KeyCode::Tab,
            modifiers: KeyModifiers::spec_none(),
            kind: KeyEventKind::Press,
            state: KeyEventState::spec_empty(),
        },
    )
}

/// A plain press of either key.
pub open spec fn spec_is_either_press(ev: Event, a: KeyCode, b: KeyCode) -> bool {
    spec_is_press(ev, a, KeyModifiers::spec_none()) || spec_is_press(ev, b, KeyModifiers::spec_none())
}

/// The vim keys and the arrow keys point left, down, up and right; a row step
/// of one goes down the screen.
pub open spec fn spec_event_as_direction(ev: Event) -> Option<(i16, i16)> {
    if spec_is_either_press(ev, KeyCode::Char('h'), KeyCode::Left) {
        Some((-1i16, 0i16))
    } else if spec_is_either_press(ev, KeyCode::Char('j'), KeyCode::Down) {
        Some((0i16, 1i16))
    } else if spec_is_either_press(ev, KeyCode::Char('k'), KeyCode::Up) {
        Some((0i16, -1i16))
    } else if spec_is_either_press(ev, KeyCode::Char('l'), KeyCode::Right) {
        Some((1i16, 0i16))
    } else {
        None
    }
}

impl ManaBackend for CrosstermBackend {
    type KeyEvent = KeyEvent;
    type Event = Event;

    fn default_cycle_event() -> (ev: Event)
        ensures
            ev == spec_tab_press(),
    {
        Event::Key(
            KeyEvent {
                code: KeyCode::Tab,
                modifiers: KeyModifiers::none(),
                kind: KeyEventKind::Press,
                state: KeyEventState::empty(),
            },
        )
    }

    fn event_as_key(ev: Event) -> (r: Option<KeyEvent>)
        ensures
            r == ev.spec_as_key_event(),
    {
        ev.as_key_event()
    }

    fn event_as_direction(ev: &Event) -> (r: Option<(i16, i16)>)
        ensures
            r == spec_event_as_direction(*ev),
    {
        if ev.is_plain_press(KeyCode::Char('h')) || ev.is_plain_press(KeyCode::Left) {
            Some((-1, 0))
        } else if ev.is_plain_press(KeyCode::Char('j')) || ev.is_plain_press(KeyCode::Down) {
            Some((0, 1))
        } else if ev.is_plain_press(KeyCode::Char('k')) || ev.is_plain_press(KeyCode::Up) {
            Some((0, -1))
        } else if ev.is_plain_press(KeyCode::Char('l')) || ev.is_plain_press(KeyCode::Right) {
            Some((1, 0))
        } else {
            None
        }
    }

    fn event_is_confirm(ev: &Event) -> (b: bool)
        ensures
            b == spec_is_press(*ev, KeyCode::Enter, KeyModifiers::spec_none()),
    {
        ev.is_plain_press(KeyCode::Enter)
    }
}

/// Key events built from a character.
pub trait KeyEventExt {
    /// A press of the character key `c` with no modifier and empty state.
    fn char(c: char) -> (k: KeyEvent)
        ensures
            k == (KeyEvent {
                code: KeyCode::Char(c),
                modifiers: KeyModifiers::spec_none(),
                kind: KeyEventKind::Press,
                state: KeyEventState::spec_empty(),
            }),
    {
        KeyEvent {
            code: KeyCode::Char(c),
            modifiers: KeyModifiers::none(),
            kind: KeyEventKind::Press,
            state: KeyEventState::empty(),
        }
    }
}

impl KeyEventExt for KeyEvent {

}

} // verus!
