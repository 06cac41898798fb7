use manatui::backends::{CrosstermBackend, KeyEventExt, ManaBackend};
use manatui::event::{Event, KeyCode, KeyEvent, KeyEventKind, KeyEventState, KeyModifiers};

fn plain(code: KeyCode) -> Event {
    Event::Key(KeyEvent::new(code, KeyModifiers::none()))
}

#[test]
fn default_cycle_event_is_tab() {
    let ev = CrosstermBackend::default_cycle_event();
    assert_eq!(
        ev.as_key_event(),
        Some(KeyEvent {
            code: KeyCode::Tab,
            modifiers: KeyModifiers::none(),
            kind: KeyEventKind::Press,
            state: KeyEventState::empty(),
        })
    );
}

#[test]
fn directions_of_vim_and_arrow_keys() {
    assert_eq!(CrosstermBackend::event_as_direction(&plain(KeyCode::Char('h'))), Some((-1, 0)));
    assert_eq!(CrosstermBackend::event_as_direction(&plain(KeyCode::Left)), Some((-1, 0)));
    assert_eq!(CrosstermBackend::event_as_direction(&plain(KeyCode::Char('j'))), Some((0, 1)));
    assert_eq!(CrosstermBackend::event_as_direction(&plain(KeyCode::Down)), Some((0, 1)));
    assert_eq!(CrosstermBackend::event_as_direction(&plain(KeyCode::Char('k'))), Some((0, -1)));
    assert_eq!(CrosstermBackend::event_as_direction(&plain(KeyCode::Up)), Some((0, -1)));
    assert_eq!(CrosstermBackend::event_as_direction(&plain(KeyCode::Char('l'))), Some((1, 0)));
    assert_eq!(CrosstermBackend::event_as_direction(&plain(KeyCode::Right)), Some((1, 0)));
    assert_eq!(CrosstermBackend::event_as_direction(&plain(KeyCode::Char('x'))), None);
    let shifted = Event::Key(KeyEvent::new(KeyCode::Left, KeyModifiers::shift()));
    assert_eq!(CrosstermBackend::event_as_direction(&shifted), None);
    let mut released = KeyEvent::new(KeyCode::Left, KeyModifiers::none());
    released.kind = KeyEventKind::Release;
    assert_eq!(CrosstermBackend::event_as_direction(&Event::Key(released)), None);
}

#[test]
fn confirm_is_plain_enter() {
    assert!(CrosstermBackend::event_is_confirm(&plain(KeyCode::Enter)));
    assert!(!CrosstermBackend::event_is_confirm(&Event::Key(KeyEvent::new(KeyCode::Enter, KeyModifiers::control()))));
    assert!(!CrosstermBackend::event_is_confirm(&Event::FocusGained));
}

#[test]
fn event_as_key_takes_the_key() {
    let k = KeyEvent::new(KeyCode::Esc, KeyModifiers::alt());
    assert_eq!(CrosstermBackend::event_as_key(Event::Key(k)), Some(k));
    assert_eq!(CrosstermBackend::event_as_key(Event::FocusLost), None);
}

#[test]
fn key_event_from_char() {
    let k = KeyEvent::char('q');
    assert_eq!(k, KeyEvent::new(KeyCode::Char('q'), KeyModifiers::none()));
}
