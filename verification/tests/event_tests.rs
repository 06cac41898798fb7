use manatui::event::{Event, KeyCode, KeyEvent, KeyEventKind, KeyEventState, KeyModifiers};
use manatui::geometry::{Position, Rect};

#[test]
fn key_eq_normalizes_shifted_letters() {
    let a = KeyEvent::new(KeyCode::Char('a'), KeyModifiers::shift());
    let b = KeyEvent::new(KeyCode::Char('A'), KeyModifiers::none());
    assert!(a.key_eq(&b));
    assert!(b.key_eq(&a));
    let c = KeyEvent::new(KeyCode::Char('a'), KeyModifiers::none());
    assert!(!a.key_eq(&c));
}

#[test]
fn key_eq_compares_kind_and_state() {
    let a = KeyEvent::new(KeyCode::Enter, KeyModifiers::none());
    let b = KeyEvent { kind: KeyEventKind::Release, ..a };
    assert!(!a.key_eq(&b));
    let c = KeyEvent { state: KeyEventState { keypad: true, caps_lock: false, num_lock: false }, ..a };
    assert!(!a.key_eq(&c));
    assert!(a.key_eq(&a));
}

#[test]
fn normalize_case_adds_shift_to_capitals() {
    let k = KeyEvent::new(KeyCode::Char('Q'), KeyModifiers::none()).normalize_case();
    assert!(k.modifiers.shift);
    let k = KeyEvent::new(KeyCode::Char('q'), KeyModifiers::shift()).normalize_case();
    assert_eq!(k.code, KeyCode::Char('Q'));
    let k = KeyEvent::new(KeyCode::Char('1'), KeyModifiers::shift()).normalize_case();
    assert_eq!(k.code, KeyCode::Char('1'));
}

#[test]
fn modifiers_algebra() {
    let m = KeyModifiers::control().union(KeyModifiers::shift());
    assert!(m.contains(KeyModifiers::control()));
    assert!(m.contains(KeyModifiers::shift()));
    assert!(!m.contains(KeyModifiers::alt()));
    assert!(m.difference(KeyModifiers::shift()) == KeyModifiers::control());
    assert!(KeyModifiers::none().is_empty());
    assert!(!KeyModifiers::meta().is_empty());
    assert!(KeyModifiers::super_().union(KeyModifiers::shift()).contains(KeyModifiers::super_()));
}

#[test]
fn as_key_event_only_for_keys() {
    let k = KeyEvent::new(KeyCode::Esc, KeyModifiers::none());
    assert_eq!(Event::Key(k).as_key_event(), Some(k));
    assert_eq!(Event::Resize(3, 4).as_key_event(), None);
    assert_eq!(Event::Paste(String::from("x")).as_key_event(), None);
}

#[test]
fn is_press_requires_exact_modifiers() {
    let ev = Event::Key(KeyEvent::new(KeyCode::Char('g'), KeyModifiers::shift()));
    assert!(ev.is_press(KeyCode::Char('g'), KeyModifiers::shift()));
    assert!(!ev.is_plain_press(KeyCode::Char('g')));
}

#[test]
fn ascii_helpers() {
    assert!(manatui::event::is_ascii_uppercase('Z'));
    assert!(!manatui::event::is_ascii_uppercase('z'));
    assert_eq!(manatui::event::to_ascii_uppercase('z'), 'Z');
    assert_eq!(manatui::event::to_ascii_uppercase('é'), 'é');
}

#[test]
fn rect_contains_excludes_far_edges() {
    let r = Rect::new(2, 3, 4, 2);
    assert!(r.contains(Position::new(2, 3)));
    assert!(r.contains(Position::new(5, 4)));
    assert!(!r.contains(Position::new(6, 4)));
    assert!(!r.contains(Position::new(5, 5)));
    assert!(!r.contains(Position::new(1, 3)));
    assert_eq!(r.right(), 6);
    assert_eq!(r.bottom(), 5);
    assert_eq!(r.as_position(), Position::new(2, 3));
}

#[test]
fn rect_edges_saturate() {
    let r = Rect::new(u16::MAX - 1, 0, 10, 1);
    assert_eq!(r.right(), u16::MAX);
    assert!(!Rect::new(0, 0, 0, 0).contains(Position::new(0, 0)));
}

#[test]
fn key_eq_is_symmetric_and_transitive() {
    let a = KeyEvent::new(KeyCode::Char('x'), KeyModifiers::shift());
    let b = KeyEvent::new(KeyCode::Char('X'), KeyModifiers::none());
    let c = KeyEvent::new(KeyCode::Char('X'), KeyModifiers::shift());
    assert!(a.key_eq(&b) && b.key_eq(&a));
    assert!(b.key_eq(&c) && a.key_eq(&c));
}

#[test]
fn empty_rect_contains_nothing() {
    let flat = Rect::new(3, 3, 0, 5);
    for x in 0..8 {
        for y in 0..10 {
            assert!(!flat.contains(Position::new(x, y)));
        }
    }
}
