use manatui::components::button::{Button, ButtonEvent, ButtonLook};
use manatui::components::list::{compact_size, List, ListEvent};
use manatui::components::pager::Pager;
use manatui::components::text_input::{split_three_split_at, TextInput, TextInputEvent};
use manatui::event::{Event, KeyCode, KeyEvent, KeyEventKind, KeyEventState, KeyModifiers, MouseButton, MouseEvent, MouseEventKind};
use manatui::focus::{Focus, FocusEvent, FocusGroup};
use manatui::geometry::{Position, Rect};
use manatui::observe::HitEvent;

fn press(code: KeyCode) -> Event {
    Event::Key(KeyEvent::new(code, KeyModifiers::none()))
}

fn press_with(code: KeyCode, m: KeyModifiers) -> Event {
    Event::Key(KeyEvent::new(code, m))
}

fn release(code: KeyCode) -> Event {
    Event::Key(KeyEvent { code, modifiers: KeyModifiers::none(), kind: KeyEventKind::Release, state: KeyEventState::empty() })
}

fn mouse(kind: MouseEventKind, column: u16, row: u16) -> Event {
    Event::Mouse(MouseEvent { kind, column, row, modifiers: KeyModifiers::none() })
}

fn focused_list(len: usize) -> List {
    let mut l = List::new();
    l.set_len(len);
    l.set_focus(true);
    l
}

fn typed(s: &str) -> TextInput {
    let mut t = TextInput::new();
    t.set_focus(true);
    for c in s.chars() {
        t = t.update(&press(KeyCode::Char(c))).0;
    }
    t
}

// ---------- list ----------

#[test]
fn list_new_selects_first() {
    let l = List::new();
    assert_eq!(l.selected(), Some(0));
    assert!(!l.contains(0));
}

#[test]
fn list_contains_counts_items() {
    let l = focused_list(3);
    assert!(l.contains(0));
    assert!(l.contains(2));
    assert!(!l.contains(3));
}

#[test]
fn list_select_offset_clamps() {
    let l = focused_list(4);
    assert_eq!(l.select_offset(10).selected(), Some(3));
    let l = focused_list(4).select(Some(2));
    assert_eq!(l.select_offset(-10).selected(), Some(0));
    let l = focused_list(4).select(None);
    assert_eq!(l.select_offset(1).selected(), None);
}

#[test]
fn list_next_then_prev_returns() {
    let l = focused_list(5).select(Some(2));
    assert_eq!(l.select_next().select_prev().selected(), Some(2));
}

#[test]
fn list_first_and_last() {
    let l = focused_list(6).select(Some(2));
    assert_eq!(l.select_last().selected(), Some(5));
    let l = focused_list(6).select(Some(4));
    assert_eq!(l.select_first().selected(), Some(0));
}

#[test]
fn list_update_moves_selection() {
    let l = focused_list(3);
    let (l, ev) = l.update(&press(KeyCode::Char('j')));
    assert_eq!(ev, ListEvent::Nothing);
    assert_eq!(l.selected(), Some(1));
    let (l, _) = l.update(&press(KeyCode::Down));
    assert_eq!(l.selected(), Some(2));
    let (l, ev) = l.update(&press(KeyCode::Tab));
    assert_eq!(ev, ListEvent::FocusNext);
    assert_eq!(l.selected(), Some(2));
    let (l, _) = l.update(&press(KeyCode::Char('k')));
    assert_eq!(l.selected(), Some(1));
    let (l, _) = l.update(&press(KeyCode::Char('g')));
    assert_eq!(l.selected(), Some(0));
    let (l, ev) = l.update(&press_with(KeyCode::BackTab, KeyModifiers::shift()));
    assert_eq!(ev, ListEvent::FocusPrev);
    let (l, _) = l.update(&press_with(KeyCode::Char('g'), KeyModifiers::shift()));
    assert_eq!(l.selected(), Some(2));
}

#[test]
fn list_update_selects_first_when_none() {
    let l = focused_list(3).select(None);
    let (l, ev) = l.update(&press(KeyCode::Char('x')));
    assert_eq!(ev, ListEvent::Nothing);
    assert_eq!(l.selected(), Some(0));
}

#[test]
fn list_unfocused_ignores_events() {
    let mut l = List::new();
    l.set_len(3);
    let (l, ev) = l.update(&press(KeyCode::Down));
    assert_eq!(ev, ListEvent::Nothing);
    assert_eq!(l.selected(), Some(0));
    assert_eq!(l.highlighted(), None);
}

#[test]
fn list_event_converts_to_focus_event() {
    assert_eq!(FocusEvent::from(ListEvent::FocusNext), FocusEvent::Next);
    assert_eq!(FocusEvent::from(ListEvent::FocusPrev), FocusEvent::Prev);
    assert_eq!(FocusEvent::from(ListEvent::Nothing), FocusEvent::Nothing);
}

#[test]
fn list_keymaps_and_rect() {
    let mut l = List::new();
    assert_eq!(l.keymaps().len(), 1);
    assert_eq!(l.rect(), None);
    l.set_area(Rect::new(1, 1, 4, 4));
    assert_eq!(l.rect(), Some(Rect::new(1, 1, 4, 4)));
    l.set_hit(HitEvent::Clicked(1, 1));
    assert_eq!(l.hit_test(), HitEvent::Clicked(1, 1));
}

#[test]
fn list_pipes_into_focus_group() {
    let g = FocusGroup::<()>::new().items().next_untagged(&List::new()).next_untagged(&List::new()).commit();
    let l = focused_list(1);
    let (l, ev) = l.update(&press(KeyCode::Down));
    let (_, g) = g.pipe((l, ev.into()));
    assert_eq!(g.focused(), 1);
}

// ---------- button ----------

#[test]
fn button_enter_press_and_release() {
    let mut b = Button::new();
    b.set_focus(true);
    let (b, ev) = b.update(&press(KeyCode::Enter));
    assert_eq!(ev, ButtonEvent::Clicked);
    assert!(b.is_down());
    assert_eq!(b.look(), ButtonLook::Pressed);
    let (b, ev) = b.update(&release(KeyCode::Enter));
    assert_eq!(ev, ButtonEvent::Clicked);
    assert!(!b.is_down());
    assert_eq!(b.look(), ButtonLook::Hovered);
}

#[test]
fn button_mouse_inside_and_outside() {
    let mut b = Button::new();
    b.set_focus(true);
    b.set_area(Rect::new(0, 0, 4, 2));
    let (b, ev) = b.update(&mouse(MouseEventKind::Down(MouseButton::Left), 9, 9));
    assert_eq!(ev, ButtonEvent::Nothing);
    assert!(!b.is_down());
    let (b, ev) = b.update(&mouse(MouseEventKind::Down(MouseButton::Left), 1, 1));
    assert_eq!(ev, ButtonEvent::Clicked);
    assert!(b.is_down());
    let (b, ev) = b.update(&mouse(MouseEventKind::Up(MouseButton::Right), 1, 1));
    assert_eq!(ev, ButtonEvent::Nothing);
    assert!(b.is_down());
    let (b, ev) = b.update(&mouse(MouseEventKind::Up(MouseButton::Left), 1, 1));
    assert_eq!(ev, ButtonEvent::Nothing);
    assert!(!b.is_down());
}

#[test]
fn button_mouse_without_area_does_nothing() {
    let mut b = Button::new();
    b.set_focus(true);
    let (b, ev) = b.update(&mouse(MouseEventKind::Down(MouseButton::Left), 0, 0));
    assert_eq!(ev, ButtonEvent::Nothing);
    assert!(!b.is_down());
}

#[test]
fn button_unfocused_lets_go() {
    let mut b = Button::new();
    b.set_focus(true);
    let (mut b, _) = b.update(&press(KeyCode::Enter));
    b.set_focus(false);
    let (b, ev) = b.update(&press(KeyCode::Enter));
    assert_eq!(ev, ButtonEvent::Nothing);
    assert!(!b.is_down());
    assert_eq!(b.look(), ButtonLook::Normal);
}

#[test]
fn button_hover_look() {
    let mut b = Button::new();
    b.set_hit(HitEvent::Hovered(0, 0));
    assert_eq!(b.look(), ButtonLook::Hovered);
    assert_eq!(b.keymaps().len(), 4);
}

// ---------- pager ----------

#[test]
fn pager_scrolls_by() {
    let p = Pager::new().scroll_down_by(5);
    assert_eq!(p.offset(), Position::new(0, 5));
    let p = p.scroll_up_by(2);
    assert_eq!(p.offset(), Position::new(0, 3));
    let p = p.scroll_up_by(10);
    assert_eq!(p.offset(), Position::new(0, 0));
    let p = p.scroll_down().scroll_down().scroll_up();
    assert_eq!(p.offset(), Position::new(0, 1));
}

#[test]
fn pager_down_then_up_returns() {
    let p = Pager::new().scroll_down_by(7).scroll_down_by(3).scroll_up_by(3);
    assert_eq!(p.offset(), Position::new(0, 7));
}

#[test]
fn pager_keys() {
    let mut p = Pager::new();
    p.set_focus(true);
    let p = p.update(&press(KeyCode::Char('j')));
    let p = p.update(&press(KeyCode::Down));
    let p = p.update(&press(KeyCode::Char('l')));
    assert_eq!(p.offset(), Position::new(1, 2));
    let p = p.update(&press(KeyCode::Left));
    let p = p.update(&press(KeyCode::Char('k')));
    assert_eq!(p.offset(), Position::new(0, 1));
    let p = p.update(&press_with(KeyCode::Char('G'), KeyModifiers::shift()));
    assert_eq!(p.offset(), Position::new(0, u16::MAX));
    let p = p.update(&press(KeyCode::Char('g')));
    assert_eq!(p.offset(), Position::new(0, 0));
}

#[test]
fn pager_unfocused_ignores_keys() {
    let p = Pager::new().update(&press(KeyCode::Down));
    assert_eq!(p.offset(), Position::new(0, 0));
}

// ---------- text input ----------

#[test]
fn text_input_types_and_reads_back() {
    let t = typed("hey");
    assert_eq!(t.value(), "hey");
    assert_eq!(t.cursor(), 3);
}

#[test]
fn text_input_shift_types_upper_case() {
    let t = typed("a");
    let (t, _) = t.update(&press_with(KeyCode::Char('b'), KeyModifiers::shift()));
    assert_eq!(t.value(), "aB");
    let (t, _) = t.update(&press_with(KeyCode::Char('ß'), KeyModifiers::shift()));
    assert_eq!(t.value(), "aBSS");
    assert_eq!(t.cursor(), 3);
}

#[test]
fn text_input_ignores_control_chars() {
    let t = typed("ab");
    let (t, ev) = t.update(&press_with(KeyCode::Char('q'), KeyModifiers::alt()));
    assert_eq!(ev, TextInputEvent::Nothing);
    assert_eq!(t.value(), "ab");
}

#[test]
fn text_input_cursor_moves_and_inserts() {
    let t = typed("ac");
    let (t, _) = t.update(&press(KeyCode::Left));
    assert_eq!(t.cursor(), 1);
    let (t, _) = t.update(&press(KeyCode::Char('b')));
    assert_eq!(t.value(), "abc");
    let (t, _) = t.update(&press(KeyCode::Right));
    let (t, _) = t.update(&press(KeyCode::Right));
    assert_eq!(t.cursor(), 3);
    let (t, _) = t.update(&press(KeyCode::Left));
    let (t, _) = t.update(&press(KeyCode::Right));
    assert_eq!(t.cursor(), 3);
}

#[test]
fn text_input_backspace_pops_last() {
    let t = typed("abc");
    let (t, _) = t.update(&press(KeyCode::Left));
    let (t, _) = t.update(&press(KeyCode::Backspace));
    // the last character goes, wherever the cursor is
    assert_eq!(t.value(), "ab");
    assert_eq!(t.cursor(), 1);
}

#[test]
fn text_input_ctrl_backspace_clears() {
    let t = typed("abc");
    let (t, _) = t.update(&press_with(KeyCode::Backspace, KeyModifiers::control()));
    assert_eq!(t.value(), "");
    assert_eq!(t.cursor(), 0);
}

#[test]
fn text_input_enter_confirms() {
    let t = typed("x");
    let (t, ev) = t.update(&press(KeyCode::Enter));
    assert_eq!(ev, TextInputEvent::Confirm);
    assert_eq!(FocusEvent::from(ev), FocusEvent::Next);
    assert!(t.selection().is_none());
}

#[test]
fn text_input_click_places_cursor_and_selection() {
    let mut t = typed("hello");
    t.set_area(Rect::new(10, 0, 20, 1));
    t.set_hit(HitEvent::Clicked(14, 0));
    let (t, _) = t.update(&Event::FocusGained);
    assert_eq!(t.cursor(), 2);
    let sel = t.selection().unwrap();
    assert_eq!((sel.start, sel.end), (2, 2));
}

#[test]
fn text_input_click_past_text_clamps() {
    let mut t = typed("hi");
    t.set_area(Rect::new(0, 0, 20, 1));
    t.set_hit(HitEvent::Clicked(15, 0));
    let (t, _) = t.update(&Event::FocusGained);
    assert_eq!(t.cursor(), 2);
}

#[test]
fn text_input_shift_arrows_select_and_cut() {
    let mut t = typed("hello");
    t.set_area(Rect::new(0, 0, 20, 1));
    // shift+left from the end: the stretched end is read as a screen column,
    // two columns of prompt before the text, so the selection starts at 2
    let (t, _) = t.update(&press_with(KeyCode::Left, KeyModifiers::shift()));
    assert_eq!(t.cursor(), 4);
    let sel = t.selection().unwrap();
    assert_eq!((sel.start, sel.end), (2, 5));
    let (t, _) = t.update(&press_with(KeyCode::Char('x'), KeyModifiers::control()));
    let mut t = t;
    // the inclusive end lies past the text: nothing is copied, 2..5 is cut
    assert_eq!(t.take_clipboard(), Some(String::new()));
    assert_eq!(t.value(), "he");
    assert_eq!(t.cursor(), 2);
    assert!(t.take_clipboard().is_none());
}

#[test]
fn text_input_copy_selection() {
    let mut t = typed("hello");
    t.set_area(Rect::new(0, 0, 20, 1));
    t.set_hit(HitEvent::Clicked(3, 0));
    let (mut t, _) = t.update(&Event::FocusGained);
    t.set_hit(HitEvent::Nothing);
    let (t, _) = t.update(&press_with(KeyCode::Right, KeyModifiers::shift()));
    let sel = t.selection().unwrap();
    assert_eq!((sel.start, sel.end), (0, 1));
    assert_eq!(t.cursor(), 2);
    let (mut t, _) = t.update(&press_with(KeyCode::Char('c'), KeyModifiers::control()));
    assert_eq!(t.take_clipboard(), Some(String::from("he")));
    assert_eq!(t.value(), "hello");
}

#[test]
fn text_input_typing_replaces_selection() {
    let mut t = typed("hello");
    t.set_area(Rect::new(0, 0, 20, 1));
    t.set_hit(HitEvent::Clicked(3, 0));
    let (mut t, _) = t.update(&Event::FocusGained);
    t.set_hit(HitEvent::Nothing);
    let (t, _) = t.update(&press(KeyCode::Char('X')));
    // an empty selection removes nothing: the character is typed at the click
    assert_eq!(t.value(), "hXello");
    assert_eq!(t.cursor(), 2);
}

#[test]
fn text_input_unfocused_ignores() {
    let t = TextInput::new();
    let (t, ev) = t.update(&press(KeyCode::Char('a')));
    assert_eq!(ev, TextInputEvent::Nothing);
    assert_eq!(t.value(), "");
}

#[test]
fn text_input_cursor_cell_and_display() {
    let mut t = typed("abcd");
    assert_eq!(t.cursor_cell(), None);
    t.set_area(Rect::new(5, 7, 20, 1));
    assert_eq!(t.cursor_cell(), Some((11, 7)));
    let (a, b, c) = t.display_parts();
    assert_eq!(a, vec!['a', 'b', 'c', 'd']);
    assert!(b.is_empty() && c.is_empty());
}

#[test]
fn split_three_clamps() {
    let s: Vec<char> = "abcdef".chars().collect();
    let (a, b, c) = split_three_split_at(&s, 1, 3);
    assert_eq!((a.len(), b.len(), c.len()), (1, 2, 3));
    let (a, b, c) = split_three_split_at(&s, 4, 2);
    assert_eq!((a, b.len(), c.len()), (vec!['a', 'b', 'c', 'd'], 0, 2));
    let (a, b, c) = split_three_split_at(&s, 9, 12);
    assert_eq!((a.len(), b.len(), c.len()), (6, 0, 0));
}

#[test]
fn compact_list_size() {
    assert_eq!(compact_size(&vec![3, 7, 5], &vec![1, 2, 1]), (7, 4));
    assert_eq!(compact_size(&vec![], &vec![]), (0, 0));
    // counts past 16 bits are cut
    assert_eq!(compact_size(&vec![70_000], &vec![65_536, 2]), (4_464, 2));
}

#[test]
fn text_input_cursor_stays_in_text() {
    let mut t = typed("abc");
    t.set_area(Rect::new(0, 0, 20, 1));
    let events = vec![
        press(KeyCode::Right),
        press(KeyCode::Right),
        press(KeyCode::Backspace),
        press(KeyCode::Backspace),
        press(KeyCode::Left),
        press_with(KeyCode::Char('s'), KeyModifiers::shift()),
        press(KeyCode::Backspace),
        press(KeyCode::Backspace),
        press(KeyCode::Backspace),
        press(KeyCode::Backspace),
        press(KeyCode::Right),
    ];
    for ev in events {
        t = t.update(&ev).0;
        assert!((t.cursor() as usize) <= t.value().chars().count());
        assert!(t.value().is_ascii());
    }
}

#[test]
fn list_selection_stays_in_list() {
    let mut l = focused_list(3);
    for code in [KeyCode::Down, KeyCode::Down, KeyCode::Down, KeyCode::Up, KeyCode::Char('g')] {
        l = l.update(&press(code)).0;
        assert!(l.selected().map_or(true, |i| i < 3));
    }
    let (l, _) = l.update(&press_with(KeyCode::Char('g'), KeyModifiers::shift()));
    assert_eq!(l.selected(), Some(2));
}

#[test]
fn text_input_inserts_at_cursor_after_focus() {
    let mut t = TextInput::new();
    t.set_focus(true);
    t = t.update(&press(KeyCode::Char('a'))).0;
    t = t.update(&press_with(KeyCode::Char('b'), KeyModifiers::shift())).0;
    t = t.update(&press(KeyCode::Left)).0;
    assert_eq!(t.value(), "aB");
    assert_eq!(t.cursor(), 1);
    let (t, ev) = t.update(&press(KeyCode::Char('c')));
    assert_eq!(ev, TextInputEvent::Nothing);
    assert_eq!(t.value(), "acB");
    assert_eq!(t.cursor(), 2);
}

#[test]
fn list_of_three_hands_focus_on_at_the_end() {
    let mut l = List::new();
    l.set_focus(true);
    l.set_len(3);
    l = l.update(&press(KeyCode::Down)).0;
    l = l.update(&press(KeyCode::Down)).0;
    assert_eq!(l.selected(), Some(2));
    let (l, ev) = l.update(&press(KeyCode::Down));
    assert_eq!(l.selected(), Some(2));
    assert_eq!(ev, ListEvent::FocusNext);
}

#[test]
fn text_input_positions_count_bytes() {
    let mut t = TextInput::new();
    t.set_focus(true);
    t = t.update(&press(KeyCode::Char('é'))).0;
    // the cursor moves one byte, into the middle of the two bytes of 'é'
    assert_eq!(t.cursor(), 1);
    t = t.update(&press(KeyCode::Right)).0;
    assert_eq!(t.cursor(), 2);
    t = t.update(&press(KeyCode::Char('x'))).0;
    assert_eq!(t.value(), "éx");
    assert_eq!(t.cursor(), 3);
    t.set_area(Rect::new(0, 0, 20, 1));
    t.set_hit(HitEvent::Clicked(30, 0));
    let (t, _) = t.update(&Event::FocusGained);
    // a click past the end puts the cursor after the last byte
    assert_eq!(t.cursor(), 3);
}

#[test]
fn text_input_cut_between_characters() {
    let mut t = typed("ab");
    t.set_area(Rect::new(0, 0, 20, 1));
    t = t.update(&press(KeyCode::Char('é'))).0;
    assert_eq!(t.value(), "abé");
    // select bytes 2..=3 by a click at byte 2 and shift+right
    t.set_hit(HitEvent::Clicked(4, 0));
    let (mut t, _) = t.update(&Event::FocusGained);
    t.set_hit(HitEvent::Nothing);
    assert_eq!(t.cursor(), 2);
    let (mut t, _) = t.update(&press_with(KeyCode::Char('c'), KeyModifiers::control()));
    // the empty selection 2..=2 ends inside 'é': nothing is copied
    assert_eq!(t.take_clipboard(), Some(String::new()));
    assert_eq!(t.value(), "abé");
}

#[test]
fn text_input_placeholder_only_when_empty() {
    let t = TextInput::new();
    assert!(t.shows_placeholder());
    assert!(!typed("a").shows_placeholder());
}
