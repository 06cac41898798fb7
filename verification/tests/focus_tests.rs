use manatui::components::button::Button;
use manatui::components::list::List;
use manatui::components::text_input::TextInput;
use manatui::event::{Event, KeyCode, KeyEvent, KeyEventKind, KeyEventState, KeyModifiers, MouseEvent, MouseEventKind, MouseButton};
use manatui::focus::{
    default_keymap, vim_ctrl_keymap_no_cycle, EventOutcome, Focus, FocusEvent, FocusGroup, FocusItem,
    KeyMap, Transitions,
};
use manatui::geometry::Rect;
use manatui::observe::HitEvent;

fn item(x: u16, y: u16, hit: HitEvent) -> FocusItem {
    FocusItem { rect: Some(Rect::new(x, y, 5, 1)), keymaps: vec![default_keymap()], hit }
}

fn key(code: KeyCode, modifiers: KeyModifiers) -> Event {
    Event::Key(KeyEvent::new(code, modifiers))
}

fn group_of(items: Vec<FocusItem>) -> FocusGroup<()> {
    let mut g = FocusGroup::<()>::new().items();
    for it in items {
        g = g.next_dyn_untagged(it);
    }
    g.commit()
}

#[test]
fn new_group_is_empty() {
    let g = FocusGroup::<u8>::new();
    assert_eq!(g.focused(), 0);
    assert_eq!(g.len(), 0);
    assert_eq!(g.focused_tag(), None);
    assert_eq!(g.transitions(), Transitions::splat(0));
}

#[test]
fn focus_next_stops_at_last() {
    let g = group_of(vec![item(0, 0, HitEvent::Nothing), item(0, 2, HitEvent::Nothing), item(0, 4, HitEvent::Nothing)]);
    assert_eq!(g.len(), 3);
    let g = g.focus_next();
    assert_eq!(g.focused(), 1);
    let g = g.focus_next().focus_next().focus_next();
    assert_eq!(g.focused(), 2);
}

#[test]
fn focus_prev_stops_at_first() {
    let g = group_of(vec![item(0, 0, HitEvent::Nothing), item(0, 2, HitEvent::Nothing)]);
    let g = g.focus_prev();
    assert_eq!(g.focused(), 0);
}

#[test]
fn focus_next_then_prev_returns() {
    let g = group_of(vec![item(0, 0, HitEvent::Nothing), item(0, 2, HitEvent::Nothing), item(0, 4, HitEvent::Nothing)]);
    let g = g.focus_at(1);
    let g = g.focus_next().focus_prev();
    assert_eq!(g.focused(), 1);
}

#[test]
fn focus_at_clamps() {
    let g = group_of(vec![item(0, 0, HitEvent::Nothing), item(0, 2, HitEvent::Nothing)]);
    assert_eq!(g.focus_at(57).focused(), 1);
    let empty = FocusGroup::<()>::new();
    assert_eq!(empty.focus_at(3).focused(), 0);
}

#[test]
fn commit_focuses_clicked_item() {
    let g = group_of(vec![
        item(0, 0, HitEvent::Nothing),
        item(0, 2, HitEvent::Clicked(1, 2)),
        item(0, 4, HitEvent::Clicked(1, 4)),
    ]);
    assert_eq!(g.focused(), 1);
}

#[test]
fn commit_keeps_index_without_click() {
    let g = group_of(vec![item(0, 0, HitEvent::Nothing), item(0, 2, HitEvent::Hovered(0, 2))]);
    let g = g.focus_at(1);
    let g = g
        .items()
        .next_dyn_untagged(item(0, 0, HitEvent::Nothing))
        .next_dyn_untagged(item(0, 2, HitEvent::Nothing))
        .commit();
    assert_eq!(g.focused(), 1);
}

#[test]
fn commit_finds_nearest_in_each_direction() {
    // focused element in the middle of a cross, with a farther element below
    let g = group_of(vec![
        item(10, 10, HitEvent::Clicked(10, 10)),
        item(10, 14, HitEvent::Nothing), // down, distance 4
        item(10, 12, HitEvent::Nothing), // down, distance 2: nearest
        item(10, 5, HitEvent::Nothing),  // up
        item(20, 10, HitEvent::Nothing), // right
        item(2, 11, HitEvent::Nothing),  // left (horizontal distance 8 > vertical 1)
    ]);
    assert_eq!(g.focused(), 0);
    let t = g.transitions();
    assert_eq!(t.down, 2);
    assert_eq!(t.up, 3);
    assert_eq!(t.right, 4);
    assert_eq!(t.left, 5);
}

#[test]
fn commit_without_neighbours_stays() {
    let g = group_of(vec![item(0, 0, HitEvent::Nothing)]);
    assert_eq!(g.transitions(), Transitions::splat(0));
}

#[test]
fn commit_records_tag() {
    let g = FocusGroup::<char>::new()
        .items()
        .next_dyn((item(0, 0, HitEvent::Nothing), 'a'))
        .next_dyn((item(0, 1, HitEvent::Clicked(0, 1)), 'b'))
        .commit();
    assert_eq!(g.focused_tag(), Some('b'));
}

#[test]
fn update_tab_moves_next() {
    let g = group_of(vec![item(0, 0, HitEvent::Nothing), item(0, 2, HitEvent::Nothing)]);
    match g.update(&key(KeyCode::Tab, KeyModifiers::none())) {
        EventOutcome::Consumed(g) => assert_eq!(g.focused(), 1),
        EventOutcome::Unhandled(_) => panic!("tab should be consumed"),
    }
}

#[test]
fn update_shift_backtab_moves_prev() {
    let g = group_of(vec![item(0, 0, HitEvent::Nothing), item(0, 2, HitEvent::Nothing)]).focus_at(1);
    let g = g.update(&key(KeyCode::BackTab, KeyModifiers::shift()));
    assert!(matches!(g, EventOutcome::Consumed(_)));
    assert_eq!(g.into_inner().focused(), 0);
}

#[test]
fn update_arrow_follows_transition() {
    let g = group_of(vec![item(0, 0, HitEvent::Clicked(0, 0)), item(0, 3, HitEvent::Nothing)]);
    let g = g.update(&key(KeyCode::Down, KeyModifiers::none())).into_inner();
    assert_eq!(g.focused(), 1);
}

#[test]
fn update_unknown_key_unhandled() {
    let g = group_of(vec![item(0, 0, HitEvent::Nothing), item(0, 2, HitEvent::Nothing)]);
    let out = g.update(&key(KeyCode::Char('q'), KeyModifiers::none()));
    assert!(matches!(out, EventOutcome::Unhandled(_)));
}

#[test]
fn update_mouse_unhandled() {
    let g = group_of(vec![item(0, 0, HitEvent::Nothing), item(0, 2, HitEvent::Nothing)]);
    let m = MouseEvent { kind: MouseEventKind::Down(MouseButton::Left), column: 0, row: 0, modifiers: KeyModifiers::none() };
    let out = g.update(&Event::Mouse(m));
    match out {
        EventOutcome::Unhandled(g) => assert_eq!(g.focused(), 0),
        _ => panic!("mouse events are not the group's"),
    }
}

#[test]
fn update_release_of_tab_is_unhandled() {
    // the key maps compare kinds, so a release does not match a press
    let g = group_of(vec![item(0, 0, HitEvent::Nothing), item(0, 2, HitEvent::Nothing)]);
    let ev = Event::Key(KeyEvent { code: KeyCode::Tab, modifiers: KeyModifiers::none(), kind: KeyEventKind::Release, state: KeyEventState::empty() });
    assert!(matches!(g.update(&ev), EventOutcome::Unhandled(_)));
}

#[test]
fn handle_event_and_pipe() {
    let g = group_of(vec![item(0, 0, HitEvent::Nothing), item(0, 2, HitEvent::Nothing)]);
    let g = g.handle_event(FocusEvent::Nothing);
    assert_eq!(g.focused(), 0);
    let (v, g) = g.pipe((7u8, FocusEvent::Next));
    assert_eq!(v, 7);
    assert_eq!(g.focused(), 1);
    let g = g.handle_event(FocusEvent::Prev);
    assert_eq!(g.focused(), 0);
}

#[test]
fn into_inner_both_ways() {
    assert_eq!(EventOutcome::Consumed(3).into_inner(), 3);
    assert_eq!(EventOutcome::Unhandled(4).into_inner(), 4);
}

#[test]
fn keymap_without_cycle_has_no_next() {
    let m: KeyMap = vim_ctrl_keymap_no_cycle();
    assert!(m.next.is_none());
    assert!(m.prev.is_none());
    assert_eq!(m.down, Some(KeyEvent::new(KeyCode::Char('j'), KeyModifiers::control())));
}

#[test]
fn default_focus_event_is_nothing() {
    assert_eq!(FocusEvent::default(), FocusEvent::Nothing);
}

#[test]
fn apply_focus_after_commit() {
    let mut a = List::new();
    let mut b = TextInput::new();
    let mut c = Button::new();
    c.set_hit(HitEvent::Clicked(0, 0));
    let g = FocusGroup::<u8>::new().items().next((&a, 1)).next((&b, 2)).next((&c, 3)).commit();
    assert_eq!(g.focused(), 2);
    assert_eq!(g.focused_tag(), Some(3));
    g.apply_focus(0, &mut a);
    g.apply_focus(1, &mut b);
    g.apply_focus(2, &mut c);
    assert!(!a.focus());
    assert!(!b.focus());
    assert!(c.focus());
}

#[test]
fn focus_prev_then_next_returns() {
    let g = group_of(vec![item(0, 0, HitEvent::Nothing), item(0, 2, HitEvent::Nothing), item(0, 4, HitEvent::Nothing)]);
    let g = g.focus_at(2).focus_prev().focus_next();
    assert_eq!(g.focused(), 2);
}

#[test]
fn update_changes_only_the_focus() {
    let g = group_of(vec![item(0, 0, HitEvent::Clicked(0, 0)), item(0, 3, HitEvent::Nothing)]);
    let (len, transitions, tag) = (g.len(), g.transitions(), g.focused_tag());
    let g = g.update(&key(KeyCode::Down, KeyModifiers::none())).into_inner();
    assert_eq!(g.focused(), 1);
    assert_eq!((g.len(), g.transitions(), g.focused_tag()), (len, transitions, tag));
}

#[test]
fn handle_nothing_keeps_focus() {
    let g = group_of(vec![item(0, 0, HitEvent::Nothing), item(0, 2, HitEvent::Nothing)]).focus_at(1);
    assert_eq!(g.handle_event(FocusEvent::Nothing).focused(), 1);
}

#[test]
fn commit_focusing_focuses_first_clicked_only() {
    let mut lists = vec![List::new(), List::new(), List::new()];
    lists[0].set_focus(true);
    lists[1].set_hit(HitEvent::Clicked(0, 0));
    lists[2].set_hit(HitEvent::Clicked(0, 0));
    let items = FocusGroup::<u8>::new().items().next((&lists[0], 0)).next((&lists[1], 1)).next((&lists[2], 2));
    let g = items.commit_focusing(&mut lists);
    assert_eq!(g.focused(), 1);
    assert_eq!(g.focused_tag(), Some(1));
    assert!(!lists[0].focus());
    assert!(lists[1].focus());
    assert!(!lists[2].focus());
    assert_eq!(lists[2].hit_test(), HitEvent::Clicked(0, 0));
}

#[test]
fn commit_focusing_keeps_index_without_click() {
    let mut lists = vec![List::new(), List::new()];
    let g0 = FocusGroup::<()>::new().items().next_untagged(&lists[0]).next_untagged(&lists[1]).commit().focus_at(1);
    let items = g0.items().next_untagged(&lists[0]).next_untagged(&lists[1]);
    let g = items.commit_focusing(&mut lists);
    assert_eq!(g.focused(), 1);
    assert!(!lists[0].focus());
    assert!(lists[1].focus());
}
