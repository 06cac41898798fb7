use manatui::event::{KeyModifiers, MouseButton, MouseEvent, MouseEventKind};
use manatui::geometry::Rect;
use manatui::observe::{hit_for, AreaRef, HitEvent, HitNode, HitTest};

fn mouse(kind: MouseEventKind, column: u16, row: u16) -> MouseEvent {
    MouseEvent { kind, column, row, modifiers: KeyModifiers::none() }
}

#[test]
fn area_ref_get_set_contains() {
    let mut a = AreaRef::empty();
    assert_eq!(a.get(), None);
    assert!(!a.contains(0, 0));
    a.set(Rect::new(2, 3, 4, 5));
    assert_eq!(a.get(), Some(Rect::new(2, 3, 4, 5)));
    assert!(a.contains(2, 3));
    assert!(a.contains(5, 7));
    assert!(!a.contains(6, 7));
    assert!(!a.contains(5, 8));
    assert!(!a.contains(1, 3));
    assert_eq!(AreaRef::new(Rect::new(0, 0, 1, 1)).get(), Some(Rect::new(0, 0, 1, 1)));
}

#[test]
fn hit_test_get_set() {
    let mut h = HitTest::empty();
    assert_eq!(h.get(), HitEvent::Nothing);
    h.set(HitEvent::Clicked(1, 2));
    assert_eq!(h.get(), HitEvent::Clicked(1, 2));
    assert_eq!(HitTest::new(HitEvent::Hovered(3, 4)).get(), HitEvent::Hovered(3, 4));
}

#[test]
fn hit_for_kinds() {
    let area = Rect::new(10, 10, 5, 2);
    assert_eq!(hit_for(area, mouse(MouseEventKind::Down(MouseButton::Left), 12, 11)), HitEvent::Clicked(12, 11));
    assert_eq!(hit_for(area, mouse(MouseEventKind::Moved, 10, 10)), HitEvent::Hovered(10, 10));
    assert_eq!(hit_for(area, mouse(MouseEventKind::Drag(MouseButton::Left), 12, 11)), HitEvent::Nothing);
    assert_eq!(hit_for(area, mouse(MouseEventKind::ScrollDown, 12, 11)), HitEvent::Nothing);
    assert_eq!(hit_for(area, mouse(MouseEventKind::Down(MouseButton::Left), 15, 11)), HitEvent::Nothing);
}

fn tree() -> (Vec<HitNode>, Vec<Option<HitTest>>) {
    // 0 covers everything; 1 and 2 are its children; 3 is a child of 2; 4 is outside the tree of 0
    let nodes = vec![
        HitNode { area: Rect::new(0, 0, 20, 10), children: vec![1, 2] },
        HitNode { area: Rect::new(0, 0, 5, 5), children: vec![] },
        HitNode { area: Rect::new(5, 0, 10, 5), children: vec![3] },
        HitNode { area: Rect::new(6, 1, 2, 2), children: vec![] },
        HitNode { area: Rect::new(0, 0, 20, 10), children: vec![] },
    ];
    let hits = vec![
        Some(HitTest::new(HitEvent::Hovered(9, 9))),
        Some(HitTest::new(HitEvent::Clicked(0, 0))),
        None,
        Some(HitTest::empty()),
        Some(HitTest::empty()),
    ];
    (nodes, hits)
}

#[test]
fn hit_test_walks_the_subtree() {
    let (nodes, mut hits) = tree();
    HitTest::hit_test(&nodes, &mut hits, 0, mouse(MouseEventKind::Down(MouseButton::Left), 6, 1));
    assert_eq!(hits[0].unwrap().get(), HitEvent::Clicked(6, 1));
    assert_eq!(hits[1].unwrap().get(), HitEvent::Nothing);
    assert!(hits[2].is_none());
    assert_eq!(hits[3].unwrap().get(), HitEvent::Clicked(6, 1));
    // outside the subtree of the root: untouched
    assert_eq!(hits[4].unwrap().get(), HitEvent::Nothing);
}

#[test]
fn hit_test_from_inner_root() {
    let (nodes, mut hits) = tree();
    HitTest::hit_test(&nodes, &mut hits, 2, mouse(MouseEventKind::Moved, 7, 2));
    assert_eq!(hits[0].unwrap().get(), HitEvent::Hovered(9, 9));
    assert_eq!(hits[1].unwrap().get(), HitEvent::Clicked(0, 0));
    assert_eq!(hits[3].unwrap().get(), HitEvent::Hovered(7, 2));
}

#[test]
fn hit_test_ignores_release() {
    let (nodes, mut hits) = tree();
    HitTest::hit_test(&nodes, &mut hits, 0, mouse(MouseEventKind::Up(MouseButton::Left), 1, 1));
    assert_eq!(hits[0].unwrap().get(), HitEvent::Hovered(9, 9));
    assert_eq!(hits[1].unwrap().get(), HitEvent::Clicked(0, 0));
    assert_eq!(hits[3].unwrap().get(), HitEvent::Nothing);
}
