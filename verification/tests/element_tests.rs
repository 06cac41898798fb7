use manatui::ui::UiNode;
use manatui::element::ElementCtx;

#[test]
fn new_world_is_empty() {
    let ctx = ElementCtx::new();
    assert!(!ctx.contains(0));
    assert!(!ctx.contains(1));
}

#[test]
fn spawned_elements_are_alive_with_their_children() {
    let mut ctx = ElementCtx::new();
    let a = ctx.spawn_leaf();
    let b = ctx.spawn_leaf();
    let p = ctx.spawn_node(vec![a, b]);
    assert!(ctx.contains(a) && ctx.contains(b) && ctx.contains(p));
    assert_ne!(a, b);
    assert_eq!(ctx.children_of(p), Some(vec![a, b]));
    assert_eq!(ctx.children_of(a), None);
}

#[test]
fn despawn_ui_removes_the_whole_subtree() {
    let mut ctx = ElementCtx::new();
    let leaf1 = ctx.spawn_leaf();
    let leaf2 = ctx.spawn_leaf();
    let inner = ctx.spawn_node(vec![leaf2]);
    let root = ctx.spawn_node(vec![leaf1, inner]);
    let other = ctx.spawn_leaf();
    ctx.despawn_ui(root);
    for e in [root, leaf1, inner, leaf2] {
        assert!(!ctx.contains(e));
    }
    assert!(ctx.contains(other));
    assert_eq!(ctx.children_of(other), None);
}

#[test]
fn despawn_ui_of_a_child_keeps_the_parent() {
    let mut ctx = ElementCtx::new();
    let leaf = ctx.spawn_leaf();
    let sibling = ctx.spawn_leaf();
    let root = ctx.spawn_node(vec![leaf, sibling]);
    ctx.despawn_ui(leaf);
    assert!(!ctx.contains(leaf));
    assert!(ctx.contains(root) && ctx.contains(sibling));
    // the parent still names the child it held
    assert_eq!(ctx.children_of(root), Some(vec![leaf, sibling]));
}

#[test]
fn despawn_ui_of_a_dead_element_changes_nothing() {
    let mut ctx = ElementCtx::new();
    let leaf = ctx.spawn_leaf();
    ctx.despawn_ui(leaf);
    let keep = ctx.spawn_leaf();
    ctx.despawn_ui(leaf);
    assert!(ctx.contains(keep));
}


fn sample_ui() -> Vec<UiNode> {
    vec![
        UiNode { children: Some(vec![1, 2]) },
        UiNode { children: None },
        UiNode { children: Some(vec![3]) },
        UiNode { children: Some(vec![]) },
    ]
}

#[test]
fn spawn_ui_builds_the_tree() {
    let mut ctx = ElementCtx::new();
    let before = ctx.spawn_leaf();
    let root = ctx.spawn_ui(&sample_ui());
    assert_ne!(root, before);
    let kids = ctx.children_of(root).unwrap();
    assert_eq!(kids.len(), 2);
    assert_eq!(ctx.children_of(kids[0]), None);
    assert!(ctx.contains(kids[0]));
    let grand = ctx.children_of(kids[1]).unwrap();
    assert_eq!(grand.len(), 1);
    assert_eq!(ctx.children_of(grand[0]), Some(vec![]));
    assert_eq!(ctx.parent_of(root), None);
    assert_eq!(ctx.parent_of(kids[0]), Some(root));
    assert_eq!(ctx.parent_of(kids[1]), Some(root));
    assert_eq!(ctx.parent_of(grand[0]), Some(kids[1]));
    assert_eq!(ctx.parent_of(before), None);
    let mut all = vec![before, root, kids[0], kids[1], grand[0]];
    all.sort();
    all.dedup();
    assert_eq!(all.len(), 5);
}

#[test]
fn spawn_ui_single_leaf() {
    let mut ctx = ElementCtx::new();
    let root = ctx.spawn_ui(&vec![UiNode { children: None }]);
    assert!(ctx.contains(root));
    assert_eq!(ctx.children_of(root), None);
}

#[test]
fn spawn_then_despawn_restores_the_world() {
    let mut ctx = ElementCtx::new();
    let keep = ctx.spawn_leaf();
    let root = ctx.spawn_ui(&sample_ui());
    let kids = ctx.children_of(root).unwrap();
    let grand = ctx.children_of(kids[1]).unwrap();
    ctx.despawn_ui(root);
    for e in [root, kids[0], kids[1], grand[0]] {
        assert!(!ctx.contains(e));
        assert_eq!(ctx.parent_of(e), None);
    }
    assert!(ctx.contains(keep));
}
