use manatui::runtime::{inline_exit_row, is_hot_loop, receive_mode, runtime_action, shown_cursor, CursorAt, Incoming, Receive, RuntimeAction};

#[test]
fn runtime_actions() {
    assert_eq!(runtime_action(Incoming::FrameElapsed), RuntimeAction::Rerender);
    assert_eq!(runtime_action(Incoming::Terminal), RuntimeAction::HandleTerminal);
    assert_eq!(runtime_action(Incoming::App { quit: true, more_queued: true }), RuntimeAction::Quit);
    assert_eq!(runtime_action(Incoming::App { quit: true, more_queued: false }), RuntimeAction::Quit);
    assert_eq!(runtime_action(Incoming::App { quit: false, more_queued: true }), RuntimeAction::UpdateOnly);
    assert_eq!(runtime_action(Incoming::App { quit: false, more_queued: false }), RuntimeAction::UpdateAndRerender);
}

#[test]
fn hot_loop_when_any_element_asks() {
    assert!(!is_hot_loop(0));
    assert!(is_hot_loop(1));
    assert!(is_hot_loop(7));
}

#[test]
fn inline_exit_rows() {
    assert_eq!(inline_exit_row(20, 5), 16);
    assert_eq!(inline_exit_row(3, 5), 1);
    assert_eq!(inline_exit_row(5, 5), 1);
    assert_eq!(inline_exit_row(0, 0), 1);
}

#[test]
fn first_cursor_is_shown() {
    assert_eq!(shown_cursor(&vec![]), None);
    assert_eq!(shown_cursor(&vec![CursorAt(3, 4), CursorAt(1, 1)]), Some(CursorAt(3, 4)));
}

#[test]
fn hot_loop_waits_one_frame() {
    assert_eq!(receive_mode(0), Receive::Wait);
    assert_eq!(receive_mode(2), Receive::WithinFrame);
}
