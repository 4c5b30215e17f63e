use niri_waybar_windowlist::clicks::IpcAction;
use niri_waybar_windowlist::drag::{
    drag_motion, parse_window_id, target_column_index, DragMotion, Reposition, RepositionStep,
    WindowSummary,
};

fn sent(step: RepositionStep) -> IpcAction {
    match step {
        RepositionStep::Send(a) => a,
        RepositionStep::QueryWindows => panic!("expected a request, got a query"),
        RepositionStep::Done => panic!("expected a request, got the end"),
    }
}

#[test]
fn drags_focus_or_reorder() {
    assert!(drag_motion(true, true, false, false, 0, 0) == DragMotion::StartHoverTimer);
    assert!(drag_motion(true, true, true, false, 0, 0) == DragMotion::Nothing);
    assert!(drag_motion(true, false, false, false, 0, 0) == DragMotion::Nothing);
    assert!(drag_motion(false, true, false, false, 1, 3) == DragMotion::MoveTo(3));
    assert!(drag_motion(false, true, false, true, 1, 3) == DragMotion::Nothing);
    assert!(drag_motion(false, true, false, false, 2, 2) == DragMotion::Nothing);
}

#[test]
fn drag_data_carries_the_window_id() {
    assert_eq!(parse_window_id("123"), Some(123));
    assert_eq!(parse_window_id("+7"), Some(7));
    assert_eq!(parse_window_id("18446744073709551615"), Some(u64::MAX));
    assert_eq!(parse_window_id("18446744073709551616"), None);
    assert_eq!(parse_window_id("-1"), None);
    assert_eq!(parse_window_id(""), None);
    assert_eq!(parse_window_id("12a"), None);
}

#[test]
fn column_targets_stay_positive() {
    assert_eq!(target_column_index(3, 2), 5);
    assert_eq!(target_column_index(3, -5), 1);
    assert_eq!(target_column_index(usize::MAX, -1), (i32::MAX - 1) as usize);
}

#[test]
fn stacked_window_leaves_its_column_and_focus_returns() {
    let (mut r, step) = Reposition::reposition_window(2, 1, false);
    assert!(matches!(step, RepositionStep::QueryWindows));
    let windows = vec![
        WindowSummary { id: 1, is_focused: true, pos: Some((1, 1)) },
        WindowSummary { id: 2, is_focused: false, pos: Some((1, 2)) },
    ];
    assert!(sent(r.on_windows(&windows)) == IpcAction::FocusWindow { id: 2 });
    assert!(sent(r.on_handled()) == IpcAction::ExpelWindowFromColumn);
    assert!(matches!(r.on_handled(), RepositionStep::QueryWindows));
    let after = vec![
        WindowSummary { id: 1, is_focused: false, pos: Some((1, 1)) },
        WindowSummary { id: 2, is_focused: true, pos: Some((2, 1)) },
    ];
    assert!(sent(r.on_windows(&after)) == IpcAction::MoveColumnToIndex { index: 3 });
    assert!(sent(r.on_handled()) == IpcAction::FocusWindow { id: 1 });
    assert!(matches!(r.on_handled(), RepositionStep::Done));
}

#[test]
fn kept_stack_and_missing_windows() {
    let (mut r, _) = Reposition::reposition_window(2, -1, true);
    let windows = vec![WindowSummary { id: 2, is_focused: true, pos: Some((4, 2)) }];
    assert!(sent(r.on_windows(&windows)) == IpcAction::FocusWindow { id: 2 });
    assert!(sent(r.on_handled()) == IpcAction::MoveColumnToIndex { index: 3 });
    assert!(matches!(r.on_handled(), RepositionStep::Done));
    let (mut r, _) = Reposition::reposition_window(8, 1, false);
    assert!(matches!(r.on_windows(&windows), RepositionStep::Done));
    let (_, step) = Reposition::reposition_window(8, 0, false);
    assert!(matches!(step, RepositionStep::Done));
}

#[test]
fn moves_that_leave_the_column_range_do_not_fit() {
    let (flow, _) = Reposition::reposition_window(7, 2, false);
    let windows = vec![
        WindowSummary { id: 7, is_focused: false, pos: Some((3, 1)) },
        WindowSummary { id: 8, is_focused: true, pos: None },
    ];
    assert!(flow.windows_fit(&windows));
    let far = vec![WindowSummary { id: 7, is_focused: false, pos: Some((2147483646, 1)) }];
    assert!(!flow.windows_fit(&far));
    let (max, _) = Reposition::reposition_window(7, i32::MAX, false);
    assert!(!max.windows_fit(&vec![]));
}
