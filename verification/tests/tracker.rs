use niri_waybar_windowlist::tracker::{CompositorEvent, NiriEvent, WindowTracker};
use niri_waybar_windowlist::windows::{Window, WindowInfo, WindowLayout, Workspace};

fn window(id: u64, workspace: u64, pos: Option<(usize, usize)>, focused: bool) -> Window {
    Window {
        id,
        title: Some(format!("title {id}")),
        app_id: Some("foot".to_string()),
        pid: Some(100 + id as i32),
        workspace_id: Some(workspace),
        is_focused: focused,
        is_urgent: false,
        layout: WindowLayout { pos_in_scrolling_layout: pos },
    }
}

fn workspace(id: u64, idx: u8, output: &str, active: bool) -> Workspace {
    Workspace {
        id,
        idx,
        name: None,
        output: Some(output.to_string()),
        is_active: active,
    }
}

fn snapshot_ids(events: &[CompositorEvent]) -> Vec<u64> {
    assert_eq!(events.len(), 1);
    match &events[0] {
        CompositorEvent::FullSnapshot(s) => s.iter().map(|w: &WindowInfo| w.inner.id).collect(),
        _ => panic!("expected a snapshot"),
    }
}

fn ready_tracker(only_current: bool) -> WindowTracker {
    let mut t = WindowTracker::new();
    let out = t.process_event(
        NiriEvent::WindowsChanged {
            windows: vec![
                window(3, 1, Some((2, 1)), false),
                window(1, 1, Some((1, 1)), true),
                window(2, 2, Some((1, 1)), false),
            ],
        },
        only_current,
    );
    assert!(out.is_empty());
    t
}

#[test]
fn nothing_is_reported_before_both_lists_arrive() {
    let mut t = ready_tracker(false);
    let out = t.process_event(NiriEvent::WindowClosed { id: 7 }, false);
    assert!(out.is_empty());
}

#[test]
fn snapshot_lists_windows_by_workspace_and_column() {
    let mut t = ready_tracker(false);
    let out = t.process_event(
        NiriEvent::WorkspacesChanged {
            workspaces: vec![workspace(1, 1, "DP-1", true), workspace(2, 2, "DP-1", false)],
        },
        false,
    );
    assert_eq!(snapshot_ids(&out), vec![1, 3, 2]);
}

#[test]
fn only_current_workspace_lists_the_active_one() {
    let mut t = ready_tracker(true);
    let out = t.process_event(
        NiriEvent::WorkspacesChanged {
            workspaces: vec![workspace(1, 1, "DP-1", true), workspace(2, 2, "DP-1", false)],
        },
        true,
    );
    assert_eq!(snapshot_ids(&out), vec![1, 3]);
}

#[test]
fn closed_window_leaves_the_snapshot() {
    let mut t = ready_tracker(false);
    t.process_event(
        NiriEvent::WorkspacesChanged {
            workspaces: vec![workspace(1, 1, "DP-1", true), workspace(2, 2, "DP-1", false)],
        },
        false,
    );
    let out = t.process_event(NiriEvent::WindowClosed { id: 3 }, false);
    assert_eq!(snapshot_ids(&out), vec![1, 2]);
}

#[test]
fn focus_change_reports_old_and_new() {
    let mut t = ready_tracker(false);
    t.process_event(
        NiriEvent::WorkspacesChanged {
            workspaces: vec![workspace(1, 1, "DP-1", true), workspace(2, 2, "DP-1", false)],
        },
        false,
    );
    let out = t.process_event(NiriEvent::WindowFocusChanged { id: Some(3) }, false);
    assert!(matches!(out.as_slice(), [CompositorEvent::FocusChanged { old: None, new: Some(3) }]));
    let out = t.process_event(NiriEvent::WindowFocusChanged { id: None }, false);
    assert!(matches!(out.as_slice(), [CompositorEvent::FocusChanged { old: Some(3), new: None }]));
}

#[test]
fn title_change_alone_is_reported_as_such() {
    let mut t = ready_tracker(false);
    t.process_event(
        NiriEvent::WorkspacesChanged {
            workspaces: vec![workspace(1, 1, "DP-1", true), workspace(2, 2, "DP-1", false)],
        },
        false,
    );
    let mut w = window(2, 2, Some((1, 1)), false);
    w.title = Some("renamed".to_string());
    let out = t.process_event(NiriEvent::WindowOpenedOrChanged { window: w }, false);
    match out.as_slice() {
        [CompositorEvent::WindowTitleChanged { id, title }] => {
            assert_eq!(*id, 2);
            assert_eq!(title.as_deref(), Some("renamed"));
        }
        _ => panic!("expected a title change"),
    }
}

#[test]
fn new_window_brings_a_snapshot() {
    let mut t = ready_tracker(false);
    t.process_event(
        NiriEvent::WorkspacesChanged {
            workspaces: vec![workspace(1, 1, "DP-1", true), workspace(2, 2, "DP-1", false)],
        },
        false,
    );
    let out = t.process_event(
        NiriEvent::WindowOpenedOrChanged { window: window(9, 1, Some((3, 1)), true) },
        false,
    );
    assert_eq!(snapshot_ids(&out), vec![1, 3, 9, 2]);
    if let CompositorEvent::FullSnapshot(s) = &out[0] {
        let focused: Vec<u64> = s.iter().filter(|w| w.inner.is_focused).map(|w| w.inner.id).collect();
        assert_eq!(focused, vec![9]);
    }
}

#[test]
fn stream_adds_workspace_and_reload_notices() {
    let mut t = ready_tracker(false);
    let out = t.next_events(
        NiriEvent::WorkspacesChanged {
            workspaces: vec![workspace(1, 1, "DP-1", true), workspace(2, 2, "DP-1", false)],
        },
        false,
    );
    assert_eq!(out.len(), 2);
    assert!(matches!(out[0], CompositorEvent::FullSnapshot(_)));
    assert!(matches!(out[1], CompositorEvent::Workspaces));
    let out = t.next_events(NiriEvent::ConfigLoaded { failed: false }, false);
    assert!(matches!(out.as_slice(), [CompositorEvent::ConfigReloaded]));
    let out = t.next_events(NiriEvent::Other, false);
    assert!(out.is_empty());
}

#[test]
fn activation_switches_the_output_active_workspace() {
    let mut t = ready_tracker(true);
    t.process_event(
        NiriEvent::WorkspacesChanged {
            workspaces: vec![workspace(1, 1, "DP-1", true), workspace(2, 2, "DP-1", false)],
        },
        true,
    );
    let out = t.process_event(NiriEvent::WorkspaceActivated { id: 2, focused: true }, true);
    assert_eq!(snapshot_ids(&out), vec![2]);
}

#[test]
fn floating_window_follows_the_last_focused_column() {
    let mut t = WindowTracker::new();
    t.process_event(
        NiriEvent::WorkspacesChanged { workspaces: vec![workspace(1, 1, "DP-1", true)] },
        false,
    );
    let out = t.process_event(
        NiriEvent::WindowsChanged {
            windows: vec![
                window(1, 1, Some((1, 1)), false),
                window(2, 1, Some((2, 1)), false),
                window(3, 1, None, false),
            ],
        },
        false,
    );
    assert_eq!(snapshot_ids(&out), vec![1, 2, 3]);
    t.process_event(NiriEvent::WindowFocusChanged { id: Some(1) }, false);
    t.process_event(NiriEvent::WindowFocusChanged { id: Some(3) }, false);
    let out = t.process_event(NiriEvent::WindowClosed { id: 99 }, false);
    assert_eq!(snapshot_ids(&out), vec![1, 3, 2]);
}
