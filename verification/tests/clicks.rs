use niri_waybar_windowlist::clicks::{
    execute_action, execute_click_action, execute_command, execute_multi_select_action, join_ids,
    on_press, on_release, on_scroll, validate_handled, ClickAction, ClickActions, ClickEffect,
    ClickSlot, CompositorIpcError, IpcAction, IpcReply, LastClick, ModifierKey, Modifiers,
    MultiSelectAction, ScrollWay, SelectionChange, WindowAction,
};

#[test]
fn menu_and_none_actions_are_recognised() {
    assert!(ClickAction::Action(WindowAction::Menu).is_menu());
    assert!(!ClickAction::Action(WindowAction::Menu).is_none());
    assert!(ClickAction::Action(WindowAction::NoAction).is_none());
    let cmd = ClickAction::Command { command: "true".to_string() };
    assert!(!cmd.is_menu() && !cmd.is_none());
}

#[test]
fn direct_actions_name_the_window() {
    assert!(execute_action(&WindowAction::CloseWindow, 7) == vec![IpcAction::CloseWindow { id: Some(7) }]);
    assert!(execute_action(&WindowAction::FocusWindow, 7) == vec![IpcAction::FocusWindow { id: 7 }]);
}

#[test]
fn column_actions_focus_first() {
    assert!(
        execute_action(&WindowAction::MaximizeColumn, 4)
            == vec![IpcAction::FocusWindow { id: 4 }, IpcAction::MaximizeColumn]
    );
    assert!(
        execute_action(&WindowAction::MaximizeWindowToEdges, 4)
            == vec![IpcAction::FocusWindow { id: 4 }, IpcAction::MaximizeWindowToEdges { id: Some(4) }]
    );
    assert!(
        execute_action(&WindowAction::MoveWindowToWorkspaceUp, 4)
            == vec![IpcAction::FocusWindow { id: 4 }, IpcAction::MoveWindowToWorkspaceUp { focus: false }]
    );
    assert!(execute_action(&WindowAction::NoAction, 4).is_empty());
    assert!(execute_action(&WindowAction::Menu, 4).is_empty());
}

#[test]
fn commands_get_their_placeholders() {
    let c = execute_command("echo {window_id} {app_id} {title} {window_id}", 42, Some("foot"), None);
    assert_eq!(c, "echo 42 foot  42");
    let c = execute_command("x{title}", 0, None, Some("a {app_id} b"));
    assert_eq!(c, "xa {app_id} b");
    match execute_click_action(&ClickAction::Command { command: "kill {window_id}".to_string() }, 9, None, None) {
        ClickEffect::Shell(s) => assert_eq!(s, "kill 9"),
        ClickEffect::Requests(_) => panic!("expected a command"),
    }
}

#[test]
fn multi_select_plans_each_window() {
    let plans = execute_multi_select_action(&vec![1, 2], &MultiSelectAction::CloseWindows);
    assert_eq!(plans.len(), 2);
    assert!(plans[1] == vec![IpcAction::CloseWindow { id: Some(2) }]);
    let plans = execute_multi_select_action(&vec![5], &MultiSelectAction::MoveToMonitorUp);
    assert!(plans[0] == vec![IpcAction::FocusWindow { id: 5 }, IpcAction::MoveWindowToMonitorUp]);
    assert_eq!(join_ids(&vec![3, 10, 200]), "3,10,200");
    assert_eq!(join_ids(&vec![]), "");
}

#[test]
fn release_decides_single_and_double_clicks() {
    let r = on_release(1, false, true, 120);
    assert!(r.stop && r.clear_selection && r.run == Some(ClickSlot::DoubleClick));
    assert!(r.last_click == LastClick::Forget);
    let r = on_release(1, false, true, 300);
    assert!(r.run == Some(ClickSlot::LeftFocused) && r.last_click == LastClick::Now);
    let r = on_release(1, false, false, 10);
    assert!(r.run == Some(ClickSlot::LeftUnfocused) && r.optimistic_focus);
    let r = on_release(1, true, false, 10);
    assert!(r.stop && r.clear_skip && r.run.is_none());
    let r = on_release(3, false, false, 10);
    assert!(!r.stop && r.run.is_none());
}

#[test]
fn press_toggles_selection_and_opens_menus() {
    let actions = ClickActions::default();
    let p = on_press(&actions, 1, true, false, false, true);
    assert!(p.set_skip && p.selection == SelectionChange::Add && !p.stop);
    let p = on_press(&actions, 1, true, false, true, false);
    assert!(p.selection == SelectionChange::Remove);
    let p = on_press(&actions, 1, false, false, false, true);
    assert!(p.selection == SelectionChange::Clear && p.run == Some(ClickSlot::LeftUnfocused));
    let p = on_press(&actions, 3, false, true, false, true);
    assert!(p.context_menu && p.run.is_none() && p.stop);
    let p = on_press(&actions, 3, false, true, false, false);
    assert!(p.multi_select_menu && !p.context_menu);
    let p = on_press(&actions, 2, false, false, false, true);
    assert!(p.run == Some(ClickSlot::MiddleUnfocused) && !p.context_menu);
}

#[test]
fn scrolling_runs_only_configured_actions() {
    let mut actions = ClickActions::default();
    assert!(on_scroll(&actions, ScrollWay::Up).is_none());
    actions.scroll_down = ClickAction::Action(WindowAction::MoveColumnRight);
    assert!(on_scroll(&actions, ScrollWay::Down) == Some(ClickSlot::ScrollDown));
    assert!(on_scroll(&actions, ScrollWay::Neither).is_none());
}

#[test]
fn modifier_keys_are_read() {
    let held = Modifiers { ctrl: false, shift: true, alt: false, super_key: false };
    assert!(ModifierKey::Shift.is_held(held));
    assert!(!ModifierKey::Ctrl.is_held(held));
}

#[test]
fn replies_other_than_handled_are_errors() {
    assert!(validate_handled(IpcReply::Handled).is_ok());
    match validate_handled(IpcReply::Failed("no".to_string())) {
        Err(CompositorIpcError::Reply(m)) => assert_eq!(m, "no"),
        _ => panic!("expected a reply error"),
    }
    match validate_handled(IpcReply::Other("Windows".to_string())) {
        Err(CompositorIpcError::UnexpectedResponse { expected, actual }) => {
            assert_eq!(expected, "Handled");
            assert_eq!(actual, "Windows");
        }
        _ => panic!("expected an unexpected response"),
    }
}
