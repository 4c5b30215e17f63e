use niri_waybar_windowlist::clicks::{ClickAction, ClickActions, WindowAction};
use niri_waybar_windowlist::patterns::Pattern;
use niri_waybar_windowlist::settings::{
    context_menu_effect, default_context_menu, default_multi_select_menu, multi_select_menu_effect,
    AppRule, IgnoreRule, MultiSelectEffect, OutputDimensions, Settings,
};
use niri_waybar_windowlist::clicks::{ClickEffect, IpcAction, ModifierKey, MultiSelectAction};

fn pattern(p: &str) -> Pattern {
    match Pattern::new(p) {
        Ok(p) => p,
        Err(_) => panic!("pattern does not compile"),
    }
}

#[test]
fn defaults_match_the_documented_values() {
    let s = Settings::default();
    assert_eq!(s.icon_size(), 24);
    assert_eq!(s.icon_spacing(), 6);
    assert!(s.only_current_workspace() && !s.show_all_outputs());
    assert!(s.show_window_titles() && s.truncate_titles() && !s.allow_title_linebreaks());
    assert!(s.show_tooltip() && s.tooltip_delay() == 300);
    assert!(s.drag_hover_focus() && s.drag_hover_focus_delay() == 500);
    assert!(s.multi_select_modifier() == ModifierKey::Ctrl);
    assert!(s.notifications_enabled() && s.notifications_use_desktop_entry());
    assert_eq!(s.audio_indicator().playing_icon, "\u{25B6}");
    assert_eq!(s.audio_indicator().muted_icon, "\u{23F8}");
    assert_eq!(s.context_menu().len(), 3);
    assert_eq!(s.multi_select_menu().len(), 3);
    assert!(s.title_format_rule("foot").is_some());
    assert!(s.title_format_rule("unknown").is_none());
    assert!(s.should_poll_proc(Some("foot")));
    assert!(!s.should_poll_proc(Some("kitty")));
    assert_eq!(s.proc_poll_interval(), Some(1000));
    assert_eq!(s.scroll_arrow_left(), "\u{25C0}");
    assert_eq!(s.scroll_arrow_right(), "\u{25B6}");
    assert!(!s.left_click_focus_on_press());
}

#[test]
fn app_rules_pick_click_actions_by_title() {
    let mut s = Settings::default();
    let mut special = ClickActions::default();
    special.left_click_focused = ClickAction::Action(WindowAction::CloseWindow);
    s.apps.insert(
        "firefox".to_string(),
        vec![
            AppRule { pattern: pattern("^Private"), click_actions: None },
            AppRule { pattern: pattern("YouTube"), click_actions: Some(special) },
        ],
    );
    let a = s.get_click_actions(Some("firefox"), Some("Music - YouTube"));
    assert!(matches!(a.left_click_focused, ClickAction::Action(WindowAction::CloseWindow)));
    let a = s.get_click_actions(Some("firefox"), Some("Private YouTube"));
    assert!(matches!(a.left_click_focused, ClickAction::Action(WindowAction::CloseWindow)));
    let a = s.get_click_actions(Some("firefox"), Some("Docs"));
    assert!(matches!(a.left_click_focused, ClickAction::Action(WindowAction::MaximizeColumn)));
    let a = s.get_click_actions(None, Some("Music - YouTube"));
    assert!(matches!(a.left_click_focused, ClickAction::Action(WindowAction::MaximizeColumn)));
}

#[test]
fn ignore_rules_need_every_condition() {
    let mut s = Settings::default();
    s.ignore_rules.push(IgnoreRule {
        app_id: Some("steam".to_string()),
        title: None,
        title_regex: None,
        title_contains: Some("Friends".to_string()),
        workspace: None,
    });
    s.ignore_rules.push(IgnoreRule {
        app_id: None,
        title: None,
        title_regex: Some(pattern("^Picture-in-Picture$")),
        title_contains: None,
        workspace: Some(3),
    });
    assert!(s.should_ignore(Some("steam"), Some("Friends List"), None));
    assert!(!s.should_ignore(Some("steam"), Some("Library"), None));
    assert!(!s.should_ignore(Some("steam"), None, None));
    assert!(s.should_ignore(Some("firefox"), Some("Picture-in-Picture"), Some(3)));
    assert!(!s.should_ignore(Some("firefox"), Some("Picture-in-Picture"), Some(2)));
}

#[test]
fn output_dimensions_override_general_widths() {
    let mut s = Settings::default();
    s.dimensions_per_output.insert(
        "HDMI-A-1".to_string(),
        OutputDimensions { min_button_width: Some(80), max_button_width: None, max_taskbar_width: None },
    );
    s.max_taskbar_width_per_output.insert("HDMI-A-1".to_string(), 900);
    assert_eq!(s.min_button_width(Some("HDMI-A-1")), 80);
    assert_eq!(s.min_button_width(Some("DP-1")), 150);
    assert_eq!(s.min_button_width(None), 150);
    assert_eq!(s.max_button_width(Some("HDMI-A-1")), None);
    assert_eq!(s.max_taskbar_width_for_output(Some("HDMI-A-1")), 900);
    assert_eq!(s.max_taskbar_width_for_output(Some("DP-1")), 1200);
}

#[test]
fn disabled_title_format_gives_no_rule_and_no_polling() {
    let mut s = Settings::default();
    s.title_format.enabled = false;
    assert!(s.title_format_rule("foot").is_none());
    assert!(!s.should_poll_proc(Some("foot")));
    assert_eq!(s.proc_poll_interval(), None);
}

#[test]
fn notification_app_ids_are_mapped() {
    let mut s = Settings::default();
    s.notifications.map_app_ids.insert("Slack".to_string(), "slack".to_string());
    assert_eq!(s.notifications_app_map("Slack"), Some("slack"));
    assert_eq!(s.notifications_app_map("slack"), None);
}

#[test]
fn default_menus_hold_the_documented_entries() {
    let menu = default_context_menu();
    assert_eq!(menu[0][0].label, "Maximize Column");
    assert!(menu[2][0].action == Some(WindowAction::CloseWindow));
    let multi = default_multi_select_menu();
    assert_eq!(multi[0].label, "Close All");
    assert!(multi[2].action == Some(MultiSelectAction::MoveToWorkspaceDown));
}

#[test]
fn menu_entries_prefer_their_command() {
    let mut item = niri_waybar_windowlist::settings::action_item("icon", "Close", WindowAction::CloseWindow);
    match context_menu_effect(&item, 5, None, None) {
        Some(ClickEffect::Requests(p)) => assert!(p == vec![IpcAction::CloseWindow { id: Some(5) }]),
        _ => panic!("expected requests"),
    }
    item.command = Some("notify {window_id}".to_string());
    match context_menu_effect(&item, 5, None, None) {
        Some(ClickEffect::Shell(c)) => assert_eq!(c, "notify 5"),
        _ => panic!("expected a command"),
    }
    let mut multi = default_multi_select_menu();
    multi[0].command = Some("kill-all {window_ids}".to_string());
    match multi_select_menu_effect(&multi[0], &vec![1, 2]) {
        MultiSelectEffect::Shell(c) => assert_eq!(c, "kill-all 1,2"),
        _ => panic!("expected a command"),
    }
    match multi_select_menu_effect(&multi[1], &vec![1, 2]) {
        MultiSelectEffect::Requests(p) => assert_eq!(p.len(), 2),
        _ => panic!("expected requests"),
    }
}
