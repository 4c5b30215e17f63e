use niri_waybar_windowlist::patterns::Pattern;
use niri_waybar_windowlist::settings::{IgnoreRule, Settings};
use niri_waybar_windowlist::window_list::{
    create_focused_window, determine_display_filter, field_matches, handle_window_update,
    pids_to_query, poll_targets, workspace_menu_order, DisplayFilter, IconResolver, OutputMatch,
};
use niri_waybar_windowlist::windows::{Window, WindowInfo, WindowLayout, Workspace};

fn info(id: u64, app: Option<&str>, output: Option<&str>, focused: bool) -> WindowInfo {
    WindowInfo {
        inner: Window {
            id,
            title: Some(format!("w{id}")),
            app_id: app.map(String::from),
            pid: None,
            workspace_id: Some(1),
            is_focused: focused,
            is_urgent: false,
            layout: WindowLayout { pos_in_scrolling_layout: Some((1, 1)) },
        },
        output_name: output.map(String::from),
    }
}

#[test]
fn filters_show_their_outputs() {
    assert!(DisplayFilter::ShowAll.should_display("DP-1"));
    let only = DisplayFilter::Only("DP-1".to_string());
    assert!(only.should_display("DP-1"));
    assert!(!only.should_display("HDMI-A-1"));
    assert!(!only.same_as(&DisplayFilter::ShowAll));
}

#[test]
fn display_filter_picks_the_matching_output() {
    let outs = Some(vec![
        OutputMatch { name: "DP-1".to_string(), matches: false },
        OutputMatch { name: "DP-2".to_string(), matches: true },
    ]);
    assert!(matches!(determine_display_filter(false, &outs, true), DisplayFilter::Only(n) if n == "DP-2"));
    assert!(matches!(determine_display_filter(true, &outs, true), DisplayFilter::ShowAll));
    assert!(matches!(determine_display_filter(false, &outs, false), DisplayFilter::ShowAll));
    assert!(matches!(determine_display_filter(false, &None, true), DisplayFilter::ShowAll));
    let single = Some(vec![OutputMatch { name: "DP-1".to_string(), matches: true }]);
    assert!(matches!(determine_display_filter(false, &single, true), DisplayFilter::ShowAll));
    assert!(field_matches(Some("Dell"), "Dell"));
    assert!(field_matches(None, ""));
    assert!(!field_matches(None, "Dell"));
}

#[test]
fn window_update_keeps_shown_and_drops_the_rest() {
    let mut settings = Settings::default();
    settings.ignore_rules.push(IgnoreRule {
        app_id: Some("steam".to_string()),
        title: None,
        title_regex: match Pattern::new("^w") { Ok(p) => Some(p), Err(_) => None },
        title_contains: None,
        workspace: None,
    });
    let snapshot = vec![
        info(5, Some("foot"), Some("DP-1"), false),
        info(2, Some("steam"), Some("DP-1"), true),
        info(9, None, Some("DP-2"), false),
        info(7, None, None, false),
    ];
    let plan = handle_window_update(&snapshot, &DisplayFilter::Only("DP-1".to_string()), &settings, Some(5), &vec![1, 2, 5]);
    assert_eq!(plan.focused, Some(2));
    assert!(plan.focus_changed);
    assert_eq!(plan.shown, vec![5]);
    assert_eq!(plan.removed, vec![1, 2]);
    let plan = handle_window_update(&snapshot, &DisplayFilter::ShowAll, &settings, Some(2), &vec![]);
    assert!(!plan.focus_changed);
    assert_eq!(plan.shown, vec![5, 9, 7]);
}

#[test]
fn shared_processes_are_not_polled() {
    let r = pids_to_query(&vec![(1, 100), (2, 200), (3, 100), (4, 300)]);
    assert_eq!(r, vec![(2, 200), (4, 300)]);
}

#[test]
fn only_terminals_asking_for_it_are_polled() {
    let s = Settings::default();
    let candidates = vec![
        (1, 100, Some("foot".to_string())),
        (2, 200, Some("kitty".to_string())),
        (3, 300, None),
        (4, 100, Some("foot".to_string())),
        (5, 500, Some("foot".to_string())),
        (6, 600, Some("foot".to_string())),
    ];
    assert_eq!(poll_targets(&s, &candidates), vec![(5, 500), (6, 600)]);
}

#[test]
fn icons_are_cached_once_found() {
    let mut r = IconResolver::new();
    assert!(r.needs_search("foot"));
    assert_eq!(r.resolve("foot", None), None);
    assert!(r.needs_search("foot"));
    assert_eq!(r.resolve("foot", Some("/icons/foot.svg".to_string())).as_deref(), Some("/icons/foot.svg"));
    assert!(!r.needs_search("foot"));
    assert_eq!(r.resolve("foot", Some("/other.svg".to_string())).as_deref(), Some("/icons/foot.svg"));
}

#[test]
fn focused_window_starts_empty() {
    let mut f = create_focused_window();
    assert_eq!(f.get(), None);
    f.set(Some(4));
    assert!(f.is(4) && !f.is(5));
}

#[test]
fn workspace_menu_sorts_by_output_then_index() {
    let ws = |id: u64, idx: u8, output: Option<&str>| Workspace {
        id,
        idx,
        name: None,
        output: output.map(String::from),
        is_active: false,
    };
    let list = vec![ws(1, 2, Some("eDP-1")), ws(2, 1, Some("eDP-1")), ws(3, 1, Some("DP-1")), ws(4, 5, None)];
    let order = workspace_menu_order(&list).unwrap();
    let ids: Vec<u64> = order.iter().map(|&i| list[i].id).collect();
    assert_eq!(ids, vec![4, 3, 2, 1]);
    assert!(workspace_menu_order(&vec![ws(1, 1, None)]).is_none());
}

#[test]
fn update_keeps_existing_buttons_and_records_processes() {
    let settings = Settings::default();
    let mut a = info(1, Some("foot"), Some("DP-1"), false);
    a.inner.pid = Some(100);
    let b = info(2, Some("foot"), Some("DP-1"), false);
    let mut c = info(3, Some("foot"), Some("DP-1"), false);
    c.inner.pid = Some(300);
    let plan = handle_window_update(&vec![a, b, c], &DisplayFilter::ShowAll, &settings, None, &vec![2, 4]);
    assert_eq!(plan.shown, vec![1, 2, 3]);
    assert_eq!(plan.created, vec![1, 3]);
    assert_eq!(plan.removed, vec![4]);
    assert_eq!(plan.pids, vec![(1, 100), (3, 300)]);
}

#[test]
fn found_icons_stay_whatever_later_searches_find() {
    let mut r = IconResolver::new();
    assert_eq!(r.resolve("foot", Some("/a/foot.svg".to_string())).as_deref(), Some("/a/foot.svg"));
    assert_eq!(r.resolve("kitty", None), None);
    assert_eq!(r.resolve("kitty", Some("/a/kitty.svg".to_string())).as_deref(), Some("/a/kitty.svg"));
    assert_eq!(r.resolve("foot", Some("/b/other.svg".to_string())).as_deref(), Some("/a/foot.svg"));
    assert_eq!(r.resolve("foot", None).as_deref(), Some("/a/foot.svg"));
}
