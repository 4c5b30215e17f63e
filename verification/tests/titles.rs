use niri_waybar_windowlist::patterns::Pattern;
use niri_waybar_windowlist::titles::{CHROMIUM_PATTERN, EDITOR_PATTERN, FIREFOX_PATTERN, TERMINAL_PATTERN};
use niri_waybar_windowlist::settings::Settings;
use niri_waybar_windowlist::titles::{
    basename, default_rules, shorten_home, update_process_info, update_title, LabelUpdate,
};

fn markup(u: LabelUpdate) -> String {
    match u {
        LabelUpdate::Markup(m) => m,
        LabelUpdate::Text(t) => panic!("expected markup, got text {t:?}"),
        LabelUpdate::Hide => panic!("expected markup, got hide"),
        LabelUpdate::Keep => panic!("expected markup, got keep"),
    }
}

fn text(u: LabelUpdate) -> String {
    match u {
        LabelUpdate::Text(t) => t,
        _ => panic!("expected text"),
    }
}

#[test]
fn firefox_titles_show_site_then_page() {
    let s = Settings::default();
    let u = update_title(&s, Some("firefox"), true, Some("Issues · GitHub — Mozilla Firefox"), &None);
    assert_eq!(markup(u), "<i>GitHub</i> · Issues");
    let u = update_title(&s, Some("firefox"), true, Some("Start Page — Mozilla Firefox"), &None);
    assert_eq!(markup(u), "Start Page");
}

#[test]
fn terminal_titles_shorten_the_home_directory() {
    let s = Settings::default();
    let home = Some("/home/ada".to_string());
    let u = update_title(&s, Some("foot"), true, Some("/home/ada/src - vim"), &home);
    assert_eq!(markup(u), "<i>~&#x2f;src</i> · vim");
    let u = update_title(&s, Some("foot"), true, Some("/tmp"), &home);
    assert_eq!(markup(u), "<i>&#x2f;tmp</i>");
}

#[test]
fn rendered_values_are_escaped() {
    let s = Settings::default();
    let u = update_title(&s, Some("chromium-browser"), true, Some("a<b> - Chromium"), &None);
    assert_eq!(markup(u), "a&lt;b&gt; <span alpha='60%'>— Chromium</span>");
}

#[test]
fn editor_titles_show_the_file_name() {
    let s = Settings::default();
    let u = update_title(&s, Some("zed"), true, Some("src/main.rs - Zed"), &None);
    assert_eq!(markup(u), "<b>main.rs</b> <span alpha='60%'>— Zed</span>");
}

#[test]
fn plain_titles_lose_their_line_breaks() {
    let mut s = Settings::default();
    let u = update_title(&s, Some("mpv"), true, Some("a\nb\rc"), &None);
    assert_eq!(text(u), "a b c");
    s.title_display.allow_title_linebreaks = true;
    let u = update_title(&s, Some("mpv"), true, Some("a\nb"), &None);
    assert_eq!(text(u), "a\nb");
    assert!(matches!(update_title(&s, Some("mpv"), true, None, &None), LabelUpdate::Hide));
    assert!(matches!(update_title(&s, Some("mpv"), false, Some("x"), &None), LabelUpdate::Keep));
}

#[test]
fn process_info_fills_the_terminal_template() {
    let s = Settings::default();
    let home = Some("/home/ada".to_string());
    let stored = Some("old".to_string());
    let u = update_process_info(&s, Some("foot"), true, Some("/home/ada/x"), Some("vim"), &stored, &home);
    assert_eq!(markup(u), "<i>~&#x2f;x</i> · vim");
    let u = update_process_info(&s, Some("foot"), true, None, None, &stored, &home);
    assert_eq!(text(u), "old");
    let u = update_process_info(&s, Some("mpv"), true, Some("/x"), None, &stored, &home);
    assert_eq!(text(u), "old");
    assert!(matches!(update_process_info(&s, Some("foot"), false, None, None, &stored, &home), LabelUpdate::Keep));
}

#[test]
fn path_helpers() {
    assert_eq!(basename("/usr/bin/vim"), "vim");
    assert_eq!(basename("vim"), "vim");
    assert_eq!(basename("/"), "/");
    assert_eq!(basename("a/.."), "a/..");
    assert_eq!(shorten_home("/home/ada/x", &Some("/home/ada".to_string())), "~/x");
    assert_eq!(shorten_home("/home/adam", &Some("/home/ada".to_string())), "~m");
    assert_eq!(shorten_home("/srv", &Some("/home/ada".to_string())), "/srv");
    assert_eq!(shorten_home("/srv", &None), "/srv");
}

#[test]
fn builtin_rules_cover_terminals_browsers_and_editors() {
    let rules = default_rules();
    for id in ["foot", "Alacritty", "kitty", "wezterm", "ghostty", "firefox", "google-chrome", "code", "zed"] {
        assert!(rules.get(id).is_some(), "{id}");
    }
    assert!(rules.get("foot").unwrap().poll_proc);
    assert!(!rules.get("kitty").unwrap().poll_proc);
}

#[test]
fn basename_agrees_with_path_file_name() {
    for p in [
        "", "/", ".", "..", "./", "./.", "/.", "a", "a/", "a/.", "a/./", "a/./.", "a//b", "/usr/bin/fish",
        "/usr/bin/", "a/..", "../a", "./a", "~/src/proj", "a/b/..", "...", "a/...", ".hidden", "a/.hidden/",
    ] {
        let expected = std::path::Path::new(p)
            .file_name()
            .map_or_else(|| p.to_string(), |n| n.to_string_lossy().into_owned());
        assert_eq!(basename(p), expected, "path {p:?}");
    }
}

#[test]
fn built_in_patterns_compile() {
    for p in [TERMINAL_PATTERN, FIREFOX_PATTERN, CHROMIUM_PATTERN, EDITOR_PATTERN] {
        assert!(Pattern::new(p).is_ok(), "pattern {p:?}");
    }
    assert_eq!(default_rules().len(), 14);
}
