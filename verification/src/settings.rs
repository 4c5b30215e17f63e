//! The module's configuration and the questions the rest of it asks of it.
use vstd::prelude::*;

use crate::clicks::{
    default_click_actions, execute_action, execute_command, execute_multi_select_action, expanded_command,
    join_ids, joined_ids, multi_plan_of, plan_of, ClickAction, ClickActions, ClickEffect, IpcAction,
    ModifierKey, MultiSelectAction, WindowAction,
};
use crate::text::{replace, replace_all};
use crate::patterns::{regex_matches, Pattern};
use crate::strmap::StrMap;
use crate::text::{occurs, contains};
use crate::titles::{default_rules, default_rules_view, rule_view};

verus! {

broadcast use vstd::string::group_string_axioms;

/// Which outputs' windows are listed.
pub struct DisplayConfig {
    pub show_all_outputs: bool,
    pub only_current_workspace: bool,
}

impl Default for DisplayConfig {
    fn default() -> (r: Self)
        ensures
            !r.show_all_outputs && r.only_current_workspace,
    {
        DisplayConfig { show_all_outputs: false, only_current_workspace: true }
    }
}

/// How window titles are shown.
pub struct TitleDisplayConfig {
    pub show_window_titles: bool,
    pub truncate_titles: bool,
    pub allow_title_linebreaks: bool,
}

impl Default for TitleDisplayConfig {
    fn default() -> (r: Self)
        ensures
            r.show_window_titles && r.truncate_titles && !r.allow_title_linebreaks,
    {
        TitleDisplayConfig {
            show_window_titles: true,
            truncate_titles: true,
            allow_title_linebreaks: false,
        }
    }
}

/// When a button shows its title as a tooltip.
pub struct TooltipConfig {
    pub show_tooltip: bool,
    /// Milliseconds the pointer rests before the tooltip shows.
    pub tooltip_delay: u32,
}

impl Default for TooltipConfig {
    fn default() -> (r: Self)
        ensures
            r.show_tooltip && r.tooltip_delay == 300,
    {
        TooltipConfig { show_tooltip: true, tooltip_delay: 300 }
    }
}

/// Whether dragging something over a button focuses its window.
pub struct DragConfig {
    pub drag_hover_focus: bool,
    /// Milliseconds the drag rests before the window gets focus.
    pub drag_hover_focus_delay: u32,
}

impl Default for DragConfig {
    fn default() -> (r: Self)
        ensures
            r.drag_hover_focus && r.drag_hover_focus_delay == 500,
    {
        DragConfig { drag_hover_focus: true, drag_hover_focus_delay: 500 }
    }
}

/// The playback indicator beside a button.
pub struct AudioIndicatorConfig {
    pub enabled: bool,
    pub playing_icon: String,
    pub muted_icon: String,
    pub clickable: bool,
}

impl Default for AudioIndicatorConfig {
    fn default() -> (r: Self)
        ensures
            r.enabled && r.clickable && r.playing_icon@ == seq!['\u{25B6}'] && r.muted_icon@ == seq![
                '\u{23F8}',
            ],
    {
        let playing = "\u{25B6}".to_string();
        let muted = "\u{23F8}".to_string();
        proof {
            reveal_strlit("\u{25B6}");
            reveal_strlit("\u{23F8}");
        }
        AudioIndicatorConfig { enabled: true, playing_icon: playing, muted_icon: muted, clickable: true }
    }
}

/// Notification bubbles on buttons.
pub struct NotificationConfig {
    pub enabled: bool,
    /// Application ids of notifications mapped to those of windows.
    pub map_app_ids: StrMap<String>,
    pub use_desktop_entry: bool,
    pub use_fuzzy_matching: bool,
}

impl Default for NotificationConfig {
    fn default() -> (r: Self)
        ensures
            r.enabled && r.map_app_ids@ == Map::<Seq<char>, String>::empty() && r.use_desktop_entry
                && !r.use_fuzzy_matching,
    {
        NotificationConfig {
            enabled: true,
            map_app_ids: StrMap::new(),
            use_desktop_entry: true,
            use_fuzzy_matching: false,
        }
    }
}

/// Widths for the buttons and the list on one output.
pub struct OutputDimensions {
    pub min_button_width: Option<i32>,
    pub max_button_width: Option<i32>,
    pub max_taskbar_width: Option<i32>,
}

/// Where the buttons sit in the bar.
#[derive(PartialEq, Eq, Structural, Clone, Copy)]
pub enum ButtonAlignment {
    Left,
    Center,
    Right,
}

impl Default for ButtonAlignment {
    fn default() -> (r: Self)
        ensures
            r == ButtonAlignment::Left,
    {
        ButtonAlignment::Left
    }
}

/// Where the working directory and command of a terminal are read from.
#[derive(PartialEq, Eq, Structural, Clone, Copy)]
pub enum ProcessInfoSource {
    /// From the window title, by the title format rule.
    TitleRegex,
    /// From the process table of the system.
    Proc,
}

impl Default for ProcessInfoSource {
    fn default() -> (r: Self)
        ensures
            r == ProcessInfoSource::TitleRegex,
    {
        ProcessInfoSource::TitleRegex
    }
}

/// An entry of a window's context menu: a command, else a window action.
pub struct ContextMenuItem {
    pub label: String,
    pub icon: Option<String>,
    pub action: Option<WindowAction>,
    pub command: Option<String>,
}

/// An entry of the menu for the selected windows.
pub struct MultiSelectMenuItem {
    pub label: String,
    pub icon: Option<String>,
    pub action: Option<MultiSelectAction>,
    pub command: Option<String>,
}

/// A menu entry that runs `action`, shown with `icon`.
pub fn action_item(icon: &str, label: &str, action: WindowAction) -> (item: ContextMenuItem)
    ensures
        is_action_item(item, icon@, label@, action),
{
    ContextMenuItem {
        label: label.to_string(),
        icon: Some(icon.to_string()),
        action: Some(action),
        command: None,
    }
}

/// Whether `item` runs `action` and shows `label` with the icon `icon`.
pub open spec fn is_action_item(item: ContextMenuItem, icon: Seq<char>, label: Seq<char>, action: WindowAction) -> bool {
    &&& item.label@ == label
    &&& item.icon matches Some(i) && i@ == icon
    &&& item.action == Some(action)
    &&& item.command is None
}

/// The context menu where the configuration names none, in groups shown
/// apart: the two maximize actions; floating; closing.
pub open spec fn is_default_context_menu(menu: Seq<Vec<ContextMenuItem>>) -> bool {
    &&& menu.len() == 3
    &&& menu[0]@.len() == 2
    &&& is_action_item(menu[0]@[0], "view-fullscreen-symbolic"@, "Maximize Column"@, WindowAction::MaximizeColumn)
    &&& is_action_item(
        menu[0]@[1],
        "view-fullscreen-symbolic"@,
        "Maximize to Edges"@,
        WindowAction::MaximizeWindowToEdges,
    )
    &&& menu[1]@.len() == 1
    &&& is_action_item(
        menu[1]@[0],
        "object-flip-vertical-symbolic"@,
        "Toggle Floating"@,
        WindowAction::ToggleWindowFloating,
    )
    &&& menu[2]@.len() == 1
    &&& is_action_item(menu[2]@[0], "window-close-symbolic"@, "Close Window"@, WindowAction::CloseWindow)
}

/// Whether `item` runs `action` on the selection and shows `label` with the
/// icon `icon`.
pub open spec fn is_multi_item(item: MultiSelectMenuItem, icon: Seq<char>, label: Seq<char>, action: MultiSelectAction) -> bool {
    &&& item.label@ == label
    &&& item.icon matches Some(i) && i@ == icon
    &&& item.action == Some(action)
    &&& item.command is None
}

/// The menu for selected windows where the configuration names none: close
/// them all, move them all a workspace up, or down.
pub open spec fn is_default_multi_select_menu(menu: Seq<MultiSelectMenuItem>) -> bool {
    &&& menu.len() == 3
    &&& is_multi_item(menu[0], "window-close-symbolic"@, "Close All"@, MultiSelectAction::CloseWindows)
    &&& is_multi_item(
        menu[1],
        "go-up-symbolic"@,
        "Move All to Workspace Up"@,
        MultiSelectAction::MoveToWorkspaceUp,
    )
    &&& is_multi_item(
        menu[2],
        "go-down-symbolic"@,
        "Move All to Workspace Down"@,
        MultiSelectAction::MoveToWorkspaceDown,
    )
}

/// The context menu where the configuration names none.
pub fn default_context_menu() -> (menu: Vec<Vec<ContextMenuItem>>)
    ensures
        is_default_context_menu(menu@),
{
    vec![
        vec![
            action_item("view-fullscreen-symbolic", "Maximize Column", WindowAction::MaximizeColumn),
            action_item(
                "view-fullscreen-symbolic",
                "Maximize to Edges",
                WindowAction::MaximizeWindowToEdges,
            ),
        ],
        vec![
            action_item(
                "object-flip-vertical-symbolic",
                "Toggle Floating",
                WindowAction::ToggleWindowFloating,
            ),
        ],
        vec![action_item("window-close-symbolic", "Close Window", WindowAction::CloseWindow)],
    ]
}

/// The menu for selected windows where the configuration names none.
pub fn default_multi_select_menu() -> (menu: Vec<MultiSelectMenuItem>)
    ensures
        is_default_multi_select_menu(menu@),
{
    vec![
        MultiSelectMenuItem {
            label: "Close All".to_string(),
            icon: Some("window-close-symbolic".to_string()),
            action: Some(MultiSelectAction::CloseWindows),
            command: None,
        },
        MultiSelectMenuItem {
            label: "Move All to Workspace Up".to_string(),
            icon: Some("go-up-symbolic".to_string()),
            action: Some(MultiSelectAction::MoveToWorkspaceUp),
            command: None,
        },
        MultiSelectMenuItem {
            label: "Move All to Workspace Down".to_string(),
            icon: Some("go-down-symbolic".to_string()),
            action: Some(MultiSelectAction::MoveToWorkspaceDown),
            command: None,
        },
    ]
}

/// Click actions for the windows of one application whose title matches.
pub struct AppRule {
    pub pattern: Pattern,
    pub click_actions: Option<ClickActions>,
}

/// Windows to leave out of the list: every condition given must hold.
pub struct IgnoreRule {
    pub app_id: Option<String>,
    pub title: Option<String>,
    pub title_regex: Option<Pattern>,
    pub title_contains: Option<String>,
    pub workspace: Option<u64>,
}

/// How the title of an application's windows is rendered: the named groups
/// that `pattern` takes from the title fill in the template `format`.
pub struct TitleFormatRule {
    pub pattern: Pattern,
    pub format: String,
    /// The terminal's foreground process is read in place of the title.
    pub poll_proc: bool,
}

/// Title formatting for each application id.
pub struct TitleFormatConfig {
    pub enabled: bool,
    pub rules: StrMap<TitleFormatRule>,
    /// Milliseconds between reads of the process table.
    pub poll_interval_ms: u64,
}

/// The whole configuration.
pub struct Settings {
    pub apps: StrMap<Vec<AppRule>>,
    pub notifications: NotificationConfig,
    pub icon_size: i32,
    pub icon_spacing: i32,
    pub click_actions: ClickActions,
    pub ignore_rules: Vec<IgnoreRule>,
    pub context_menu: Vec<Vec<ContextMenuItem>>,
    pub multi_select_modifier: ModifierKey,
    pub multi_select_menu: Vec<MultiSelectMenuItem>,
    pub audio_indicator: AudioIndicatorConfig,
    pub title_format: TitleFormatConfig,
    pub display: DisplayConfig,
    pub title_display: TitleDisplayConfig,
    pub tooltip: TooltipConfig,
    pub drag: DragConfig,
    pub min_button_width: i32,
    pub max_button_width: Option<i32>,
    pub max_taskbar_width: i32,
    pub max_taskbar_width_per_output: StrMap<i32>,
    pub dimensions_per_output: StrMap<OutputDimensions>,
    pub button_alignment: ButtonAlignment,
    /// The labels of the arrows that scroll an overflowing taskbar.
    pub scroll_arrow_left: String,
    pub scroll_arrow_right: String,
    pub left_click_focus_on_press: bool,
}

/// The view of an optional string.
pub open spec fn opt_view(s: Option<&str>) -> Option<Seq<char>> {
    match s {
        Some(t) => Some(t@),
        None => None,
    }
}

/// The click actions of the first rule that matches `title` and names any.
pub open spec fn first_rule_actions(rules: Seq<AppRule>, title: Seq<char>) -> Option<ClickActions>
    decreases rules.len(),
{
    if rules.len() == 0 {
        None
    } else if regex_matches(rules[0].pattern.source()@, title) && rules[0].click_actions is Some {
        rules[0].click_actions
    } else {
        first_rule_actions(rules.drop_first(), title)
    }
}

/// The click actions for a window: those of the first rule for its
/// application that matches its title and names any, else the configured
/// ones.
pub open spec fn click_actions_for(s: Settings, app_id: Option<Seq<char>>, title: Option<Seq<char>>) -> ClickActions {
    match (app_id, title) {
        (Some(id), Some(t)) => if s.apps@.contains_key(id) {
            match first_rule_actions(s.apps@[id]@, t) {
                Some(a) => a,
                None => s.click_actions,
            }
        } else {
            s.click_actions
        },
        _ => s.click_actions,
    }
}

/// Whether `rule` leaves out a window with this app id, title and workspace.
pub open spec fn rule_ignores(
    rule: IgnoreRule,
    app_id: Option<Seq<char>>,
    title: Option<Seq<char>>,
    workspace_id: Option<u64>,
) -> bool {
    &&& (rule.app_id matches Some(a) ==> app_id == Some(a@))
    &&& (rule.title matches Some(t) ==> title == Some(t@))
    &&& (rule.title_contains matches Some(c) ==> (title matches Some(t) && occurs(t, c@)))
    &&& (rule.title_regex matches Some(r) ==> (title matches Some(t) && regex_matches(
        r.source()@,
        t,
    )))
    &&& (rule.workspace matches Some(w) ==> workspace_id == Some(w))
}

fn opt_str_is(expected: &Option<String>, actual: Option<&str>) -> (b: bool)
    ensures
        b == (expected matches Some(e) ==> opt_view(actual) == Some(e@)),
{
    match expected {
        None => true,
        Some(e) => match actual {
            Some(a) => {
                let a_owned = a.to_string();
                e.eq(&a_owned)
            },
            None => false,
        },
    }
}

fn ignores(rule: &IgnoreRule, app_id: Option<&str>, title: Option<&str>, workspace_id: Option<u64>) -> (b:
    bool)
    ensures
        b == rule_ignores(*rule, opt_view(app_id), opt_view(title), workspace_id),
{
    let app_match = opt_str_is(&rule.app_id, app_id);
    let title_match = opt_str_is(&rule.title, title);
    let contains_match = match &rule.title_contains {
        None => true,
        Some(c) => match title {
            Some(t) => contains(t, c.as_str()),
            None => false,
        },
    };
    let regex_match = match &rule.title_regex {
        None => true,
        Some(r) => match title {
            Some(t) => r.is_match(t),
            None => false,
        },
    };
    let workspace_match = match rule.workspace {
        None => true,
        Some(w) => workspace_id == Some(w),
    };
    app_match && title_match && contains_match && regex_match && workspace_match
}

impl Settings {
    /// The click actions for a window with this app id and title.
    pub fn get_click_actions(&self, app_id: Option<&str>, title: Option<&str>) -> (r: ClickActions)
        ensures
            r == click_actions_for(*self, opt_view(app_id), opt_view(title)),
    {
        if let (Some(id), Some(t)) = (app_id, title) {
            if let Some(rules) = self.apps.get(id) {
                let mut i: usize = 0;
                proof {
                    assert(rules@.subrange(0, rules@.len() as int) =~= rules@);
                }
                while i < rules.len()
                    invariant
                        i <= rules@.len(),
                        self.apps@.contains_key(id@),
                        *rules == self.apps@[id@],
                        app_id == Some(id),
                        title == Some(t),
                        first_rule_actions(rules@, t@) == first_rule_actions(
                            rules@.subrange(i as int, rules@.len() as int),
                            t@,
                        ),
                    decreases rules@.len() - i,
                {
                    proof {
                        let rest = rules@.subrange(i as int, rules@.len() as int);
                        assert(rest.drop_first() =~= rules@.subrange(i + 1, rules@.len() as int));
                        assert(rest[0] == rules@[i as int]);
                    }
                    let rule = &rules[i];
                    if rule.pattern.is_match(t) {
                        if let Some(actions) = &rule.click_actions {
                            return actions.duplicate();
                        }
                    }
                    i = i + 1;
                }
                proof {
                    assert(rules@.subrange(i as int, rules@.len() as int).len() == 0);
                }
            }
        }
        self.click_actions.duplicate()
    }

    /// Whether some ignore rule leaves out a window with this app id, title
    /// and workspace.
    pub fn should_ignore(&self, app_id: Option<&str>, title: Option<&str>, workspace_id: Option<u64>) -> (b:
        bool)
        ensures
            b == exists|i: int|
                0 <= i < self.ignore_rules@.len() && rule_ignores(
                    #[trigger] self.ignore_rules@[i],
                    opt_view(app_id),
                    opt_view(title),
                    workspace_id,
                ),
    {
        let mut i: usize = 0;
        while i < self.ignore_rules.len()
            invariant
                i <= self.ignore_rules@.len(),
                forall|k: int|
                    0 <= k < i ==> !rule_ignores(
                        #[trigger] self.ignore_rules@[k],
                        opt_view(app_id),
                        opt_view(title),
                        workspace_id,
                    ),
            decreases self.ignore_rules@.len() - i,
        {
            if ignores(&self.ignore_rules[i], app_id, title, workspace_id) {
                return true;
            }
            i = i + 1;
        }
        false
    }

    pub fn notifications_enabled(&self) -> (b: bool)
        ensures
            b == self.notifications.enabled,
    {
        self.notifications.enabled
    }

    /// The window app id that notifications from `app_id` are shown on.
    pub fn notifications_app_map(&self, app_id: &str) -> (r: Option<&str>)
        ensures
            match r {
                Some(m) => self.notifications.map_app_ids@.contains_key(app_id@) && m@
                    == self.notifications.map_app_ids@[app_id@]@,
                None => !self.notifications.map_app_ids@.contains_key(app_id@),
            },
    {
        match self.notifications.map_app_ids.get(app_id) {
            Some(m) => Some(m.as_str()),
            None => None,
        }
    }

    pub fn notifications_use_desktop_entry(&self) -> (b: bool)
        ensures
            b == self.notifications.use_desktop_entry,
    {
        self.notifications.use_desktop_entry
    }

    pub fn notifications_use_fuzzy_matching(&self) -> (b: bool)
        ensures
            b == self.notifications.use_fuzzy_matching,
    {
        self.notifications.use_fuzzy_matching
    }

    pub fn show_all_outputs(&self) -> (b: bool)
        ensures
            b == self.display.show_all_outputs,
    {
        self.display.show_all_outputs
    }

    pub fn only_current_workspace(&self) -> (b: bool)
        ensures
            b == self.display.only_current_workspace,
    {
        self.display.only_current_workspace
    }

    pub fn show_window_titles(&self) -> (b: bool)
        ensures
            b == self.title_display.show_window_titles,
    {
        self.title_display.show_window_titles
    }

    pub fn icon_size(&self) -> (n: i32)
        ensures
            n == self.icon_size,
    {
        self.icon_size
    }

    pub fn icon_spacing(&self) -> (n: i32)
        ensures
            n == self.icon_spacing,
    {
        self.icon_spacing
    }

    /// The smallest button width on `output`: its own setting, else the
    /// general one.
    pub fn min_button_width(&self, output: Option<&str>) -> (n: i32)
        ensures
            n == match output {
                Some(o) => if self.dimensions_per_output@.contains_key(o@)
                    && self.dimensions_per_output@[o@].min_button_width is Some {
                    self.dimensions_per_output@[o@].min_button_width->0
                } else {
                    self.min_button_width
                },
                None => self.min_button_width,
            },
    {
        if let Some(name) = output {
            if let Some(dims) = self.dimensions_per_output.get(name) {
                if let Some(w) = dims.min_button_width {
                    return w;
                }
            }
        }
        self.min_button_width
    }

    /// The largest button width on `output`: its own setting, else the
    /// general one, if any.
    pub fn max_button_width(&self, output: Option<&str>) -> (n: Option<i32>)
        ensures
            n == match output {
                Some(o) => if self.dimensions_per_output@.contains_key(o@)
                    && self.dimensions_per_output@[o@].max_button_width is Some {
                    self.dimensions_per_output@[o@].max_button_width
                } else {
                    self.max_button_width
                },
                None => self.max_button_width,
            },
    {
        if let Some(name) = output {
            if let Some(dims) = self.dimensions_per_output.get(name) {
                if dims.max_button_width.is_some() {
                    return dims.max_button_width;
                }
            }
        }
        self.max_button_width
    }

    /// The largest width of the list on `output`: from its dimensions, else
    /// from the per-output widths, else the general one.
    pub fn max_taskbar_width_for_output(&self, output: Option<&str>) -> (n: i32)
        ensures
            n == match output {
                Some(o) => if self.dimensions_per_output@.contains_key(o@)
                    && self.dimensions_per_output@[o@].max_taskbar_width is Some {
                    self.dimensions_per_output@[o@].max_taskbar_width->0
                } else if self.max_taskbar_width_per_output@.contains_key(o@) {
                    self.max_taskbar_width_per_output@[o@]
                } else {
                    self.max_taskbar_width
                },
                None => self.max_taskbar_width,
            },
    {
        if let Some(name) = output {
            if let Some(dims) = self.dimensions_per_output.get(name) {
                if let Some(w) = dims.max_taskbar_width {
                    return w;
                }
            }
            if let Some(w) = self.max_taskbar_width_per_output.get(name) {
                return *w;
            }
        }
        self.max_taskbar_width
    }

    pub fn context_menu(&self) -> (m: &Vec<Vec<ContextMenuItem>>)
        ensures
            *m == self.context_menu,
    {
        &self.context_menu
    }

    pub fn multi_select_modifier(&self) -> (k: ModifierKey)
        ensures
            k == self.multi_select_modifier,
    {
        self.multi_select_modifier
    }

    pub fn multi_select_menu(&self) -> (m: &Vec<MultiSelectMenuItem>)
        ensures
            *m == self.multi_select_menu,
    {
        &self.multi_select_menu
    }

    pub fn scroll_arrow_left(&self) -> (a: &str)
        ensures
            a@ == self.scroll_arrow_left@,
    {
        self.scroll_arrow_left.as_str()
    }

    pub fn scroll_arrow_right(&self) -> (a: &str)
        ensures
            a@ == self.scroll_arrow_right@,
    {
        self.scroll_arrow_right.as_str()
    }

    pub fn left_click_focus_on_press(&self) -> (b: bool)
        ensures
            b == self.left_click_focus_on_press,
    {
        self.left_click_focus_on_press
    }

    pub fn drag_hover_focus(&self) -> (b: bool)
        ensures
            b == self.drag.drag_hover_focus,
    {
        self.drag.drag_hover_focus
    }

    pub fn drag_hover_focus_delay(&self) -> (n: u32)
        ensures
            n == self.drag.drag_hover_focus_delay,
    {
        self.drag.drag_hover_focus_delay
    }

    pub fn truncate_titles(&self) -> (b: bool)
        ensures
            b == self.title_display.truncate_titles,
    {
        self.title_display.truncate_titles
    }

    pub fn allow_title_linebreaks(&self) -> (b: bool)
        ensures
            b == self.title_display.allow_title_linebreaks,
    {
        self.title_display.allow_title_linebreaks
    }

    pub fn show_tooltip(&self) -> (b: bool)
        ensures
            b == self.tooltip.show_tooltip,
    {
        self.tooltip.show_tooltip
    }

    pub fn tooltip_delay(&self) -> (n: u32)
        ensures
            n == self.tooltip.tooltip_delay,
    {
        self.tooltip.tooltip_delay
    }

    pub fn button_alignment(&self) -> (a: ButtonAlignment)
        ensures
            a == self.button_alignment,
    {
        self.button_alignment
    }

    pub fn audio_indicator(&self) -> (c: &AudioIndicatorConfig)
        ensures
            *c == self.audio_indicator,
    {
        &self.audio_indicator
    }

    /// The title format rule for `app_id`, while title formatting is on.
    pub fn title_format_rule(&self, app_id: &str) -> (r: Option<&TitleFormatRule>)
        ensures
            match r {
                Some(rule) => self.title_format.enabled && self.title_format.rules@.contains_key(
                    app_id@,
                ) && *rule == self.title_format.rules@[app_id@],
                None => !self.title_format.enabled || !self.title_format.rules@.contains_key(
                    app_id@,
                ),
            },
    {
        if self.title_format.enabled {
            self.title_format.rules.get(app_id)
        } else {
            None
        }
    }

    /// Whether the process table is read for windows of `app_id`.
    pub fn should_poll_proc(&self, app_id: Option<&str>) -> (b: bool)
        ensures
            b == (self.title_format.enabled && match app_id {
                Some(id) => self.title_format.rules@.contains_key(id@)
                    && self.title_format.rules@[id@].poll_proc,
                None => false,
            }),
    {
        if !self.title_format.enabled {
            return false;
        }
        match app_id {
            Some(id) => match self.title_format.rules.get(id) {
                Some(rule) => rule.poll_proc,
                None => false,
            },
            None => false,
        }
    }

    /// How often the process table is read: while title formatting is on
    /// and some rule asks for it.
    pub fn proc_poll_interval(&self) -> (r: Option<u64>)
        ensures
            r == if self.title_format.enabled && exists|k: Seq<char>|
                #![trigger self.title_format.rules@[k]]
                self.title_format.rules@.contains_key(k) && self.title_format.rules@[k].poll_proc {
                Some(self.title_format.poll_interval_ms)
            } else {
                None
            },
    {
        if !self.title_format.enabled {
            return None;
        }
        let rules = &self.title_format.rules;
        let mut i: usize = 0;
        while i < rules.len()
            invariant
                i <= rules.pairs().len(),
                *rules == self.title_format.rules,
                self.title_format.enabled,
                forall|k: int| 0 <= k < i ==> !(#[trigger] rules.pairs()[k]).1.poll_proc,
            decreases rules.pairs().len() - i,
        {
            if rules.value_at(i).poll_proc {
                proof {
                    use_type_invariant(rules);
                    rules.lemma_pairs();
                    let k = rules.pairs()[i as int].0;
                    assert(rules@[k] == rules.pairs()[i as int].1);
                    assert(crate::strmap::has_entry(rules.pairs(), k));
                    assert(self.title_format.rules@.contains_key(k) && self.title_format.rules@[k].poll_proc);
                }
                return Some(self.title_format.poll_interval_ms);
            }
            i = i + 1;
        }
        proof {
            use_type_invariant(rules);
            rules.lemma_pairs();
            assert forall|k: Seq<char>| #[trigger] rules@.contains_key(k) implies !rules@[k].poll_proc by {
                let j = choose|j: int| 0 <= j < rules.pairs().len() && (#[trigger] rules.pairs()[j]).0 == k;
                assert(rules@[rules.pairs()[j].0] == rules.pairs()[j].1);
            }
        }
        None
    }
}


impl Default for TitleFormatConfig {
    fn default() -> (r: Self)
        ensures
            r.enabled,
            r.rules@.map_values(|t: TitleFormatRule| rule_view(t)) == default_rules_view(),
            r.poll_interval_ms == 1000,
    {
        TitleFormatConfig { enabled: true, rules: default_rules(), poll_interval_ms: 1000 }
    }
}

impl Default for Settings {
    /// The configuration where the user sets nothing.
    fn default() -> (r: Self)
        ensures
            r.apps@ == Map::<Seq<char>, Vec<AppRule>>::empty(),
            r.notifications.enabled && r.notifications.use_desktop_entry
                && !r.notifications.use_fuzzy_matching,
            r.notifications.map_app_ids@ == Map::<Seq<char>, String>::empty(),
            r.icon_size == 24 && r.icon_spacing == 6,
            r.click_actions == default_click_actions(),
            r.ignore_rules@.len() == 0,
            is_default_context_menu(r.context_menu@),
            r.multi_select_modifier == ModifierKey::Ctrl,
            is_default_multi_select_menu(r.multi_select_menu@),
            r.audio_indicator.enabled && r.audio_indicator.clickable,
            r.title_format.enabled && r.title_format.poll_interval_ms == 1000,
            r.title_format.rules@.map_values(|t: TitleFormatRule| rule_view(t)) == default_rules_view(),
            !r.display.show_all_outputs && r.display.only_current_workspace,
            r.title_display.show_window_titles && r.title_display.truncate_titles
                && !r.title_display.allow_title_linebreaks,
            r.tooltip.show_tooltip && r.tooltip.tooltip_delay == 300,
            r.drag.drag_hover_focus && r.drag.drag_hover_focus_delay == 500,
            r.min_button_width == 150 && r.max_button_width is None && r.max_taskbar_width == 1200,
            r.max_taskbar_width_per_output@ == Map::<Seq<char>, i32>::empty(),
            r.dimensions_per_output@ == Map::<Seq<char>, OutputDimensions>::empty(),
            r.button_alignment == ButtonAlignment::Left,
            r.scroll_arrow_left@ == seq!['\u{25C0}'] && r.scroll_arrow_right@ == seq!['\u{25B6}'],
            !r.left_click_focus_on_press,
    {
        let left = "\u{25C0}".to_string();
        let right = "\u{25B6}".to_string();
        proof {
            reveal_strlit("\u{25C0}");
            reveal_strlit("\u{25B6}");
        }
        Settings {
            apps: StrMap::new(),
            notifications: NotificationConfig::default(),
            icon_size: 24,
            icon_spacing: 6,
            click_actions: ClickActions::default(),
            ignore_rules: Vec::new(),
            context_menu: default_context_menu(),
            multi_select_modifier: ModifierKey::Ctrl,
            multi_select_menu: default_multi_select_menu(),
            audio_indicator: AudioIndicatorConfig::default(),
            title_format: TitleFormatConfig::default(),
            display: DisplayConfig::default(),
            title_display: TitleDisplayConfig::default(),
            tooltip: TooltipConfig::default(),
            drag: DragConfig::default(),
            min_button_width: 150,
            max_button_width: None,
            max_taskbar_width: 1200,
            max_taskbar_width_per_output: StrMap::new(),
            dimensions_per_output: StrMap::new(),
            button_alignment: ButtonAlignment::Left,
            scroll_arrow_left: left,
            scroll_arrow_right: right,
            left_click_focus_on_press: false,
        }
    }
}


/// Choosing an entry of a window's context menu runs its command, else its
/// action, on the window.
pub fn context_menu_effect(item: &ContextMenuItem, window_id: u64, app_id: Option<&str>, title: Option<&str>) -> (e:
    Option<ClickEffect>)
    ensures
        match item.command {
            Some(c) => e matches Some(ClickEffect::Shell(s)) && s@ == expanded_command(
                c@,
                window_id,
                opt_view(app_id),
                opt_view(title),
            ),
            None => match item.action {
                Some(a) => e matches Some(ClickEffect::Requests(p)) && p@ == plan_of(a, window_id),
                None => e is None,
            },
        },
{
    match &item.command {
        Some(c) => Some(ClickEffect::Shell(execute_command(c.as_str(), window_id, app_id, title))),
        None => match &item.action {
            Some(a) => Some(ClickEffect::Requests(execute_action(a, window_id))),
            None => None,
        },
    }
}

/// What choosing an entry of the menu for the selected windows does.
pub enum MultiSelectEffect {
    /// The requests for each selected window.
    Requests(Vec<Vec<IpcAction>>),
    Shell(String),
    Nothing,
}

/// Choosing an entry of the menu for the selected windows runs its command
/// with `{window_ids}` filled in, else its action on each window; the
/// selection is cleared either way.
pub fn multi_select_menu_effect(item: &MultiSelectMenuItem, window_ids: &Vec<u64>) -> (e: MultiSelectEffect)
    ensures
        match item.command {
            Some(c) => e matches MultiSelectEffect::Shell(s) && s@ == replace_all(
                c@,
                "{window_ids}"@,
                joined_ids(window_ids@),
            ),
            None => match item.action {
                Some(a) => e matches MultiSelectEffect::Requests(plans) && plans@.len()
                    == window_ids@.len() && forall|i: int|
                    0 <= i < window_ids@.len() ==> (#[trigger] plans@[i])@ == multi_plan_of(
                        a,
                        window_ids@[i],
                    ),
                None => e is Nothing,
            },
        },
{
    proof {
        reveal_strlit("{window_ids}");
    }
    match &item.command {
        Some(c) => {
            let ids = join_ids(window_ids);
            MultiSelectEffect::Shell(replace(c.as_str(), "{window_ids}", ids.as_str()))
        },
        None => match &item.action {
            Some(a) => MultiSelectEffect::Requests(execute_multi_select_action(window_ids, a)),
            None => MultiSelectEffect::Nothing,
        },
    }
}

/// A rule that names only a title leaves out exactly the windows with that
/// title: a title that merely contains it, or lacks it, is kept.
pub proof fn law_ignore_title_is_exact(t: String, app_id: Option<Seq<char>>, title: Option<Seq<char>>, workspace_id: Option<u64>)
    ensures
        rule_ignores(
            IgnoreRule { app_id: None, title: Some(t), title_regex: None, title_contains: None, workspace: None },
            app_id,
            title,
            workspace_id,
        ) <==> title == Some(t@),
{
}

/// A rule that names only an application leaves out exactly that
/// application's windows.
pub proof fn law_ignore_app_is_exact(a: String, app_id: Option<Seq<char>>, title: Option<Seq<char>>, workspace_id: Option<u64>)
    ensures
        rule_ignores(
            IgnoreRule { app_id: Some(a), title: None, title_regex: None, title_contains: None, workspace: None },
            app_id,
            title,
            workspace_id,
        ) <==> app_id == Some(a@),
{
}

/// A rule that names only a part of the title leaves out exactly the
/// windows whose title holds that part.
pub proof fn law_ignore_title_part(c: String, app_id: Option<Seq<char>>, title: Option<Seq<char>>, workspace_id: Option<u64>)
    ensures
        rule_ignores(
            IgnoreRule { app_id: None, title: None, title_regex: None, title_contains: Some(c), workspace: None },
            app_id,
            title,
            workspace_id,
        ) <==> (title matches Some(x) && occurs(x, c@)),
{
}

/// A rule that names only a workspace leaves out exactly the windows on it.
pub proof fn law_ignore_workspace_is_exact(w: u64, app_id: Option<Seq<char>>, title: Option<Seq<char>>, workspace_id: Option<u64>)
    ensures
        rule_ignores(
            IgnoreRule { app_id: None, title: None, title_regex: None, title_contains: None, workspace: Some(w) },
            app_id,
            title,
            workspace_id,
        ) <==> workspace_id == Some(w),
{
}

/// A rule that names nothing leaves out every window, and a rule leaves out
/// a window exactly when each of its conditions, taken as a rule of its own,
/// would.
pub proof fn law_ignore_needs_every_condition(
    rule: IgnoreRule,
    app_id: Option<Seq<char>>,
    title: Option<Seq<char>>,
    workspace_id: Option<u64>,
)
    ensures
        rule_ignores(
            IgnoreRule { app_id: None, title: None, title_regex: None, title_contains: None, workspace: None },
            app_id,
            title,
            workspace_id,
        ),
        rule_ignores(rule, app_id, title, workspace_id) <==> {
            &&& rule_ignores(
                IgnoreRule { app_id: rule.app_id, title: None, title_regex: None, title_contains: None, workspace: None },
                app_id,
                title,
                workspace_id,
            )
            &&& rule_ignores(
                IgnoreRule { app_id: None, title: rule.title, title_regex: None, title_contains: None, workspace: None },
                app_id,
                title,
                workspace_id,
            )
            &&& rule_ignores(
                IgnoreRule {
                    app_id: None,
                    title: None,
                    title_regex: rule.title_regex,
                    title_contains: None,
                    workspace: None,
                },
                app_id,
                title,
                workspace_id,
            )
            &&& rule_ignores(
                IgnoreRule {
                    app_id: None,
                    title: None,
                    title_regex: None,
                    title_contains: rule.title_contains,
                    workspace: None,
                },
                app_id,
                title,
                workspace_id,
            )
            &&& rule_ignores(
                IgnoreRule { app_id: None, title: None, title_regex: None, title_contains: None, workspace: rule.workspace },
                app_id,
                title,
                workspace_id,
            )
        },
{
}

/// Whether rule `r` applies to a window titled `title` and names actions.
pub open spec fn rule_applies(r: AppRule, title: Seq<char>) -> bool {
    regex_matches(r.pattern.source()@, title) && r.click_actions is Some
}

/// The actions of the first rule that matches the title and names actions,
/// and only where no rule does, none.
pub proof fn lemma_first_rule_actions(rules: Seq<AppRule>, title: Seq<char>)
    ensures
        forall|i: int|
            0 <= i < rules.len() && #[trigger] rule_applies(rules[i], title) && (forall|j: int|
                0 <= j < i ==> !rule_applies(rules[j], title)) ==> first_rule_actions(rules, title)
                == rules[i].click_actions,
        (forall|i: int| 0 <= i < rules.len() ==> !#[trigger] rule_applies(rules[i], title)) ==> first_rule_actions(
            rules,
            title,
        ) is None,
    decreases rules.len(),
{
    if rules.len() > 0 {
        let t = rules.drop_first();
        lemma_first_rule_actions(t, title);
        assert forall|i: int|
            0 <= i < rules.len() && #[trigger] rule_applies(rules[i], title) && (forall|j: int|
                0 <= j < i ==> !rule_applies(rules[j], title)) implies first_rule_actions(rules, title)
            == rules[i].click_actions by {
            if i > 0 {
                assert(!rule_applies(rules[0], title));
                assert(t[i - 1] == rules[i]);
                assert forall|j: int| 0 <= j < i - 1 implies !rule_applies(t[j], title) by {
                    assert(t[j] == rules[j + 1]);
                }
            }
        }
        if forall|i: int| 0 <= i < rules.len() ==> !#[trigger] rule_applies(rules[i], title) {
            assert(!rule_applies(rules[0], title));
            assert forall|i: int| 0 <= i < t.len() implies !#[trigger] rule_applies(t[i], title) by {
                assert(t[i] == rules[i + 1]);
            }
        }
    }
}

/// A window's click actions are those of the first rule for its
/// application whose pattern matches its title and that names actions; a
/// window without application or title, or with no such rule, gets the
/// configured ones.
pub proof fn law_click_actions_first_matching_rule(s: Settings, app_id: Option<Seq<char>>, title: Option<Seq<char>>)
    ensures
        (app_id is None || title is None) ==> click_actions_for(s, app_id, title) == s.click_actions,
        app_id matches Some(id) ==> (!s.apps@.contains_key(id) ==> click_actions_for(s, app_id, title)
            == s.click_actions),
        ({
            match (app_id, title) {
                (Some(id), Some(t)) => s.apps@.contains_key(id) ==> {
                    let rules = s.apps@[id]@;
                    &&& forall|i: int|
                        0 <= i < rules.len() && #[trigger] rule_applies(rules[i], t) && (forall|j: int|
                            0 <= j < i ==> !rule_applies(rules[j], t)) ==> click_actions_for(s, app_id, title)
                            == rules[i].click_actions->0
                    &&& (forall|i: int| 0 <= i < rules.len() ==> !#[trigger] rule_applies(rules[i], t))
                        ==> click_actions_for(s, app_id, title) == s.click_actions
                },
                _ => true,
            }
        }),
{
    if let (Some(id), Some(t)) = (app_id, title) {
        if s.apps@.contains_key(id) {
            lemma_first_rule_actions(s.apps@[id]@, t);
        }
    }
}

} // verus!
