//! What a click, a scroll or a menu entry on a window button asks the
//! compositor to do.
use vstd::prelude::*;

use crate::text::{decimal, replace, replace_all, u64_decimal};

verus! {

broadcast use vstd::string::group_string_axioms;

/// An action on one window.
#[derive(PartialEq, Eq, Structural)]
pub enum WindowAction {
    NoAction,
    FocusWindow,
    CloseWindow,
    MaximizeColumn,
    MaximizeWindowToEdges,
    CenterColumn,
    CenterWindow,
    CenterVisibleColumns,
    ExpandColumnToAvailableWidth,
    FullscreenWindow,
    ToggleWindowedFullscreen,
    ToggleWindowFloating,
    ConsumeWindowIntoColumn,
    ExpelWindowFromColumn,
    ResetWindowHeight,
    SwitchPresetColumnWidth,
    SwitchPresetWindowHeight,
    MoveWindowToWorkspaceDown,
    MoveWindowToWorkspaceUp,
    MoveWindowToMonitorLeft,
    MoveWindowToMonitorRight,
    ToggleColumnTabbedDisplay,
    FocusWorkspacePrevious,
    MoveColumnLeft,
    MoveColumnRight,
    MoveColumnToFirst,
    MoveColumnToLast,
    MoveWindowDown,
    MoveWindowUp,
    MoveWindowDownOrToWorkspaceDown,
    MoveWindowUpOrToWorkspaceUp,
    MoveColumnLeftOrToMonitorLeft,
    MoveColumnRightOrToMonitorRight,
    Menu,
}

/// What a click does: a window action, or a shell command.
pub enum ClickAction {
    Action(WindowAction),
    Command { command: String },
}

impl ClickAction {
    /// Whether the click opens the context menu.
    pub fn is_menu(&self) -> (b: bool)
        ensures
            b == (*self matches ClickAction::Action(WindowAction::Menu)),
    {
        match self {
            ClickAction::Action(WindowAction::Menu) => true,
            _ => false,
        }
    }

    /// Whether the click does nothing.
    pub fn is_none(&self) -> (b: bool)
        ensures
            b == (*self matches ClickAction::Action(WindowAction::NoAction)),
    {
        match self {
            ClickAction::Action(WindowAction::NoAction) => true,
            _ => false,
        }
    }

    /// An equal click action.
    pub fn duplicate(&self) -> (r: Self)
        ensures
            r == *self,
    {
        match self {
            ClickAction::Action(a) => ClickAction::Action(a.duplicate()),
            ClickAction::Command { command } => ClickAction::Command { command: command.clone() },
        }
    }
}

impl WindowAction {
    /// An equal action.
    pub fn duplicate(&self) -> (r: Self)
        ensures
            r == *self,
    {
        match self {
            WindowAction::NoAction => WindowAction::NoAction,
            WindowAction::FocusWindow => WindowAction::FocusWindow,
            WindowAction::CloseWindow => WindowAction::CloseWindow,
            WindowAction::MaximizeColumn => WindowAction::MaximizeColumn,
            WindowAction::MaximizeWindowToEdges => WindowAction::MaximizeWindowToEdges,
            WindowAction::CenterColumn => WindowAction::CenterColumn,
            WindowAction::CenterWindow => WindowAction::CenterWindow,
            WindowAction::CenterVisibleColumns => WindowAction::CenterVisibleColumns,
            WindowAction::ExpandColumnToAvailableWidth => WindowAction::ExpandColumnToAvailableWidth,
            WindowAction::FullscreenWindow => WindowAction::FullscreenWindow,
            WindowAction::ToggleWindowedFullscreen => WindowAction::ToggleWindowedFullscreen,
            WindowAction::ToggleWindowFloating => WindowAction::ToggleWindowFloating,
            WindowAction::ConsumeWindowIntoColumn => WindowAction::ConsumeWindowIntoColumn,
            WindowAction::ExpelWindowFromColumn => WindowAction::ExpelWindowFromColumn,
            WindowAction::ResetWindowHeight => WindowAction::ResetWindowHeight,
            WindowAction::SwitchPresetColumnWidth => WindowAction::SwitchPresetColumnWidth,
            WindowAction::SwitchPresetWindowHeight => WindowAction::SwitchPresetWindowHeight,
            WindowAction::MoveWindowToWorkspaceDown => WindowAction::MoveWindowToWorkspaceDown,
            WindowAction::MoveWindowToWorkspaceUp => WindowAction::MoveWindowToWorkspaceUp,
            WindowAction::MoveWindowToMonitorLeft => WindowAction::MoveWindowToMonitorLeft,
            WindowAction::MoveWindowToMonitorRight => WindowAction::MoveWindowToMonitorRight,
            WindowAction::ToggleColumnTabbedDisplay => WindowAction::ToggleColumnTabbedDisplay,
            WindowAction::FocusWorkspacePrevious => WindowAction::FocusWorkspacePrevious,
            WindowAction::MoveColumnLeft => WindowAction::MoveColumnLeft,
            WindowAction::MoveColumnRight => WindowAction::MoveColumnRight,
            WindowAction::MoveColumnToFirst => WindowAction::MoveColumnToFirst,
            WindowAction::MoveColumnToLast => WindowAction::MoveColumnToLast,
            WindowAction::MoveWindowDown => WindowAction::MoveWindowDown,
            WindowAction::MoveWindowUp => WindowAction::MoveWindowUp,
            WindowAction::MoveWindowDownOrToWorkspaceDown => WindowAction::MoveWindowDownOrToWorkspaceDown,
            WindowAction::MoveWindowUpOrToWorkspaceUp => WindowAction::MoveWindowUpOrToWorkspaceUp,
            WindowAction::MoveColumnLeftOrToMonitorLeft => WindowAction::MoveColumnLeftOrToMonitorLeft,
            WindowAction::MoveColumnRightOrToMonitorRight => WindowAction::MoveColumnRightOrToMonitorRight,
            WindowAction::Menu => WindowAction::Menu,
        }
    }
}

/// The action of each kind of click on a window button.
pub struct ClickActions {
    pub left_click_unfocused: ClickAction,
    pub left_click_focused: ClickAction,
    pub double_click: ClickAction,
    pub right_click_unfocused: ClickAction,
    pub right_click_focused: ClickAction,
    pub middle_click_unfocused: ClickAction,
    pub middle_click_focused: ClickAction,
    pub scroll_up: ClickAction,
    pub scroll_down: ClickAction,
}

/// The click actions used where the configuration names none: focus an
/// unfocused window, maximize the column of a focused one, maximize to the
/// edges on a double click, open the menu on a right click, close on a
/// middle click, nothing on scrolling.
pub open spec fn default_click_actions() -> ClickActions {
    ClickActions {
        left_click_unfocused: ClickAction::Action(WindowAction::FocusWindow),
        left_click_focused: ClickAction::Action(WindowAction::MaximizeColumn),
        double_click: ClickAction::Action(WindowAction::MaximizeWindowToEdges),
        right_click_unfocused: ClickAction::Action(WindowAction::Menu),
        right_click_focused: ClickAction::Action(WindowAction::Menu),
        middle_click_unfocused: ClickAction::Action(WindowAction::CloseWindow),
        middle_click_focused: ClickAction::Action(WindowAction::CloseWindow),
        scroll_up: ClickAction::Action(WindowAction::NoAction),
        scroll_down: ClickAction::Action(WindowAction::NoAction),
    }
}

impl Default for ClickActions {
    fn default() -> (r: Self)
        ensures
            r == default_click_actions(),
    {
        ClickActions {
            left_click_unfocused: ClickAction::Action(WindowAction::FocusWindow),
            left_click_focused: ClickAction::Action(WindowAction::MaximizeColumn),
            double_click: ClickAction::Action(WindowAction::MaximizeWindowToEdges),
            right_click_unfocused: ClickAction::Action(WindowAction::Menu),
            right_click_focused: ClickAction::Action(WindowAction::Menu),
            middle_click_unfocused: ClickAction::Action(WindowAction::CloseWindow),
            middle_click_focused: ClickAction::Action(WindowAction::CloseWindow),
            scroll_up: ClickAction::Action(WindowAction::NoAction),
            scroll_down: ClickAction::Action(WindowAction::NoAction),
        }
    }
}

impl ClickActions {
    /// An equal set of click actions.
    pub fn duplicate(&self) -> (r: Self)
        ensures
            r == *self,
    {
        ClickActions {
            left_click_unfocused: self.left_click_unfocused.duplicate(),
            left_click_focused: self.left_click_focused.duplicate(),
            double_click: self.double_click.duplicate(),
            right_click_unfocused: self.right_click_unfocused.duplicate(),
            right_click_focused: self.right_click_focused.duplicate(),
            middle_click_unfocused: self.middle_click_unfocused.duplicate(),
            middle_click_focused: self.middle_click_focused.duplicate(),
            scroll_up: self.scroll_up.duplicate(),
            scroll_down: self.scroll_down.duplicate(),
        }
    }
}

/// An action on every selected window.
#[derive(PartialEq, Eq, Structural)]
pub enum MultiSelectAction {
    CloseWindows,
    MoveToWorkspaceUp,
    MoveToWorkspaceDown,
    MoveToMonitorLeft,
    MoveToMonitorRight,
    MoveToMonitorUp,
    MoveToMonitorDown,
    MoveColumnLeft,
    MoveColumnRight,
    ToggleFloating,
    FullscreenWindows,
    MaximizeColumns,
    CenterColumns,
    ConsumeIntoColumn,
    ToggleTabbedDisplay,
}

/// The modifier key that adds a window to the selection.
#[derive(PartialEq, Eq, Structural, Clone, Copy)]
pub enum ModifierKey {
    Ctrl,
    Shift,
    Alt,
    Super,
}

/// Which modifier keys are held.
#[derive(Clone, Copy)]
pub struct Modifiers {
    pub ctrl: bool,
    pub shift: bool,
    pub alt: bool,
    pub super_key: bool,
}

impl ModifierKey {
    /// Whether this key is among the held modifiers.
    pub fn is_held(self, held: Modifiers) -> (b: bool)
        ensures
            b == match self {
                ModifierKey::Ctrl => held.ctrl,
                ModifierKey::Shift => held.shift,
                ModifierKey::Alt => held.alt,
                ModifierKey::Super => held.super_key,
            },
    {
        match self {
            ModifierKey::Ctrl => held.ctrl,
            ModifierKey::Shift => held.shift,
            ModifierKey::Alt => held.alt,
            ModifierKey::Super => held.super_key,
        }
    }
}

/// A request for the compositor to act.
#[derive(PartialEq, Eq, Structural)]
pub enum IpcAction {
    FocusWindow { id: u64 },
    CloseWindow { id: Option<u64> },
    MaximizeColumn,
    MaximizeWindowToEdges { id: Option<u64> },
    CenterColumn,
    CenterWindow { id: Option<u64> },
    CenterVisibleColumns,
    ExpandColumnToAvailableWidth,
    FullscreenWindow { id: Option<u64> },
    ToggleWindowedFullscreen { id: Option<u64> },
    ToggleWindowFloating { id: Option<u64> },
    ConsumeWindowIntoColumn,
    ExpelWindowFromColumn,
    ResetWindowHeight { id: Option<u64> },
    SwitchPresetColumnWidth,
    SwitchPresetWindowHeight { id: Option<u64> },
    MoveWindowToWorkspaceDown { focus: bool },
    MoveWindowToWorkspaceUp { focus: bool },
    MoveWindowToMonitorLeft,
    MoveWindowToMonitorRight,
    MoveWindowToMonitorUp,
    MoveWindowToMonitorDown,
    ToggleColumnTabbedDisplay,
    FocusWorkspacePrevious,
    MoveColumnLeft,
    MoveColumnRight,
    MoveColumnToFirst,
    MoveColumnToLast,
    MoveWindowDown,
    MoveWindowUp,
    MoveWindowDownOrToWorkspaceDown,
    MoveWindowUpOrToWorkspaceUp,
    MoveColumnLeftOrToMonitorLeft,
    MoveColumnRightOrToMonitorRight,
    MoveColumnToIndex { index: usize },
    /// Moves a window to a workspace given by id, without following it.
    MoveWindowToWorkspace { window_id: u64, workspace_id: u64 },
}

/// The request that carries out `a` on window `id` by naming the window.
pub open spec fn direct_request(a: WindowAction, id: u64) -> Option<IpcAction> {
    match a {
        WindowAction::FocusWindow => Some(IpcAction::FocusWindow { id }),
        WindowAction::CloseWindow => Some(IpcAction::CloseWindow { id: Some(id) }),
        WindowAction::CenterWindow => Some(IpcAction::CenterWindow { id: Some(id) }),
        WindowAction::FullscreenWindow => Some(IpcAction::FullscreenWindow { id: Some(id) }),
        WindowAction::ToggleWindowedFullscreen => Some(
            IpcAction::ToggleWindowedFullscreen { id: Some(id) },
        ),
        WindowAction::ToggleWindowFloating => Some(IpcAction::ToggleWindowFloating { id: Some(id) }),
        _ => None,
    }
}

/// The request that carries out `a` once window `id` has focus.
pub open spec fn after_focus_request(a: WindowAction, id: u64) -> Option<IpcAction> {
    match a {
        WindowAction::MaximizeColumn => Some(IpcAction::MaximizeColumn),
        WindowAction::MaximizeWindowToEdges => Some(
            IpcAction::MaximizeWindowToEdges { id: Some(id) },
        ),
        WindowAction::CenterColumn => Some(IpcAction::CenterColumn),
        WindowAction::CenterVisibleColumns => Some(IpcAction::CenterVisibleColumns),
        WindowAction::ExpandColumnToAvailableWidth => Some(IpcAction::ExpandColumnToAvailableWidth),
        WindowAction::ConsumeWindowIntoColumn => Some(IpcAction::ConsumeWindowIntoColumn),
        WindowAction::ExpelWindowFromColumn => Some(IpcAction::ExpelWindowFromColumn),
        WindowAction::ResetWindowHeight => Some(IpcAction::ResetWindowHeight { id: None }),
        WindowAction::SwitchPresetColumnWidth => Some(IpcAction::SwitchPresetColumnWidth),
        WindowAction::SwitchPresetWindowHeight => Some(
            IpcAction::SwitchPresetWindowHeight { id: None },
        ),
        WindowAction::MoveWindowToWorkspaceDown => Some(
            IpcAction::MoveWindowToWorkspaceDown { focus: false },
        ),
        WindowAction::MoveWindowToWorkspaceUp => Some(
            IpcAction::MoveWindowToWorkspaceUp { focus: false },
        ),
        WindowAction::MoveWindowToMonitorLeft => Some(IpcAction::MoveWindowToMonitorLeft),
        WindowAction::MoveWindowToMonitorRight => Some(IpcAction::MoveWindowToMonitorRight),
        WindowAction::ToggleColumnTabbedDisplay => Some(IpcAction::ToggleColumnTabbedDisplay),
        WindowAction::FocusWorkspacePrevious => Some(IpcAction::FocusWorkspacePrevious),
        WindowAction::MoveColumnLeft => Some(IpcAction::MoveColumnLeft),
        WindowAction::MoveColumnRight => Some(IpcAction::MoveColumnRight),
        WindowAction::MoveColumnToFirst => Some(IpcAction::MoveColumnToFirst),
        WindowAction::MoveColumnToLast => Some(IpcAction::MoveColumnToLast),
        WindowAction::MoveWindowDown => Some(IpcAction::MoveWindowDown),
        WindowAction::MoveWindowUp => Some(IpcAction::MoveWindowUp),
        WindowAction::MoveWindowDownOrToWorkspaceDown => Some(
            IpcAction::MoveWindowDownOrToWorkspaceDown,
        ),
        WindowAction::MoveWindowUpOrToWorkspaceUp => Some(IpcAction::MoveWindowUpOrToWorkspaceUp),
        WindowAction::MoveColumnLeftOrToMonitorLeft => Some(
            IpcAction::MoveColumnLeftOrToMonitorLeft,
        ),
        WindowAction::MoveColumnRightOrToMonitorRight => Some(
            IpcAction::MoveColumnRightOrToMonitorRight,
        ),
        _ => None,
    }
}

/// The requests, in order, that carry out `a` on window `id`: one that names
/// the window, or a focus request and one on the focused window; none for
/// `None` and `Menu`.
pub open spec fn plan_of(a: WindowAction, id: u64) -> Seq<IpcAction> {
    match direct_request(a, id) {
        Some(r) => seq![r],
        None => match after_focus_request(a, id) {
            Some(r) => seq![IpcAction::FocusWindow { id }, r],
            None => Seq::empty(),
        },
    }
}

/// The requests that carry out `action` on window `id`, to be sent in order
/// until one fails.
pub fn execute_action(action: &WindowAction, window_id: u64) -> (plan: Vec<IpcAction>)
    ensures
        plan@ == plan_of(*action, window_id),
{
    let id = window_id;
    let direct = match action {
        WindowAction::FocusWindow => Some(IpcAction::FocusWindow { id }),
        WindowAction::CloseWindow => Some(IpcAction::CloseWindow { id: Some(id) }),
        WindowAction::CenterWindow => Some(IpcAction::CenterWindow { id: Some(id) }),
        WindowAction::FullscreenWindow => Some(IpcAction::FullscreenWindow { id: Some(id) }),
        WindowAction::ToggleWindowedFullscreen => Some(
            IpcAction::ToggleWindowedFullscreen { id: Some(id) },
        ),
        WindowAction::ToggleWindowFloating => Some(IpcAction::ToggleWindowFloating { id: Some(id) }),
        _ => None,
    };
    if let Some(r) = direct {
        return vec![r];
    }
    let after = match action {
        WindowAction::MaximizeColumn => Some(IpcAction::MaximizeColumn),
        WindowAction::MaximizeWindowToEdges => Some(
            IpcAction::MaximizeWindowToEdges { id: Some(id) },
        ),
        WindowAction::CenterColumn => Some(IpcAction::CenterColumn),
        WindowAction::CenterVisibleColumns => Some(IpcAction::CenterVisibleColumns),
        WindowAction::ExpandColumnToAvailableWidth => Some(IpcAction::ExpandColumnToAvailableWidth),
        WindowAction::ConsumeWindowIntoColumn => Some(IpcAction::ConsumeWindowIntoColumn),
        WindowAction::ExpelWindowFromColumn => Some(IpcAction::ExpelWindowFromColumn),
        WindowAction::ResetWindowHeight => Some(IpcAction::ResetWindowHeight { id: None }),
        WindowAction::SwitchPresetColumnWidth => Some(IpcAction::SwitchPresetColumnWidth),
        WindowAction::SwitchPresetWindowHeight => Some(
            IpcAction::SwitchPresetWindowHeight { id: None },
        ),
        WindowAction::MoveWindowToWorkspaceDown => Some(
            IpcAction::MoveWindowToWorkspaceDown { focus: false },
        ),
        WindowAction::MoveWindowToWorkspaceUp => Some(
            IpcAction::MoveWindowToWorkspaceUp { focus: false },
        ),
        WindowAction::MoveWindowToMonitorLeft => Some(IpcAction::MoveWindowToMonitorLeft),
        WindowAction::MoveWindowToMonitorRight => Some(IpcAction::MoveWindowToMonitorRight),
        WindowAction::ToggleColumnTabbedDisplay => Some(IpcAction::ToggleColumnTabbedDisplay),
        WindowAction::FocusWorkspacePrevious => Some(IpcAction::FocusWorkspacePrevious),
        WindowAction::MoveColumnLeft => Some(IpcAction::MoveColumnLeft),
        WindowAction::MoveColumnRight => Some(IpcAction::MoveColumnRight),
        WindowAction::MoveColumnToFirst => Some(IpcAction::MoveColumnToFirst),
        WindowAction::MoveColumnToLast => Some(IpcAction::MoveColumnToLast),
        WindowAction::MoveWindowDown => Some(IpcAction::MoveWindowDown),
        WindowAction::MoveWindowUp => Some(IpcAction::MoveWindowUp),
        WindowAction::MoveWindowDownOrToWorkspaceDown => Some(
            IpcAction::MoveWindowDownOrToWorkspaceDown,
        ),
        WindowAction::MoveWindowUpOrToWorkspaceUp => Some(IpcAction::MoveWindowUpOrToWorkspaceUp),
        WindowAction::MoveColumnLeftOrToMonitorLeft => Some(
            IpcAction::MoveColumnLeftOrToMonitorLeft,
        ),
        WindowAction::MoveColumnRightOrToMonitorRight => Some(
            IpcAction::MoveColumnRightOrToMonitorRight,
        ),
        _ => None,
    };
    match after {
        Some(r) => vec![IpcAction::FocusWindow { id }, r],
        None => Vec::new(),
    }
}

/// The requests that carry out `a` on window `id` of a selection.
pub open spec fn multi_plan_of(a: MultiSelectAction, id: u64) -> Seq<IpcAction> {
    let focus = IpcAction::FocusWindow { id };
    match a {
        MultiSelectAction::CloseWindows => seq![IpcAction::CloseWindow { id: Some(id) }],
        MultiSelectAction::MoveToWorkspaceUp => seq![
            focus,
            IpcAction::MoveWindowToWorkspaceUp { focus: false },
        ],
        MultiSelectAction::MoveToWorkspaceDown => seq![
            focus,
            IpcAction::MoveWindowToWorkspaceDown { focus: false },
        ],
        MultiSelectAction::MoveToMonitorLeft => seq![focus, IpcAction::MoveWindowToMonitorLeft],
        MultiSelectAction::MoveToMonitorRight => seq![focus, IpcAction::MoveWindowToMonitorRight],
        MultiSelectAction::MoveToMonitorUp => seq![focus, IpcAction::MoveWindowToMonitorUp],
        MultiSelectAction::MoveToMonitorDown => seq![focus, IpcAction::MoveWindowToMonitorDown],
        MultiSelectAction::MoveColumnLeft => seq![focus, IpcAction::MoveColumnLeft],
        MultiSelectAction::MoveColumnRight => seq![focus, IpcAction::MoveColumnRight],
        MultiSelectAction::ToggleFloating => seq![IpcAction::ToggleWindowFloating { id: Some(id) }],
        MultiSelectAction::FullscreenWindows => seq![IpcAction::FullscreenWindow { id: Some(id) }],
        MultiSelectAction::MaximizeColumns => seq![focus, IpcAction::MaximizeColumn],
        MultiSelectAction::CenterColumns => seq![focus, IpcAction::CenterColumn],
        MultiSelectAction::ConsumeIntoColumn => seq![focus, IpcAction::ConsumeWindowIntoColumn],
        MultiSelectAction::ToggleTabbedDisplay => seq![focus, IpcAction::ToggleColumnTabbedDisplay],
    }
}

fn multi_plan(action: &MultiSelectAction, id: u64) -> (plan: Vec<IpcAction>)
    ensures
        plan@ == multi_plan_of(*action, id),
{
    let focus = IpcAction::FocusWindow { id };
    match action {
        MultiSelectAction::CloseWindows => vec![IpcAction::CloseWindow { id: Some(id) }],
        MultiSelectAction::MoveToWorkspaceUp => vec![
            focus,
            IpcAction::MoveWindowToWorkspaceUp { focus: false },
        ],
        MultiSelectAction::MoveToWorkspaceDown => vec![
            focus,
            IpcAction::MoveWindowToWorkspaceDown { focus: false },
        ],
        MultiSelectAction::MoveToMonitorLeft => vec![focus, IpcAction::MoveWindowToMonitorLeft],
        MultiSelectAction::MoveToMonitorRight => vec![focus, IpcAction::MoveWindowToMonitorRight],
        MultiSelectAction::MoveToMonitorUp => vec![focus, IpcAction::MoveWindowToMonitorUp],
        MultiSelectAction::MoveToMonitorDown => vec![focus, IpcAction::MoveWindowToMonitorDown],
        MultiSelectAction::MoveColumnLeft => vec![focus, IpcAction::MoveColumnLeft],
        MultiSelectAction::MoveColumnRight => vec![focus, IpcAction::MoveColumnRight],
        MultiSelectAction::ToggleFloating => vec![IpcAction::ToggleWindowFloating { id: Some(id) }],
        MultiSelectAction::FullscreenWindows => vec![IpcAction::FullscreenWindow { id: Some(id) }],
        MultiSelectAction::MaximizeColumns => vec![focus, IpcAction::MaximizeColumn],
        MultiSelectAction::CenterColumns => vec![focus, IpcAction::CenterColumn],
        MultiSelectAction::ConsumeIntoColumn => vec![focus, IpcAction::ConsumeWindowIntoColumn],
        MultiSelectAction::ToggleTabbedDisplay => vec![focus, IpcAction::ToggleColumnTabbedDisplay],
    }
}

/// The requests for each selected window, in the order of `window_ids`; a
/// failure on one window does not stop the others.
pub fn execute_multi_select_action(window_ids: &Vec<u64>, action: &MultiSelectAction) -> (plans: Vec<
    Vec<IpcAction>,
>)
    ensures
        plans@.len() == window_ids@.len(),
        forall|i: int|
            0 <= i < window_ids@.len() ==> (#[trigger] plans@[i])@ == multi_plan_of(
                *action,
                window_ids@[i],
            ),
{
    let mut plans: Vec<Vec<IpcAction>> = Vec::new();
    let mut i: usize = 0;
    while i < window_ids.len()
        invariant
            i <= window_ids@.len(),
            plans@.len() == i,
            forall|k: int|
                0 <= k < i ==> (#[trigger] plans@[k])@ == multi_plan_of(*action, window_ids@[k]),
        decreases window_ids@.len() - i,
    {
        let p = multi_plan(action, window_ids[i]);
        plans.push(p);
        i = i + 1;
    }
    plans
}

/// `command` with `{window_id}`, `{app_id}` and `{title}` filled in, in that
/// order; a missing app id or title is filled in as empty.
pub open spec fn expanded_command(
    command: Seq<char>,
    window_id: u64,
    app_id: Option<Seq<char>>,
    title: Option<Seq<char>>,
) -> Seq<char> {
    let a = replace_all(command, "{window_id}"@, decimal(window_id as nat));
    let b = replace_all(a, "{app_id}"@, app_id.unwrap_or(Seq::empty()));
    replace_all(b, "{title}"@, title.unwrap_or(Seq::empty()))
}

/// The shell command a click runs for a window.
pub fn execute_command(command: &str, window_id: u64, app_id: Option<&str>, title: Option<&str>) -> (r:
    String)
    ensures
        r@ == expanded_command(
            command@,
            window_id,
            match app_id {
                Some(a) => Some(a@),
                None => None,
            },
            match title {
                Some(t) => Some(t@),
                None => None,
            },
        ),
{
    proof {
        reveal_strlit("{window_id}");
        reveal_strlit("{app_id}");
        reveal_strlit("{title}");
    }
    proof {
        reveal_strlit("");
        assert(""@ =~= Seq::<char>::empty());
    }
    let app: &str = match app_id {
        Some(a) => a,
        None => "",
    };
    let ttl: &str = match title {
        Some(t) => t,
        None => "",
    };
    let id = u64_decimal(window_id);
    let a = replace(command, "{window_id}", id.as_str());
    let b = replace(a.as_str(), "{app_id}", app);
    replace(b.as_str(), "{title}", ttl)
}


/// What carrying out a click action takes: requests to the compositor, or a
/// shell command to run.
pub enum ClickEffect {
    Requests(Vec<IpcAction>),
    Shell(String),
}

/// What a click action does on window `window_id`.
pub fn execute_click_action(
    action: &ClickAction,
    window_id: u64,
    app_id: Option<&str>,
    title: Option<&str>,
) -> (e: ClickEffect)
    ensures
        match (*action, e) {
            (ClickAction::Action(a), ClickEffect::Requests(p)) => p@ == plan_of(a, window_id),
            (ClickAction::Command { command }, ClickEffect::Shell(c)) => c@ == expanded_command(
                command@,
                window_id,
                match app_id {
                    Some(a) => Some(a@),
                    None => None,
                },
                match title {
                    Some(t) => Some(t@),
                    None => None,
                },
            ),
            _ => false,
        },
{
    match action {
        ClickAction::Action(a) => ClickEffect::Requests(execute_action(a, window_id)),
        ClickAction::Command { command } => ClickEffect::Shell(
            execute_command(command.as_str(), window_id, app_id, title),
        ),
    }
}

/// Which of the configured click actions applies.
#[derive(PartialEq, Eq, Structural, Clone, Copy)]
pub enum ClickSlot {
    LeftUnfocused,
    LeftFocused,
    DoubleClick,
    RightUnfocused,
    RightFocused,
    MiddleUnfocused,
    MiddleFocused,
    ScrollUp,
    ScrollDown,
}

/// The configured action in slot `slot`.
pub open spec fn slot_action(a: ClickActions, slot: ClickSlot) -> ClickAction {
    match slot {
        ClickSlot::LeftUnfocused => a.left_click_unfocused,
        ClickSlot::LeftFocused => a.left_click_focused,
        ClickSlot::DoubleClick => a.double_click,
        ClickSlot::RightUnfocused => a.right_click_unfocused,
        ClickSlot::RightFocused => a.right_click_focused,
        ClickSlot::MiddleUnfocused => a.middle_click_unfocused,
        ClickSlot::MiddleFocused => a.middle_click_focused,
        ClickSlot::ScrollUp => a.scroll_up,
        ClickSlot::ScrollDown => a.scroll_down,
    }
}

impl ClickActions {
    /// The action configured for `slot`.
    pub fn pick(&self, slot: ClickSlot) -> (r: &ClickAction)
        ensures
            *r == slot_action(*self, slot),
    {
        match slot {
            ClickSlot::LeftUnfocused => &self.left_click_unfocused,
            ClickSlot::LeftFocused => &self.left_click_focused,
            ClickSlot::DoubleClick => &self.double_click,
            ClickSlot::RightUnfocused => &self.right_click_unfocused,
            ClickSlot::RightFocused => &self.right_click_focused,
            ClickSlot::MiddleUnfocused => &self.middle_click_unfocused,
            ClickSlot::MiddleFocused => &self.middle_click_focused,
            ClickSlot::ScrollUp => &self.scroll_up,
            ClickSlot::ScrollDown => &self.scroll_down,
        }
    }
}

/// Two releases on a focused button closer than this, in milliseconds, make
/// a double click.
pub const DOUBLE_CLICK_MS: u64 = 300;

/// When the last click on a focused button counts as having happened.
#[derive(PartialEq, Eq, Structural, Clone, Copy)]
pub enum LastClick {
    Keep,
    Now,
    /// Far enough back that the next release is no double click.
    Forget,
}

/// What releasing a mouse button on a window button does.
pub struct ReleaseOutcome {
    /// The event is consumed.
    pub stop: bool,
    /// The pending skip, set by a press that already acted, is cleared.
    pub clear_skip: bool,
    pub clear_selection: bool,
    /// The button is shown focused before the compositor confirms it.
    pub optimistic_focus: bool,
    pub run: Option<ClickSlot>,
    pub last_click: LastClick,
}

/// The outcome of releasing mouse button `button`, given whether a press
/// already acted on it, whether the window has focus, and the milliseconds
/// since the last click on the focused button.
pub open spec fn release_outcome(button: u32, skip: bool, is_focused: bool, since_last_ms: u64) -> ReleaseOutcome {
    if button != 1 {
        ReleaseOutcome {
            stop: false,
            clear_skip: false,
            clear_selection: false,
            optimistic_focus: false,
            run: None,
            last_click: LastClick::Keep,
        }
    } else if skip {
        ReleaseOutcome {
            stop: true,
            clear_skip: true,
            clear_selection: false,
            optimistic_focus: false,
            run: None,
            last_click: LastClick::Keep,
        }
    } else if is_focused && since_last_ms < DOUBLE_CLICK_MS {
        ReleaseOutcome {
            stop: true,
            clear_skip: false,
            clear_selection: true,
            optimistic_focus: false,
            run: Some(ClickSlot::DoubleClick),
            last_click: LastClick::Forget,
        }
    } else if is_focused {
        ReleaseOutcome {
            stop: true,
            clear_skip: false,
            clear_selection: true,
            optimistic_focus: false,
            run: Some(ClickSlot::LeftFocused),
            last_click: LastClick::Now,
        }
    } else {
        ReleaseOutcome {
            stop: true,
            clear_skip: false,
            clear_selection: true,
            optimistic_focus: true,
            run: Some(ClickSlot::LeftUnfocused),
            last_click: LastClick::Keep,
        }
    }
}

/// Decides what releasing a mouse button on a window button does.
pub fn on_release(button: u32, skip: bool, is_focused: bool, since_last_ms: u64) -> (r: ReleaseOutcome)
    ensures
        r == release_outcome(button, skip, is_focused, since_last_ms),
{
    if button != 1 {
        ReleaseOutcome {
            stop: false,
            clear_skip: false,
            clear_selection: false,
            optimistic_focus: false,
            run: None,
            last_click: LastClick::Keep,
        }
    } else if skip {
        ReleaseOutcome {
            stop: true,
            clear_skip: true,
            clear_selection: false,
            optimistic_focus: false,
            run: None,
            last_click: LastClick::Keep,
        }
    } else if is_focused && since_last_ms < DOUBLE_CLICK_MS {
        ReleaseOutcome {
            stop: true,
            clear_skip: false,
            clear_selection: true,
            optimistic_focus: false,
            run: Some(ClickSlot::DoubleClick),
            last_click: LastClick::Forget,
        }
    } else if is_focused {
        ReleaseOutcome {
            stop: true,
            clear_skip: false,
            clear_selection: true,
            optimistic_focus: false,
            run: Some(ClickSlot::LeftFocused),
            last_click: LastClick::Now,
        }
    } else {
        ReleaseOutcome {
            stop: true,
            clear_skip: false,
            clear_selection: true,
            optimistic_focus: true,
            run: Some(ClickSlot::LeftUnfocused),
            last_click: LastClick::Keep,
        }
    }
}

/// How a press changes the selection.
#[derive(PartialEq, Eq, Structural, Clone, Copy)]
pub enum SelectionChange {
    Keep,
    /// The window joins the selection and is highlighted.
    Add,
    /// The window leaves the selection and loses its highlight.
    Remove,
    Clear,
}

/// What pressing a mouse button on a window button does.
pub struct PressOutcome {
    pub stop: bool,
    /// The coming release is to be skipped.
    pub set_skip: bool,
    pub selection: SelectionChange,
    pub optimistic_focus: bool,
    pub run: Option<ClickSlot>,
    /// The context menu opens for the window.
    pub context_menu: bool,
    /// The menu for the selected windows opens.
    pub multi_select_menu: bool,
}

/// The click on button 2 or 3 either opens the context menu, where the
/// configured action is the menu, or runs that action.
pub open spec fn menu_or_run(actions: ClickActions, slot: ClickSlot) -> PressOutcome {
    let menu = slot_action(actions, slot) matches ClickAction::Action(WindowAction::Menu);
    PressOutcome {
        stop: true,
        set_skip: false,
        selection: SelectionChange::Keep,
        optimistic_focus: false,
        run: if menu {
            None
        } else {
            Some(slot)
        },
        context_menu: menu,
        multi_select_menu: false,
    }
}

/// The outcome of pressing mouse button `button`.
pub open spec fn press_outcome(
    actions: ClickActions,
    button: u32,
    modifier_held: bool,
    is_focused: bool,
    is_selected: bool,
    selection_empty: bool,
) -> PressOutcome {
    let nothing = PressOutcome {
        stop: false,
        set_skip: false,
        selection: SelectionChange::Keep,
        optimistic_focus: false,
        run: None,
        context_menu: false,
        multi_select_menu: false,
    };
    if button == 1 {
        if modifier_held {
            PressOutcome {
                set_skip: true,
                selection: if is_selected {
                    SelectionChange::Remove
                } else {
                    SelectionChange::Add
                },
                ..nothing
            }
        } else if !is_focused {
            PressOutcome {
                set_skip: true,
                selection: SelectionChange::Clear,
                optimistic_focus: true,
                run: Some(ClickSlot::LeftUnfocused),
                ..nothing
            }
        } else {
            nothing
        }
    } else if button == 2 {
        menu_or_run(
            actions,
            if is_focused {
                ClickSlot::MiddleFocused
            } else {
                ClickSlot::MiddleUnfocused
            },
        )
    } else if button == 3 {
        if selection_empty {
            menu_or_run(
                actions,
                if is_focused {
                    ClickSlot::RightFocused
                } else {
                    ClickSlot::RightUnfocused
                },
            )
        } else {
            PressOutcome { stop: true, multi_select_menu: true, ..nothing }
        }
    } else {
        nothing
    }
}

fn menu_or_run_exec(actions: &ClickActions, slot: ClickSlot) -> (r: PressOutcome)
    ensures
        r == menu_or_run(*actions, slot),
{
    let menu = actions.pick(slot).is_menu();
    PressOutcome {
        stop: true,
        set_skip: false,
        selection: SelectionChange::Keep,
        optimistic_focus: false,
        run: if menu {
            None
        } else {
            Some(slot)
        },
        context_menu: menu,
        multi_select_menu: false,
    }
}

/// Decides what pressing a mouse button on a window button does.
pub fn on_press(
    actions: &ClickActions,
    button: u32,
    modifier_held: bool,
    is_focused: bool,
    is_selected: bool,
    selection_empty: bool,
) -> (r: PressOutcome)
    ensures
        r == press_outcome(*actions, button, modifier_held, is_focused, is_selected, selection_empty),
{
    let nothing = PressOutcome {
        stop: false,
        set_skip: false,
        selection: SelectionChange::Keep,
        optimistic_focus: false,
        run: None,
        context_menu: false,
        multi_select_menu: false,
    };
    if button == 1 {
        if modifier_held {
            PressOutcome {
                set_skip: true,
                selection: if is_selected {
                    SelectionChange::Remove
                } else {
                    SelectionChange::Add
                },
                ..nothing
            }
        } else if !is_focused {
            PressOutcome {
                set_skip: true,
                selection: SelectionChange::Clear,
                optimistic_focus: true,
                run: Some(ClickSlot::LeftUnfocused),
                ..nothing
            }
        } else {
            nothing
        }
    } else if button == 2 {
        menu_or_run_exec(
            actions,
            if is_focused {
                ClickSlot::MiddleFocused
            } else {
                ClickSlot::MiddleUnfocused
            },
        )
    } else if button == 3 {
        if selection_empty {
            menu_or_run_exec(
                actions,
                if is_focused {
                    ClickSlot::RightFocused
                } else {
                    ClickSlot::RightUnfocused
                },
            )
        } else {
            PressOutcome { stop: true, multi_select_menu: true, ..nothing }
        }
    } else {
        nothing
    }
}

/// Which way a scroll went, as far as it picks an action.
#[derive(PartialEq, Eq, Structural, Clone, Copy)]
pub enum ScrollWay {
    Up,
    Down,
    /// Too small a smooth scroll, or a sideways one.
    Neither,
}

/// The action that a scroll runs: the configured one for its way, unless
/// that does nothing.
pub fn on_scroll(actions: &ClickActions, way: ScrollWay) -> (r: Option<ClickSlot>)
    ensures
        r == match way {
            ScrollWay::Up => if actions.scroll_up matches ClickAction::Action(WindowAction::NoAction) {
                None
            } else {
                Some(ClickSlot::ScrollUp)
            },
            ScrollWay::Down => if actions.scroll_down matches ClickAction::Action(
                WindowAction::NoAction,
            ) {
                None
            } else {
                Some(ClickSlot::ScrollDown)
            },
            ScrollWay::Neither => None,
        },
{
    match way {
        ScrollWay::Up => if actions.scroll_up.is_none() {
            None
        } else {
            Some(ClickSlot::ScrollUp)
        },
        ScrollWay::Down => if actions.scroll_down.is_none() {
            None
        } else {
            Some(ClickSlot::ScrollDown)
        },
        ScrollWay::Neither => None,
    }
}


/// The compositor's reply to a request, as far as it is read.
pub enum IpcReply {
    Handled,
    /// Some other response, as text.
    Other(String),
    /// The compositor's error message.
    Failed(String),
}

/// What went wrong talking to the compositor.
pub enum CompositorIpcError {
    Io(String),
    Reply(String),
    UnexpectedResponse { expected: String, actual: String },
    EventChannelClosed,
}

/// A request succeeded exactly when the compositor answers that it handled
/// it; any other answer is an error that carries it.
pub fn validate_handled(response: IpcReply) -> (r: Result<(), CompositorIpcError>)
    ensures
        match response {
            IpcReply::Handled => r is Ok,
            IpcReply::Other(actual) => r matches Err(
                CompositorIpcError::UnexpectedResponse { expected, actual: a },
            ) && expected@ == "Handled"@ && a == actual,
            IpcReply::Failed(msg) => r matches Err(CompositorIpcError::Reply(m)) && m == msg,
        },
{
    match response {
        IpcReply::Handled => Ok(()),
        IpcReply::Other(actual) => Err(
            CompositorIpcError::UnexpectedResponse { expected: "Handled".to_string(), actual },
        ),
        IpcReply::Failed(msg) => Err(CompositorIpcError::Reply(msg)),
    }
}

/// An action other than doing nothing or opening the menu acts on the
/// window: its first request names it or focuses it, and there are at most
/// two.
pub proof fn law_plan_targets_window(a: WindowAction, id: u64)
    ensures
        (a == WindowAction::NoAction || a == WindowAction::Menu) <==> plan_of(a, id).len() == 0,
        plan_of(a, id).len() <= 2,
        plan_of(a, id).len() == 2 ==> plan_of(a, id)[0] == (IpcAction::FocusWindow { id }),
        plan_of(a, id).len() == 1 ==> (match plan_of(a, id)[0] {
            IpcAction::FocusWindow { id: w } => w == id,
            IpcAction::CloseWindow { id: w } => w == Some(id),
            IpcAction::CenterWindow { id: w } => w == Some(id),
            IpcAction::FullscreenWindow { id: w } => w == Some(id),
            IpcAction::ToggleWindowedFullscreen { id: w } => w == Some(id),
            IpcAction::ToggleWindowFloating { id: w } => w == Some(id),
            _ => false,
        }),
{
}

/// The selected windows' ids, in decimal, separated by commas.
pub open spec fn joined_ids(ids: Seq<u64>) -> Seq<char>
    decreases ids.len(),
{
    if ids.len() == 0 {
        Seq::empty()
    } else if ids.len() == 1 {
        decimal(ids[0] as nat)
    } else {
        joined_ids(ids.drop_last()) + seq![','] + decimal(ids.last() as nat)
    }
}

/// The selected windows' ids joined by commas.
pub fn join_ids(ids: &Vec<u64>) -> (r: String)
    ensures
        r@ == joined_ids(ids@),
{
    let mut out: Vec<char> = Vec::new();
    let mut i: usize = 0;
    while i < ids.len()
        invariant
            i <= ids@.len(),
            out@ == joined_ids(ids@.take(i as int)),
        decreases ids@.len() - i,
    {
        proof {
            assert(ids@.take(i + 1).drop_last() =~= ids@.take(i as int));
        }
        let d = u64_decimal(ids[i]);
        let dv = crate::text::chars_of(d.as_str());
        if i > 0 {
            out.push(',');
        }
        let ghost base = out@;
        let mut j: usize = 0;
        while j < dv.len()
            invariant
                j <= dv@.len(),
                out@ == base + dv@.take(j as int),
            decreases dv@.len() - j,
        {
            out.push(dv[j]);
            proof {
                assert(dv@.take(j + 1) =~= dv@.take(j as int).push(dv@[j as int]));
            }
            j = j + 1;
        }
        proof {
            assert(dv@.take(dv@.len() as int) =~= dv@);
            if i == 0 {
                assert(out@ =~= joined_ids(ids@.take(1)));
            } else {
                assert(out@ =~= joined_ids(ids@.take(i + 1)));
            }
        }
        i = i + 1;
    }
    proof {
        assert(ids@.take(ids@.len() as int) =~= ids@);
    }
    crate::text::string_of(&out)
}


/// The request of the context menu's workspace entries: the window moves to
/// the chosen workspace.
pub fn move_to_workspace(window_id: u64, workspace_id: u64) -> (plan: Vec<IpcAction>)
    ensures
        plan@ == seq![IpcAction::MoveWindowToWorkspace { window_id, workspace_id }],
{
    vec![IpcAction::MoveWindowToWorkspace { window_id, workspace_id }]
}

/// An action that names the window is carried out by one request of the same
/// kind on that window, and an action on the focused window by focusing the
/// window and then sending the request of the same kind.
pub proof fn law_action_sends_its_own_request(id: u64)
    ensures
        plan_of(WindowAction::FocusWindow, id) == seq![IpcAction::FocusWindow { id }],
        plan_of(WindowAction::CloseWindow, id) == seq![IpcAction::CloseWindow { id: Some(id) }],
        plan_of(WindowAction::CenterWindow, id) == seq![IpcAction::CenterWindow { id: Some(id) }],
        plan_of(WindowAction::FullscreenWindow, id) == seq![IpcAction::FullscreenWindow { id: Some(id) }],
        plan_of(WindowAction::ToggleWindowedFullscreen, id) == seq![
            IpcAction::ToggleWindowedFullscreen { id: Some(id) },
        ],
        plan_of(WindowAction::ToggleWindowFloating, id) == seq![
            IpcAction::ToggleWindowFloating { id: Some(id) },
        ],
        plan_of(WindowAction::MaximizeColumn, id) == seq![
            IpcAction::FocusWindow { id },
            IpcAction::MaximizeColumn,
        ],
        plan_of(WindowAction::MaximizeWindowToEdges, id) == seq![
            IpcAction::FocusWindow { id },
            IpcAction::MaximizeWindowToEdges { id: Some(id) },
        ],
        plan_of(WindowAction::CenterColumn, id) == seq![IpcAction::FocusWindow { id }, IpcAction::CenterColumn],
        plan_of(WindowAction::CenterVisibleColumns, id) == seq![
            IpcAction::FocusWindow { id },
            IpcAction::CenterVisibleColumns,
        ],
        plan_of(WindowAction::ExpandColumnToAvailableWidth, id) == seq![
            IpcAction::FocusWindow { id },
            IpcAction::ExpandColumnToAvailableWidth,
        ],
        plan_of(WindowAction::ConsumeWindowIntoColumn, id) == seq![
            IpcAction::FocusWindow { id },
            IpcAction::ConsumeWindowIntoColumn,
        ],
        plan_of(WindowAction::ExpelWindowFromColumn, id) == seq![
            IpcAction::FocusWindow { id },
            IpcAction::ExpelWindowFromColumn,
        ],
        plan_of(WindowAction::ResetWindowHeight, id) == seq![
            IpcAction::FocusWindow { id },
            IpcAction::ResetWindowHeight { id: None },
        ],
        plan_of(WindowAction::SwitchPresetColumnWidth, id) == seq![
            IpcAction::FocusWindow { id },
            IpcAction::SwitchPresetColumnWidth,
        ],
        plan_of(WindowAction::SwitchPresetWindowHeight, id) == seq![
            IpcAction::FocusWindow { id },
            IpcAction::SwitchPresetWindowHeight { id: None },
        ],
        plan_of(WindowAction::MoveWindowToWorkspaceDown, id) == seq![
            IpcAction::FocusWindow { id },
            IpcAction::MoveWindowToWorkspaceDown { focus: false },
        ],
        plan_of(WindowAction::MoveWindowToWorkspaceUp, id) == seq![
            IpcAction::FocusWindow { id },
            IpcAction::MoveWindowToWorkspaceUp { focus: false },
        ],
        plan_of(WindowAction::MoveWindowToMonitorLeft, id) == seq![
            IpcAction::FocusWindow { id },
            IpcAction::MoveWindowToMonitorLeft,
        ],
        plan_of(WindowAction::MoveWindowToMonitorRight, id) == seq![
            IpcAction::FocusWindow { id },
            IpcAction::MoveWindowToMonitorRight,
        ],
        plan_of(WindowAction::ToggleColumnTabbedDisplay, id) == seq![
            IpcAction::FocusWindow { id },
            IpcAction::ToggleColumnTabbedDisplay,
        ],
        plan_of(WindowAction::FocusWorkspacePrevious, id) == seq![
            IpcAction::FocusWindow { id },
            IpcAction::FocusWorkspacePrevious,
        ],
        plan_of(WindowAction::MoveColumnLeft, id) == seq![IpcAction::FocusWindow { id }, IpcAction::MoveColumnLeft],
        plan_of(WindowAction::MoveColumnRight, id) == seq![
            IpcAction::FocusWindow { id },
            IpcAction::MoveColumnRight,
        ],
        plan_of(WindowAction::MoveColumnToFirst, id) == seq![
            IpcAction::FocusWindow { id },
            IpcAction::MoveColumnToFirst,
        ],
        plan_of(WindowAction::MoveColumnToLast, id) == seq![
            IpcAction::FocusWindow { id },
            IpcAction::MoveColumnToLast,
        ],
        plan_of(WindowAction::MoveWindowDown, id) == seq![IpcAction::FocusWindow { id }, IpcAction::MoveWindowDown],
        plan_of(WindowAction::MoveWindowUp, id) == seq![IpcAction::FocusWindow { id }, IpcAction::MoveWindowUp],
        plan_of(WindowAction::MoveWindowDownOrToWorkspaceDown, id) == seq![
            IpcAction::FocusWindow { id },
            IpcAction::MoveWindowDownOrToWorkspaceDown,
        ],
        plan_of(WindowAction::MoveWindowUpOrToWorkspaceUp, id) == seq![
            IpcAction::FocusWindow { id },
            IpcAction::MoveWindowUpOrToWorkspaceUp,
        ],
        plan_of(WindowAction::MoveColumnLeftOrToMonitorLeft, id) == seq![
            IpcAction::FocusWindow { id },
            IpcAction::MoveColumnLeftOrToMonitorLeft,
        ],
        plan_of(WindowAction::MoveColumnRightOrToMonitorRight, id) == seq![
            IpcAction::FocusWindow { id },
            IpcAction::MoveColumnRightOrToMonitorRight,
        ],
        plan_of(WindowAction::NoAction, id).len() == 0,
        plan_of(WindowAction::Menu, id).len() == 0,
{
}

/// An action on the selected windows does to each of them what the action
/// of the same kind does to a single window.
pub proof fn law_selection_acts_like_single_window(id: u64)
    ensures
        multi_plan_of(MultiSelectAction::CloseWindows, id) == plan_of(WindowAction::CloseWindow, id),
        multi_plan_of(MultiSelectAction::MoveToWorkspaceUp, id) == plan_of(WindowAction::MoveWindowToWorkspaceUp, id),
        multi_plan_of(MultiSelectAction::MoveToWorkspaceDown, id) == plan_of(
            WindowAction::MoveWindowToWorkspaceDown,
            id,
        ),
        multi_plan_of(MultiSelectAction::MoveToMonitorLeft, id) == plan_of(WindowAction::MoveWindowToMonitorLeft, id),
        multi_plan_of(MultiSelectAction::MoveToMonitorRight, id) == plan_of(
            WindowAction::MoveWindowToMonitorRight,
            id,
        ),
        multi_plan_of(MultiSelectAction::MoveColumnLeft, id) == plan_of(WindowAction::MoveColumnLeft, id),
        multi_plan_of(MultiSelectAction::MoveColumnRight, id) == plan_of(WindowAction::MoveColumnRight, id),
        multi_plan_of(MultiSelectAction::ToggleFloating, id) == plan_of(WindowAction::ToggleWindowFloating, id),
        multi_plan_of(MultiSelectAction::FullscreenWindows, id) == plan_of(WindowAction::FullscreenWindow, id),
        multi_plan_of(MultiSelectAction::MaximizeColumns, id) == plan_of(WindowAction::MaximizeColumn, id),
        multi_plan_of(MultiSelectAction::CenterColumns, id) == plan_of(WindowAction::CenterColumn, id),
        multi_plan_of(MultiSelectAction::ConsumeIntoColumn, id) == plan_of(WindowAction::ConsumeWindowIntoColumn, id),
        multi_plan_of(MultiSelectAction::ToggleTabbedDisplay, id) == plan_of(
            WindowAction::ToggleColumnTabbedDisplay,
            id,
        ),
        multi_plan_of(MultiSelectAction::MoveToMonitorUp, id) == seq![
            IpcAction::FocusWindow { id },
            IpcAction::MoveWindowToMonitorUp,
        ],
        multi_plan_of(MultiSelectAction::MoveToMonitorDown, id) == seq![
            IpcAction::FocusWindow { id },
            IpcAction::MoveWindowToMonitorDown,
        ],
{
}

/// A left click, its press and then its release, runs at most one click
/// action: on an unfocused button without the modifier the press focuses
/// the window and runs the unfocused slot, and the release does nothing
/// more; on a focused button the release runs the focused slot (or the
/// double-click slot); with the modifier held the click only changes the
/// selection.
pub proof fn law_left_click_runs_once(
    actions: ClickActions,
    modifier_held: bool,
    is_focused: bool,
    is_selected: bool,
    selection_empty: bool,
    since_last_ms: u64,
)
    ensures
        ({
            let press = press_outcome(actions, 1, modifier_held, is_focused, is_selected, selection_empty);
            let release = release_outcome(1, press.set_skip, is_focused || press.optimistic_focus, since_last_ms);
            &&& !(press.run is Some && release.run is Some)
            &&& (!modifier_held && !is_focused) ==> press.run == Some(ClickSlot::LeftUnfocused)
                && press.optimistic_focus && release.run is None
            &&& (!modifier_held && is_focused) ==> press.run is None && (release.run == Some(
                ClickSlot::LeftFocused,
            ) || release.run == Some(ClickSlot::DoubleClick))
            &&& modifier_held ==> press.run is None && release.run is None && press.selection != SelectionChange::Keep
        }),
{
}

/// On a focused button, a release within 300 ms of the last left click runs
/// the double-click slot and forgets that click; a later one runs the
/// focused slot and remembers it. A release of another button does nothing.
pub proof fn law_double_click_window(is_focused: bool, since_last_ms: u64, button: u32)
    ensures
        is_focused && since_last_ms < 300 ==> release_outcome(1, false, is_focused, since_last_ms).run == Some(
            ClickSlot::DoubleClick,
        ) && release_outcome(1, false, is_focused, since_last_ms).last_click == LastClick::Forget,
        is_focused && since_last_ms >= 300 ==> release_outcome(1, false, is_focused, since_last_ms).run == Some(
            ClickSlot::LeftFocused,
        ) && release_outcome(1, false, is_focused, since_last_ms).last_click == LastClick::Now,
        !is_focused ==> release_outcome(1, false, is_focused, since_last_ms).run == Some(ClickSlot::LeftUnfocused),
        release_outcome(1, true, is_focused, since_last_ms).run is None,
        button != 1 ==> release_outcome(button, false, is_focused, since_last_ms).run is None,
{
}

/// A right or middle press runs the slot for the button and the window's
/// focus, unless that slot's action is the menu, which then opens instead; a
/// right press while windows are selected opens the selection's menu.
pub proof fn law_other_buttons_run_their_slot(
    actions: ClickActions,
    modifier_held: bool,
    is_focused: bool,
    is_selected: bool,
    selection_empty: bool,
)
    ensures
        ({
            let middle = press_outcome(actions, 2, modifier_held, is_focused, is_selected, selection_empty);
            let right = press_outcome(actions, 3, modifier_held, is_focused, is_selected, selection_empty);
            let mslot = if is_focused { ClickSlot::MiddleFocused } else { ClickSlot::MiddleUnfocused };
            let rslot = if is_focused { ClickSlot::RightFocused } else { ClickSlot::RightUnfocused };
            let mmenu = slot_action(actions, mslot) matches ClickAction::Action(WindowAction::Menu);
            let rmenu = slot_action(actions, rslot) matches ClickAction::Action(WindowAction::Menu);
            &&& middle.run == (if mmenu { None } else { Some(mslot) }) && middle.context_menu == mmenu
            &&& !middle.set_skip && middle.selection == SelectionChange::Keep
            &&& selection_empty ==> right.run == (if rmenu { None } else { Some(rslot) }) && right.context_menu
                == rmenu && !right.multi_select_menu
            &&& !selection_empty ==> right.run is None && right.multi_select_menu && !right.context_menu
        }),
{
}

/// Each slot runs the action configured for it.
pub proof fn law_slots_read_their_setting(a: ClickActions)
    ensures
        slot_action(a, ClickSlot::LeftUnfocused) == a.left_click_unfocused,
        slot_action(a, ClickSlot::LeftFocused) == a.left_click_focused,
        slot_action(a, ClickSlot::DoubleClick) == a.double_click,
        slot_action(a, ClickSlot::RightUnfocused) == a.right_click_unfocused,
        slot_action(a, ClickSlot::RightFocused) == a.right_click_focused,
        slot_action(a, ClickSlot::MiddleUnfocused) == a.middle_click_unfocused,
        slot_action(a, ClickSlot::MiddleFocused) == a.middle_click_focused,
        slot_action(a, ClickSlot::ScrollUp) == a.scroll_up,
        slot_action(a, ClickSlot::ScrollDown) == a.scroll_down,
{
}

} // verus!
