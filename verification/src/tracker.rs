//! Tracks the compositor's windows and workspaces from its event stream and
//! tells the window list what changed.
use std::collections::BTreeMap;

use vstd::prelude::*;

use crate::keyed::{
    canonical, canonicalize, discard, find_index, increasing, lemma_canonical_members,
    lemma_remove_key_members, lemma_upsert_keys, lemma_upsert_members, lemma_remove_key_props,
    lookup, remove_key, store, upsert,
};
use crate::snapshot::{generate_snapshot, is_snapshot, lemma_snapshot_ids, listed, windows_wf};
use crate::windows::{copy_opt_string, opt_string_eq, Window, WindowInfo, WindowLayout, Workspace};

verus! {

/// An event of the compositor's event stream, as far as the tracker reads it.
pub enum NiriEvent {
    WindowsChanged { windows: Vec<Window> },
    WorkspacesChanged { workspaces: Vec<Workspace> },
    WindowClosed { id: u64 },
    WindowOpenedOrChanged { window: Window },
    WindowFocusChanged { id: Option<u64> },
    WorkspaceActivated { id: u64, focused: bool },
    WorkspaceActiveWindowChanged { workspace_id: u64, active_window_id: Option<u64> },
    WindowLayoutsChanged { changes: Vec<(u64, WindowLayout)> },
    ConfigLoaded { failed: bool },
    /// Any other event of the stream.
    Other,
}

/// What the tracker tells the window list.
pub enum CompositorEvent {
    FullSnapshot(Vec<WindowInfo>),
    FocusChanged { old: Option<u64>, new: Option<u64> },
    WindowTitleChanged { id: u64, title: Option<String> },
    Workspaces,
    ConfigReloaded,
}

/// The state once both the windows and the workspaces are known: each kept in
/// order of id, with the window the overview marks active and the scrolling
/// window last focused on each workspace.
pub struct ReadyState {
    pub windows: Vec<Window>,
    pub workspaces: Vec<Workspace>,
    pub active_per_workspace: BTreeMap<u64, u64>,
    pub last_focused_per_workspace: BTreeMap<u64, u64>,
}

pub enum TrackerState {
    WindowsOnly(Vec<Window>),
    WorkspacesOnly(Vec<Workspace>),
    Ready(ReadyState),
}

pub struct WindowTracker {
    state: Option<TrackerState>,
    focused_id: Option<u64>,
}

pub struct ReadyView {
    pub windows: Seq<Window>,
    pub workspaces: Seq<Workspace>,
    pub active: Map<u64, u64>,
    pub last_focused: Map<u64, u64>,
}

pub enum Phase {
    Empty,
    WindowsOnly(Seq<Window>),
    WorkspacesOnly(Seq<Workspace>),
    Ready(ReadyView),
}

pub struct TrackerView {
    pub phase: Phase,
    pub focused_id: Option<u64>,
}

impl ReadyState {
    pub open spec fn view_of(&self) -> ReadyView {
        ReadyView {
            windows: self.windows@,
            workspaces: self.workspaces@,
            active: self.active_per_workspace@,
            last_focused: self.last_focused_per_workspace@,
        }
    }
}

impl ReadyView {
    pub open spec fn wf(&self) -> bool {
        increasing(self.windows) && increasing(self.workspaces) && windows_wf(self.windows)
    }
}

impl View for WindowTracker {
    type V = TrackerView;

    closed spec fn view(&self) -> TrackerView {
        TrackerView {
            phase: match self.state {
                None => Phase::Empty,
                Some(TrackerState::WindowsOnly(w)) => Phase::WindowsOnly(w@),
                Some(TrackerState::WorkspacesOnly(w)) => Phase::WorkspacesOnly(w@),
                Some(TrackerState::Ready(r)) => Phase::Ready(r.view_of()),
            },
            focused_id: self.focused_id,
        }
    }
}

impl TrackerView {
    /// Every window held leaves room for a next tile, and the ordered stores
    /// keep increasing ids.
    pub open spec fn wf(&self) -> bool {
        match self.phase {
            Phase::WindowsOnly(w) => windows_wf(w),
            Phase::Ready(r) => r.wf(),
            _ => true,
        }
    }
}

impl NiriEvent {
    /// Every window the event carries leaves room for a next tile.
    pub open spec fn wf(&self) -> bool {
        match self {
            NiriEvent::WindowsChanged { windows } => windows_wf(windows@),
            NiriEvent::WindowOpenedOrChanged { window } => window.wf(),
            NiriEvent::WindowLayoutsChanged { changes } => forall|i: int|
                0 <= i < changes@.len() ==> (match (#[trigger] changes@[i]).1.pos_in_scrolling_layout {
                    Some(p) => p.1 < usize::MAX,
                    None => true,
                }),
            _ => true,
        }
    }
}

/// Every window unfocused.
pub open spec fn unfocus_all(ws: Seq<Window>) -> Seq<Window> {
    ws.map_values(|w: Window| Window { is_focused: false, ..w })
}

/// Exactly the window with id `id` focused.
pub open spec fn set_focus(ws: Seq<Window>, id: Option<u64>) -> Seq<Window> {
    ws.map_values(|w: Window| Window { is_focused: Some(w.id) == id, ..w })
}

/// The first focused window, in order of id.
pub open spec fn first_focused(ws: Seq<Window>) -> Option<Window>
    decreases ws.len(),
{
    if ws.len() == 0 {
        None
    } else if ws[0].is_focused {
        Some(ws[0])
    } else {
        first_focused(ws.drop_first())
    }
}

/// Remembers `win` as the last focused window of its workspace when it sits
/// in the scrolling layout.
pub open spec fn record_scrolling(ws: Seq<Window>, lf: Map<u64, u64>, win: u64) -> Map<u64, u64> {
    match lookup(ws, win) {
        Some(w) => if w.layout.pos_in_scrolling_layout is Some && w.workspace_id is Some {
            lf.insert(w.workspace_id->0, win)
        } else {
            lf
        },
        None => lf,
    }
}

/// Remembers the currently focused window, if any.
pub open spec fn record_last_focused(ws: Seq<Window>, lf: Map<u64, u64>) -> Map<u64, u64> {
    match first_focused(ws) {
        Some(w) => record_scrolling(ws, lf, w.id),
        None => lf,
    }
}

/// The workspaces after `id` becomes the active one of its output.
pub open spec fn activate(wss: Seq<Workspace>, id: u64) -> Seq<Workspace> {
    let out = match lookup(wss, id) {
        Some(ws) => ws.output,
        None => None,
    };
    wss.map_values(
        |ws: Workspace|
            if ws.output.deep_view() == out.deep_view() {
                Workspace { is_active: ws.id == id, ..ws }
            } else {
                ws
            },
    )
}

pub open spec fn set_layout(ws: Seq<Window>, id: u64, l: WindowLayout) -> Seq<Window> {
    ws.map_values(|w: Window| if w.id == id { Window { layout: l, ..w } } else { w })
}

/// The windows after each layout change in turn.
pub open spec fn apply_layouts(ws: Seq<Window>, changes: Seq<(u64, WindowLayout)>) -> Seq<Window>
    decreases changes.len(),
{
    if changes.len() == 0 {
        ws
    } else {
        let prev = apply_layouts(ws, changes.drop_last());
        set_layout(prev, changes.last().0, changes.last().1)
    }
}

/// Only the title of the window changed.
pub open spec fn only_title_differs(prev: Window, current: Window) -> bool {
    &&& prev.title.deep_view() != current.title.deep_view()
    &&& prev.is_urgent == current.is_urgent
    &&& prev.is_focused == current.is_focused
    &&& prev.workspace_id == current.workspace_id
    &&& prev.app_id.deep_view() == current.app_id.deep_view()
}

/// The windows, last focused map and focused id after a window opened or
/// changed, before it is stored.
pub open spec fn before_store(r: ReadyView, focused: Option<u64>, window: Window) -> (
    Seq<Window>,
    Map<u64, u64>,
    Option<u64>,
) {
    if window.is_focused {
        (unfocus_all(r.windows), record_last_focused(r.windows, r.last_focused), Some(window.id))
    } else {
        (r.windows, r.last_focused, focused)
    }
}

/// The tracker's state after `e`.
pub open spec fn step(v: TrackerView, e: NiriEvent) -> TrackerView {
    match e {
        NiriEvent::WindowsChanged { windows } => TrackerView {
            phase: match v.phase {
                Phase::WorkspacesOnly(wss) => Phase::Ready(
                    ReadyView {
                        windows: canonical(windows@),
                        workspaces: canonical(wss),
                        active: Map::empty(),
                        last_focused: Map::empty(),
                    },
                ),
                Phase::Ready(r) => Phase::Ready(ReadyView { windows: canonical(windows@), ..r }),
                _ => Phase::WindowsOnly(windows@),
            },
            ..v
        },
        NiriEvent::WorkspacesChanged { workspaces } => TrackerView {
            phase: match v.phase {
                Phase::WindowsOnly(ws) => Phase::Ready(
                    ReadyView {
                        windows: canonical(ws),
                        workspaces: canonical(workspaces@),
                        active: Map::empty(),
                        last_focused: Map::empty(),
                    },
                ),
                Phase::Ready(r) => Phase::Ready(ReadyView { workspaces: canonical(workspaces@), ..r }),
                _ => Phase::WorkspacesOnly(workspaces@),
            },
            ..v
        },
        NiriEvent::WindowClosed { id } => TrackerView {
            phase: match v.phase {
                Phase::Ready(r) => Phase::Ready(ReadyView { windows: remove_key(r.windows, id), ..r }),
                p => p,
            },
            focused_id: if v.focused_id == Some(id) {
                None
            } else {
                v.focused_id
            },
        },
        NiriEvent::WindowOpenedOrChanged { window } => match v.phase {
            Phase::Ready(r) => {
                let (w1, lf1, f1) = before_store(r, v.focused_id, window);
                TrackerView {
                    phase: Phase::Ready(
                        ReadyView { windows: upsert(w1, window), last_focused: lf1, ..r },
                    ),
                    focused_id: f1,
                }
            },
            _ => v,
        },
        NiriEvent::WindowFocusChanged { id } => TrackerView {
            phase: match v.phase {
                Phase::Ready(r) => {
                    let lf1 = record_last_focused(r.windows, r.last_focused);
                    let w1 = set_focus(r.windows, id);
                    let lf2 = match id {
                        Some(f) => record_scrolling(w1, lf1, f),
                        None => lf1,
                    };
                    Phase::Ready(ReadyView { windows: w1, last_focused: lf2, ..r })
                },
                p => p,
            },
            focused_id: id,
        },
        NiriEvent::WorkspaceActivated { id, .. } => TrackerView {
            phase: match v.phase {
                Phase::Ready(r) => Phase::Ready(
                    ReadyView { workspaces: activate(r.workspaces, id), ..r },
                ),
                p => p,
            },
            ..v
        },
        NiriEvent::WorkspaceActiveWindowChanged { workspace_id, active_window_id } => TrackerView {
            phase: match v.phase {
                Phase::Ready(r) => Phase::Ready(
                    ReadyView {
                        active: match active_window_id {
                            Some(w) => r.active.insert(workspace_id, w),
                            None => r.active.remove(workspace_id),
                        },
                        ..r
                    },
                ),
                p => p,
            },
            ..v
        },
        NiriEvent::WindowLayoutsChanged { changes } => TrackerView {
            phase: match v.phase {
                Phase::Ready(r) => Phase::Ready(
                    ReadyView { windows: apply_layouts(r.windows, changes@), ..r },
                ),
                p => p,
            },
            ..v
        },
        _ => v,
    }
}

/// `out` holds a full snapshot of `phase` when the tracker is ready, and
/// nothing before.
pub open spec fn snapshot_of(out: Seq<CompositorEvent>, phase: Phase, only_current: bool) -> bool {
    match phase {
        Phase::Ready(r) => out.len() == 1 && match out[0] {
            CompositorEvent::FullSnapshot(s) => is_snapshot(
                s@,
                r.windows,
                r.workspaces,
                r.active,
                r.last_focused,
                only_current,
            ),
            _ => false,
        },
        _ => out.len() == 0,
    }
}

/// What the tracker emits for `e` in state `v`.
pub open spec fn emits(v: TrackerView, e: NiriEvent, only_current: bool, out: Seq<CompositorEvent>) -> bool {
    let next = step(v, e);
    match e {
        NiriEvent::WindowOpenedOrChanged { window } => match v.phase {
            Phase::Ready(r) => {
                let (w1, lf1, f1) = before_store(r, v.focused_id, window);
                match lookup(w1, window.id) {
                    Some(prev) => if only_title_differs(prev, window) {
                        out == seq![
                            CompositorEvent::WindowTitleChanged { id: prev.id, title: window.title },
                        ]
                    } else {
                        snapshot_of(out, next.phase, only_current)
                    },
                    None => snapshot_of(out, next.phase, only_current),
                }
            },
            _ => out.len() == 0,
        },
        NiriEvent::WindowFocusChanged { id } => out == seq![
            CompositorEvent::FocusChanged { old: v.focused_id, new: id },
        ],
        NiriEvent::ConfigLoaded { .. } => out.len() == 0,
        NiriEvent::Other => out.len() == 0,
        _ => snapshot_of(out, next.phase, only_current),
    }
}

proof fn lemma_map_keeps_increasing<T: crate::keyed::Keyed>(s: Seq<T>, t: Seq<T>)
    requires
        increasing(s),
        s.len() == t.len(),
        forall|i: int| 0 <= i < s.len() ==> #[trigger] t[i].key() == s[i].key(),
    ensures
        increasing(t),
{
    assert forall|i: int, j: int| 0 <= i < j < t.len() implies t[i].key() < t[j].key() by {
        assert(t[i].key() == s[i].key());
        assert(t[j].key() == s[j].key());
    }
}

fn unfocus_all_exec(ws: &mut Vec<Window>)
    ensures
        final(ws)@ == unfocus_all(old(ws)@),
{
    let ghost s = ws@;
    let mut i: usize = 0;
    while i < ws.len()
        invariant
            i <= ws.len(),
            ws@.len() == s.len(),
            forall|k: int| 0 <= k < i ==> ws@[k] == (Window { is_focused: false, ..s[k] }),
            forall|k: int| i <= k < s.len() ==> ws@[k] == s[k],
        decreases ws.len() - i,
    {
        let mut w = ws[i].duplicate();
        w.is_focused = false;
        ws.set(i, w);
        i = i + 1;
    }
    proof {
        assert(ws@ =~= unfocus_all(s));
    }
}

fn set_focus_exec(ws: &mut Vec<Window>, id: Option<u64>)
    ensures
        final(ws)@ == set_focus(old(ws)@, id),
{
    let ghost s = ws@;
    let mut i: usize = 0;
    while i < ws.len()
        invariant
            i <= ws.len(),
            ws@.len() == s.len(),
            forall|k: int| 0 <= k < i ==> ws@[k] == (Window { is_focused: Some(s[k].id) == id, ..s[k] }),
            forall|k: int| i <= k < s.len() ==> ws@[k] == s[k],
        decreases ws.len() - i,
    {
        let mut w = ws[i].duplicate();
        w.is_focused = Some(w.id) == id;
        ws.set(i, w);
        i = i + 1;
    }
    proof {
        assert(ws@ =~= set_focus(s, id));
    }
}

fn first_focused_exec(ws: &Vec<Window>) -> (r: Option<u64>)
    ensures
        r == match first_focused(ws@) {
            Some(w) => Some(w.id),
            None => None::<u64>,
        },
{
    let mut i: usize = 0;
    proof {
        assert(ws@.subrange(0, ws@.len() as int) =~= ws@);
    }
    while i < ws.len()
        invariant
            i <= ws.len(),
            first_focused(ws@) == first_focused(ws@.subrange(i as int, ws@.len() as int)),
        decreases ws.len() - i,
    {
        proof {
            let s = ws@.subrange(i as int, ws@.len() as int);
            assert(s.drop_first() =~= ws@.subrange(i + 1, ws@.len() as int));
        }
        if ws[i].is_focused {
            return Some(ws[i].id);
        }
        i = i + 1;
    }
    None
}

fn record_scrolling_exec(ws: &Vec<Window>, lf: &mut BTreeMap<u64, u64>, win: u64)
    requires
        increasing(ws@),
    ensures
        final(lf)@ == record_scrolling(ws@, old(lf)@, win),
{
    if let Some(i) = find_index(ws, win) {
        let w = &ws[i];
        if w.layout.pos_in_scrolling_layout.is_some() {
            if let Some(wsid) = w.workspace_id {
                lf.insert(wsid, win);
            }
        }
    }
}

fn record_last_focused_exec(ws: &Vec<Window>, lf: &mut BTreeMap<u64, u64>)
    requires
        increasing(ws@),
    ensures
        final(lf)@ == record_last_focused(ws@, old(lf)@),
{
    if let Some(id) = first_focused_exec(ws) {
        proof {
            lemma_first_focused_found(ws@);
        }
        record_scrolling_exec(ws, lf, id);
    }
}

proof fn lemma_first_focused_found(ws: Seq<Window>)
    ensures
        first_focused(ws) matches Some(w) ==> ws.contains(w),
    decreases ws.len(),
{
    if ws.len() > 0 && !ws[0].is_focused {
        lemma_first_focused_found(ws.drop_first());
        if let Some(w) = first_focused(ws.drop_first()) {
            let m = choose|m: int| 0 <= m < ws.len() - 1 && ws.drop_first()[m] == w;
            assert(ws[m + 1] == w);
        }
    }
}

fn activate_exec(wss: &mut Vec<Workspace>, id: u64)
    requires
        increasing(old(wss)@),
    ensures
        final(wss)@ == activate(old(wss)@, id),
{
    let ghost s = wss@;
    let out: Option<String> = match find_index(wss, id) {
        Some(j) => copy_opt_string(&wss[j].output),
        None => None,
    };
    proof {
        assert(out == match lookup(s, id) {
            Some(ws) => ws.output,
            None => None,
        });
    }
    let mut i: usize = 0;
    while i < wss.len()
        invariant
            i <= wss.len(),
            wss@.len() == s.len(),
            out == match lookup(s, id) {
                Some(ws) => ws.output,
                None => None,
            },
            forall|k: int|
                0 <= k < i ==> wss@[k] == (if s[k].output.deep_view() == out.deep_view() {
                    Workspace { is_active: s[k].id == id, ..s[k] }
                } else {
                    s[k]
                }),
            forall|k: int| i <= k < s.len() ==> wss@[k] == s[k],
        decreases wss.len() - i,
    {
        if opt_string_eq(&wss[i].output, &out) {
            let mut w = wss[i].duplicate();
            w.is_active = w.id == id;
            wss.set(i, w);
        }
        i = i + 1;
    }
    proof {
        assert(wss@ =~= activate(s, id));
    }
}

fn apply_layouts_exec(ws: &mut Vec<Window>, changes: &Vec<(u64, WindowLayout)>)
    requires
        increasing(old(ws)@),
    ensures
        final(ws)@ == apply_layouts(old(ws)@, changes@),
        increasing(final(ws)@),
{
    let ghost s = ws@;
    let mut i: usize = 0;
    while i < changes.len()
        invariant
            i <= changes.len(),
            ws@ == apply_layouts(s, changes@.take(i as int)),
            increasing(ws@),
        decreases changes.len() - i,
    {
        let ghost before = ws@;
        let (id, layout) = (changes[i].0, changes[i].1.duplicate());
        proof {
            assert(changes@.take(i + 1).drop_last() =~= changes@.take(i as int));
            assert(changes@.take(i + 1).last() == changes@[i as int]);
        }
        match find_index(ws, id) {
            Some(j) => {
                let mut w = ws[j].duplicate();
                w.layout = layout;
                ws.set(j, w);
                proof {
                    assert forall|k: int| 0 <= k < before.len() && k != j implies before[k].id != id by {
                        if k < j {
                            assert(before[k].id < before[j as int].id);
                        } else {
                            assert(before[j as int].id < before[k].id);
                        }
                    }
                    assert(ws@ =~= set_layout(before, id, layout));
                    lemma_map_keeps_increasing(before, ws@);
                }
            },
            None => {
                proof {
                    assert forall|k: int| 0 <= k < before.len() implies before[k].id != id by {
                        if before[k].id == id {
                            assert(crate::keyed::has_key(before, id));
                        }
                    }
                    assert(ws@ =~= set_layout(before, id, layout));
                }
            },
        }
        i = i + 1;
    }
    proof {
        assert(changes@.take(changes@.len() as int) =~= changes@);
    }
}

proof fn lemma_windows_wf_sub(s: Seq<Window>, t: Seq<Window>)
    requires
        windows_wf(s),
        forall|i: int| 0 <= i < t.len() ==> s.contains(#[trigger] t[i]),
    ensures
        windows_wf(t),
{
    assert forall|i: int| 0 <= i < t.len() implies #[trigger] t[i].wf() by {
        let m = choose|m: int| 0 <= m < s.len() && s[m] == t[i];
        assert(s[m].wf());
    }
}

proof fn lemma_windows_wf_same_layout(s: Seq<Window>, t: Seq<Window>)
    requires
        windows_wf(s),
        s.len() == t.len(),
        forall|i: int| 0 <= i < t.len() ==> #[trigger] t[i].layout == s[i].layout,
    ensures
        windows_wf(t),
{
    assert forall|i: int| 0 <= i < t.len() implies #[trigger] t[i].wf() by {
        assert(s[i].wf());
        assert(t[i].layout == s[i].layout);
    }
}

proof fn lemma_apply_layouts_wf(ws: Seq<Window>, changes: Seq<(u64, WindowLayout)>)
    requires
        windows_wf(ws),
        forall|i: int|
            0 <= i < changes.len() ==> (match (#[trigger] changes[i]).1.pos_in_scrolling_layout {
                Some(p) => p.1 < usize::MAX,
                None => true,
            }),
    ensures
        windows_wf(apply_layouts(ws, changes)),
    decreases changes.len(),
{
    if changes.len() > 0 {
        let d = changes.drop_last();
        assert forall|i: int|
            0 <= i < d.len() implies (match (#[trigger] d[i]).1.pos_in_scrolling_layout {
            Some(p) => p.1 < usize::MAX,
            None => true,
        }) by {
            assert(d[i] == changes[i]);
        }
        lemma_apply_layouts_wf(ws, d);
        let prev = apply_layouts(ws, d);
        let c = changes[changes.len() - 1];
        let r = set_layout(prev, c.0, c.1);
        assert forall|i: int| 0 <= i < r.len() implies #[trigger] r[i].wf() by {
            assert(prev[i].wf());
        }
    }
}

fn snapshot_events(r: &ReadyState, only_current: bool) -> (out: Vec<CompositorEvent>)
    requires
        r.view_of().wf(),
    ensures
        snapshot_of(out@, Phase::Ready(r.view_of()), only_current),
{
    let s = generate_snapshot(
        &r.windows,
        &r.workspaces,
        &r.active_per_workspace,
        &r.last_focused_per_workspace,
        only_current,
    );
    let mut out: Vec<CompositorEvent> = Vec::new();
    out.push(CompositorEvent::FullSnapshot(s));
    out
}

fn ready_events(st: &Option<TrackerState>, only_current: bool) -> (out: Vec<CompositorEvent>)
    requires
        match st {
            Some(TrackerState::Ready(r)) => r.view_of().wf(),
            _ => true,
        },
    ensures
        snapshot_of(
            out@,
            match st {
                None => Phase::Empty,
                Some(TrackerState::WindowsOnly(w)) => Phase::WindowsOnly(w@),
                Some(TrackerState::WorkspacesOnly(w)) => Phase::WorkspacesOnly(w@),
                Some(TrackerState::Ready(r)) => Phase::Ready(r.view_of()),
            },
            only_current,
        ),
{
    match st {
        Some(TrackerState::Ready(r)) => snapshot_events(r, only_current),
        _ => Vec::new(),
    }
}

fn only_title_differs_exec(prev: &Window, current: &Window) -> (r: bool)
    ensures
        r == only_title_differs(*prev, *current),
{
    !opt_string_eq(&prev.title, &current.title) && prev.is_urgent == current.is_urgent
        && prev.is_focused == current.is_focused && prev.workspace_id == current.workspace_id
        && opt_string_eq(&prev.app_id, &current.app_id)
}

impl WindowTracker {
    /// A tracker that has seen nothing yet.
    pub fn new() -> (t: Self)
        ensures
            t@ == (TrackerView { phase: Phase::Empty, focused_id: None }),
    {
        WindowTracker { state: None, focused_id: None }
    }

    pub open spec fn wf(&self) -> bool {
        self@.wf()
    }

    /// Applies one event of the compositor's stream and returns what the
    /// window list has to learn of it.
    pub fn process_event(&mut self, event: NiriEvent, only_current: bool) -> (out: Vec<CompositorEvent>)
        requires
            old(self).wf(),
            event.wf(),
        ensures
            final(self)@ == step(old(self)@, event),
            final(self).wf(),
            emits(old(self)@, event, only_current, out@),
    {
        let ghost v0 = self@;
        match event {
            NiriEvent::WindowsChanged { windows } => {
                let ghost list = windows@;
                proof {
                    lemma_canonical_members(list);
                    lemma_windows_wf_sub(list, canonical(list));
                }
                let st = self.state.take();
                self.state = match st {
                    Some(TrackerState::WorkspacesOnly(wss)) => {
                        let canon = canonicalize(windows);
                        let w2 = canonicalize(wss);
                        Some(
                            TrackerState::Ready(
                                ReadyState {
                                    windows: canon,
                                    workspaces: w2,
                                    active_per_workspace: BTreeMap::new(),
                                    last_focused_per_workspace: BTreeMap::new(),
                                },
                            ),
                        )
                    },
                    Some(TrackerState::Ready(r)) => {
                        let canon = canonicalize(windows);
                        Some(TrackerState::Ready(ReadyState { windows: canon, ..r }))
                    },
                    _ => Some(TrackerState::WindowsOnly(windows)),
                };
                ready_events(&self.state, only_current)
            },
            NiriEvent::WorkspacesChanged { workspaces } => {
                let st = self.state.take();
                self.state = match st {
                    Some(TrackerState::WindowsOnly(ws)) => {
                        let ghost list = ws@;
                        proof {
                            lemma_canonical_members(list);
                            lemma_windows_wf_sub(list, canonical(list));
                        }
                        let canon = canonicalize(ws);
                        let w2 = canonicalize(workspaces);
                        Some(
                            TrackerState::Ready(
                                ReadyState {
                                    windows: canon,
                                    workspaces: w2,
                                    active_per_workspace: BTreeMap::new(),
                                    last_focused_per_workspace: BTreeMap::new(),
                                },
                            ),
                        )
                    },
                    Some(TrackerState::Ready(r)) => {
                        let w2 = canonicalize(workspaces);
                        Some(TrackerState::Ready(ReadyState { workspaces: w2, ..r }))
                    },
                    _ => Some(TrackerState::WorkspacesOnly(workspaces)),
                };
                ready_events(&self.state, only_current)
            },
            NiriEvent::WindowClosed { id } => {
                let st = self.state.take();
                self.state = match st {
                    Some(TrackerState::Ready(r)) => {
                        let mut r = r;
                        let ghost before = r.windows@;
                        discard(&mut r.windows, id);
                        proof {
                            lemma_remove_key_members(before, id);
                            lemma_windows_wf_sub(before, r.windows@);
                        }
                        Some(TrackerState::Ready(r))
                    },
                    other => other,
                };
                if self.focused_id == Some(id) {
                    self.focused_id = None;
                }
                ready_events(&self.state, only_current)
            },
            NiriEvent::WindowOpenedOrChanged { window } => {
                let st = self.state.take();
                match st {
                    Some(TrackerState::Ready(r)) => {
                        let mut r = r;
                        let ghost rv = r.view_of();
                        let ghost before = r.windows@;
                        if window.is_focused {
                            record_last_focused_exec(&r.windows, &mut r.last_focused_per_workspace);
                            unfocus_all_exec(&mut r.windows);
                            proof {
                                lemma_map_keeps_increasing(before, r.windows@);
                                lemma_windows_wf_same_layout(before, r.windows@);
                            }
                            self.focused_id = Some(window.id);
                        }
                        let ghost w1 = r.windows@;
                        let current = window.duplicate();
                        let previous = store(&mut r.windows, window);
                        proof {
                            lemma_upsert_members(w1, current);
                            assert forall|i: int| 0 <= i < r.windows@.len() implies #[trigger] r.windows@[i].wf() by {
                                if r.windows@[i] != current {
                                    let m = choose|m: int| 0 <= m < w1.len() && w1[m] == r.windows@[i];
                                    assert(w1[m].wf());
                                }
                            }
                        }
                        let out = match previous {
                            None => snapshot_events(&r, only_current),
                            Some(prev) => {
                                if only_title_differs_exec(&prev, &current) {
                                    let mut o: Vec<CompositorEvent> = Vec::new();
                                    o.push(
                                        CompositorEvent::WindowTitleChanged {
                                            id: prev.id,
                                            title: copy_opt_string(&current.title),
                                        },
                                    );
                                    proof {
                                        assert(o@ =~= seq![
                                            CompositorEvent::WindowTitleChanged { id: prev.id, title: current.title },
                                        ]);
                                    }
                                    o
                                } else {
                                    snapshot_events(&r, only_current)
                                }
                            },
                        };
                        self.state = Some(TrackerState::Ready(r));
                        out
                    },
                    other => {
                        self.state = other;
                        Vec::new()
                    },
                }
            },
            NiriEvent::WindowFocusChanged { id } => {
                let old = self.focused_id;
                let st = self.state.take();
                self.state = match st {
                    Some(TrackerState::Ready(r)) => {
                        let mut r = r;
                        let ghost before = r.windows@;
                        record_last_focused_exec(&r.windows, &mut r.last_focused_per_workspace);
                        set_focus_exec(&mut r.windows, id);
                        proof {
                            lemma_map_keeps_increasing(before, r.windows@);
                            lemma_windows_wf_same_layout(before, r.windows@);
                        }
                        if let Some(f) = id {
                            record_scrolling_exec(&r.windows, &mut r.last_focused_per_workspace, f);
                        }
                        Some(TrackerState::Ready(r))
                    },
                    other => other,
                };
                self.focused_id = id;
                let mut o: Vec<CompositorEvent> = Vec::new();
                o.push(CompositorEvent::FocusChanged { old, new: id });
                proof {
                    assert(o@ =~= seq![CompositorEvent::FocusChanged { old: v0.focused_id, new: id }]);
                }
                o
            },
            NiriEvent::WorkspaceActivated { id, .. } => {
                let st = self.state.take();
                self.state = match st {
                    Some(TrackerState::Ready(r)) => {
                        let mut r = r;
                        let ghost before = r.workspaces@;
                        activate_exec(&mut r.workspaces, id);
                        proof {
                            lemma_map_keeps_increasing(before, r.workspaces@);
                        }
                        Some(TrackerState::Ready(r))
                    },
                    other => other,
                };
                ready_events(&self.state, only_current)
            },
            NiriEvent::WorkspaceActiveWindowChanged { workspace_id, active_window_id } => {
                let st = self.state.take();
                self.state = match st {
                    Some(TrackerState::Ready(r)) => {
                        let mut r = r;
                        match active_window_id {
                            Some(w) => {
                                r.active_per_workspace.insert(workspace_id, w);
                            },
                            None => {
                                r.active_per_workspace.remove(&workspace_id);
                            },
                        }
                        Some(TrackerState::Ready(r))
                    },
                    other => other,
                };
                ready_events(&self.state, only_current)
            },
            NiriEvent::WindowLayoutsChanged { changes } => {
                let st = self.state.take();
                self.state = match st {
                    Some(TrackerState::Ready(r)) => {
                        let mut r = r;
                        let ghost before = r.windows@;
                        apply_layouts_exec(&mut r.windows, &changes);
                        proof {
                            lemma_apply_layouts_wf(before, changes@);
                        }
                        Some(TrackerState::Ready(r))
                    },
                    other => other,
                };
                ready_events(&self.state, only_current)
            },
            _ => Vec::new(),
        }
    }
}


/// What the event stream forwards after the tracker's own events for `e`:
/// a workspace notice after the workspaces changed, a reload notice after the
/// configuration was loaded.
pub open spec fn stream_extras(e: NiriEvent) -> Seq<CompositorEvent> {
    match e {
        NiriEvent::WorkspacesChanged { .. } => seq![CompositorEvent::Workspaces],
        NiriEvent::ConfigLoaded { .. } => seq![CompositorEvent::ConfigReloaded],
        _ => Seq::empty(),
    }
}

impl WindowTracker {
    /// Applies one event read from the compositor's stream and returns every
    /// event to forward to the window list, in order.
    pub fn next_events(&mut self, event: NiriEvent, only_current: bool) -> (out: Vec<
        CompositorEvent,
    >)
        requires
            old(self).wf(),
            event.wf(),
        ensures
            final(self)@ == step(old(self)@, event),
            final(self).wf(),
            out@.len() >= stream_extras(event).len(),
            emits(
                old(self)@,
                event,
                only_current,
                out@.subrange(0, out@.len() - stream_extras(event).len()),
            ),
            out@.subrange(out@.len() - stream_extras(event).len(), out@.len() as int)
                == stream_extras(event),
    {
        let ghost e = event;
        let extra = match &event {
            NiriEvent::WorkspacesChanged { .. } => Some(CompositorEvent::Workspaces),
            NiriEvent::ConfigLoaded { .. } => Some(CompositorEvent::ConfigReloaded),
            _ => None,
        };
        let mut out = self.process_event(event, only_current);
        let ghost base = out@;
        match extra {
            Some(x) => out.push(x),
            None => {},
        }
        proof {
            assert(out@.subrange(0, base.len() as int) =~= base);
            assert(out@.subrange(base.len() as int, out@.len() as int) =~= stream_extras(e));
        }
        out
    }
}

/// Once both the windows and the workspaces are known, the tracker stays
/// ready whatever comes next.
pub proof fn law_ready_is_kept(v: TrackerView, e: NiriEvent)
    requires
        v.phase is Ready,
    ensures
        step(v, e).phase is Ready,
{
}

/// The tracker becomes ready when both lists have arrived, and ends in the
/// same state whichever came first.
pub proof fn law_lists_in_either_order(windows: Vec<Window>, workspaces: Vec<Workspace>)
    ensures
        ({
            let empty = TrackerView { phase: Phase::Empty, focused_id: None };
            let a = step(
                step(empty, NiriEvent::WindowsChanged { windows }),
                NiriEvent::WorkspacesChanged { workspaces },
            );
            let b = step(
                step(empty, NiriEvent::WorkspacesChanged { workspaces }),
                NiriEvent::WindowsChanged { windows },
            );
            a == b && a.phase == Phase::Ready(
                ReadyView {
                    windows: canonical(windows@),
                    workspaces: canonical(workspaces@),
                    active: Map::empty(),
                    last_focused: Map::empty(),
                },
            )
        }),
{
}

/// A closed window is gone from the tracked windows, the others stay as they
/// were, and it is no longer the focused one.
pub proof fn law_closed_window_is_gone(v: TrackerView, id: u64)
    requires
        v.wf(),
        v.phase is Ready,
    ensures
        ({
            let w0 = v.phase->Ready_0.windows;
            let n = step(v, NiriEvent::WindowClosed { id });
            let w1 = n.phase->Ready_0.windows;
            &&& n.phase is Ready
            &&& lookup(w1, id) is None
            &&& forall|m: u64| m != id ==> #[trigger] lookup(w1, m) == lookup(w0, m)
            &&& n.focused_id != Some(id)
        }),
{
    let w0 = v.phase->Ready_0.windows;
    lemma_remove_key_props(w0, id);
    crate::keyed::lemma_lookup_absent(remove_key(w0, id), id);
}

/// After a window closes, the snapshot that the tracker sends lists the
/// windows of the snapshot before, less the closed one: no other window
/// appears or disappears.
pub proof fn law_closed_window_leaves_snapshot(
    v: TrackerView,
    id: u64,
    only_current: bool,
    before: Seq<WindowInfo>,
    out: Seq<CompositorEvent>,
    x: u64,
)
    requires
        v.wf(),
        v.phase matches Phase::Ready(r) && is_snapshot(
            before,
            r.windows,
            r.workspaces,
            r.active,
            r.last_focused,
            only_current,
        ),
        emits(v, NiriEvent::WindowClosed { id }, only_current, out),
    ensures
        out.len() == 1,
        out[0] is FullSnapshot,
        (exists|k: int| 0 <= k < out[0]->FullSnapshot_0@.len() && (#[trigger] out[0]->FullSnapshot_0@[k]).inner.id == x)
            <==> x != id && exists|k: int| 0 <= k < before.len() && (#[trigger] before[k]).inner.id == x,
{
    let r = v.phase->Ready_0;
    let w0 = r.windows;
    let w1 = remove_key(w0, id);
    let after = out[0]->FullSnapshot_0@;
    lemma_snapshot_ids(before, w0, r.workspaces, r.active, r.last_focused, only_current, x);
    lemma_snapshot_ids(after, w1, r.workspaces, r.active, r.last_focused, only_current, x);
    lemma_remove_key_props(w0, id);
    lemma_remove_key_members(w0, id);
    if listed(w1, r.workspaces, only_current, x) {
        let i = choose|i: int|
            0 <= i < w1.len() && w1[i].id == x && crate::snapshot::pair_of(r.workspaces, w1[i], only_current) is Some;
        assert(w0.contains(w1[i]));
        assert(crate::keyed::has_key(w1, x));
    }
    if x != id && listed(w0, r.workspaces, only_current, x) {
        let i = choose|i: int|
            0 <= i < w0.len() && w0[i].id == x && crate::snapshot::pair_of(r.workspaces, w0[i], only_current) is Some;
        assert(crate::keyed::has_key(w0, x));
        assert(crate::keyed::has_key(w1, x));
        let j = choose|j: int| 0 <= j < w1.len() && w1[j].id == x;
        assert(w0.contains(w1[j]));
        let m = choose|m: int| 0 <= m < w0.len() && w0[m] == w1[j];
        assert(m == i);
    }
}

/// A window that opened or changed is stored under its id; when it has
/// focus, it becomes the focused window and no other window keeps focus.
pub proof fn law_opened_window_is_stored(v: TrackerView, window: Window)
    requires
        v.wf(),
        v.phase is Ready,
    ensures
        ({
            let n = step(v, NiriEvent::WindowOpenedOrChanged { window });
            let w1 = n.phase->Ready_0.windows;
            &&& lookup(w1, window.id) == Some(window)
            &&& window.is_focused ==> n.focused_id == Some(window.id)
            &&& window.is_focused ==> forall|i: int|
                0 <= i < w1.len() && w1[i].id != window.id ==> !(#[trigger] w1[i]).is_focused
            &&& !window.is_focused ==> n.focused_id == v.focused_id
        }),
{
    let r = v.phase->Ready_0;
    let (w1, lf1, f1) = before_store(r, v.focused_id, window);
    if window.is_focused {
        lemma_map_keeps_increasing(r.windows, w1);
    }
    lemma_upsert_keys(w1, window);
    lemma_upsert_members(w1, window);
    let u = upsert(w1, window);
    if window.is_focused {
        assert forall|i: int| 0 <= i < u.len() && u[i].id != window.id implies !(#[trigger] u[i]).is_focused by {
            assert(u[i] == window || w1.contains(u[i]));
            let m = choose|m: int| 0 <= m < w1.len() && w1[m] == u[i];
            assert(w1[m] == Window { is_focused: false, ..r.windows[m] });
        }
    }
}

/// After a focus change the tracker reports the previously focused window and
/// the new one, and exactly the new one is marked focused.
pub proof fn law_focus_change(v: TrackerView, id: Option<u64>, only_current: bool)
    requires
        v.wf(),
    ensures
        ({
            let n = step(v, NiriEvent::WindowFocusChanged { id });
            &&& n.focused_id == id
            &&& emits(
                v,
                NiriEvent::WindowFocusChanged { id },
                only_current,
                seq![CompositorEvent::FocusChanged { old: v.focused_id, new: id }],
            )
            &&& v.phase is Ready ==> {
                let w0 = v.phase->Ready_0.windows;
                let w1 = n.phase->Ready_0.windows;
                &&& w1.len() == w0.len()
                &&& forall|i: int|
                    0 <= i < w1.len() ==> (#[trigger] w1[i]).id == w0[i].id && (w1[i].is_focused
                        <==> Some(w1[i].id) == id)
            }
        }),
{
}

/// Where a workspace is known, activating it makes it the one active
/// workspace of its output and leaves the workspaces of other outputs as they
/// were.
pub proof fn law_activation(v: TrackerView, id: u64, focused: bool)
    requires
        v.wf(),
        v.phase is Ready,
        lookup(v.phase->Ready_0.workspaces, id) is Some,
    ensures
        ({
            let wss0 = v.phase->Ready_0.workspaces;
            let target = lookup(wss0, id)->0;
            let wss1 = step(v, NiriEvent::WorkspaceActivated { id, focused }).phase->Ready_0.workspaces;
            &&& lookup(wss1, id) matches Some(ws) && ws.is_active
            &&& wss1.len() == wss0.len()
            &&& forall|i: int|
                0 <= i < wss1.len() && (#[trigger] wss1[i]).output.deep_view()
                    == target.output.deep_view() ==> (wss1[i].is_active <==> wss1[i].id == id)
            &&& forall|i: int|
                0 <= i < wss1.len() && (#[trigger] wss0[i]).output.deep_view()
                    != target.output.deep_view() ==> wss1[i] == wss0[i]
        }),
{
    let wss0 = v.phase->Ready_0.workspaces;
    let wss1 = activate(wss0, id);
    lemma_lookup_some_index(wss0, id);
    let k = choose|k: int| 0 <= k < wss0.len() && wss0[k] == lookup(wss0, id)->0;
    lemma_map_keeps_increasing(wss0, wss1);
    crate::keyed::lemma_lookup_index(wss1, k);
}

/// A record found under key `k` stands at some index of `s` with that key.
proof fn lemma_lookup_some_index<T: crate::keyed::Keyed>(s: Seq<T>, k: u64)
    ensures
        lookup(s, k) matches Some(x) ==> exists|i: int| 0 <= i < s.len() && s[i] == x && x.key() == k,
    decreases s.len(),
{
    if s.len() > 0 && s[0].key() != k {
        lemma_lookup_some_index(s.drop_first(), k);
        if let Some(x) = lookup(s, k) {
            let i = choose|i: int| 0 <= i < s.len() - 1 && s.drop_first()[i] == x && x.key() == k;
            assert(s[i + 1] == x);
        }
    } else if s.len() > 0 {
        assert(s[0] == lookup(s, k)->0);
    }
}

} // verus!
