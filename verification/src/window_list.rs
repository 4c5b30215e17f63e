//! Decisions of the window list as a whole: which windows get a button,
//! which output's windows are shown, which terminals are polled, and the
//! icons found so far.
use vstd::prelude::*;

use crate::settings::{opt_view, rule_ignores, Settings};
use crate::strmap::StrMap;
use crate::windows::{WindowInfo, Workspace};

verus! {

broadcast use vstd::string::group_string_axioms;

/// Whose windows the list shows: every output's, or one output's.
pub enum DisplayFilter {
    ShowAll,
    Only(String),
}

impl DisplayFilter {
    /// Whether windows on `output` are shown.
    pub fn should_display(&self, output: &str) -> (b: bool)
        ensures
            b == match self {
                DisplayFilter::ShowAll => true,
                DisplayFilter::Only(name) => name@ == output@,
            },
    {
        match self {
            DisplayFilter::ShowAll => true,
            DisplayFilter::Only(name) => {
                let o = output.to_string();
                name.eq(&o)
            },
        }
    }

    /// Whether two filters are the same.
    pub fn same_as(&self, other: &DisplayFilter) -> (b: bool)
        ensures
            b == match (self, other) {
                (DisplayFilter::ShowAll, DisplayFilter::ShowAll) => true,
                (DisplayFilter::Only(a), DisplayFilter::Only(b)) => a@ == b@,
                _ => false,
            },
    {
        match (self, other) {
            (DisplayFilter::ShowAll, DisplayFilter::ShowAll) => true,
            (DisplayFilter::Only(a), DisplayFilter::Only(b)) => a.eq(b),
            _ => false,
        }
    }
}

/// An output of the compositor, and whether the bar's monitor matches it in
/// geometry, model and make.
pub struct OutputMatch {
    pub name: String,
    pub matches: bool,
}

/// The first output that matches the bar's monitor.
pub open spec fn first_match(outputs: Seq<OutputMatch>) -> Option<Seq<char>>
    decreases outputs.len(),
{
    if outputs.len() == 0 {
        None
    } else if outputs[0].matches {
        Some(outputs[0].name@)
    } else {
        first_match(outputs.drop_first())
    }
}

/// The filter for the bar: every output when so configured, when the
/// outputs are unknown, when there is one, or when the bar's monitor is
/// unknown or matches none; else the output that matches.
pub fn determine_display_filter(show_all_outputs: bool, outputs: &Option<Vec<OutputMatch>>, has_monitor: bool) -> (f:
    DisplayFilter)
    ensures
        match f {
            DisplayFilter::ShowAll => show_all_outputs || outputs is None || outputs->0@.len() == 1
                || !has_monitor || first_match(outputs->0@) is None,
            DisplayFilter::Only(name) => !show_all_outputs && outputs is Some && outputs->0@.len() != 1
                && has_monitor && first_match(outputs->0@) == Some(name@),
        },
{
    if show_all_outputs {
        return DisplayFilter::ShowAll;
    }
    let outs = match outputs {
        Some(o) => o,
        None => {
            return DisplayFilter::ShowAll;
        },
    };
    if outs.len() == 1 || !has_monitor {
        return DisplayFilter::ShowAll;
    }
    let mut i: usize = 0;
    proof {
        assert(outs@.subrange(0, outs@.len() as int) =~= outs@);
    }
    while i < outs.len()
        invariant
            i <= outs@.len(),
            !show_all_outputs,
            has_monitor,
            outs@.len() != 1,
            *outputs == Some(*outs),
            first_match(outs@) == first_match(outs@.subrange(i as int, outs@.len() as int)),
        decreases outs@.len() - i,
    {
        proof {
            let rest = outs@.subrange(i as int, outs@.len() as int);
            assert(rest.drop_first() =~= outs@.subrange(i + 1, outs@.len() as int));
            assert(rest[0] == outs@[i as int]);
        }
        if outs[i].matches {
            return DisplayFilter::Only(outs[i].name.clone());
        }
        i = i + 1;
    }
    DisplayFilter::ShowAll
}

/// Whether a text field of the bar's monitor matches the compositor's: equal
/// where the monitor has one, and the compositor's empty where it has none.
pub fn field_matches(monitor: Option<&str>, compositor: &str) -> (b: bool)
    ensures
        b == match monitor {
            Some(m) => m@ == compositor@,
            None => compositor@.len() == 0,
        },
{
    match monitor {
        Some(m) => {
            let a = m.to_string();
            let c = compositor.to_string();
            a.eq(&c)
        },
        None => compositor.is_empty(),
    }
}

/// The window that the list shows as focused, seen from the buttons.
pub struct FocusedWindow {
    id: Option<u64>,
}

impl FocusedWindow {
    pub closed spec fn view_id(&self) -> Option<u64> {
        self.id
    }

    pub fn get(&self) -> (r: Option<u64>)
        ensures
            r == self.view_id(),
    {
        self.id
    }

    pub fn set(&mut self, id: Option<u64>)
        ensures
            final(self).view_id() == id,
    {
        self.id = id;
    }

    /// Whether `window_id` is the focused window.
    pub fn is(&self, window_id: u64) -> (b: bool)
        ensures
            b == (self.view_id() == Some(window_id)),
    {
        self.id == Some(window_id)
    }
}

/// No window focused yet.
pub fn create_focused_window() -> (f: FocusedWindow)
    ensures
        f.view_id() is None,
{
    FocusedWindow { id: None }
}

/// Whether a window of the snapshot gets a button: its output passes the
/// filter (no output counts as the empty name), and no ignore rule leaves it
/// out, which is asked only of windows with an app id.
pub open spec fn gets_button(w: WindowInfo, filter: DisplayFilter, settings: Settings) -> bool {
    let output = match w.output_name {
        Some(o) => o@,
        None => Seq::empty(),
    };
    let shown = match filter {
        DisplayFilter::ShowAll => true,
        DisplayFilter::Only(name) => name@ == output,
    };
    let ignored = w.inner.app_id is Some && exists|i: int|
        0 <= i < settings.ignore_rules@.len() && rule_ignores(
            #[trigger] settings.ignore_rules@[i],
            w.inner.app_id.deep_view(),
            w.inner.title.deep_view(),
            w.inner.workspace_id,
        );
    shown && !ignored
}

/// The ids of the windows that get a button, in snapshot order.
pub open spec fn shown_ids(snapshot: Seq<WindowInfo>, filter: DisplayFilter, settings: Settings) -> Seq<u64>
    decreases snapshot.len(),
{
    if snapshot.len() == 0 {
        Seq::empty()
    } else {
        let prev = shown_ids(snapshot.drop_last(), filter, settings);
        if gets_button(snapshot.last(), filter, settings) {
            prev.push(snapshot.last().inner.id)
        } else {
            prev
        }
    }
}

/// The windows that get a button and carry a process id, with that id, in
/// snapshot order.
pub open spec fn shown_pids(snapshot: Seq<WindowInfo>, filter: DisplayFilter, settings: Settings) -> Seq<(u64, u32)>
    decreases snapshot.len(),
{
    if snapshot.len() == 0 {
        Seq::empty()
    } else {
        let prev = shown_pids(snapshot.drop_last(), filter, settings);
        let w = snapshot.last();
        if gets_button(w, filter, settings) {
            match w.inner.pid {
                Some(p) => prev.push((w.inner.id, p as u32)),
                None => prev,
            }
        } else {
            prev
        }
    }
}

/// The first focused window of the snapshot.
pub open spec fn focused_in(snapshot: Seq<WindowInfo>) -> Option<u64>
    decreases snapshot.len(),
{
    if snapshot.len() == 0 {
        None
    } else if snapshot[0].inner.is_focused {
        Some(snapshot[0].inner.id)
    } else {
        focused_in(snapshot.drop_first())
    }
}

/// What a new snapshot changes in the list.
pub struct WindowUpdatePlan {
    /// The focused window changed, so the selection is cleared.
    pub focus_changed: bool,
    pub focused: Option<u64>,
    /// The windows with a button, in the order the buttons go.
    pub shown: Vec<u64>,
    /// Windows whose buttons go, in the order they were held.
    pub removed: Vec<u64>,
    /// Shown windows without a button yet, in the order the buttons go;
    /// the others keep the button they have.
    pub created: Vec<u64>,
    /// The process of each shown window that names one.
    pub pids: Vec<(u64, u32)>,
}

fn as_opt_str(s: &Option<String>) -> (r: Option<&str>)
    ensures
        opt_view(r) == s.deep_view(),
{
    match s {
        Some(t) => Some(t.as_str()),
        None => None,
    }
}

fn gets_button_exec(w: &WindowInfo, filter: &DisplayFilter, settings: &Settings) -> (b: bool)
    ensures
        b == gets_button(*w, *filter, *settings),
{
    let shown = match &w.output_name {
        Some(o) => filter.should_display(o.as_str()),
        None => {
            proof {
                reveal_strlit("");
                assert(""@ =~= Seq::<char>::empty());
            }
            filter.should_display("")
        },
    };
    if !shown {
        return false;
    }
    if w.inner.app_id.is_none() {
        return true;
    }
    !settings.should_ignore(
        as_opt_str(&w.inner.app_id),
        as_opt_str(&w.inner.title),
        w.inner.workspace_id,
    )
}

fn contains_id(v: &Vec<u64>, id: u64) -> (b: bool)
    ensures
        b == v@.contains(id),
{
    let mut i: usize = 0;
    while i < v.len()
        invariant
            i <= v@.len(),
            forall|k: int| 0 <= k < i ==> v@[k] != id,
        decreases v@.len() - i,
    {
        if v[i] == id {
            proof {
                assert(v@[i as int] == id);
            }
            return true;
        }
        i = i + 1;
    }
    false
}

/// What a new snapshot changes, given the window focused before and the
/// windows that hold a button.
pub fn handle_window_update(
    snapshot: &Vec<WindowInfo>,
    filter: &DisplayFilter,
    settings: &Settings,
    previous_focused: Option<u64>,
    existing: &Vec<u64>,
) -> (plan: WindowUpdatePlan)
    ensures
        plan.focused == focused_in(snapshot@),
        plan.focus_changed == (focused_in(snapshot@) != previous_focused),
        plan.shown@ == shown_ids(snapshot@, *filter, *settings),
        plan.removed@ == existing@.filter(|id: u64| !shown_ids(snapshot@, *filter, *settings).contains(id)),
        plan.created@ == shown_ids(snapshot@, *filter, *settings).filter(|id: u64| !existing@.contains(id)),
        plan.pids@ == shown_pids(snapshot@, *filter, *settings),
{
    let mut focused: Option<u64> = None;
    let mut k: usize = 0;
    proof {
        assert(snapshot@.subrange(0, snapshot@.len() as int) =~= snapshot@);
    }
    while k < snapshot.len()
        invariant_except_break
            focused is None,
        invariant
            k <= snapshot@.len(),
            focused_in(snapshot@) == focused_in(snapshot@.subrange(k as int, snapshot@.len() as int)),
        ensures
            focused == focused_in(snapshot@),
        decreases snapshot@.len() - k,
    {
        proof {
            let rest = snapshot@.subrange(k as int, snapshot@.len() as int);
            assert(rest.drop_first() =~= snapshot@.subrange(k + 1, snapshot@.len() as int));
            assert(rest[0] == snapshot@[k as int]);
        }
        if snapshot[k].inner.is_focused {
            focused = Some(snapshot[k].inner.id);
            break;
        }
        k = k + 1;
    }
    let mut shown: Vec<u64> = Vec::new();
    let mut pids: Vec<(u64, u32)> = Vec::new();
    let mut i: usize = 0;
    while i < snapshot.len()
        invariant
            i <= snapshot@.len(),
            shown@ == shown_ids(snapshot@.take(i as int), *filter, *settings),
            pids@ == shown_pids(snapshot@.take(i as int), *filter, *settings),
        decreases snapshot@.len() - i,
    {
        proof {
            assert(snapshot@.take(i + 1).drop_last() =~= snapshot@.take(i as int));
        }
        if gets_button_exec(&snapshot[i], filter, settings) {
            shown.push(snapshot[i].inner.id);
            match snapshot[i].inner.pid {
                Some(p) => {
                    pids.push((snapshot[i].inner.id, p as u32));
                },
                None => {},
            }
        }
        i = i + 1;
    }
    proof {
        assert(snapshot@.take(snapshot@.len() as int) =~= snapshot@);
    }
    let mut removed: Vec<u64> = Vec::new();
    let mut j: usize = 0;
    while j < existing.len()
        invariant
            j <= existing@.len(),
            shown@ == shown_ids(snapshot@, *filter, *settings),
            removed@ == existing@.take(j as int).filter(|id: u64| !shown@.contains(id)),
        decreases existing@.len() - j,
    {
        proof {
            assert(existing@.take(j + 1).drop_last() =~= existing@.take(j as int));
            reveal(Seq::filter);
        }
        if !contains_id(&shown, existing[j]) {
            removed.push(existing[j]);
        }
        j = j + 1;
    }
    proof {
        assert(existing@.take(existing@.len() as int) =~= existing@);
    }
    let mut created: Vec<u64> = Vec::new();
    let mut c: usize = 0;
    while c < shown.len()
        invariant
            c <= shown@.len(),
            created@ == shown@.take(c as int).filter(|id: u64| !existing@.contains(id)),
        decreases shown@.len() - c,
    {
        proof {
            assert(shown@.take(c + 1).drop_last() =~= shown@.take(c as int));
            reveal(Seq::filter);
        }
        if !contains_id(existing, shown[c]) {
            created.push(shown[c]);
        }
        c = c + 1;
    }
    proof {
        assert(shown@.take(shown@.len() as int) =~= shown@);
    }
    WindowUpdatePlan {
        focus_changed: focused != previous_focused,
        focused,
        shown,
        removed,
        created,
        pids,
    }
}

/// The process ids held after an update: those of windows that kept their
/// button, then those the shown windows name.
pub open spec fn pids_after(held: Map<u64, u32>, removed: Seq<u64>, named: Seq<(u64, u32)>) -> Map<u64, u32>
    decreases named.len(),
{
    if named.len() == 0 {
        Map::new(|k: u64| held.dom().contains(k) && !removed.contains(k), |k: u64| held[k])
    } else {
        pids_after(held, removed, named.drop_last()).insert(named.last().0, named.last().1)
    }
}

proof fn lemma_shown_pids_shown(snapshot: Seq<WindowInfo>, filter: DisplayFilter, settings: Settings)
    ensures
        forall|i: int|
            0 <= i < shown_pids(snapshot, filter, settings).len() ==> shown_ids(snapshot, filter, settings).contains(
                (#[trigger] shown_pids(snapshot, filter, settings)[i]).0,
            ),
    decreases snapshot.len(),
{
    if snapshot.len() > 0 {
        let d = snapshot.drop_last();
        lemma_shown_pids_shown(d, filter, settings);
        let sp = shown_pids(snapshot, filter, settings);
        let si = shown_ids(snapshot, filter, settings);
        assert forall|i: int| 0 <= i < sp.len() implies si.contains((#[trigger] sp[i]).0) by {
            if i < shown_pids(d, filter, settings).len() {
                let k = choose|k: int| 0 <= k < shown_ids(d, filter, settings).len() && shown_ids(d, filter, settings)[k]
                    == sp[i].0;
                assert(si[k] == sp[i].0);
            } else {
                assert(si[si.len() - 1] == sp[i].0);
            }
        }
    }
}

proof fn lemma_pids_after_dom(held: Map<u64, u32>, removed: Seq<u64>, named: Seq<(u64, u32)>, k: u64)
    ensures
        pids_after(held, removed, named).dom().contains(k) ==> (held.dom().contains(k) && !removed.contains(k))
            || exists|i: int| 0 <= i < named.len() && (#[trigger] named[i]).0 == k,
    decreases named.len(),
{
    if named.len() > 0 {
        let d = named.drop_last();
        lemma_pids_after_dom(held, removed, d, k);
        if exists|i: int| 0 <= i < d.len() && (#[trigger] d[i]).0 == k {
            let i = choose|i: int| 0 <= i < d.len() && (#[trigger] d[i]).0 == k;
            assert(named[i] == d[i]);
        }
        if named.last().0 == k {
            assert(named[named.len() - 1].0 == k);
        }
    }
}

/// After an update, the buttons are exactly the shown windows: a window
/// that had a button keeps it (it is neither removed nor created again), the
/// others get one; and where the selection and the process ids held only
/// windows with a button, after the removed windows leave them and the shown
/// windows' processes are recorded, they still do.
pub proof fn law_window_update_keeps_lists(
    snapshot: Seq<WindowInfo>,
    filter: DisplayFilter,
    settings: Settings,
    existing: Seq<u64>,
    selection: Set<u64>,
    held: Map<u64, u32>,
)
    requires
        forall|k: u64| #[trigger] selection.contains(k) ==> existing.contains(k),
        forall|k: u64| #[trigger] held.dom().contains(k) ==> existing.contains(k),
    ensures
        ({
            let shown = shown_ids(snapshot, filter, settings);
            let removed = existing.filter(|id: u64| !shown.contains(id));
            let created = shown.filter(|id: u64| !existing.contains(id));
            &&& forall|k: u64|
                #[trigger] shown.contains(k) <==> (existing.contains(k) && !removed.contains(k)) || created.contains(k)
            &&& forall|k: u64|
                existing.contains(k) && #[trigger] shown.contains(k) ==> !created.contains(k) && !removed.contains(k)
            &&& forall|k: u64| #[trigger] selection.contains(k) && !removed.contains(k) ==> shown.contains(k)
            &&& forall|k: u64|
                #[trigger] pids_after(held, removed, shown_pids(snapshot, filter, settings)).dom().contains(k)
                    ==> shown.contains(k)
        }),
{
    let shown = shown_ids(snapshot, filter, settings);
    let fr = |id: u64| !shown.contains(id);
    let fc = |id: u64| !existing.contains(id);
    let removed = existing.filter(fr);
    let created = shown.filter(fc);
    let named = shown_pids(snapshot, filter, settings);
    assert forall|k: u64| #[trigger] removed.contains(k) <==> existing.contains(k) && !shown.contains(k) by {
        if existing.contains(k) && !shown.contains(k) {
            let i = choose|i: int| 0 <= i < existing.len() && existing[i] == k;
            existing.lemma_filter_contains(fr, i);
        }
        if removed.contains(k) {
            let i = choose|i: int| 0 <= i < removed.len() && removed[i] == k;
            existing.lemma_filter_pred(fr, i);
            existing.lemma_filter_contains_rev(fr, k);
        }
    }
    assert forall|k: u64| #[trigger] created.contains(k) <==> shown.contains(k) && !existing.contains(k) by {
        if shown.contains(k) && !existing.contains(k) {
            let i = choose|i: int| 0 <= i < shown.len() && shown[i] == k;
            shown.lemma_filter_contains(fc, i);
        }
        if created.contains(k) {
            let i = choose|i: int| 0 <= i < created.len() && created[i] == k;
            shown.lemma_filter_pred(fc, i);
            shown.lemma_filter_contains_rev(fc, k);
        }
    }
    lemma_shown_pids_shown(snapshot, filter, settings);
    assert forall|k: u64| #[trigger] pids_after(held, removed, named).dom().contains(k) implies shown.contains(k) by {
        lemma_pids_after_dom(held, removed, named, k);
        if exists|i: int| 0 <= i < named.len() && (#[trigger] named[i]).0 == k {
            let i = choose|i: int| 0 <= i < named.len() && (#[trigger] named[i]).0 == k;
            assert(shown.contains(named[i].0));
        }
    }
}

/// How many of `pairs` carry process `pid`.
pub open spec fn pid_count(pairs: Seq<(u64, u32)>, pid: u32) -> nat
    decreases pairs.len(),
{
    if pairs.len() == 0 {
        0
    } else {
        pid_count(pairs.drop_last(), pid) + if pairs.last().1 == pid {
            1nat
        } else {
            0nat
        }
    }
}

/// The windows whose process is polled: those whose process no other
/// candidate shares, since a shared process reads the same for all of them.
pub open spec fn unique_pid_windows(pairs: Seq<(u64, u32)>) -> Seq<(u64, u32)> {
    pairs.filter(|p: (u64, u32)| pid_count(pairs, p.1) == 1)
}

fn count_pid(pairs: &Vec<(u64, u32)>, pid: u32) -> (n: usize)
    ensures
        n == pid_count(pairs@, pid),
{
    let mut n: usize = 0;
    let mut i: usize = 0;
    while i < pairs.len()
        invariant
            i <= pairs@.len(),
            n == pid_count(pairs@.take(i as int), pid),
            n <= i,
        decreases pairs@.len() - i,
    {
        proof {
            assert(pairs@.take(i + 1).drop_last() =~= pairs@.take(i as int));
        }
        if pairs[i].1 == pid {
            n = n + 1;
        }
        i = i + 1;
    }
    proof {
        assert(pairs@.take(pairs@.len() as int) =~= pairs@);
    }
    n
}

/// The windows and processes to read on a poll tick, out of the candidates
/// whose application asks for polling.
pub fn pids_to_query(pollable: &Vec<(u64, u32)>) -> (r: Vec<(u64, u32)>)
    ensures
        r@ == unique_pid_windows(pollable@),
{
    let mut out: Vec<(u64, u32)> = Vec::new();
    let mut i: usize = 0;
    while i < pollable.len()
        invariant
            i <= pollable@.len(),
            out@ == pollable@.take(i as int).filter(|p: (u64, u32)| pid_count(pollable@, p.1) == 1),
        decreases pollable@.len() - i,
    {
        proof {
            assert(pollable@.take(i + 1).drop_last() =~= pollable@.take(i as int));
            reveal(Seq::filter);
        }
        if count_pid(pollable, pollable[i].1) == 1 {
            out.push(pollable[i]);
        }
        i = i + 1;
    }
    proof {
        assert(pollable@.take(pollable@.len() as int) =~= pollable@);
    }
    out
}

/// Whether the settings ask to read the process table for windows of the
/// application `app_id`.
pub open spec fn polls(s: Settings, app_id: Option<String>) -> bool {
    s.title_format.enabled && match app_id {
        Some(id) => s.title_format.rules@.contains_key(id@) && s.title_format.rules@[id@].poll_proc,
        None => false,
    }
}

/// The (window, process) pairs of the candidates whose application asks for
/// polling, in order.
pub open spec fn pollable_of(s: Settings, candidates: Seq<(u64, u32, Option<String>)>) -> Seq<(u64, u32)>
    decreases candidates.len(),
{
    if candidates.len() == 0 {
        Seq::empty()
    } else {
        let rest = pollable_of(s, candidates.drop_last());
        let c = candidates.last();
        if polls(s, c.2) {
            rest.push((c.0, c.1))
        } else {
            rest
        }
    }
}

/// The windows and processes read on a poll tick, out of the shown windows
/// given as (window, process, application): those whose application asks
/// for polling and whose process no other such window shares.
pub fn poll_targets(settings: &Settings, candidates: &Vec<(u64, u32, Option<String>)>) -> (r: Vec<(u64, u32)>)
    ensures
        r@ == unique_pid_windows(pollable_of(*settings, candidates@)),
{
    let mut pollable: Vec<(u64, u32)> = Vec::new();
    let mut i: usize = 0;
    while i < candidates.len()
        invariant
            i <= candidates@.len(),
            pollable@ == pollable_of(*settings, candidates@.take(i as int)),
        decreases candidates@.len() - i,
    {
        proof {
            assert(candidates@.take(i + 1).drop_last() =~= candidates@.take(i as int));
        }
        let asks = match &candidates[i].2 {
            Some(a) => settings.should_poll_proc(Some(a.as_str())),
            None => settings.should_poll_proc(None),
        };
        if asks {
            pollable.push((candidates[i].0, candidates[i].1));
        }
        i = i + 1;
    }
    proof {
        assert(candidates@.take(candidates@.len() as int) =~= candidates@);
    }
    pids_to_query(&pollable)
}

/// How a button lays out its icon and title.
pub struct IconRenderingParams {
    pub display_titles: bool,
    pub icon_size: i32,
    pub icon_path: Option<String>,
}

/// Icons found for application ids; a failed search is not remembered.
pub struct IconResolver {
    cache: StrMap<String>,
}

impl IconResolver {
    /// The icon paths held, by application id.
    pub closed spec fn cached(&self) -> Map<Seq<char>, String> {
        self.cache@
    }

    /// A resolver that knows no icon yet.
    pub fn new() -> (r: Self)
        ensures
            r.cached() == Map::<Seq<char>, String>::empty(),
    {
        IconResolver { cache: StrMap::new() }
    }

    /// Whether the icon of `app_id` is to be searched for.
    pub fn needs_search(&self, app_id: &str) -> (b: bool)
        ensures
            b == !self.cached().contains_key(app_id@),
    {
        !self.cache.contains_key(app_id)
    }

    /// The icon of `app_id`: the one held, else `searched`, which is then
    /// held.
    pub fn resolve(&mut self, app_id: &str, searched: Option<String>) -> (r: Option<String>)
        ensures
            (r, final(self).cached()) == resolution(old(self).cached(), app_id@, searched),
    {
        match self.cache.get(app_id) {
            Some(p) => {
                return Some(p.clone());
            },
            None => {},
        }
        match searched {
            Some(p) => {
                self.cache.insert(app_id.to_string(), p.clone());
                Some(p)
            },
            None => None,
        }
    }
}

/// The icon that resolving `app_id` gives, and the icons held after it: the
/// one held, else the one searched for, which is then held.
pub open spec fn resolution(cached: Map<Seq<char>, String>, app_id: Seq<char>, searched: Option<String>) -> (
    Option<String>,
    Map<Seq<char>, String>,
) {
    if cached.contains_key(app_id) {
        (Some(cached[app_id]), cached)
    } else {
        match searched {
            Some(p) => (Some(p), cached.insert(app_id, p)),
            None => (None, cached),
        }
    }
}

/// Once resolving an application gave an icon, resolving it again gives the
/// same icon, whatever a new search would find, and changes nothing.
pub proof fn law_icon_is_kept(
    cached: Map<Seq<char>, String>,
    app_id: Seq<char>,
    first: Option<String>,
    second: Option<String>,
)
    requires
        resolution(cached, app_id, first).0 is Some,
    ensures
        ({
            let (r1, c1) = resolution(cached, app_id, first);
            resolution(c1, app_id, second) == (r1, c1)
        }),
{
}

/// The icons held after resolving each of `calls` (an application id and
/// what a search for it found) in order.
pub open spec fn after_resolutions(cached: Map<Seq<char>, String>, calls: Seq<(Seq<char>, Option<String>)>) -> Map<
    Seq<char>,
    String,
>
    decreases calls.len(),
{
    if calls.len() == 0 {
        cached
    } else {
        after_resolutions(resolution(cached, calls[0].0, calls[0].1).1, calls.drop_first())
    }
}

/// An icon once held stays held through any later resolutions, and every
/// later resolution of its application gives it, whatever a search finds.
pub proof fn law_icon_stays_cached(
    cached: Map<Seq<char>, String>,
    app_id: Seq<char>,
    calls: Seq<(Seq<char>, Option<String>)>,
    searched: Option<String>,
)
    requires
        cached.contains_key(app_id),
    ensures
        after_resolutions(cached, calls).contains_key(app_id),
        after_resolutions(cached, calls)[app_id] == cached[app_id],
        resolution(after_resolutions(cached, calls), app_id, searched) == (
            Some(cached[app_id]),
            after_resolutions(cached, calls),
        ),
    decreases calls.len(),
{
    if calls.len() > 0 {
        law_icon_stays_cached(resolution(cached, calls[0].0, calls[0].1).1, app_id, calls.drop_first(), searched);
    }
}

/// The windows polled carry pairwise different processes.
pub proof fn law_polled_pids_distinct(pollable: Seq<(u64, u32)>)
    ensures
        forall|a: int, b: int|
            0 <= a < b < unique_pid_windows(pollable).len() ==> (#[trigger] unique_pid_windows(
                pollable,
            )[a]).1 != (#[trigger] unique_pid_windows(pollable)[b]).1,
{
    let u = unique_pid_windows(pollable);
    assert forall|a: int, b: int| 0 <= a < b < u.len() implies (#[trigger] u[a]).1 != (#[trigger] u[b]).1 by {
        lemma_filter_two(pollable, a, b);
    }
}

/// Two entries of the filtered list with one process make the process
/// occur twice in the whole list.
proof fn lemma_filter_two(pollable: Seq<(u64, u32)>, a: int, b: int)
    requires
        0 <= a < b < unique_pid_windows(pollable).len(),
    ensures
        unique_pid_windows(pollable)[a].1 != unique_pid_windows(pollable)[b].1,
{
    let u = unique_pid_windows(pollable);
    if u[a].1 != u[b].1 {
        return;
    }
    let pid = u[a].1;
    let f = |p: (u64, u32)| pid_count(pollable, p.1) == 1;
    lemma_filter_count(pollable, f, pid);
    lemma_count_at_least_two(u, a, b);
    assert(pid_count(pollable, pid) == 1) by {
        pollable.lemma_filter_pred(f, a);
    }
}

/// Filtering keeps no more entries of a process than there were.
proof fn lemma_filter_count(s: Seq<(u64, u32)>, f: spec_fn((u64, u32)) -> bool, pid: u32)
    ensures
        pid_count(s.filter(f), pid) <= pid_count(s, pid),
    decreases s.len(),
{
    reveal(Seq::filter);
    if s.len() > 0 {
        lemma_filter_count(s.drop_last(), f, pid);
        assert(s.filter(f) == if f(s.last()) {
            s.drop_last().filter(f).push(s.last())
        } else {
            s.drop_last().filter(f)
        });
        if f(s.last()) {
            assert(s.drop_last().filter(f).push(s.last()).drop_last() =~= s.drop_last().filter(f));
        }
    }
}

/// Two entries with one process make it occur at least twice.
proof fn lemma_count_at_least_two(s: Seq<(u64, u32)>, a: int, b: int)
    requires
        0 <= a < b < s.len(),
        s[a].1 == s[b].1,
    ensures
        pid_count(s, s[a].1) >= 2,
    decreases s.len(),
{
    let d = s.drop_last();
    if b < s.len() - 1 {
        assert(d[a] == s[a] && d[b] == s[b]);
        lemma_count_at_least_two(d, a, b);
    } else {
        assert(d[a] == s[a]);
        lemma_count_at_least_one(d, a);
    }
}

proof fn lemma_count_at_least_one(s: Seq<(u64, u32)>, a: int)
    requires
        0 <= a < s.len(),
    ensures
        pid_count(s, s[a].1) >= 1,
    decreases s.len(),
{
    if a < s.len() - 1 {
        let d = s.drop_last();
        assert(d[a] == s[a]);
        lemma_count_at_least_one(d, a);
    }
}


/// `a` comes no later than `b` in the order of `String`: by characters,
/// a prefix first.
pub open spec fn chars_le(a: Seq<char>, b: Seq<char>) -> bool
    decreases a.len(),
{
    if a.len() == 0 {
        true
    } else if b.len() == 0 {
        false
    } else if a[0] == b[0] {
        chars_le(a.drop_first(), b.drop_first())
    } else {
        a[0] < b[0]
    }
}

proof fn lemma_chars_le_total(a: Seq<char>, b: Seq<char>)
    ensures
        chars_le(a, b) || chars_le(b, a),
    decreases a.len(),
{
    if a.len() > 0 && b.len() > 0 && a[0] == b[0] {
        lemma_chars_le_total(a.drop_first(), b.drop_first());
    }
}

proof fn lemma_chars_le_trans(a: Seq<char>, b: Seq<char>, c: Seq<char>)
    requires
        chars_le(a, b),
        chars_le(b, c),
    ensures
        chars_le(a, c),
    decreases a.len(),
{
    if a.len() > 0 && b.len() > 0 && c.len() > 0 && a[0] == b[0] && b[0] == c[0] {
        lemma_chars_le_trans(a.drop_first(), b.drop_first(), c.drop_first());
    }
}

proof fn lemma_chars_le_antisym(a: Seq<char>, b: Seq<char>)
    requires
        chars_le(a, b),
        chars_le(b, a),
    ensures
        a == b,
    decreases a.len(),
{
    if a.len() > 0 && b.len() > 0 {
        lemma_chars_le_antisym(a.drop_first(), b.drop_first());
        assert(a =~= seq![a[0]] + a.drop_first());
        assert(b =~= seq![b[0]] + b.drop_first());
    }
}

/// The order of the move-to-workspace menu: by output, those without one
/// first, then by index.
pub open spec fn menu_le(a: Workspace, b: Workspace) -> bool {
    match (a.output.deep_view(), b.output.deep_view()) {
        (None, None) => a.idx <= b.idx,
        (None, Some(_)) => true,
        (Some(_), None) => false,
        (Some(x), Some(y)) => if x == y {
            a.idx <= b.idx
        } else {
            chars_le(x, y)
        },
    }
}

proof fn lemma_menu_le_total(a: Workspace, b: Workspace)
    ensures
        menu_le(a, b) || menu_le(b, a),
{
    if let (Some(x), Some(y)) = (a.output.deep_view(), b.output.deep_view()) {
        lemma_chars_le_total(x, y);
    }
}

proof fn lemma_menu_le_trans(a: Workspace, b: Workspace, c: Workspace)
    requires
        menu_le(a, b),
        menu_le(b, c),
    ensures
        menu_le(a, c),
{
    if let (Some(x), Some(y), Some(z)) = (a.output.deep_view(), b.output.deep_view(), c.output.deep_view()) {
        if x != y && y != z {
            lemma_chars_le_trans(x, y, z);
            if x == z {
                lemma_chars_le_antisym(x, y);
            }
        } else if x == y && y != z {
        } else if x != y && y == z {
        }
    }
}

fn chars_le_exec(a: &Vec<char>, b: &Vec<char>) -> (r: bool)
    ensures
        r == chars_le(a@, b@),
{
    let mut i: usize = 0;
    proof {
        assert(a@.subrange(0, a@.len() as int) =~= a@);
        assert(b@.subrange(0, b@.len() as int) =~= b@);
    }
    loop
        invariant
            i <= a@.len(),
            i <= b@.len(),
            chars_le(a@, b@) == chars_le(
                a@.subrange(i as int, a@.len() as int),
                b@.subrange(i as int, b@.len() as int),
            ),
        decreases a@.len() - i,
    {
        let ghost sa = a@.subrange(i as int, a@.len() as int);
        let ghost sb = b@.subrange(i as int, b@.len() as int);
        if i == a.len() {
            return true;
        }
        if i == b.len() {
            return false;
        }
        proof {
            assert(sa[0] == a@[i as int]);
            assert(sb[0] == b@[i as int]);
            assert(sa.drop_first() =~= a@.subrange(i + 1, a@.len() as int));
            assert(sb.drop_first() =~= b@.subrange(i + 1, b@.len() as int));
        }
        if a[i] != b[i] {
            return a[i] < b[i];
        }
        i = i + 1;
    }
}

fn menu_le_exec(a: &Workspace, b: &Workspace) -> (r: bool)
    ensures
        r == menu_le(*a, *b),
{
    match (&a.output, &b.output) {
        (None, None) => a.idx <= b.idx,
        (None, Some(_)) => true,
        (Some(_), None) => false,
        (Some(x), Some(y)) => {
            if x.eq(y) {
                a.idx <= b.idx
            } else {
                let xv = crate::text::chars_of(x.as_str());
                let yv = crate::text::chars_of(y.as_str());
                chars_le_exec(&xv, &yv)
            }
        },
    }
}

/// The order of the move-to-workspace menu for `wss`: each index once, in
/// menu order; no menu where there is at most one workspace.
pub fn workspace_menu_order(wss: &Vec<Workspace>) -> (r: Option<Vec<usize>>)
    ensures
        wss@.len() <= 1 ==> r is None,
        wss@.len() > 1 ==> (r matches Some(order) && order@.len() == wss@.len()
            && order@.no_duplicates() && (forall|k: int|
            0 <= k < order@.len() ==> order@[k] < wss@.len()) && (forall|a: int, b: int|
            0 <= a < b < order@.len() ==> menu_le(wss@[order@[a] as int], wss@[order@[b] as int]))),
{
    if wss.len() <= 1 {
        return None;
    }
    let mut order: Vec<usize> = Vec::new();
    let mut i: usize = 0;
    while i < wss.len()
        invariant
            i <= wss@.len(),
            order@.len() == i,
            order@.no_duplicates(),
            forall|k: int| 0 <= k < order@.len() ==> order@[k] < i,
            forall|a: int, b: int|
                0 <= a < b < order@.len() ==> menu_le(wss@[order@[a] as int], wss@[order@[b] as int]),
        decreases wss@.len() - i,
    {
        let mut j: usize = 0;
        while j < order.len()
            invariant
                j <= order@.len(),
                order@.len() == i,
                i < wss@.len(),
                forall|k: int| 0 <= k < order@.len() ==> order@[k] < i,
                forall|k: int| 0 <= k < j ==> menu_le(wss@[order@[k] as int], wss@[i as int]),
            ensures
                j <= order@.len(),
                forall|k: int| 0 <= k < j ==> menu_le(wss@[order@[k] as int], wss@[i as int]),
                j < order@.len() ==> !menu_le(wss@[order@[j as int] as int], wss@[i as int]),
            decreases order@.len() - j,
        {
            if !menu_le_exec(&wss[order[j]], &wss[i]) {
                break;
            }
            j = j + 1;
        }
        let ghost old_order = order@;
        let ghost wi = wss@[i as int];
        order.insert(j, i);
        proof {
            let o = order@;
            assert(o =~= old_order.insert(j as int, i));
            assert forall|k: int| 0 <= k < o.len() implies o[k] < i + 1 by {
                if k < j {
                    assert(o[k] == old_order[k]);
                } else if k > j {
                    assert(o[k] == old_order[k - 1]);
                }
            }
            assert forall|x: int, y: int| 0 <= x < y < o.len() implies o[x] != o[y] by {
                if x < j && y > j {
                    assert(o[x] == old_order[x]);
                    assert(o[y] == old_order[y - 1]);
                } else if x < j && y < j {
                    assert(o[x] == old_order[x]);
                    assert(o[y] == old_order[y]);
                } else if x > j {
                    assert(o[x] == old_order[x - 1]);
                    assert(o[y] == old_order[y - 1]);
                } else if x == j {
                    assert(o[y] == old_order[y - 1]);
                } else {
                    assert(o[x] == old_order[x]);
                }
            }
            assert forall|x: int, y: int| 0 <= x < y < o.len() implies menu_le(
                wss@[o[x] as int],
                wss@[o[y] as int],
            ) by {
                if x < j && y < j {
                    assert(o[x] == old_order[x]);
                    assert(o[y] == old_order[y]);
                } else if x < j && y == j {
                    assert(o[x] == old_order[x]);
                } else if x < j {
                    assert(o[x] == old_order[x]);
                    assert(o[y] == old_order[y - 1]);
                } else if x == j {
                    assert(o[y] == old_order[y - 1]);
                    let first = wss@[old_order[j as int] as int];
                    lemma_menu_le_total(first, wi);
                    if y > j + 1 {
                        lemma_menu_le_trans(wi, first, wss@[old_order[y - 1] as int]);
                    }
                } else {
                    assert(o[x] == old_order[x - 1]);
                    assert(o[y] == old_order[y - 1]);
                }
            }
        }
        i = i + 1;
    }
    Some(order)
}

} // verus!
