//! The ordered list of windows that the window list shows, built from the
//! tracked compositor state.
use std::collections::BTreeMap;

use vstd::prelude::*;

use crate::keyed::{find_index, increasing, lookup};
use crate::windows::{copy_opt_string, Window, WindowInfo, Workspace};

verus! {

/// Column and tile of a window in the scrolling layout.
pub type Pos = (usize, usize);

/// The order in which snapshot windows are listed: workspace index, column,
/// tile, window id.
pub type SortKey = (u8, usize, usize, u64);

/// The workspace that the map from outputs to their active workspace holds
/// for `out`: built in order of workspace id, so the last active workspace on
/// that output wins.
pub open spec fn active_on_output(wss: Seq<Workspace>, out: Seq<char>) -> Option<u64>
    decreases wss.len(),
{
    if wss.len() == 0 {
        None
    } else if wss.last().is_active && wss.last().output.deep_view() == Some(out) {
        Some(wss.last().id)
    } else {
        active_on_output(wss.drop_last(), out)
    }
}

/// Whether windows of `ws` are listed: always, or, when only the current
/// workspace is listed, when `ws` is the active workspace of its output.
pub open spec fn shown(wss: Seq<Workspace>, ws: Workspace, only_current: bool) -> bool {
    !only_current || match ws.output {
        Some(o) => active_on_output(wss, o@) == Some(ws.id),
        None => false,
    }
}

/// The window paired with its workspace, when it is listed.
pub open spec fn pair_of(wss: Seq<Workspace>, w: Window, only_current: bool) -> Option<
    (Window, Workspace),
> {
    match w.workspace_id {
        Some(wid) => match lookup(wss, wid) {
            Some(ws) => if shown(wss, ws, only_current) {
                Some((w, ws))
            } else {
                None
            },
            None => None,
        },
        None => None,
    }
}

/// The listed windows with their workspaces, in order of window id.
pub open spec fn collect_pairs(windows: Seq<Window>, wss: Seq<Workspace>, only_current: bool) -> Seq<
    (Window, Workspace),
>
    decreases windows.len(),
{
    if windows.len() == 0 {
        Seq::empty()
    } else {
        let prev = collect_pairs(windows.drop_last(), wss, only_current);
        match pair_of(wss, windows.last(), only_current) {
            Some(p) => prev.push(p),
            None => prev,
        }
    }
}

/// The scrolling position of the first listed window with id `win`.
pub open spec fn pos_of_window(pairs: Seq<(Window, Workspace)>, win: u64) -> Option<Pos>
    decreases pairs.len(),
{
    if pairs.len() == 0 {
        None
    } else if pairs[0].0.id == win {
        pairs[0].0.layout.pos_in_scrolling_layout
    } else {
        pos_of_window(pairs.drop_first(), win)
    }
}

/// `a` comes no later than `b`, column first.
pub open spec fn pos_le(a: Pos, b: Pos) -> bool {
    a.0 < b.0 || (a.0 == b.0 && a.1 <= b.1)
}

/// The greatest scrolling position among the listed windows of workspace `ws`.
pub open spec fn max_pos(pairs: Seq<(Window, Workspace)>, ws: u64) -> Option<Pos>
    decreases pairs.len(),
{
    if pairs.len() == 0 {
        None
    } else {
        let prev = max_pos(pairs.drop_last(), ws);
        let p = pairs.last();
        if p.1.id == ws && p.0.layout.pos_in_scrolling_layout is Some {
            let q = p.0.layout.pos_in_scrolling_layout->0;
            match prev {
                Some(m) => if pos_le(m, q) {
                    Some(q)
                } else {
                    Some(m)
                },
                None => Some(q),
            }
        } else {
            prev
        }
    }
}

/// The position that floating windows of workspace `ws` are listed after:
/// that of the window last focused there, else the last scrolling position
/// there, else the start.
pub open spec fn anchor(pairs: Seq<(Window, Workspace)>, last_focused: Map<u64, u64>, ws: u64) -> Pos {
    let via = if last_focused.contains_key(ws) {
        pos_of_window(pairs, last_focused[ws])
    } else {
        None
    };
    match via {
        Some(p) => p,
        None => match max_pos(pairs, ws) {
            Some(m) => m,
            None => (0, 0),
        },
    }
}

/// The position a listed window is sorted by: its own, or right after the
/// anchor of its workspace when it floats.
pub open spec fn effective_pos(
    pairs: Seq<(Window, Workspace)>,
    last_focused: Map<u64, u64>,
    p: (Window, Workspace),
) -> Pos {
    match p.0.layout.pos_in_scrolling_layout {
        Some(q) => q,
        None => {
            let a = anchor(pairs, last_focused, p.1.id);
            (a.0, (a.1 + 1) as usize)
        },
    }
}

pub open spec fn key_of(
    pairs: Seq<(Window, Workspace)>,
    last_focused: Map<u64, u64>,
    p: (Window, Workspace),
) -> SortKey {
    let e = effective_pos(pairs, last_focused, p);
    (p.1.idx, e.0, e.1, p.0.id)
}

pub open spec fn keys_of(pairs: Seq<(Window, Workspace)>, last_focused: Map<u64, u64>) -> Seq<SortKey> {
    pairs.map_values(|p: (Window, Workspace)| key_of(pairs, last_focused, p))
}

/// Lexicographic order of sort keys.
pub open spec fn key_le(a: SortKey, b: SortKey) -> bool {
    ||| a.0 < b.0
    ||| a.0 == b.0 && a.1 < b.1
    ||| a.0 == b.0 && a.1 == b.1 && a.2 < b.2
    ||| a.0 == b.0 && a.1 == b.1 && a.2 == b.2 && a.3 <= b.3
}

/// `order` lists every index of `keys` once, in order of their keys.
pub open spec fn sorts(order: Seq<usize>, keys: Seq<SortKey>) -> bool {
    &&& order.len() == keys.len()
    &&& order.no_duplicates()
    &&& forall|k: int| 0 <= k < order.len() ==> order[k] < keys.len()
    &&& forall|a: int, b: int|
        0 <= a < b < order.len() ==> key_le(keys[order[a] as int], keys[order[b] as int])
}

/// The first active workspace, in order of id.
pub open spec fn first_active(wss: Seq<Workspace>) -> Option<u64>
    decreases wss.len(),
{
    if wss.len() == 0 {
        None
    } else if wss[0].is_active {
        Some(wss[0].id)
    } else {
        first_active(wss.drop_first())
    }
}

/// The first listed window of workspace `ws`.
pub open spec fn first_in(sorted: Seq<(Window, Workspace)>, ws: u64) -> Option<u64>
    decreases sorted.len(),
{
    if sorted.len() == 0 {
        None
    } else if sorted[0].1.id == ws {
        Some(sorted[0].0.id)
    } else {
        first_in(sorted.drop_first(), ws)
    }
}

pub open spec fn map_get(m: Map<u64, u64>, k: u64) -> Option<u64> {
    if m.contains_key(k) {
        Some(m[k])
    } else {
        None
    }
}

/// The window shown as focused when no listed window has focus: the one the
/// overview marks active on the active workspace, else the one last focused
/// there, else the first listed window there.
pub open spec fn highlight(
    sorted: Seq<(Window, Workspace)>,
    wss: Seq<Workspace>,
    active_per_workspace: Map<u64, u64>,
    last_focused: Map<u64, u64>,
) -> Option<u64> {
    let aw = first_active(wss);
    let overview = match aw {
        Some(a) => map_get(active_per_workspace, a),
        None => None,
    };
    let has_focused = exists|k: int| 0 <= k < sorted.len() && #[trigger] sorted[k].0.is_focused;
    if has_focused {
        None
    } else if overview is Some {
        overview
    } else {
        match aw {
            Some(a) => if last_focused.contains_key(a) {
                Some(last_focused[a])
            } else {
                first_in(sorted, a)
            },
            None => None,
        }
    }
}

/// A listed window as the snapshot shows it.
pub open spec fn shown_window(p: (Window, Workspace), hl: Option<u64>) -> WindowInfo {
    WindowInfo {
        inner: Window { is_focused: p.0.is_focused || hl == Some(p.0.id), ..p.0 },
        output_name: p.1.output,
    }
}

pub open spec fn sorted_pairs(pairs: Seq<(Window, Workspace)>, order: Seq<usize>) -> Seq<
    (Window, Workspace),
> {
    order.map_values(|i: usize| pairs[i as int])
}

pub open spec fn decorate(
    sorted: Seq<(Window, Workspace)>,
    wss: Seq<Workspace>,
    active_per_workspace: Map<u64, u64>,
    last_focused: Map<u64, u64>,
) -> Seq<WindowInfo> {
    let hl = highlight(sorted, wss, active_per_workspace, last_focused);
    sorted.map_values(|p: (Window, Workspace)| shown_window(p, hl))
}

/// `r` is the snapshot of the given state: the listed windows in sort order,
/// each with its output, and the highlighted one marked focused.
pub open spec fn is_snapshot(
    r: Seq<WindowInfo>,
    windows: Seq<Window>,
    wss: Seq<Workspace>,
    active_per_workspace: Map<u64, u64>,
    last_focused: Map<u64, u64>,
    only_current: bool,
) -> bool {
    let pairs = collect_pairs(windows, wss, only_current);
    exists|order: Seq<usize>|
        #![trigger sorts(order, keys_of(pairs, last_focused))]
        sorts(order, keys_of(pairs, last_focused)) && r == decorate(
            sorted_pairs(pairs, order),
            wss,
            active_per_workspace,
            last_focused,
        )
}

/// Every window's tile index leaves room for the next one.
pub open spec fn windows_wf(windows: Seq<Window>) -> bool {
    forall|i: int| 0 <= i < windows.len() ==> #[trigger] windows[i].wf()
}

fn active_on_output_exec(wss: &Vec<Workspace>, out: &String) -> (r: Option<u64>)
    ensures
        r == active_on_output(wss@, out@),
{
    let mut acc: Option<u64> = None;
    let mut i: usize = 0;
    while i < wss.len()
        invariant
            i <= wss.len(),
            acc == active_on_output(wss@.take(i as int), out@),
        decreases wss.len() - i,
    {
        proof {
            assert(wss@.take(i + 1).drop_last() =~= wss@.take(i as int));
            assert(wss@.take(i + 1).last() == wss@[i as int]);
        }
        let ws = &wss[i];
        if ws.is_active {
            let same = match &ws.output {
                Some(o) => o.eq(out),
                None => false,
            };
            if same {
                acc = Some(ws.id);
            }
        }
        i = i + 1;
    }
    proof {
        assert(wss@.take(wss.len() as int) =~= wss@);
    }
    acc
}

fn shown_exec(wss: &Vec<Workspace>, ws: &Workspace, only_current: bool) -> (r: bool)
    ensures
        r == shown(wss@, *ws, only_current),
{
    if !only_current {
        return true;
    }
    match &ws.output {
        Some(o) => active_on_output_exec(wss, o) == Some(ws.id),
        None => false,
    }
}

/// Pairs each listed window with its workspace, in order of window id.
pub fn collect_window_pairs(windows: &Vec<Window>, wss: &Vec<Workspace>, only_current: bool) -> (r: Vec<
    (Window, Workspace),
>)
    requires
        increasing(wss@),
    ensures
        r@ == collect_pairs(windows@, wss@, only_current),
{
    let mut out: Vec<(Window, Workspace)> = Vec::new();
    let mut i: usize = 0;
    while i < windows.len()
        invariant
            i <= windows.len(),
            increasing(wss@),
            out@ == collect_pairs(windows@.take(i as int), wss@, only_current),
        decreases windows.len() - i,
    {
        proof {
            assert(windows@.take(i + 1).drop_last() =~= windows@.take(i as int));
            assert(windows@.take(i + 1).last() == windows@[i as int]);
        }
        let w = &windows[i];
        if let Some(wid) = w.workspace_id {
            if let Some(j) = find_index(wss, wid) {
                let ws = &wss[j];
                if shown_exec(wss, ws, only_current) {
                    out.push((w.duplicate(), ws.duplicate()));
                }
            }
        }
        i = i + 1;
    }
    proof {
        assert(windows@.take(windows.len() as int) =~= windows@);
    }
    out
}

proof fn lemma_collect_pairs_wf(windows: Seq<Window>, wss: Seq<Workspace>, only_current: bool)
    requires
        windows_wf(windows),
    ensures
        forall|k: int|
            0 <= k < collect_pairs(windows, wss, only_current).len()
                ==> #[trigger] collect_pairs(windows, wss, only_current)[k].0.wf(),
    decreases windows.len(),
{
    if windows.len() > 0 {
        let d = windows.drop_last();
        assert(windows_wf(d)) by {
            assert forall|i: int| 0 <= i < d.len() implies #[trigger] d[i].wf() by {
                assert(d[i] == windows[i]);
            }
        }
        lemma_collect_pairs_wf(d, wss, only_current);
        assert(windows.last().wf()) by {
            assert(windows[windows.len() - 1].wf());
        }
        let prev = collect_pairs(d, wss, only_current);
        let c = collect_pairs(windows, wss, only_current);
        assert forall|k: int| 0 <= k < c.len() implies #[trigger] c[k].0.wf() by {
            if k < prev.len() {
                assert(c[k] == prev[k]);
            } else {
                assert(c[k].0 == windows.last());
            }
        }
    }
}

pub open spec fn pairs_wf(pairs: Seq<(Window, Workspace)>) -> bool {
    forall|k: int| 0 <= k < pairs.len() ==> #[trigger] pairs[k].0.wf()
}

proof fn lemma_pos_of_window_wf(pairs: Seq<(Window, Workspace)>, win: u64)
    requires
        pairs_wf(pairs),
    ensures
        pos_of_window(pairs, win) matches Some(q) ==> q.1 < usize::MAX,
    decreases pairs.len(),
{
    if pairs.len() > 0 {
        assert(pairs[0].0.wf());
        let t = pairs.drop_first();
        assert(pairs_wf(t)) by {
            assert forall|k: int| 0 <= k < t.len() implies #[trigger] t[k].0.wf() by {
                assert(t[k] == pairs[k + 1]);
            }
        }
        lemma_pos_of_window_wf(t, win);
    }
}

proof fn lemma_max_pos_wf(pairs: Seq<(Window, Workspace)>, ws: u64)
    requires
        pairs_wf(pairs),
    ensures
        max_pos(pairs, ws) matches Some(q) ==> q.1 < usize::MAX,
    decreases pairs.len(),
{
    if pairs.len() > 0 {
        let d = pairs.drop_last();
        assert(pairs_wf(d)) by {
            assert forall|k: int| 0 <= k < d.len() implies #[trigger] d[k].0.wf() by {
                assert(d[k] == pairs[k]);
            }
        }
        lemma_max_pos_wf(d, ws);
        assert(pairs[pairs.len() - 1].0.wf());
    }
}

fn pos_of_window_exec(pairs: &Vec<(Window, Workspace)>, win: u64) -> (r: Option<Pos>)
    ensures
        r == pos_of_window(pairs@, win),
{
    let mut i: usize = 0;
    proof {
        assert(pairs@.subrange(0, pairs@.len() as int) =~= pairs@);
    }
    while i < pairs.len()
        invariant
            i <= pairs.len(),
            pos_of_window(pairs@, win) == pos_of_window(pairs@.subrange(i as int, pairs@.len() as int), win),
        decreases pairs.len() - i,
    {
        proof {
            let s = pairs@.subrange(i as int, pairs@.len() as int);
            assert(s.drop_first() =~= pairs@.subrange(i + 1, pairs@.len() as int));
            assert(s[0] == pairs@[i as int]);
        }
        if pairs[i].0.id == win {
            return pairs[i].0.layout.pos_in_scrolling_layout;
        }
        i = i + 1;
    }
    proof {
        assert(pairs@.subrange(i as int, pairs@.len() as int).len() == 0);
    }
    None
}

fn max_pos_exec(pairs: &Vec<(Window, Workspace)>, ws: u64) -> (r: Option<Pos>)
    ensures
        r == max_pos(pairs@, ws),
{
    let mut acc: Option<Pos> = None;
    let mut i: usize = 0;
    while i < pairs.len()
        invariant
            i <= pairs.len(),
            acc == max_pos(pairs@.take(i as int), ws),
        decreases pairs.len() - i,
    {
        proof {
            assert(pairs@.take(i + 1).drop_last() =~= pairs@.take(i as int));
            assert(pairs@.take(i + 1).last() == pairs@[i as int]);
        }
        let p = &pairs[i];
        if p.1.id == ws {
            if let Some(q) = p.0.layout.pos_in_scrolling_layout {
                acc = match acc {
                    Some(m) => if m.0 < q.0 || (m.0 == q.0 && m.1 <= q.1) {
                        Some(q)
                    } else {
                        Some(m)
                    },
                    None => Some(q),
                };
            }
        }
        i = i + 1;
    }
    proof {
        assert(pairs@.take(pairs.len() as int) =~= pairs@);
    }
    acc
}

fn anchor_exec(pairs: &Vec<(Window, Workspace)>, last_focused: &BTreeMap<u64, u64>, ws: u64) -> (r: Pos)
    requires
        pairs_wf(pairs@),
    ensures
        r == anchor(pairs@, last_focused@, ws),
        r.1 < usize::MAX,
{
    proof {
        lemma_max_pos_wf(pairs@, ws);
    }
    let via = match last_focused.get(&ws) {
        Some(win) => {
            proof {
                lemma_pos_of_window_wf(pairs@, *win);
            }
            pos_of_window_exec(pairs, *win)
        },
        None => None,
    };
    match via {
        Some(p) => p,
        None => match max_pos_exec(pairs, ws) {
            Some(m) => m,
            None => (0, 0),
        },
    }
}

fn key_le_exec(a: SortKey, b: SortKey) -> (r: bool)
    ensures
        r == key_le(a, b),
{
    a.0 < b.0 || (a.0 == b.0 && a.1 < b.1) || (a.0 == b.0 && a.1 == b.1 && a.2 < b.2) || (a.0 == b.0
        && a.1 == b.1 && a.2 == b.2 && a.3 <= b.3)
}

fn sort_keys(pairs: &Vec<(Window, Workspace)>, last_focused: &BTreeMap<u64, u64>) -> (r: Vec<SortKey>)
    requires
        pairs_wf(pairs@),
    ensures
        r@ == keys_of(pairs@, last_focused@),
{
    let mut keys: Vec<SortKey> = Vec::new();
    let mut i: usize = 0;
    while i < pairs.len()
        invariant
            i <= pairs.len(),
            pairs_wf(pairs@),
            keys@.len() == i,
            forall|k: int| 0 <= k < i ==> keys@[k] == #[trigger] key_of(pairs@, last_focused@, pairs@[k]),
        decreases pairs.len() - i,
    {
        let p = &pairs[i];
        let e = match p.0.layout.pos_in_scrolling_layout {
            Some(q) => q,
            None => {
                let a = anchor_exec(pairs, last_focused, p.1.id);
                (a.0, a.1 + 1)
            },
        };
        keys.push((p.1.idx, e.0, e.1, p.0.id));
        i = i + 1;
    }
    proof {
        assert(keys@ =~= keys_of(pairs@, last_focused@));
    }
    keys
}

/// The indices of `keys` in order of their keys, equal keys keeping their
/// order.
fn sort_order(keys: &Vec<SortKey>) -> (order: Vec<usize>)
    ensures
        sorts(order@, keys@),
{
    let mut order: Vec<usize> = Vec::new();
    let mut i: usize = 0;
    while i < keys.len()
        invariant
            i <= keys.len(),
            order@.len() == i,
            order@.no_duplicates(),
            forall|k: int| 0 <= k < order@.len() ==> order@[k] < i,
            forall|a: int, b: int|
                0 <= a < b < order@.len() ==> key_le(keys@[order@[a] as int], keys@[order@[b] as int]),
        decreases keys.len() - i,
    {
        let ki = keys[i];
        let mut j: usize = 0;
        while j < order.len()
            invariant
                j <= order@.len(),
                order@.len() == i,
                i < keys.len(),
                ki == keys@[i as int],
                forall|k: int| 0 <= k < order@.len() ==> order@[k] < i,
                forall|k: int| 0 <= k < j ==> key_le(keys@[order@[k] as int], ki),
            ensures
                j <= order@.len(),
                forall|k: int| 0 <= k < j ==> key_le(keys@[order@[k] as int], ki),
                j < order@.len() ==> !key_le(keys@[order@[j as int] as int], ki),
            decreases order@.len() - j,
        {
            if !key_le_exec(keys[order[j]], ki) {
                break;
            }
            j = j + 1;
        }
        let ghost old_order = order@;
        proof {
            assert(j < old_order.len() ==> !key_le(keys@[old_order[j as int] as int], ki));
        }
        order.insert(j, i);
        proof {
            let o = order@;
            assert(o =~= old_order.insert(j as int, i));
            assert forall|k: int| 0 <= k < o.len() implies o[k] < i + 1 by {
                if k < j {
                    assert(o[k] == old_order[k]);
                } else if k > j {
                    assert(o[k] == old_order[k - 1]);
                }
            }
            assert forall|x: int, y: int| 0 <= x < y < o.len() implies o[x] != o[y] by {
                if x < j && y > j {
                    assert(o[x] == old_order[x]);
                    assert(o[y] == old_order[y - 1]);
                } else if x < j && y < j {
                    assert(o[x] == old_order[x]);
                    assert(o[y] == old_order[y]);
                } else if x > j {
                    assert(o[x] == old_order[x - 1]);
                    assert(o[y] == old_order[y - 1]);
                } else if x == j {
                    assert(o[y] == old_order[y - 1]);
                } else {
                    assert(o[x] == old_order[x]);
                }
            }
            assert forall|x: int, y: int| 0 <= x < y < o.len() implies key_le(
                keys@[o[x] as int],
                keys@[o[y] as int],
            ) by {
                if x < j && y < j {
                    assert(o[x] == old_order[x]);
                    assert(o[y] == old_order[y]);
                } else if x < j && y == j {
                    assert(o[x] == old_order[x]);
                } else if x < j {
                    assert(o[x] == old_order[x]);
                    assert(o[y] == old_order[y - 1]);
                } else if x == j {
                    assert(o[y] == old_order[y - 1]);
                    assert(old_order[j as int] == o[j + 1]);
                    assert(!key_le(keys@[old_order[j as int] as int], ki));
                    if y > j + 1 {
                        assert(key_le(keys@[old_order[j as int] as int], keys@[old_order[y - 1] as int]));
                    }
                } else {
                    assert(o[x] == old_order[x - 1]);
                    assert(o[y] == old_order[y - 1]);
                }
            }
        }
        i = i + 1;
    }
    order
}

fn first_active_exec(wss: &Vec<Workspace>) -> (r: Option<u64>)
    ensures
        r == first_active(wss@),
{
    let mut i: usize = 0;
    proof {
        assert(wss@.subrange(0, wss@.len() as int) =~= wss@);
    }
    while i < wss.len()
        invariant
            i <= wss.len(),
            first_active(wss@) == first_active(wss@.subrange(i as int, wss@.len() as int)),
        decreases wss.len() - i,
    {
        proof {
            let s = wss@.subrange(i as int, wss@.len() as int);
            assert(s.drop_first() =~= wss@.subrange(i + 1, wss@.len() as int));
        }
        if wss[i].is_active {
            return Some(wss[i].id);
        }
        i = i + 1;
    }
    None
}

/// Builds the snapshot of the tracked state.
pub fn generate_snapshot(
    windows: &Vec<Window>,
    workspaces: &Vec<Workspace>,
    active_per_workspace: &BTreeMap<u64, u64>,
    last_focused_per_workspace: &BTreeMap<u64, u64>,
    only_current: bool,
) -> (r: Vec<WindowInfo>)
    requires
        increasing(workspaces@),
        windows_wf(windows@),
    ensures
        is_snapshot(
            r@,
            windows@,
            workspaces@,
            active_per_workspace@,
            last_focused_per_workspace@,
            only_current,
        ),
{
    let pairs = collect_window_pairs(windows, workspaces, only_current);
    proof {
        lemma_collect_pairs_wf(windows@, workspaces@, only_current);
    }
    let keys = sort_keys(&pairs, last_focused_per_workspace);
    let order = sort_order(&keys);
    let ghost sorted = sorted_pairs(pairs@, order@);
    let aw = first_active_exec(workspaces);
    let overview: Option<u64> = match aw {
        Some(a) => match active_per_workspace.get(&a) {
            Some(w) => Some(*w),
            None => None,
        },
        None => None,
    };
    let mut has_focused = false;
    let mut k: usize = 0;
    while k < order.len()
        invariant
            k <= order@.len(),
            sorts(order@, keys@),
            keys@.len() == pairs@.len(),
            sorted == sorted_pairs(pairs@, order@),
            has_focused == exists|m: int| 0 <= m < k && #[trigger] sorted[m].0.is_focused,
        decreases order@.len() - k,
    {
        if pairs[order[k]].0.is_focused {
            has_focused = true;
        }
        proof {
            if has_focused {
                if pairs@[order@[k as int] as int].0.is_focused {
                    assert(sorted[k as int].0.is_focused);
                }
            }
        }
        k = k + 1;
    }
    let hl: Option<u64> = if has_focused {
        None
    } else if overview.is_some() {
        overview
    } else {
        match aw {
            Some(a) => match last_focused_per_workspace.get(&a) {
                Some(w) => Some(*w),
                None => {
                    let mut found: Option<u64> = None;
                    let mut m: usize = 0;
                    proof {
                        assert(sorted.subrange(0, sorted.len() as int) =~= sorted);
                    }
                    while m < order.len()
                        invariant_except_break
                            found is None,
                        invariant
                            m <= order@.len(),
                            sorts(order@, keys@),
                            keys@.len() == pairs@.len(),
                            sorted == sorted_pairs(pairs@, order@),
                            first_in(sorted, a) == first_in(sorted.subrange(m as int, sorted.len() as int), a),
                        ensures
                            found == first_in(sorted, a),
                        decreases order@.len() - m,
                    {
                        proof {
                            let s = sorted.subrange(m as int, sorted.len() as int);
                            assert(s.drop_first() =~= sorted.subrange(m + 1, sorted.len() as int));
                            assert(s[0] == pairs@[order@[m as int] as int]);
                        }
                        if pairs[order[m]].1.id == a {
                            found = Some(pairs[order[m]].0.id);
                            break;
                        }
                        m = m + 1;
                        proof {
                            if m == order@.len() {
                                assert(sorted.subrange(m as int, sorted.len() as int).len() == 0);
                            }
                        }
                    }
                    found
                },
            },
            None => None,
        }
    };
    proof {
        assert(hl == highlight(sorted, workspaces@, active_per_workspace@, last_focused_per_workspace@));
    }
    let mut out: Vec<WindowInfo> = Vec::new();
    let mut n: usize = 0;
    while n < order.len()
        invariant
            n <= order@.len(),
            sorts(order@, keys@),
            keys@.len() == pairs@.len(),
            sorted == sorted_pairs(pairs@, order@),
            out@ == sorted.take(n as int).map_values(|p: (Window, Workspace)| shown_window(p, hl)),
        decreases order@.len() - n,
    {
        let p = &pairs[order[n]];
        let mut w = p.0.duplicate();
        w.is_focused = p.0.is_focused || hl == Some(p.0.id);
        out.push(WindowInfo { inner: w, output_name: copy_opt_string(&p.1.output) });
        proof {
            assert(sorted.take(n + 1) =~= sorted.take(n as int).push(sorted[n as int]));
            assert(out@ =~= sorted.take(n + 1).map_values(|p: (Window, Workspace)| shown_window(p, hl)));
        }
        n = n + 1;
    }
    proof {
        assert(sorted.take(order@.len() as int) =~= sorted);
        assert(out@ == decorate(sorted, workspaces@, active_per_workspace@, last_focused_per_workspace@));
    }
    out
}


/// Each listed pair is a tracked window with the workspace that lists it, and
/// the pairs follow the order of the windows.
proof fn lemma_collect_pairs_from(windows: Seq<Window>, wss: Seq<Workspace>, only_current: bool)
    ensures
        ({
            let pairs = collect_pairs(windows, wss, only_current);
            &&& forall|j: int|
                0 <= j < pairs.len() ==> exists|i: int|
                    0 <= i < windows.len() && pair_of(wss, windows[i], only_current) == Some(
                        #[trigger] pairs[j],
                    )
            &&& increasing(windows) ==> forall|a: int, b: int|
                0 <= a < b < pairs.len() ==> (#[trigger] pairs[a]).0.id < (#[trigger] pairs[b]).0.id
        }),
    decreases windows.len(),
{
    if windows.len() > 0 {
        let d = windows.drop_last();
        lemma_collect_pairs_from(d, wss, only_current);
        let prev = collect_pairs(d, wss, only_current);
        let pairs = collect_pairs(windows, wss, only_current);
        assert forall|j: int| 0 <= j < pairs.len() implies exists|i: int|
            0 <= i < windows.len() && pair_of(wss, windows[i], only_current) == Some(
                #[trigger] pairs[j],
            ) by {
            if j < prev.len() {
                assert(pairs[j] == prev[j]);
                let i = choose|i: int|
                    0 <= i < d.len() && pair_of(wss, d[i], only_current) == Some(prev[j]);
                assert(windows[i] == d[i]);
            } else {
                assert(pair_of(wss, windows[windows.len() - 1], only_current) == Some(pairs[j]));
            }
        }
        if increasing(windows) {
            assert(increasing(d));
            assert forall|a: int, b: int| 0 <= a < b < pairs.len() implies (#[trigger] pairs[a]).0.id
                < (#[trigger] pairs[b]).0.id by {
                if b < prev.len() {
                    assert(pairs[a] == prev[a]);
                    assert(pairs[b] == prev[b]);
                } else {
                    assert(pairs[a] == prev[a]);
                    let i = choose|i: int|
                        0 <= i < d.len() && pair_of(wss, d[i], only_current) == Some(prev[a]);
                    assert(windows[i] == d[i]);
                    assert(pairs[b].0 == windows[windows.len() - 1]);
                }
            }
        }
    }
}

/// A snapshot lists each tracked window at most once, and only windows on a
/// workspace whose windows are listed.
pub proof fn law_snapshot_lists_tracked_windows(
    r: Seq<WindowInfo>,
    windows: Seq<Window>,
    wss: Seq<Workspace>,
    active_per_workspace: Map<u64, u64>,
    last_focused: Map<u64, u64>,
    only_current: bool,
)
    requires
        increasing(windows),
        is_snapshot(r, windows, wss, active_per_workspace, last_focused, only_current),
    ensures
        r.len() == collect_pairs(windows, wss, only_current).len(),
        forall|k: int|
            0 <= k < r.len() ==> exists|i: int|
                0 <= i < windows.len() && windows[i].id == (#[trigger] r[k]).inner.id && pair_of(
                    wss,
                    windows[i],
                    only_current,
                ) is Some,
        forall|a: int, b: int|
            0 <= a < b < r.len() ==> (#[trigger] r[a]).inner.id != (#[trigger] r[b]).inner.id,
{
    let pairs = collect_pairs(windows, wss, only_current);
    let keys = keys_of(pairs, last_focused);
    let order = choose|order: Seq<usize>| #[trigger]
        sorts(order, keys) && r == decorate(
            sorted_pairs(pairs, order),
            wss,
            active_per_workspace,
            last_focused,
        );
    lemma_collect_pairs_from(windows, wss, only_current);
    let sorted = sorted_pairs(pairs, order);
    assert forall|k: int| 0 <= k < r.len() implies exists|i: int|
        0 <= i < windows.len() && windows[i].id == (#[trigger] r[k]).inner.id && pair_of(
            wss,
            windows[i],
            only_current,
        ) is Some by {
        let j = order[k] as int;
        assert(r[k].inner.id == pairs[j].0.id);
        let i = choose|i: int|
            0 <= i < windows.len() && pair_of(wss, windows[i], only_current) == Some(pairs[j]);
    }
    assert forall|a: int, b: int| 0 <= a < b < r.len() implies (#[trigger] r[a]).inner.id
        != (#[trigger] r[b]).inner.id by {
        let ja = order[a] as int;
        let jb = order[b] as int;
        assert(order[a] != order[b]);
        assert(r[a].inner.id == pairs[ja].0.id);
        assert(r[b].inner.id == pairs[jb].0.id);
        if ja < jb {
            assert(pairs[ja].0.id < pairs[jb].0.id);
        } else {
            assert(pairs[jb].0.id < pairs[ja].0.id);
        }
    }
}

/// Whether a window with id `x` is listed: it is tracked and its workspace's
/// windows are listed.
pub open spec fn listed(windows: Seq<Window>, wss: Seq<Workspace>, only_current: bool, x: u64) -> bool {
    exists|i: int| 0 <= i < windows.len() && windows[i].id == x && pair_of(wss, windows[i], only_current) is Some
}

/// Every listed window has its pair in `collect_pairs`.
proof fn lemma_collect_pairs_to(windows: Seq<Window>, wss: Seq<Workspace>, only_current: bool, i: int)
    requires
        0 <= i < windows.len(),
        pair_of(wss, windows[i], only_current) is Some,
    ensures
        exists|j: int|
            0 <= j < collect_pairs(windows, wss, only_current).len() && Some(
                #[trigger] collect_pairs(windows, wss, only_current)[j],
            ) == pair_of(wss, windows[i], only_current),
    decreases windows.len(),
{
    let pairs = collect_pairs(windows, wss, only_current);
    if i == windows.len() - 1 {
        assert(pairs[pairs.len() - 1] == pair_of(wss, windows[i], only_current)->0);
    } else {
        let d = windows.drop_last();
        assert(d[i] == windows[i]);
        lemma_collect_pairs_to(d, wss, only_current, i);
        let prev = collect_pairs(d, wss, only_current);
        let j = choose|j: int| 0 <= j < prev.len() && Some(#[trigger] prev[j]) == pair_of(wss, d[i], only_current);
        assert(pairs[j] == prev[j]);
    }
}

/// An order that lists each index below `n` at most once, `n` times, lists
/// every index below `n`.
proof fn lemma_order_covers(order: Seq<usize>, n: int, j: int)
    requires
        order.len() == n,
        order.no_duplicates(),
        forall|k: int| 0 <= k < n ==> order[k] < n,
        0 <= j < n,
    ensures
        exists|k: int| 0 <= k < n && order[k] == j,
{
    let m = order.map_values(|u: usize| u as int);
    assert forall|a: int, b: int| 0 <= a < m.len() && 0 <= b < m.len() && a != b implies m[a] != m[b] by {
        assert(order[a] != order[b]);
    }
    assert(m.no_duplicates());
    m.unique_seq_to_set();
    let range = vstd::set_lib::set_int_range(0, n);
    vstd::set_lib::lemma_int_range(0, n);
    assert forall|x: int| m.to_set().contains(x) implies range.contains(x) by {
        let k = choose|k: int| 0 <= k < m.len() && m[k] == x;
        assert(order[k] < n);
    }
    vstd::seq_lib::seq_to_set_is_finite(m);
    vstd::set_lib::lemma_subset_equality(m.to_set(), range);
    assert(range.contains(j));
    assert(m.to_set().contains(j));
    let k = choose|k: int| 0 <= k < m.len() && m[k] == j;
    assert(order[k] == j);
}

/// A snapshot holds a window with id `x` exactly when that window is
/// listed.
pub proof fn lemma_snapshot_ids(
    r: Seq<WindowInfo>,
    windows: Seq<Window>,
    wss: Seq<Workspace>,
    active_per_workspace: Map<u64, u64>,
    last_focused: Map<u64, u64>,
    only_current: bool,
    x: u64,
)
    requires
        is_snapshot(r, windows, wss, active_per_workspace, last_focused, only_current),
    ensures
        (exists|k: int| 0 <= k < r.len() && (#[trigger] r[k]).inner.id == x) <==> listed(
            windows,
            wss,
            only_current,
            x,
        ),
{
    let pairs = collect_pairs(windows, wss, only_current);
    let keys = keys_of(pairs, last_focused);
    let order = choose|order: Seq<usize>| #[trigger]
        sorts(order, keys) && r == decorate(
            sorted_pairs(pairs, order),
            wss,
            active_per_workspace,
            last_focused,
        );
    lemma_collect_pairs_from(windows, wss, only_current);
    if exists|k: int| 0 <= k < r.len() && (#[trigger] r[k]).inner.id == x {
        let k = choose|k: int| 0 <= k < r.len() && (#[trigger] r[k]).inner.id == x;
        let j = order[k] as int;
        assert(r[k].inner.id == pairs[j].0.id);
        let i = choose|i: int|
            0 <= i < windows.len() && pair_of(wss, windows[i], only_current) == Some(pairs[j]);
        assert(windows[i].id == x);
    }
    if listed(windows, wss, only_current, x) {
        let i = choose|i: int|
            0 <= i < windows.len() && windows[i].id == x && pair_of(wss, windows[i], only_current) is Some;
        lemma_collect_pairs_to(windows, wss, only_current, i);
        let j = choose|j: int| 0 <= j < pairs.len() && Some(#[trigger] pairs[j]) == pair_of(wss, windows[i], only_current);
        lemma_order_covers(order, pairs.len() as int, j);
        let k = choose|k: int| 0 <= k < pairs.len() && order[k] == j;
        assert(r[k].inner.id == pairs[j].0.id);
        assert(r[k].inner.id == x);
    }
}

} // verus!
