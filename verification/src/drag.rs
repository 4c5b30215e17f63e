//! Reordering windows by dragging their buttons: what a drag over a button
//! does, and the requests that move the dragged window's column.
use vstd::prelude::*;

use crate::clicks::IpcAction;
use crate::process::{all_digits, digits_value, is_digit};
use crate::text::chars_of;

verus! {

broadcast use vstd::string::group_string_axioms;

/// What a drag moving over a button does.
#[derive(PartialEq, Eq, Structural, Clone, Copy)]
pub enum DragMotion {
    /// Start the timer that focuses the window under the drag.
    StartHoverTimer,
    /// Move the dragged button to this position.
    MoveTo(i32),
    Nothing,
}

/// A drag from outside the list focuses the window under it after a delay,
/// when so configured and no timer runs yet; a drag of another button of
/// the list moves that button to this one's position.
pub fn drag_motion(
    is_external: bool,
    hover_focus: bool,
    timer_pending: bool,
    is_self: bool,
    source_pos: i32,
    target_pos: i32,
) -> (m: DragMotion)
    ensures
        m == if is_external {
            if hover_focus && !timer_pending {
                DragMotion::StartHoverTimer
            } else {
                DragMotion::Nothing
            }
        } else if !is_self && source_pos != target_pos {
            DragMotion::MoveTo(target_pos)
        } else {
            DragMotion::Nothing
        },
{
    if is_external {
        if hover_focus && !timer_pending {
            DragMotion::StartHoverTimer
        } else {
            DragMotion::Nothing
        }
    } else if !is_self && source_pos != target_pos {
        DragMotion::MoveTo(target_pos)
    } else {
        DragMotion::Nothing
    }
}

/// What `str::parse::<u64>` gives: an optional plus sign, then one or more
/// decimal digits, whose value fits.
pub open spec fn u64_of(s: Seq<char>) -> Option<u64> {
    let ds = if s.len() > 0 && s[0] == '+' {
        s.drop_first()
    } else {
        s
    };
    if ds.len() == 0 || !all_digits(ds) || digits_value(ds) > u64::MAX {
        None
    } else {
        Some(digits_value(ds) as u64)
    }
}

proof fn lemma_digits_prefix(s: Seq<char>, k: int)
    requires
        all_digits(s),
        0 <= k <= s.len(),
    ensures
        digits_value(s.take(k)) <= digits_value(s),
        digits_value(s.take(k)) >= 0,
    decreases s.len() - k,
{
    if k < s.len() {
        lemma_digits_prefix(s, k + 1);
        let t = s.take(k + 1);
        assert(t.drop_last() =~= s.take(k));
        assert(is_digit(s[k]));
    } else {
        assert(s.take(k) =~= s);
    }
    lemma_digits_nonneg(s.take(k));
}

proof fn lemma_digits_nonneg(s: Seq<char>)
    requires
        all_digits(s),
    ensures
        digits_value(s) >= 0,
    decreases s.len(),
{
    if s.len() > 0 {
        let d = s.drop_last();
        assert(all_digits(d)) by {
            assert forall|i: int| 0 <= i < d.len() implies is_digit(#[trigger] d[i]) by {
                assert(d[i] == s[i]);
            }
        }
        lemma_digits_nonneg(d);
        assert(is_digit(s[s.len() - 1]));
    }
}

/// Reads the dragged window's id from the drag data.
pub fn parse_window_id(text: &str) -> (r: Option<u64>)
    ensures
        r == u64_of(text@),
{
    let s = chars_of(text);
    let n = s.len();
    let start: usize = if n > 0 && s[0] == '+' { 1 } else { 0 };
    let ghost ds = if text@.len() > 0 && text@[0] == '+' {
        text@.drop_first()
    } else {
        text@
    };
    proof {
        assert(ds =~= s@.subrange(start as int, n as int));
        assert(ds.take(0) =~= Seq::<char>::empty());
    }
    if start == n {
        return None;
    }
    let mut acc: u128 = 0;
    let mut i: usize = start;
    while i < n
        invariant
            start <= i <= n,
            n == s@.len(),
            s@ == text@,
            ds == s@.subrange(start as int, n as int),
            ds == (if text@.len() > 0 && text@[0] == '+' {
                text@.drop_first()
            } else {
                text@
            }),
            forall|k: int| 0 <= k < i - start ==> is_digit(#[trigger] ds[k]),
            acc == digits_value(ds.take(i - start)),
            acc <= u64::MAX,
        decreases n - i,
    {
        let c = s[i];
        proof {
            assert(ds[i - start] == c);
        }
        if !('0' <= c && c <= '9') {
            proof {
                assert(!is_digit(ds[i - start]));
                assert(!all_digits(ds));
            }
            return None;
        }
        let d = (c as u32 - '0' as u32) as u128;
        proof {
            let t = ds.take(i - start + 1);
            assert(t.drop_last() =~= ds.take(i - start));
            assert(t.last() == c);
        }
        let next = acc * 10 + d;
        if next > 18446744073709551615 {
            proof {
                if all_digits(ds) {
                    lemma_digits_prefix(ds, i - start + 1);
                }
            }
            return None;
        }
        acc = next;
        i = i + 1;
    }
    proof {
        assert(ds.take(n - start) =~= ds);
        assert(all_digits(ds));
    }
    Some(acc as u64)
}

/// A window as the move of a column reads it.
pub struct WindowSummary {
    pub id: u64,
    pub is_focused: bool,
    pub pos: Option<(usize, usize)>,
}

/// The column index a column moves to: `column` (at most `i32::MAX`) moved
/// by `delta`, and at least the first.
pub open spec fn target_index_of(column: usize, delta: i32) -> int {
    let c: int = if column <= i32::MAX {
        column as int
    } else {
        i32::MAX as int
    };
    if c + delta < 1 {
        1
    } else {
        c + delta
    }
}

/// The sum the move computes fits an `i32`.
pub open spec fn column_fits(column: usize, delta: i32) -> bool {
    (if column <= i32::MAX {
        column as int
    } else {
        i32::MAX as int
    }) + delta <= i32::MAX
}

/// The index a column moves to.
pub fn target_column_index(column: usize, delta: i32) -> (r: usize)
    requires
        column_fits(column, delta),
    ensures
        r == target_index_of(column, delta),
{
    let c: i32 = if column <= 2147483647 {
        column as i32
    } else {
        2147483647
    };
    let sum = c + delta;
    if sum < 1 {
        1
    } else {
        sum as usize
    }
}

/// Where a move of a dragged window's column stands.
#[derive(PartialEq, Eq, Structural, Clone, Copy)]
pub enum RepositionPhase {
    ListWindows,
    FocusTarget,
    Expel,
    Relist,
    MoveColumn,
    Refocus,
    Finished,
}

/// What the caller does next for the move.
pub enum RepositionStep {
    /// Ask the compositor for its windows and hand them to `on_windows`.
    QueryWindows,
    /// Send the request; once handled, call `on_handled`. A request that
    /// fails ends the move with its error.
    Send(IpcAction),
    Done,
}

/// The move of a dragged window's column by `delta` columns, after which the
/// window focused before gets focus back. A stacked window leaves its column
/// first, unless the modifier keeps it stacked.
pub struct Reposition {
    pub window_id: u64,
    pub delta: i32,
    pub keep_stacked: bool,
    pub phase: RepositionPhase,
    pub original_focus: Option<u64>,
    pub column: usize,
    pub expel: bool,
}

/// The first focused window.
pub open spec fn focused_of(ws: Seq<WindowSummary>) -> Option<u64>
    decreases ws.len(),
{
    if ws.len() == 0 {
        None
    } else if ws[0].is_focused {
        Some(ws[0].id)
    } else {
        focused_of(ws.drop_first())
    }
}

/// The first window with id `id`.
pub open spec fn find_window(ws: Seq<WindowSummary>, id: u64) -> Option<WindowSummary>
    decreases ws.len(),
{
    if ws.len() == 0 {
        None
    } else if ws[0].id == id {
        Some(ws[0])
    } else {
        find_window(ws.drop_first(), id)
    }
}

/// Every listed column leaves room for the move.
pub open spec fn columns_fit(ws: Seq<WindowSummary>, delta: i32) -> bool {
    &&& column_fits(1, delta)
    &&& forall|i: int|
        0 <= i < ws.len() ==> ((#[trigger] ws[i]).pos matches Some(p) ==> column_fits(p.0, delta))
}

fn focused_of_exec(ws: &Vec<WindowSummary>) -> (r: Option<u64>)
    ensures
        r == focused_of(ws@),
{
    let mut i: usize = 0;
    proof {
        assert(ws@.subrange(0, ws@.len() as int) =~= ws@);
    }
    while i < ws.len()
        invariant
            i <= ws@.len(),
            focused_of(ws@) == focused_of(ws@.subrange(i as int, ws@.len() as int)),
        decreases ws@.len() - i,
    {
        proof {
            let rest = ws@.subrange(i as int, ws@.len() as int);
            assert(rest.drop_first() =~= ws@.subrange(i + 1, ws@.len() as int));
            assert(rest[0] == ws@[i as int]);
        }
        if ws[i].is_focused {
            return Some(ws[i].id);
        }
        i = i + 1;
    }
    None
}

fn find_window_exec(ws: &Vec<WindowSummary>, id: u64) -> (r: Option<usize>)
    ensures
        match r {
            Some(k) => k < ws@.len() && find_window(ws@, id) == Some(ws@[k as int]),
            None => find_window(ws@, id) is None,
        },
{
    let mut i: usize = 0;
    proof {
        assert(ws@.subrange(0, ws@.len() as int) =~= ws@);
    }
    while i < ws.len()
        invariant
            i <= ws@.len(),
            find_window(ws@, id) == find_window(ws@.subrange(i as int, ws@.len() as int), id),
        decreases ws@.len() - i,
    {
        proof {
            let rest = ws@.subrange(i as int, ws@.len() as int);
            assert(rest.drop_first() =~= ws@.subrange(i + 1, ws@.len() as int));
            assert(rest[0] == ws@[i as int]);
        }
        if ws[i].id == id {
            return Some(i);
        }
        i = i + 1;
    }
    None
}

fn column_fits_exec(column: usize, delta: i32) -> (b: bool)
    ensures
        b == column_fits(column, delta),
{
    let c: i64 = if column <= 2147483647 {
        column as i64
    } else {
        2147483647
    };
    c + (delta as i64) <= 2147483647
}

impl Reposition {
    /// Whether the move fits the compositor's columns: the target's column
    /// and every listed column, moved by the delta, stay within the range of
    /// column indices.
    pub fn windows_fit(&self, windows: &Vec<WindowSummary>) -> (b: bool)
        ensures
            b == (columns_fit(windows@, self.delta) && column_fits(self.column, self.delta)),
    {
        if !column_fits_exec(1, self.delta) || !column_fits_exec(self.column, self.delta) {
            return false;
        }
        let mut i: usize = 0;
        while i < windows.len()
            invariant
                i <= windows@.len(),
                forall|k: int|
                    0 <= k < i ==> ((#[trigger] windows@[k]).pos matches Some(p) ==> column_fits(p.0, self.delta)),
            decreases windows@.len() - i,
        {
            match windows[i].pos {
                Some(p) => {
                    if !column_fits_exec(p.0, self.delta) {
                        return false;
                    }
                },
                None => {},
            }
            i = i + 1;
        }
        true
    }

    /// Starts moving the column of `window_id` by `delta`; nothing to do when
    /// `delta` is zero.
    pub fn reposition_window(window_id: u64, delta: i32, keep_stacked: bool) -> (r: (
        Reposition,
        RepositionStep,
    ))
        ensures
            r.0.window_id == window_id && r.0.delta == delta && r.0.keep_stacked == keep_stacked,
            r.0.column == 1 && r.0.original_focus is None && !r.0.expel,
            delta == 0 ==> r.0.phase == RepositionPhase::Finished && r.1 is Done,
            delta != 0 ==> r.0.phase == RepositionPhase::ListWindows && r.1 is QueryWindows,
    {
        let finished = delta == 0;
        let r = Reposition {
            window_id,
            delta,
            keep_stacked,
            phase: if finished {
                RepositionPhase::Finished
            } else {
                RepositionPhase::ListWindows
            },
            original_focus: None,
            column: 1,
            expel: false,
        };
        (r, if finished {
            RepositionStep::Done
        } else {
            RepositionStep::QueryWindows
        })
    }

    /// Takes the compositor's windows. On the first list: remembers the
    /// focused window and the target's column (the first where it floats),
    /// and focuses the target, or ends where the target is gone. On the list
    /// after the target left its column: takes its new column and moves it.
    pub fn on_windows(&mut self, windows: &Vec<WindowSummary>) -> (step: RepositionStep)
        requires
            old(self).phase == RepositionPhase::ListWindows || old(self).phase
                == RepositionPhase::Relist,
            columns_fit(windows@, old(self).delta),
            column_fits(old(self).column, old(self).delta),
        ensures
            final(self).window_id == old(self).window_id,
            final(self).delta == old(self).delta,
            final(self).keep_stacked == old(self).keep_stacked,
            column_fits(final(self).column, final(self).delta),
            old(self).phase == RepositionPhase::ListWindows ==> match find_window(
                windows@,
                old(self).window_id,
            ) {
                None => final(self).phase == RepositionPhase::Finished && step is Done,
                Some(w) => {
                    let (col, tile) = match w.pos {
                        Some(p) => p,
                        None => (1usize, 1usize),
                    };
                    &&& final(self).phase == RepositionPhase::FocusTarget
                    &&& final(self).original_focus == focused_of(windows@)
                    &&& final(self).column == col
                    &&& final(self).expel == (tile > 1 && !old(self).keep_stacked)
                    &&& step matches RepositionStep::Send(a) && a == IpcAction::FocusWindow {
                        id: old(self).window_id,
                    }
                },
            },
            old(self).phase == RepositionPhase::Relist ==> {
                let col = match find_window(windows@, old(self).window_id) {
                    Some(w) => match w.pos {
                        Some(p) => p.0,
                        None => old(self).column,
                    },
                    None => old(self).column,
                };
                &&& final(self).phase == RepositionPhase::MoveColumn
                &&& final(self).column == col
                &&& final(self).original_focus == old(self).original_focus
                &&& step matches RepositionStep::Send(a) && a == IpcAction::MoveColumnToIndex {
                    index: target_index_of(col, old(self).delta) as usize,
                }
            },
    {
        let found = find_window_exec(windows, self.window_id);
        proof {
            if let Some(k) = found {
                assert(windows@[k as int].pos matches Some(p) ==> column_fits(p.0, self.delta));
            }
        }
        if self.phase == RepositionPhase::ListWindows {
            let focused = focused_of_exec(windows);
            match found {
                None => {
                    self.phase = RepositionPhase::Finished;
                    RepositionStep::Done
                },
                Some(k) => {
                    let (col, tile) = match windows[k].pos {
                        Some(p) => p,
                        None => (1usize, 1usize),
                    };
                    self.original_focus = focused;
                    self.column = col;
                    self.expel = tile > 1 && !self.keep_stacked;
                    self.phase = RepositionPhase::FocusTarget;
                    RepositionStep::Send(IpcAction::FocusWindow { id: self.window_id })
                },
            }
        } else {
            let col = match found {
                Some(k) => match windows[k].pos {
                    Some(p) => p.0,
                    None => self.column,
                },
                None => self.column,
            };
            self.column = col;
            self.phase = RepositionPhase::MoveColumn;
            let index = target_column_index(col, self.delta);
            RepositionStep::Send(IpcAction::MoveColumnToIndex { index })
        }
    }

    /// The request last sent was handled: the target is focused, so it
    /// leaves its column or its column moves; it left its column, so the
    /// windows are listed again; its column moved, so the window focused
    /// before, if another, gets focus back; that was the last step.
    pub fn on_handled(&mut self) -> (step: RepositionStep)
        requires
            old(self).phase == RepositionPhase::FocusTarget || old(self).phase
                == RepositionPhase::Expel || old(self).phase == RepositionPhase::MoveColumn
                || old(self).phase == RepositionPhase::Refocus,
            column_fits(old(self).column, old(self).delta),
        ensures
            final(self).window_id == old(self).window_id,
            final(self).delta == old(self).delta,
            final(self).keep_stacked == old(self).keep_stacked,
            final(self).column == old(self).column,
            final(self).original_focus == old(self).original_focus,
            old(self).phase == RepositionPhase::FocusTarget ==> if old(self).expel {
                final(self).phase == RepositionPhase::Expel && (step matches RepositionStep::Send(a)
                    && a == IpcAction::ExpelWindowFromColumn)
            } else {
                final(self).phase == RepositionPhase::MoveColumn && (step matches RepositionStep::Send(
                    a,
                ) && a == IpcAction::MoveColumnToIndex {
                    index: target_index_of(old(self).column, old(self).delta) as usize,
                })
            },
            old(self).phase == RepositionPhase::Expel ==> final(self).phase == RepositionPhase::Relist
                && step is QueryWindows,
            old(self).phase == RepositionPhase::MoveColumn ==> match old(self).original_focus {
                Some(o) => if o != old(self).window_id {
                    final(self).phase == RepositionPhase::Refocus && (step matches RepositionStep::Send(
                        a,
                    ) && a == IpcAction::FocusWindow { id: o })
                } else {
                    final(self).phase == RepositionPhase::Finished && step is Done
                },
                None => final(self).phase == RepositionPhase::Finished && step is Done,
            },
            old(self).phase == RepositionPhase::Refocus ==> final(self).phase
                == RepositionPhase::Finished && step is Done,
    {
        match self.phase {
            RepositionPhase::FocusTarget => {
                if self.expel {
                    self.phase = RepositionPhase::Expel;
                    RepositionStep::Send(IpcAction::ExpelWindowFromColumn)
                } else {
                    self.phase = RepositionPhase::MoveColumn;
                    let index = target_column_index(self.column, self.delta);
                    RepositionStep::Send(IpcAction::MoveColumnToIndex { index })
                }
            },
            RepositionPhase::Expel => {
                self.phase = RepositionPhase::Relist;
                RepositionStep::QueryWindows
            },
            RepositionPhase::MoveColumn => {
                match self.original_focus {
                    Some(o) => if o != self.window_id {
                        self.phase = RepositionPhase::Refocus;
                        RepositionStep::Send(IpcAction::FocusWindow { id: o })
                    } else {
                        self.phase = RepositionPhase::Finished;
                        RepositionStep::Done
                    },
                    None => {
                        self.phase = RepositionPhase::Finished;
                        RepositionStep::Done
                    },
                }
            },
            _ => {
                self.phase = RepositionPhase::Finished;
                RepositionStep::Done
            },
        }
    }
}

} // verus!
