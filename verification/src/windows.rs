//! The compositor's windows and workspaces, as the window list reads them.
use vstd::prelude::*;

use crate::keyed::Keyed;

verus! {

/// Where a window sits in the scrolling layout: its column and its tile
/// within the column, both counted from one. Floating windows have none.
pub struct WindowLayout {
    pub pos_in_scrolling_layout: Option<(usize, usize)>,
}

/// A window as the compositor reports it.
pub struct Window {
    pub id: u64,
    pub title: Option<String>,
    pub app_id: Option<String>,
    pub pid: Option<i32>,
    pub workspace_id: Option<u64>,
    pub is_focused: bool,
    pub is_urgent: bool,
    pub layout: WindowLayout,
}

/// A workspace as the compositor reports it.
pub struct Workspace {
    pub id: u64,
    pub idx: u8,
    pub name: Option<String>,
    pub output: Option<String>,
    pub is_active: bool,
}

/// A window of a snapshot, with the name of the output its workspace is on.
pub struct WindowInfo {
    pub inner: Window,
    pub output_name: Option<String>,
}

/// An exact copy of an optional string.
pub fn copy_opt_string(s: &Option<String>) -> (r: Option<String>)
    ensures
        r == *s,
{
    match s {
        Some(t) => Some(t.clone()),
        None => None,
    }
}

/// Whether two optional strings hold the same text.
pub fn opt_string_eq(a: &Option<String>, b: &Option<String>) -> (r: bool)
    ensures
        r == (a.deep_view() == b.deep_view()),
{
    match a {
        Some(x) => match b {
            Some(y) => {
                let r = x.eq(y);
                proof {
                    assert(a.deep_view() == Some(x@));
                    assert(b.deep_view() == Some(y@));
                }
                r
            },
            None => false,
        },
        None => b.is_none(),
    }
}

impl WindowLayout {
    pub fn duplicate(&self) -> (r: WindowLayout)
        ensures
            r == *self,
    {
        WindowLayout { pos_in_scrolling_layout: self.pos_in_scrolling_layout }
    }
}

impl Window {
    pub fn duplicate(&self) -> (r: Window)
        ensures
            r == *self,
    {
        Window {
            id: self.id,
            title: copy_opt_string(&self.title),
            app_id: copy_opt_string(&self.app_id),
            pid: self.pid,
            workspace_id: self.workspace_id,
            is_focused: self.is_focused,
            is_urgent: self.is_urgent,
            layout: self.layout.duplicate(),
        }
    }

    /// The window's tile index leaves room for the next one.
    pub open spec fn wf(&self) -> bool {
        match self.layout.pos_in_scrolling_layout {
            Some(p) => p.1 < usize::MAX,
            None => true,
        }
    }
}

impl Workspace {
    pub fn duplicate(&self) -> (r: Workspace)
        ensures
            r == *self,
    {
        Workspace {
            id: self.id,
            idx: self.idx,
            name: copy_opt_string(&self.name),
            output: copy_opt_string(&self.output),
            is_active: self.is_active,
        }
    }
}

impl WindowInfo {
    pub fn duplicate(&self) -> (r: WindowInfo)
        ensures
            r == *self,
    {
        WindowInfo { inner: self.inner.duplicate(), output_name: copy_opt_string(&self.output_name) }
    }

    /// The name of the output the window is shown on.
    pub fn get_output(&self) -> (r: Option<&str>)
        ensures
            r.deep_view() == self.output_name.deep_view(),
    {
        match &self.output_name {
            Some(s) => Some(s.as_str()),
            None => None,
        }
    }
}

impl Keyed for Window {
    open spec fn key(&self) -> u64 {
        self.id
    }

    fn get_key(&self) -> (k: u64) {
        self.id
    }
}

impl Keyed for Workspace {
    open spec fn key(&self) -> u64 {
        self.id
    }

    fn get_key(&self) -> (k: u64) {
        self.id
    }
}

} // verus!
