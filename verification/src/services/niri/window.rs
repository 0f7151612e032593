//! A window of the compositor, as the dock keeps it.

use vstd::prelude::*;

use super::ipc;
use super::workspace::NiriWorkspace;
use crate::text::{copy_opt_string, or_empty, string_or_empty};

verus! {

/// The dock's record of one niri window.
///
/// Besides what niri reports, a window carries the index and output of the
/// workspace it is bound to, and whether it has been closed.
#[derive(Debug)]
pub struct NiriWindow {
    pub id: u64,
    pub title: Option<String>,
    pub app_id: Option<String>,
    pub pid: i32,
    pub workspace_id: u64,
    /// Index of the bound workspace on its output.
    pub workspace_idx: u8,
    /// Output of the bound workspace; `None` reads as an empty connector name.
    pub output: Option<String>,
    pub is_focused: bool,
    pub is_floating: bool,
    pub is_urgent: bool,
    pub layout: ipc::WindowLayout,
    pub focus_timestamp: ipc::Timestamp,
    pub closed: bool,
    /// Id of the workspace whose index and output this window mirrors.
    pub bound_workspace: Option<u64>,
}

/// The focus timestamp a window takes from what niri reports: zero when absent.
pub open spec fn timestamp_or_zero(t: Option<ipc::Timestamp>) -> ipc::Timestamp {
    match t {
        Some(t) => t,
        None => ipc::Timestamp::spec_zero(),
    }
}

/// `v` when present, else zero.
pub open spec fn u64_or_zero(v: Option<u64>) -> u64 {
    match v {
        Some(v) => v,
        None => 0,
    }
}

/// `v` when present, else zero.
pub open spec fn i32_or_zero(v: Option<i32>) -> i32 {
    match v {
        Some(v) => v,
        None => 0,
    }
}

impl NiriWindow {
    /// `self` with every field that niri reports taken from `win`; the
    /// workspace binding and the closed mark stay.
    pub open spec fn spec_updated(self, win: ipc::Window) -> NiriWindow {
        NiriWindow {
            id: win.id,
            title: win.title,
            app_id: win.app_id,
            pid: i32_or_zero(win.pid),
            workspace_id: u64_or_zero(win.workspace_id),
            workspace_idx: self.workspace_idx,
            output: self.output,
            is_focused: win.is_focused,
            is_floating: win.is_floating,
            is_urgent: win.is_urgent,
            layout: win.layout,
            focus_timestamp: timestamp_or_zero(win.focus_timestamp),
            closed: self.closed,
            bound_workspace: self.bound_workspace,
        }
    }

    /// A new record for `win`: unbound, with workspace index zero and no output.
    pub open spec fn spec_new(win: ipc::Window) -> NiriWindow {
        NiriWindow {
            id: win.id,
            title: win.title,
            app_id: win.app_id,
            pid: i32_or_zero(win.pid),
            workspace_id: u64_or_zero(win.workspace_id),
            workspace_idx: 0,
            output: None,
            is_focused: win.is_focused,
            is_floating: win.is_floating,
            is_urgent: win.is_urgent,
            layout: win.layout,
            focus_timestamp: timestamp_or_zero(win.focus_timestamp),
            closed: false,
            bound_workspace: None,
        }
    }

    /// `self` bound to `ws`: it takes the workspace's index and output.
    pub open spec fn spec_bound(self, ws: NiriWorkspace) -> NiriWindow {
        NiriWindow {
            workspace_idx: ws.idx,
            output: ws.output,
            bound_workspace: Some(ws.id),
            ..self
        }
    }

    /// Creates the record of a newly seen window.
    pub fn new(win: ipc::Window) -> (r: NiriWindow)
        ensures
            r == NiriWindow::spec_new(win),
    {
        NiriWindow {
            id: win.id,
            title: win.title,
            app_id: win.app_id,
            pid: match win.pid {
                Some(p) => p,
                None => 0,
            },
            workspace_id: match win.workspace_id {
                Some(w) => w,
                None => 0,
            },
            workspace_idx: 0,
            output: None,
            is_focused: win.is_focused,
            is_floating: win.is_floating,
            is_urgent: win.is_urgent,
            layout: win.layout,
            focus_timestamp: match win.focus_timestamp {
                Some(t) => t,
                None => ipc::Timestamp::zero(),
            },
            closed: false,
            bound_workspace: None,
        }
    }

    /// Takes every field that niri reports from `win`.
    pub fn update(&mut self, win: ipc::Window)
        ensures
            *final(self) == old(self).spec_updated(win),
    {
        self.id = win.id;
        self.title = win.title;
        self.app_id = win.app_id;
        self.pid = match win.pid {
            Some(p) => p,
            None => 0,
        };
        self.workspace_id = match win.workspace_id {
            Some(w) => w,
            None => 0,
        };
        self.is_focused = win.is_focused;
        self.is_floating = win.is_floating;
        self.is_urgent = win.is_urgent;
        self.set_layout_(win.layout);
        self.set_focus_timestamp_(win.focus_timestamp);
    }

    /// Binds the window to `workspace`, mirroring its index and output.
    pub fn bind_workspace(&mut self, workspace: &NiriWorkspace)
        ensures
            *final(self) == old(self).spec_bound(*workspace),
    {
        self.workspace_idx = workspace.idx;
        self.output = copy_opt_string(&workspace.output);
        self.bound_workspace = Some(workspace.id);
    }

    /// The output connector of the bound workspace, empty when there is none.
    pub fn output_name(&self) -> (r: String)
        ensures
            r@ == or_empty(self.output),
    {
        string_or_empty(&self.output)
    }

    /// The window's layout.
    pub fn get_layout(&self) -> (r: ipc::WindowLayout)
        ensures
            r == self.layout,
    {
        self.layout
    }

    pub fn set_layout_(&mut self, layout: ipc::WindowLayout)
        ensures
            *final(self) == (NiriWindow { layout, ..*old(self) }),
    {
        self.layout = layout;
    }

    /// Sets the focus timestamp; an absent one resets it to zero.
    pub fn set_focus_timestamp_(&mut self, timestamp: Option<ipc::Timestamp>)
        ensures
            *final(self) == (NiriWindow { focus_timestamp: timestamp_or_zero(timestamp), ..*old(self) }),
    {
        match timestamp {
            Some(t) => {
                self.focus_timestamp = t;
            },
            None => {
                self.focus_timestamp = ipc::Timestamp::zero();
            },
        }
    }

    pub fn get_focus_timestamp(&self) -> (r: ipc::Timestamp)
        ensures
            r == self.focus_timestamp,
    {
        self.focus_timestamp
    }

    /// Actions that focus this window.
    pub fn cmd_focus(&self) -> (r: Vec<ipc::Action>)
        ensures
            r@ == seq![ipc::Action::FocusWindow { id: self.id }],
    {
        vec![ipc::Action::FocusWindow { id: self.id }]
    }

    /// Actions that focus and center this window.
    pub fn cmd_center(&self) -> (r: Vec<ipc::Action>)
        ensures
            r@ == seq![ipc::Action::FocusWindow { id: self.id }, ipc::Action::CenterWindow { id: Some(self.id) }],
    {
        vec![ipc::Action::FocusWindow { id: self.id }, ipc::Action::CenterWindow { id: Some(self.id) }]
    }

    /// Actions that focus this window and toggle it fullscreen.
    pub fn cmd_toggle_fullscreen(&self) -> (r: Vec<ipc::Action>)
        ensures
            r@ == seq![
                ipc::Action::FocusWindow { id: self.id },
                ipc::Action::FullscreenWindow { id: Some(self.id) },
            ],
    {
        vec![ipc::Action::FocusWindow { id: self.id }, ipc::Action::FullscreenWindow { id: Some(self.id) }]
    }

    /// Actions that focus this window and toggle its column maximized.
    pub fn cmd_toggle_maximize(&self) -> (r: Vec<ipc::Action>)
        ensures
            r@ == seq![ipc::Action::FocusWindow { id: self.id }, ipc::Action::MaximizeColumn],
    {
        vec![ipc::Action::FocusWindow { id: self.id }, ipc::Action::MaximizeColumn]
    }

    /// Actions that focus this window and toggle it floating.
    pub fn cmd_toggle_floating(&self) -> (r: Vec<ipc::Action>)
        ensures
            r@ == seq![
                ipc::Action::FocusWindow { id: self.id },
                ipc::Action::ToggleWindowFloating { id: Some(self.id) },
            ],
    {
        vec![ipc::Action::FocusWindow { id: self.id }, ipc::Action::ToggleWindowFloating { id: Some(self.id) }]
    }

    /// Actions that close this window.
    pub fn cmd_close(&self) -> (r: Vec<ipc::Action>)
        ensures
            r@ == seq![ipc::Action::CloseWindow { id: Some(self.id) }],
    {
        vec![ipc::Action::CloseWindow { id: Some(self.id) }]
    }
}

} // verus!
