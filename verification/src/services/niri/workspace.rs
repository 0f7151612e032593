//! A workspace of the compositor, as the dock keeps it.

use vstd::prelude::*;

use super::ipc;
use super::window::u64_or_zero;

verus! {

/// The dock's record of one niri workspace.
#[derive(Debug)]
pub struct NiriWorkspace {
    pub id: u64,
    pub idx: u8,
    pub name: Option<String>,
    pub output: Option<String>,
    pub is_urgent: bool,
    pub is_active: bool,
    pub is_focused: bool,
    pub active_window_id: u64,
    pub removed: bool,
}

impl NiriWorkspace {
    /// `self` with every field that niri reports taken from `ws`.
    pub open spec fn spec_updated(self, ws: ipc::Workspace) -> NiriWorkspace {
        NiriWorkspace {
            id: ws.id,
            idx: ws.idx,
            name: ws.name,
            output: ws.output,
            is_urgent: ws.is_urgent,
            is_active: ws.is_active,
            is_focused: ws.is_focused,
            active_window_id: u64_or_zero(ws.active_window_id),
            removed: self.removed,
        }
    }

    /// A new record for `ws`.
    pub open spec fn spec_new(ws: ipc::Workspace) -> NiriWorkspace {
        NiriWorkspace {
            id: ws.id,
            idx: ws.idx,
            name: ws.name,
            output: ws.output,
            is_urgent: ws.is_urgent,
            is_active: ws.is_active,
            is_focused: ws.is_focused,
            active_window_id: u64_or_zero(ws.active_window_id),
            removed: false,
        }
    }

    pub fn new(ws: ipc::Workspace) -> (r: NiriWorkspace)
        ensures
            r == NiriWorkspace::spec_new(ws),
    {
        NiriWorkspace {
            id: ws.id,
            idx: ws.idx,
            name: ws.name,
            output: ws.output,
            is_urgent: ws.is_urgent,
            is_active: ws.is_active,
            is_focused: ws.is_focused,
            active_window_id: match ws.active_window_id {
                Some(w) => w,
                None => 0,
            },
            removed: false,
        }
    }

    /// Takes every field that niri reports from `ws`.
    pub fn update(&mut self, ws: ipc::Workspace)
        ensures
            *final(self) == old(self).spec_updated(ws),
    {
        self.id = ws.id;
        self.idx = ws.idx;
        self.name = ws.name;
        self.output = ws.output;
        self.is_urgent = ws.is_urgent;
        self.is_active = ws.is_active;
        self.is_focused = ws.is_focused;
        self.active_window_id = match ws.active_window_id {
            Some(w) => w,
            None => 0,
        };
    }
}

} // verus!
