//! Messages exchanged with the niri compositor, as plain data.
//!
//! These mirror the parts of niri's IPC protocol that the dock reads and
//! sends. Geometry that niri reports as floating point is carried as integer
//! order keys: two keys compare as the coordinates they stand for.

use vstd::prelude::*;

verus! {

/// A point in time, as seconds and nanoseconds.
#[derive(Clone, Copy, Debug, PartialEq, Eq, Structural)]
pub struct Timestamp {
    pub secs: u64,
    pub nanos: u32,
}

impl Timestamp {
    /// The zero timestamp, used where niri reports none.
    pub fn zero() -> (t: Timestamp)
        ensures
            t == Timestamp::spec_zero(),
    {
        Timestamp { secs: 0, nanos: 0 }
    }

    pub open spec fn spec_zero() -> Timestamp {
        Timestamp { secs: 0, nanos: 0 }
    }

    /// Whether `self` lies strictly before `other` (seconds first, then nanoseconds).
    pub open spec fn spec_before(self, other: Timestamp) -> bool {
        self.secs < other.secs || (self.secs == other.secs && self.nanos < other.nanos)
    }

    /// Whether `self` lies strictly before `other`.
    pub fn before(&self, other: &Timestamp) -> (r: bool)
        ensures
            r == self.spec_before(*other),
    {
        self.secs < other.secs || (self.secs == other.secs && self.nanos < other.nanos)
    }
}

/// Where a window sits in its workspace.
#[derive(Clone, Copy, Debug)]
pub struct WindowLayout {
    /// Column and row (1-based) in the scrolling layout; `None` for floating windows.
    pub pos_in_scrolling_layout: Option<(usize, usize)>,
    /// Size of the window's client area.
    pub window_size: (i32, i32),
    /// Order keys of the tile's position in the workspace view, if it is visible.
    pub tile_pos_in_workspace_view: Option<(i64, i64)>,
}

impl WindowLayout {
    /// The layout of a window that niri has told nothing about.
    pub fn empty() -> (l: WindowLayout)
        ensures
            l == WindowLayout::spec_empty(),
    {
        WindowLayout { pos_in_scrolling_layout: None, window_size: (0, 0), tile_pos_in_workspace_view: None }
    }

    pub open spec fn spec_empty() -> WindowLayout {
        WindowLayout { pos_in_scrolling_layout: None, window_size: (0, 0), tile_pos_in_workspace_view: None }
    }
}

/// A toplevel window as niri describes it.
#[derive(Clone, Debug)]
pub struct Window {
    pub id: u64,
    pub title: Option<String>,
    pub app_id: Option<String>,
    pub pid: Option<i32>,
    pub workspace_id: Option<u64>,
    pub is_focused: bool,
    pub is_floating: bool,
    pub is_urgent: bool,
    pub layout: WindowLayout,
    pub focus_timestamp: Option<Timestamp>,
}

/// A workspace as niri describes it.
#[derive(Clone, Debug)]
pub struct Workspace {
    pub id: u64,
    /// Index of the workspace on its monitor, starting at 1.
    pub idx: u8,
    pub name: Option<String>,
    /// Connector of the output the workspace is on.
    pub output: Option<String>,
    pub is_urgent: bool,
    pub is_active: bool,
    pub is_focused: bool,
    pub active_window_id: Option<u64>,
}

/// A change in the compositor's state, as streamed by niri.
#[derive(Clone, Debug)]
pub enum Event {
    /// The whole workspace configuration changed; carries every workspace.
    WorkspacesChanged { workspaces: Vec<Workspace> },
    WorkspaceUrgencyChanged { id: u64, urgent: bool },
    /// A workspace was activated on its output, and possibly focused.
    WorkspaceActivated { id: u64, focused: bool },
    WorkspaceActiveWindowChanged { workspace_id: u64, active_window_id: Option<u64> },
    /// The window configuration changed; carries every window.
    WindowsChanged { windows: Vec<Window> },
    WindowOpenedOrChanged { window: Window },
    WindowClosed { id: u64 },
    WindowFocusChanged { id: Option<u64> },
    WindowFocusTimestampChanged { id: u64, focus_timestamp: Option<Timestamp> },
    WindowUrgencyChanged { id: u64, urgent: bool },
    WindowLayoutsChanged { changes: Vec<(u64, WindowLayout)> },
    OverviewOpenedOrClosed { is_open: bool },
    /// Any event the dock does not follow (keyboard layouts, screenshots, casts...).
    Other,
}

/// An action the dock asks niri to perform.
#[derive(Clone, Copy, Debug, PartialEq, Eq, Structural)]
pub enum Action {
    FocusWindow { id: u64 },
    CenterWindow { id: Option<u64> },
    FullscreenWindow { id: Option<u64> },
    MaximizeColumn,
    ToggleWindowFloating { id: Option<u64> },
    CloseWindow { id: Option<u64> },
}

/// A request sent over niri's socket.
#[derive(Clone, Copy, Debug, PartialEq, Eq, Structural)]
pub enum Request {
    /// Turns the connection into a stream of [Event]s.
    EventStream,
    Action(Action),
}

} // verus!
