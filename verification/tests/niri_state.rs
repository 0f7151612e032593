use neodock::services::niri::ipc::{Action, Event, Timestamp, Window, WindowLayout, Workspace};
use neodock::services::niri::Niri;

fn window(id: u64, app_id: &str, workspace_id: Option<u64>, focused: bool) -> Window {
    Window {
        id,
        title: Some(format!("title {id}")),
        app_id: Some(app_id.to_string()),
        pid: Some(100 + id as i32),
        workspace_id,
        is_focused: focused,
        is_floating: false,
        is_urgent: false,
        layout: WindowLayout::empty(),
        focus_timestamp: None,
    }
}

fn workspace(id: u64, idx: u8, output: &str, active: bool, focused: bool) -> Workspace {
    Workspace {
        id,
        idx,
        name: None,
        output: Some(output.to_string()),
        is_urgent: false,
        is_active: active,
        is_focused: focused,
        active_window_id: None,
    }
}

#[test]
fn opened_window_is_recorded_and_announced() {
    let mut niri = Niri::new();
    let changes = niri.apply(Event::WindowOpenedOrChanged { window: window(7, "foot", None, false) });
    assert!(changes.windows);
    assert_eq!(changes.created, vec![7]);
    let w = niri.get_windows().get(&7).unwrap();
    assert_eq!(w.title.as_deref(), Some("title 7"));
    assert_eq!(w.app_id.as_deref(), Some("foot"));
    assert_eq!(w.pid, 107);
    assert_eq!(w.workspace_id, 0);
    assert_eq!(niri.window_created(), Some(7));

    // a change of a known window is no creation.
    let mut again = window(7, "foot", None, false);
    again.title = Some("renamed".to_string());
    let changes = niri.apply(Event::WindowOpenedOrChanged { window: again });
    assert!(!changes.windows);
    assert!(changes.created.is_empty());
    assert_eq!(niri.get_windows().get(&7).unwrap().title.as_deref(), Some("renamed"));
}

#[test]
fn closed_window_is_forgotten() {
    let mut niri = Niri::new();
    niri.apply(Event::WindowOpenedOrChanged { window: window(1, "a", None, false) });
    niri.apply(Event::WindowOpenedOrChanged { window: window(2, "b", None, false) });
    let changes = niri.apply(Event::WindowClosed { id: 1 });
    assert!(changes.windows);
    let closed = changes.closed.unwrap();
    assert_eq!(closed.id, 1);
    assert!(closed.closed);
    assert!(niri.get_windows().get(&1).is_none());
    assert!(niri.get_windows().get(&2).is_some());

    let changes = niri.apply(Event::WindowClosed { id: 42 });
    assert!(changes.closed.is_none());
    assert_eq!(niri.get_windows().len(), 1);
}

#[test]
fn focus_moves_between_windows() {
    let mut niri = Niri::new();
    niri.apply(Event::WindowOpenedOrChanged { window: window(1, "a", None, true) });
    assert_eq!(niri.focused_window(), Some(1));
    niri.apply(Event::WindowOpenedOrChanged { window: window(2, "b", None, false) });
    let changes = niri.apply(Event::WindowFocusChanged { id: Some(2) });
    assert!(changes.focused_window);
    assert_eq!(niri.focused_window(), Some(2));
    assert!(niri.get_windows().get(&2).unwrap().is_focused);
    assert!(!niri.get_windows().get(&1).unwrap().is_focused);

    // focus on nothing.
    niri.apply(Event::WindowFocusChanged { id: None });
    assert_eq!(niri.focused_window(), None);
    assert!(!niri.get_windows().get(&2).unwrap().is_focused);
}

#[test]
fn windows_follow_their_workspace() {
    let mut niri = Niri::new();
    niri.apply(Event::WorkspacesChanged {
        workspaces: vec![workspace(10, 1, "DP-1", true, true), workspace(11, 2, "DP-1", false, false)],
    });
    niri.apply(Event::WindowOpenedOrChanged { window: window(1, "a", Some(11), false) });
    let w = niri.get_windows().get(&1).unwrap();
    assert_eq!(w.workspace_idx, 2);
    assert_eq!(w.output_name(), "DP-1");
    assert_eq!(w.bound_workspace, Some(11));

    // the workspace moves to another output and index.
    niri.apply(Event::WorkspacesChanged {
        workspaces: vec![workspace(10, 1, "DP-1", true, true), workspace(11, 1, "HDMI-A-1", true, false)],
    });
    let w = niri.get_windows().get(&1).unwrap();
    assert_eq!(w.workspace_idx, 1);
    assert_eq!(w.output_name(), "HDMI-A-1");

    // the workspace goes: the window keeps what it had and is unbound.
    let changes = niri.apply(Event::WorkspacesChanged { workspaces: vec![workspace(10, 1, "DP-1", true, true)] });
    assert!(changes.workspaces);
    assert_eq!(niri.get_workspaces().len(), 1);
    let w = niri.get_windows().get(&1).unwrap();
    assert_eq!(w.bound_workspace, None);
    assert_eq!(w.output_name(), "HDMI-A-1");
}

#[test]
fn workspace_list_last_entry_wins_and_is_idempotent() {
    let mut niri = Niri::new();
    let list = vec![workspace(5, 1, "DP-1", false, false), workspace(5, 3, "DP-2", true, false)];
    niri.apply(Event::WorkspacesChanged { workspaces: list.clone() });
    let ws = niri.get_workspaces().get(&5).unwrap();
    assert_eq!(ws.idx, 3);
    assert_eq!(ws.output.as_deref(), Some("DP-2"));
    niri.apply(Event::WorkspacesChanged { workspaces: list });
    assert_eq!(niri.get_workspaces().len(), 1);
    assert_eq!(niri.get_workspaces().get(&5).unwrap().idx, 3);
}

#[test]
fn one_active_workspace_per_output() {
    let mut niri = Niri::new();
    niri.apply(Event::WorkspacesChanged {
        workspaces: vec![
            workspace(1, 1, "DP-1", true, true),
            workspace(2, 2, "DP-1", false, false),
            workspace(3, 1, "DP-2", true, false),
        ],
    });
    let changes = niri.apply(Event::WorkspaceActivated { id: 2, focused: true });
    assert!(changes.focused_workspace);
    let ws = niri.get_workspaces();
    assert!(!ws.get(&1).unwrap().is_active);
    assert!(ws.get(&2).unwrap().is_active);
    assert!(ws.get(&3).unwrap().is_active);
    assert!(!ws.get(&1).unwrap().is_focused);
    assert!(ws.get(&2).unwrap().is_focused);
    assert!(!ws.get(&3).unwrap().is_focused);
    assert_eq!(niri.focused_workspace(), Some(2));

    // activating it again focuses nothing new.
    let changes = niri.apply(Event::WorkspaceActivated { id: 2, focused: true });
    assert!(!changes.focused_workspace);
}

#[test]
fn unknown_ids_change_nothing() {
    let mut niri = Niri::new();
    niri.apply(Event::WindowOpenedOrChanged { window: window(1, "a", None, false) });
    niri.apply(Event::WindowUrgencyChanged { id: 9, urgent: true });
    niri.apply(Event::WorkspaceUrgencyChanged { id: 9, urgent: true });
    niri.apply(Event::WorkspaceActivated { id: 9, focused: true });
    niri.apply(Event::WindowFocusTimestampChanged { id: 9, focus_timestamp: None });
    assert_eq!(niri.get_windows().len(), 1);
    assert!(!niri.get_windows().get(&1).unwrap().is_urgent);
    assert_eq!(niri.focused_workspace(), None);
}

#[test]
fn small_window_and_workspace_updates() {
    let mut niri = Niri::new();
    niri.apply(Event::WorkspacesChanged { workspaces: vec![workspace(1, 1, "DP-1", true, true)] });
    niri.apply(Event::WindowOpenedOrChanged { window: window(4, "a", Some(1), false) });
    niri.apply(Event::WindowUrgencyChanged { id: 4, urgent: true });
    niri.apply(Event::WorkspaceUrgencyChanged { id: 1, urgent: true });
    niri.apply(Event::WorkspaceActiveWindowChanged { workspace_id: 1, active_window_id: Some(4) });
    niri.apply(Event::WindowFocusTimestampChanged { id: 4, focus_timestamp: Some(Timestamp { secs: 3, nanos: 9 }) });
    let layout = WindowLayout { pos_in_scrolling_layout: Some((2, 1)), window_size: (800, 600), tile_pos_in_workspace_view: None };
    niri.apply(Event::WindowLayoutsChanged { changes: vec![(4, layout), (99, layout)] });
    let w = niri.get_windows().get(&4).unwrap();
    assert!(w.is_urgent);
    assert_eq!(w.get_focus_timestamp(), Timestamp { secs: 3, nanos: 9 });
    assert_eq!(w.get_layout().pos_in_scrolling_layout, Some((2, 1)));
    let ws = niri.get_workspaces().get(&1).unwrap();
    assert!(ws.is_urgent);
    assert_eq!(ws.active_window_id, 4);
    niri.apply(Event::WorkspaceActiveWindowChanged { workspace_id: 1, active_window_id: None });
    assert_eq!(niri.get_workspaces().get(&1).unwrap().active_window_id, 0);
    niri.apply(Event::WindowFocusTimestampChanged { id: 4, focus_timestamp: None });
    assert_eq!(niri.get_windows().get(&4).unwrap().get_focus_timestamp(), Timestamp { secs: 0, nanos: 0 });
}

#[test]
fn windows_changed_reports_new_ones_in_order() {
    let mut niri = Niri::new();
    niri.apply(Event::WindowOpenedOrChanged { window: window(2, "b", None, false) });
    let changes = niri.apply(Event::WindowsChanged {
        windows: vec![window(3, "c", None, false), window(2, "b", None, false), window(1, "a", None, true)],
    });
    assert!(changes.windows);
    assert!(changes.focused_window);
    assert_eq!(changes.created, vec![3, 1]);
    assert_eq!(niri.window_created(), Some(1));
    assert_eq!(niri.focused_window(), Some(1));
    assert_eq!(niri.get_windows().len(), 3);
}

#[test]
fn overview_follows_events() {
    let mut niri = Niri::new();
    let changes = niri.apply(Event::OverviewOpenedOrClosed { is_open: true });
    assert!(changes.overview);
    assert!(niri.overview_is_open());
    niri.apply(Event::OverviewOpenedOrClosed { is_open: false });
    assert!(!niri.overview_is_open());
    let changes = niri.apply(Event::Other);
    assert!(!changes.overview && !changes.windows && !changes.workspaces);
}

#[test]
fn window_commands() {
    let mut niri = Niri::new();
    niri.apply(Event::WindowOpenedOrChanged { window: window(8, "a", None, false) });
    let w = niri.get_windows().get(&8).unwrap();
    assert_eq!(w.cmd_focus(), vec![Action::FocusWindow { id: 8 }]);
    assert_eq!(w.cmd_center(), vec![Action::FocusWindow { id: 8 }, Action::CenterWindow { id: Some(8) }]);
    assert_eq!(w.cmd_toggle_fullscreen(), vec![Action::FocusWindow { id: 8 }, Action::FullscreenWindow { id: Some(8) }]);
    assert_eq!(w.cmd_toggle_maximize(), vec![Action::FocusWindow { id: 8 }, Action::MaximizeColumn]);
    assert_eq!(w.cmd_toggle_floating(), vec![Action::FocusWindow { id: 8 }, Action::ToggleWindowFloating { id: Some(8) }]);
    assert_eq!(w.cmd_close(), vec![Action::CloseWindow { id: Some(8) }]);
}
