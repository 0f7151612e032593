use neodock::config::{Config, NeoDockConfig, WindowsFilter};
use neodock::constants::resource_path;
use neodock::models::app::App;
use neodock::models::apps::Apps;
use neodock::services::niri::ipc::{Event, Window, WindowLayout, Workspace};
use neodock::services::niri::socket::{frame_request, reply_bytes};
use neodock::services::niri::Niri;
use neodock::widgets::dock_view::{
    active_workspace_idx, app_visible, focused_workspace_idx, launcher_argv, reveal_or_hide_view, should_reveal_view,
    visible_apps,
    RevealStep,
};

fn workspace(id: u64, idx: u8, output: &str, active: bool) -> Workspace {
    Workspace { id, idx, name: None, output: Some(output.to_string()), is_urgent: false, is_active: active, is_focused: false, active_window_id: None }
}

fn window(id: u64, ws: u64) -> Window {
    Window {
        id,
        title: None,
        app_id: Some("foot".to_string()),
        pid: None,
        workspace_id: Some(ws),
        is_focused: false,
        is_floating: false,
        is_urgent: false,
        layout: WindowLayout::empty(),
        focus_timestamp: None,
    }
}

#[test]
fn resource_paths() {
    assert_eq!(resource_path("icons"), "/io/github/lost-melody/NeoDock/icons");
    assert_eq!(resource_path("css/style.css"), "/io/github/lost-melody/NeoDock/css/style.css");
}

#[test]
fn filters_apps_by_output_and_workspace() {
    let mut niri = Niri::new();
    niri.apply(Event::WorkspacesChanged { workspaces: vec![workspace(1, 1, "DP-1", true), workspace(2, 2, "HDMI-A-1", true)] });
    niri.apply(Event::WindowOpenedOrChanged { window: window(7, 2) });
    let mut app = App::new_for_id("foot".to_string());
    app.add_window(7);
    assert!(app_visible(&app, &niri, WindowsFilter::All, "DP-1", 1));
    assert!(!app_visible(&app, &niri, WindowsFilter::SameOutput, "DP-1", 1));
    assert!(app_visible(&app, &niri, WindowsFilter::SameOutput, "HDMI-A-1", 1));
    assert!(!app_visible(&app, &niri, WindowsFilter::SameWorkspace, "HDMI-A-1", 1));
    assert!(app_visible(&app, &niri, WindowsFilter::SameWorkspace, "HDMI-A-1", 2));
    app.set_is_pinned(true);
    assert!(app_visible(&app, &niri, WindowsFilter::SameWorkspace, "DP-1", 9));
    assert!(WindowsFilter::SameWorkspace.depends_on_workspace());
    assert!(!WindowsFilter::SameOutput.depends_on_workspace());
}

#[test]
fn same_workspace_needs_one_window_on_both() {
    let mut niri = Niri::new();
    niri.apply(Event::WorkspacesChanged {
        workspaces: vec![workspace(1, 2, "DP-1", false), workspace(2, 1, "HDMI-A-1", true)],
    });
    niri.apply(Event::WindowOpenedOrChanged { window: window(7, 1) });
    niri.apply(Event::WindowOpenedOrChanged { window: window(8, 2) });
    let mut app = App::new_for_id("foot".to_string());
    app.add_window(7);
    app.add_window(8);
    // one window on DP-1 at index 2, another on HDMI-A-1 at index 1.
    assert!(!app_visible(&app, &niri, WindowsFilter::SameWorkspace, "DP-1", 1));
    assert!(app_visible(&app, &niri, WindowsFilter::SameWorkspace, "DP-1", 2));
    assert!(app.in_output_workspace("HDMI-A-1", 1, &niri));
    assert!(!app.in_output_workspace("HDMI-A-1", 2, &niri));
}

#[test]
fn visible_apps_keep_the_display_order() {
    let mut niri = Niri::new();
    niri.apply(Event::WorkspacesChanged { workspaces: vec![workspace(1, 1, "DP-1", true), workspace(2, 1, "HDMI-A-1", true)] });
    let mut other = window(8, 2);
    other.app_id = Some("alacritty".to_string());
    let mut here = window(9, 1);
    here.app_id = Some("zed".to_string());
    let mut mine = window(7, 1);
    mine.app_id = Some("btop".to_string());
    let config = NeoDockConfig::new();
    let mut apps = Apps::new();
    for w in [here, other, mine] {
        let changes = niri.apply(Event::WindowOpenedOrChanged { window: w });
        apps.follow_changes(&niri, &changes, &config);
    }
    apps.add_pinned_apps(&vec!["yazi".to_string()]);
    // store order: zed, alacritty, btop, yazi (pinned).
    assert_eq!(visible_apps(&apps, &niri, WindowsFilter::All, "DP-1", 1), vec![3, 1, 2, 0]);
    assert_eq!(visible_apps(&apps, &niri, WindowsFilter::SameOutput, "DP-1", 1), vec![3, 2, 0]);
    assert_eq!(visible_apps(&apps, &niri, WindowsFilter::SameWorkspace, "HDMI-A-1", 1), vec![3, 1]);
    assert_eq!(visible_apps(&apps, &niri, WindowsFilter::SameWorkspace, "DP-1", 2), vec![3]);
}

#[test]
fn reveal_decisions() {
    assert!(should_reveal_view(None, false, false, false));
    let mut config = NeoDockConfig::new();
    assert!(should_reveal_view(Some(&config), false, false, false));
    let mut c = Config::with_defaults();
    c.show_in_overview = false;
    config.reload(c);
    assert!(!should_reveal_view(Some(&config), false, false, false));
    assert!(should_reveal_view(Some(&config), false, true, false));
    assert!(should_reveal_view(Some(&config), false, false, true));
    assert!(!should_reveal_view(Some(&config), true, true, false));

    assert_eq!(reveal_or_hide_view(false, true, true), RevealStep { cancel_timer: true, show: true, start_timer: false });
    assert_eq!(reveal_or_hide_view(true, true, false), RevealStep { cancel_timer: false, show: false, start_timer: false });
    assert_eq!(reveal_or_hide_view(true, false, false), RevealStep { cancel_timer: false, show: false, start_timer: true });
    assert_eq!(reveal_or_hide_view(true, false, true), RevealStep { cancel_timer: false, show: false, start_timer: false });
}

#[test]
fn workspace_index_of_the_dock_output() {
    let mut niri = Niri::new();
    niri.apply(Event::WorkspacesChanged {
        workspaces: vec![workspace(1, 1, "DP-1", false), workspace(2, 2, "DP-1", true), workspace(3, 4, "A-1", true)],
    });
    assert_eq!(active_workspace_idx(&niri, "DP-1"), Some(2));
    assert_eq!(active_workspace_idx(&niri, "X"), None);
    assert_eq!(focused_workspace_idx(&niri, "A-1"), None);
    niri.apply(Event::WorkspaceActivated { id: 3, focused: true });
    assert_eq!(focused_workspace_idx(&niri, "A-1"), Some(4));
    assert_eq!(focused_workspace_idx(&niri, "DP-1"), None);
}

#[test]
fn launcher_command_split() {
    let cmd: Vec<String> = ["qs", "-c", "x"].iter().map(|s| s.to_string()).collect();
    let (program, args) = launcher_argv(&cmd).unwrap();
    assert_eq!(program, "qs");
    assert_eq!(args, vec!["-c".to_string(), "x".to_string()]);
    assert!(launcher_argv(&Vec::new()).is_none());
}

#[test]
fn socket_framing() {
    assert_eq!(frame_request(b"\"EventStream\"".to_vec()), b"\"EventStream\"\n".to_vec());
    assert_eq!(reply_bytes(None), Vec::<u8>::new());
    assert_eq!(reply_bytes(Some(vec![1, 2])), vec![1, 2]);
}
