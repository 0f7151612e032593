use neodock::config::{Config, NeoDockConfig};
use neodock::models::app::{compare_apps, compare_windows, compare_windows_pos, App};
use neodock::models::apps::Apps;
use neodock::order::Order;
use neodock::services::niri::ipc::{Event, Window, WindowLayout, Workspace};
use neodock::services::niri::window::NiriWindow;
use neodock::services::niri::Niri;

fn window(id: u64, app_id: Option<&str>) -> Window {
    Window {
        id,
        title: None,
        app_id: app_id.map(|s| s.to_string()),
        pid: None,
        workspace_id: None,
        is_focused: false,
        is_floating: false,
        is_urgent: false,
        layout: WindowLayout::empty(),
        focus_timestamp: None,
    }
}

fn record(id: u64, app_id: Option<&str>) -> NiriWindow {
    NiriWindow::new(window(id, app_id))
}

fn strings(v: &[&str]) -> Vec<String> {
    v.iter().map(|s| s.to_string()).collect()
}

#[test]
fn windows_are_grouped_by_application() {
    let mut apps = Apps::new();
    apps.add_window_to_apps(&record(1, Some("foot")), &NeoDockConfig::new());
    apps.add_window_to_apps(&record(2, Some("firefox")), &NeoDockConfig::new());
    apps.add_window_to_apps(&record(3, Some("foot")), &NeoDockConfig::new());
    apps.add_window_to_apps(&record(4, None), &NeoDockConfig::new());
    assert_eq!(apps.len(), 3);
    assert_eq!(apps.get(0).app_id(), "foot");
    assert_eq!(apps.get(0).windows(), &vec![1, 3]);
    assert_eq!(apps.get(2).app_id(), "");
    assert_eq!(apps.find_app_info("firefox"), Some(1));
    assert_eq!(apps.find_app_info("zed"), None);
}

#[test]
fn closing_the_last_window_drops_an_unpinned_entry() {
    let mut apps = Apps::new();
    apps.add_pinned_apps(&strings(&["foot"]));
    apps.add_window_to_apps(&record(1, Some("foot")), &NeoDockConfig::new());
    apps.add_window_to_apps(&record(2, Some("firefox")), &NeoDockConfig::new());
    apps.remove_window_from_apps(&record(1, Some("foot")), &NeoDockConfig::new());
    apps.remove_window_from_apps(&record(2, Some("firefox")), &NeoDockConfig::new());
    assert_eq!(apps.len(), 1);
    assert!(apps.get(0).is_pinned());
    assert!(apps.get(0).windows().is_empty());
}

#[test]
fn opening_then_closing_a_window_restores_the_entries() {
    let mut apps = Apps::new();
    apps.add_pinned_apps(&strings(&["foot"]));
    apps.add_window_to_apps(&record(1, Some("foot")), &NeoDockConfig::new());
    let before: Vec<(String, bool, Vec<u64>)> =
        (0..apps.len()).map(|i| (apps.get(i).app_id().clone(), apps.get(i).is_pinned(), apps.get(i).windows().clone())).collect();
    for w in [record(9, Some("foot")), record(10, Some("zed"))] {
        apps.add_window_to_apps(&w, &NeoDockConfig::new());
        apps.remove_window_from_apps(&w, &NeoDockConfig::new());
        let after: Vec<(String, bool, Vec<u64>)> =
            (0..apps.len()).map(|i| (apps.get(i).app_id().clone(), apps.get(i).is_pinned(), apps.get(i).windows().clone())).collect();
        assert_eq!(before, after);
    }
}

#[test]
fn updating_pinned_apps() {
    let mut apps = Apps::new();
    apps.add_pinned_apps(&strings(&["a", "b", "c"]));
    apps.add_window_to_apps(&record(1, Some("b")), &NeoDockConfig::new());
    apps.add_window_to_apps(&record(2, Some("d")), &NeoDockConfig::new());
    apps.update_pinned_apps(&strings(&["c", "d", "e"]));
    let ids: Vec<(String, bool)> = (0..apps.len()).map(|i| (apps.get(i).app_id().clone(), apps.get(i).is_pinned())).collect();
    assert_eq!(
        ids,
        vec![
            ("b".to_string(), false),
            ("c".to_string(), true),
            ("d".to_string(), true),
            ("e".to_string(), true),
        ]
    );
    assert_eq!(apps.get(0).windows(), &vec![1]);
}

#[test]
fn apps_sort_pinned_first_then_by_id() {
    let mut apps = Apps::new();
    apps.add_window_to_apps(&record(1, Some("zed")), &NeoDockConfig::new());
    apps.add_pinned_apps(&strings(&["foot"]));
    apps.add_window_to_apps(&record(2, Some("alacritty")), &NeoDockConfig::new());
    apps.add_pinned_apps(&strings(&["bar"]));
    let order = apps.sorted_apps();
    let ids: Vec<&str> = order.iter().map(|&i| apps.get(i).app_id().as_str()).collect();
    assert_eq!(ids, vec!["bar", "foot", "alacritty", "zed"]);

    let mut a = App::new_for_id("x".to_string());
    let b = App::new_for_id("y".to_string());
    assert_eq!(compare_apps(&a, &b), Order::Less);
    a.set_is_pinned(true);
    assert_eq!(compare_apps(&b, &a), Order::Greater);
    assert_eq!(compare_apps(&a, &a), Order::Equal);
}

fn snapshot(apps: &Apps) -> Vec<(String, bool, Vec<u64>)> {
    (0..apps.len()).map(|i| (apps.get(i).app_id().clone(), apps.get(i).is_pinned(), apps.get(i).windows().clone())).collect()
}

#[test]
fn entries_follow_the_events_of_niri() {
    let mut niri = Niri::new();
    let mut apps = Apps::new();
    apps.add_pinned_apps(&strings(&["foot"]));

    let changes = niri.apply(Event::WindowsChanged { windows: vec![window(1, Some("zed")), window(2, Some("foot"))] });
    apps.follow_changes(&niri, &changes, &NeoDockConfig::new());
    assert_eq!(
        snapshot(&apps),
        vec![("foot".to_string(), true, vec![2]), ("zed".to_string(), false, vec![1])]
    );

    let changes = niri.apply(Event::WindowOpenedOrChanged { window: window(3, Some("zed")) });
    apps.follow_changes(&niri, &changes, &NeoDockConfig::new());
    assert_eq!(apps.get(1).windows(), &vec![1, 3]);

    // a window reported again is not added twice.
    let changes = niri.apply(Event::WindowOpenedOrChanged { window: window(3, Some("zed")) });
    apps.follow_changes(&niri, &changes, &NeoDockConfig::new());
    assert_eq!(apps.get(1).windows(), &vec![1, 3]);

    let changes = niri.apply(Event::WindowClosed { id: 2 });
    apps.follow_changes(&niri, &changes, &NeoDockConfig::new());
    assert_eq!(apps.get(0).windows(), &Vec::<u64>::new());
    assert!(apps.get(0).is_pinned());
}

#[test]
fn a_window_opened_then_closed_leaves_the_entries() {
    let mut niri = Niri::new();
    let mut apps = Apps::new();
    apps.add_pinned_apps(&strings(&["foot"]));
    let changes = niri.apply(Event::WindowOpenedOrChanged { window: window(1, Some("foot")) });
    apps.follow_changes(&niri, &changes, &NeoDockConfig::new());
    let before = snapshot(&apps);

    let changes = niri.apply(Event::WindowOpenedOrChanged { window: window(7, Some("kitty")) });
    apps.follow_changes(&niri, &changes, &NeoDockConfig::new());
    assert_eq!(apps.len(), 2);
    let changes = niri.apply(Event::WindowClosed { id: 7 });
    apps.follow_changes(&niri, &changes, &NeoDockConfig::new());
    assert_eq!(snapshot(&apps), before);
}

#[test]
fn windows_are_grouped_under_the_substituted_id() {
    let mut config = NeoDockConfig::new();
    let mut settings = Config::with_defaults();
    settings.pinned_apps = strings(&["chromium"]);
    settings.app_id_substitution = vec![("Chromium".to_string(), "chromium".to_string())];
    config.reload(settings);

    let mut apps = Apps::new();
    apps.add_pinned_apps(config.pinned_apps());
    apps.add_window_to_apps(&record(1, Some("Chromium")), &config);
    apps.add_window_to_apps(&record(2, Some("foot")), &config);
    assert_eq!(
        snapshot(&apps),
        vec![("chromium".to_string(), true, vec![1]), ("foot".to_string(), false, vec![2])]
    );
    apps.remove_window_from_apps(&record(1, Some("Chromium")), &config);
    assert_eq!(apps.get(0).windows(), &Vec::<u64>::new());

    let mut niri = Niri::new();
    let changes = niri.apply(Event::WindowOpenedOrChanged { window: window(5, Some("Chromium")) });
    apps.follow_changes(&niri, &changes, &config);
    assert_eq!(apps.get(0).windows(), &vec![5]);
}

#[test]
fn entries_hold_only_windows_niri_knows() {
    let config = NeoDockConfig::new();
    let mut niri = Niri::new();
    let mut apps = Apps::new();
    apps.add_pinned_apps(&strings(&["foot", "foot"]));
    let events = vec![
        Event::WindowsChanged { windows: vec![window(1, Some("foot")), window(2, Some("zed")), window(1, Some("foot"))] },
        Event::WindowOpenedOrChanged { window: window(3, Some("foot")) },
        Event::WindowClosed { id: 1 },
        Event::WindowClosed { id: 42 },
        Event::WindowOpenedOrChanged { window: window(2, Some("zed")) },
        Event::WindowClosed { id: 2 },
    ];
    for event in events {
        let changes = niri.apply(event);
        apps.follow_changes(&niri, &changes, &config);
        let mut held: Vec<u64> = Vec::new();
        for i in 0..apps.len() {
            for id in apps.get(i).windows() {
                assert!(niri.get_windows().contains_key(id));
                assert!(!held.contains(id));
                held.push(*id);
            }
        }
    }
    assert_eq!(
        snapshot(&apps),
        vec![("foot".to_string(), true, vec![3]), ("foot".to_string(), true, vec![])]
    );
    apps.update_pinned_apps(&strings(&[]));
    assert_eq!(snapshot(&apps), vec![("foot".to_string(), false, vec![3])]);
    assert_eq!(apps.get(0).get_window(0, &niri), Some(3));
    assert_eq!(apps.get(0).get_window(1, &niri), None);
}

#[test]
fn equal_entries_keep_their_store_order() {
    let mut apps = Apps::new();
    apps.add_pinned_apps(&strings(&["b", "a", "b", "a"]));
    assert_eq!(apps.sorted_apps(), vec![1, 3, 0, 2]);
}

fn workspace(id: u64, idx: u8, output: &str) -> Workspace {
    Workspace { id, idx, name: None, output: Some(output.to_string()), is_urgent: false, is_active: true, is_focused: false, active_window_id: None }
}

#[test]
fn windows_sort_by_output_workspace_position_and_id() {
    let mut niri = Niri::new();
    niri.apply(Event::WorkspacesChanged { workspaces: vec![workspace(1, 2, "DP-1"), workspace(2, 1, "DP-1"), workspace(3, 1, "A-1")] });
    let mut app = App::new_for_id("foot".to_string());
    let mk = |id: u64, ws: u64, col: usize| {
        let mut w = window(id, Some("foot"));
        w.workspace_id = Some(ws);
        w.layout.pos_in_scrolling_layout = Some((col, 1));
        w
    };
    for w in [mk(10, 1, 1), mk(11, 2, 2), mk(12, 2, 1), mk(13, 3, 5), mk(14, 2, 1)] {
        app.add_window(w.id);
        niri.apply(Event::WindowOpenedOrChanged { window: w });
    }
    app.add_window(99); // unknown to niri: left out.
    assert_eq!(app.sorted_windows(&niri), vec![13, 12, 14, 11, 10]);
    assert_eq!(app.get_window(0, &niri), Some(13));
    assert_eq!(app.get_window(5, &niri), None);
    assert!(app.in_output("DP-1", &niri));
    assert!(!app.in_output("HDMI-A-1", &niri));
    assert!(app.in_workspace(2, &niri));
    assert!(!app.in_workspace(7, &niri));
    assert_eq!(app.remove_window(99), 5);
    assert_eq!(app.remove_window(42), 5);

    let w = niri.get_windows();
    assert_eq!(compare_windows(w.get(&12).unwrap(), w.get(&14).unwrap()), Order::Less);
    assert_eq!(compare_windows_pos(w.get(&12).unwrap(), w.get(&14).unwrap()), Order::Equal);
    assert_eq!(compare_windows_pos(w.get(&11).unwrap(), w.get(&12).unwrap()), Order::Greater);
    // no application id sorts first.
    let a = record(1, None);
    let b = record(2, Some("a"));
    assert_eq!(compare_windows(&a, &b), Order::Less);
}

#[test]
fn tile_positions_break_ties() {
    let mut a = record(1, Some("x"));
    let mut b = record(2, Some("x"));
    a.layout.tile_pos_in_workspace_view = Some((5, 0));
    b.layout.tile_pos_in_workspace_view = Some((-3, 0));
    assert_eq!(compare_windows_pos(&a, &b), Order::Greater);
    assert_eq!(compare_windows(&a, &b), Order::Greater);
}
