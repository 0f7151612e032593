use neodock::config::{Config, ConfigChanges, DockLayer, NeoDockConfig, WindowsFilter};

fn strings(v: &[&str]) -> Vec<String> {
    v.iter().map(|s| s.to_string()).collect()
}

#[test]
fn defaults_of_an_empty_file() {
    let c = Config::with_defaults();
    assert!(c.auto_hide);
    assert_eq!(c.auto_hide_delay, 800);
    assert!(c.show_in_overview);
    assert_eq!(c.dock_layer, DockLayer::Top);
    assert_eq!(c.filter_windows, WindowsFilter::SameOutput);
    assert_eq!(c.launcher_command, strings(&["qs", "-c", "noctalia-shell", "ipc", "call", "launcher", "toggle"]));
    assert!(c.pinned_apps.is_empty());
    assert!(Config::default_auto_hide());
    assert_eq!(Config::default_auto_hide_delay(), 800);
    assert!(Config::default_show_in_overview());
}

#[test]
fn settings_before_any_file() {
    let c = NeoDockConfig::new();
    assert!(!c.auto_hide());
    assert_eq!(c.auto_hide_delay(), 0);
    assert!(!c.show_in_overview());
    assert_eq!(c.get_dock_layer(), DockLayer::Top);
    assert_eq!(c.get_filter_windows(), WindowsFilter::SameOutput);
    assert!(c.launcher_command().is_empty());
}

#[test]
fn reload_reports_changes_and_sorts_pinned() {
    let mut live = NeoDockConfig::new();
    let mut c = Config::with_defaults();
    c.pinned_apps = strings(&["zed", "firefox", "alacritty"]);
    c.dock_layer = DockLayer::Overlay;
    c.app_id_substitution = vec![("code-oss".to_string(), "code".to_string())];
    let changes = live.reload(c);
    assert_eq!(
        changes,
        ConfigChanges {
            auto_hide: true,
            auto_hide_delay: true,
            show_in_overview: true,
            dock_layer: true,
            filter_windows: false,
            launcher_command: true,
            pinned_apps: true,
            app_id_substitution: true,
        }
    );
    assert_eq!(live.pinned_apps(), &strings(&["alacritty", "firefox", "zed"]));
    assert_eq!(live.get_dock_layer(), DockLayer::Overlay);
}

#[test]
fn reloading_the_same_file_reports_nothing() {
    let mut live = NeoDockConfig::new();
    let make = || {
        let mut c = Config::with_defaults();
        c.pinned_apps = strings(&["b", "a"]);
        c.app_id_substitution = vec![("x".to_string(), "y".to_string()), ("p".to_string(), "q".to_string())];
        c
    };
    live.reload(make());
    // the same settings, in another order.
    let mut again = make();
    again.pinned_apps = strings(&["a", "b"]);
    again.app_id_substitution = vec![("p".to_string(), "q".to_string()), ("x".to_string(), "y".to_string())];
    let changes = live.reload(again);
    assert_eq!(
        changes,
        ConfigChanges {
            auto_hide: false,
            auto_hide_delay: false,
            show_in_overview: false,
            dock_layer: false,
            filter_windows: false,
            launcher_command: false,
            pinned_apps: false,
            app_id_substitution: false,
        }
    );
}

#[test]
fn substitution_replaces_known_ids_only() {
    let mut live = NeoDockConfig::new();
    let mut c = Config::with_defaults();
    c.app_id_substitution = vec![
        ("code-oss".to_string(), "code".to_string()),
        ("code-oss".to_string(), "vscode".to_string()),
    ];
    live.reload(c);
    assert_eq!(live.get_substituted("code-oss".to_string()), "vscode");
    assert_eq!(live.get_substituted("foot".to_string()), "foot");
    assert_eq!(live.get_app_id_substitution().len(), 2);
}

#[test]
fn sorting_strings() {
    let sorted = neodock::config::sort_strings(strings(&["b", "ab", "a", "B", "é", "a"]));
    assert_eq!(sorted, strings(&["B", "a", "a", "ab", "b", "é"]));
    let mut expected = strings(&["b", "ab", "a", "B", "é", "a"]);
    expected.sort();
    assert_eq!(sorted, expected);
}
