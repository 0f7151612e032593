use neodock::services::niri::ipc::{Action, Event, Timestamp, Window, WindowLayout};
use neodock::services::niri::Niri;
use neodock::widgets::app_icon::{
    close_all_commands, find_last_focused, indicator_states, indicator_window, on_button_clicked, on_button_scrolled,
    single_window_label, tooltip_text, truncate_menu_label, window_action_name, window_entry_label, window_menu_entries,
    windows_section_label, windows_section_title, ClickAction, IndicatorDot,
};

fn window(id: u64, focused: bool, ts: Option<(u64, u32)>) -> Window {
    Window {
        id,
        title: Some(format!("w{id}")),
        app_id: Some("foot".to_string()),
        pid: None,
        workspace_id: None,
        is_focused: focused,
        is_floating: false,
        is_urgent: false,
        layout: WindowLayout::empty(),
        focus_timestamp: ts.map(|(secs, nanos)| Timestamp { secs, nanos }),
    }
}

fn niri_with(windows: Vec<Window>) -> Niri {
    let mut niri = Niri::new();
    niri.apply(Event::WindowsChanged { windows });
    niri
}

#[test]
fn last_focused_prefers_the_focused_window() {
    let niri = niri_with(vec![window(1, false, Some((5, 0))), window(2, true, None), window(3, false, Some((9, 0)))]);
    assert_eq!(find_last_focused(&vec![1, 2, 3], &niri), Some(1));
    assert_eq!(find_last_focused(&vec![], &niri), None);
}

#[test]
fn last_focused_is_the_first_latest_timestamp() {
    let niri = niri_with(vec![
        window(1, false, Some((5, 0))),
        window(2, false, Some((9, 1))),
        window(3, false, Some((9, 1))),
        window(4, false, Some((9, 0))),
    ]);
    assert_eq!(find_last_focused(&vec![1, 2, 3, 4], &niri), Some(1));
    let niri = niri_with(vec![window(1, false, None), window(2, false, None)]);
    assert_eq!(find_last_focused(&vec![1, 2], &niri), Some(0));
}

#[test]
fn indicator_window_keeps_the_last_focused_central() {
    assert_eq!(indicator_window(3, 2), (0, 3));
    assert_eq!(indicator_window(5, 4), (0, 5));
    assert_eq!(indicator_window(10, 0), (0, 5));
    assert_eq!(indicator_window(10, 1), (0, 5));
    assert_eq!(indicator_window(10, 5), (3, 8));
    assert_eq!(indicator_window(10, 8), (5, 10));
    assert_eq!(indicator_window(10, 9), (5, 10));
}

#[test]
fn indicator_dots() {
    let niri = niri_with(vec![window(1, false, Some((1, 0))), window(2, true, None), window(3, false, None)]);
    assert_eq!(
        indicator_states(&vec![1, 2, 3], &niri),
        vec![
            IndicatorDot { selected: false, focused: false },
            IndicatorDot { selected: true, focused: true },
            IndicatorDot { selected: false, focused: false },
        ]
    );
    assert!(indicator_states(&vec![], &niri).is_empty());
}

#[test]
fn click_launches_focuses_or_cycles() {
    let niri = niri_with(vec![window(1, false, Some((3, 0))), window(2, false, Some((1, 0))), window(3, true, None)]);
    assert_eq!(on_button_clicked(&vec![], &niri), ClickAction::Launch);
    // window 1 was focused last but holds no focus: focus it.
    assert_eq!(on_button_clicked(&vec![1, 2], &niri), ClickAction::Focus(1));
    // window 3 holds the focus: cycle to the next, wrapping around.
    assert_eq!(on_button_clicked(&vec![1, 3], &niri), ClickAction::Focus(1));
    assert_eq!(on_button_clicked(&vec![3, 2], &niri), ClickAction::Focus(2));
}

#[test]
fn scroll_cycles_forward_and_backward() {
    let niri = niri_with(vec![window(1, false, None), window(2, true, None), window(3, false, None)]);
    let ws = vec![1, 2, 3];
    assert_eq!(on_button_scrolled(&ws, &niri, 1, 0), Some(3));
    assert_eq!(on_button_scrolled(&ws, &niri, 0, 0), Some(1));
    let ws = vec![2, 1, 3];
    assert_eq!(on_button_scrolled(&ws, &niri, 0, 0), Some(3));
    assert_eq!(on_button_scrolled(&vec![2], &niri, 1, 0), None);
}

#[test]
fn tooltips() {
    assert_eq!(tooltip_text("Foot", "foot", 0, &None), "Foot (pinned)\n#foot");
    assert_eq!(tooltip_text("Foot", "foot", 1, &Some("~/src".to_string())), "Foot - ~/src\n#foot");
    assert_eq!(tooltip_text("Unknown", "", 1, &None), "Unknown - ");
    assert_eq!(tooltip_text("Foot", "foot", 12, &None), "Foot (12 windows)\n#foot");
}

#[test]
fn menu_labels_are_truncated_by_width() {
    assert_eq!(truncate_menu_label("short".to_string()), "short");
    let exact = "a".repeat(32);
    assert_eq!(truncate_menu_label(exact.clone()), exact);
    assert_eq!(truncate_menu_label("a".repeat(40)), format!("{}...", "a".repeat(32)));
    // wide characters count two columns each.
    let wide = "漢".repeat(20);
    assert_eq!(truncate_menu_label(wide), format!("{}...", "漢".repeat(16)));
    // control characters count nothing.
    let tabs = format!("{}{}", "\t".repeat(40), "b");
    assert_eq!(truncate_menu_label(tabs.clone()), tabs);
    assert_eq!(single_window_label(&None), "");
    assert_eq!(window_entry_label(0, &Some("vim".to_string())), "1. vim");
    assert_eq!(windows_section_label(3), "3 windows");
}

#[test]
fn window_menu() {
    let niri = niri_with(vec![window(5, false, None), window(6, false, None)]);
    let w = niri.get_windows().get(&5).unwrap();
    let entries = window_menu_entries(w);
    let labels: Vec<&str> = entries.iter().map(|e| e.label.as_str()).collect();
    assert_eq!(labels, vec!["Focus", "Center", "Fullscreen", "Maximize", "Toggle Floating", "Close"]);
    let actions: Vec<&str> = entries.iter().map(|e| e.action.as_str()).collect();
    assert_eq!(
        actions,
        vec!["win-5-focus", "win-5-center", "win-5-fullscreen", "win-5-maximize", "win-5-toggle-floating", "win-5-close"]
    );
    assert_eq!(entries[5].commands, vec![Action::CloseWindow { id: Some(5) }]);
    assert_eq!(window_action_name(1234567890, "Toggle Floating"), "win-1234567890-toggle-floating");
    assert_eq!(
        close_all_commands(&vec![6, 5], &niri),
        vec![Action::CloseWindow { id: Some(6) }, Action::CloseWindow { id: Some(5) }]
    );
    assert_eq!(windows_section_title(&vec![], &niri), None);
    assert_eq!(windows_section_title(&vec![5], &niri), Some("w5".to_string()));
    assert_eq!(windows_section_title(&vec![5, 6], &niri), Some("2 windows".to_string()));
}
