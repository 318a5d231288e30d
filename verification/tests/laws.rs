use mnemo::commands::memory::related_limit;
use mnemo::commands::memory::session_limit;
use mnemo::json::parse_json;
use mnemo::json::JsonValue;
use mnemo::popup::popup_position;
use mnemo::services::active_window::hyprland_output_window;
use mnemo::services::active_window::sway_tree_window;
use mnemo::services::active_window::WindowInfo;
use mnemo::services::retention::retention_cutoff;
use mnemo::services::watcher::capture_text;
use mnemo::services::watcher::session_step;
use mnemo::services::watcher::SessionStep;

#[test]
fn popup_sits_next_to_the_cursor_on_its_monitor() {
    assert_eq!(popup_position(100, 100, 0, 0, 1920, 1080, 600, 400), (116, 116));
    assert_eq!(popup_position(1900, 1000, 0, 0, 1920, 1080, 600, 400), (1304, 664));
    assert_eq!(popup_position(-50, 5, 0, 0, 1920, 1080, 600, 400), (16, 21));
    assert_eq!(popup_position(10, 10, 1920, 0, 300, 200, 600, 400), (1936, 16));
}

#[test]
fn recent_clips_survive_retention() {
    let now = 10 * 86_400_000;
    let cutoff = retention_cutoff(Some(3), now).unwrap();
    let three_days_ago = now - 3 * 86_400_000;
    assert!(!(three_days_ago < cutoff));
    assert!(three_days_ago - 1 < cutoff);
}

#[test]
fn a_captured_copy_is_not_captured_twice() {
    let first = capture_text(" note ", "").unwrap();
    assert_eq!(capture_text(" note ", &first), None);
    assert_eq!(capture_text("note\n", &first), None);
}

#[test]
fn quick_copies_stay_in_the_session() {
    assert_eq!(session_step(1_000_000, 500_000, true), SessionStep::Extend);
    assert_ne!(session_step(1_000_000, 500_000, false), SessionStep::Start);
}

#[test]
fn list_limits() {
    assert_eq!(related_limit(None), 5);
    assert_eq!(related_limit(Some(0)), 1);
    assert_eq!(related_limit(Some(99)), 20);
    assert_eq!(session_limit(None), 100);
    assert_eq!(session_limit(Some(-3)), 1);
    assert_eq!(session_limit(Some(501)), 500);
    assert_eq!(session_limit(Some(7)), 7);
}

#[test]
fn tool_output_as_json() {
    let tree = r#"{"nodes":[{"focused":true,"app_id":"foot","name":"shell"}]}"#;
    assert_eq!(
        sway_tree_window(tree),
        Some(WindowInfo {
            app_name: "foot".into(),
            window_title: "shell".into()
        })
    );
    assert_eq!(sway_tree_window("not json"), None);
    assert_eq!(
        hyprland_output_window(r#"{"class":"kitty","title":"vim"}"#),
        Some(WindowInfo {
            app_name: "kitty".into(),
            window_title: "vim".into()
        })
    );
    assert!(matches!(parse_json("[1, true]"), Some(JsonValue::Array(items)) if items.len() == 2));
    assert!(parse_json("{").is_none());
}
