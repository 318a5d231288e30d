use mnemo::json::JsonValue;
use mnemo::services::active_window::extract_json_string;
use mnemo::services::active_window::find_sway_focused_node;
use mnemo::services::active_window::gnome_window;
use mnemo::services::active_window::hyprland_window;
use mnemo::services::active_window::macos_window;
use mnemo::services::active_window::parse_active_window_id;
use mnemo::services::active_window::parse_xdotool_window;
use mnemo::services::active_window::parse_xprop_window;
use mnemo::services::active_window::windows_window;
use mnemo::services::active_window::WindowInfo;

fn info(app: &str, title: &str) -> WindowInfo {
    WindowInfo {
        app_name: app.to_string(),
        window_title: title.to_string(),
    }
}

fn text(s: &str) -> JsonValue {
    JsonValue::Text(s.to_string())
}

fn object(members: Vec<(&str, JsonValue)>) -> JsonValue {
    JsonValue::Object(
        members
            .into_iter()
            .map(|(k, v)| (k.to_string(), v))
            .collect(),
    )
}

#[test]
fn parses_x11_active_window_and_properties() {
    assert_eq!(
        parse_active_window_id("_NET_ACTIVE_WINDOW(WINDOW): window id # 0x4a00007"),
        Some("0x4a00007".into())
    );
    assert_eq!(
        parse_active_window_id("_NET_ACTIVE_WINDOW(WINDOW): window id # 0x0"),
        None
    );
    assert_eq!(
        parse_xprop_window(
            "WM_CLASS(STRING) = \"code\", \"Code\"\n_NET_WM_NAME(UTF8_STRING) = \"lib.rs - Mnemo\""
        ),
        Some(WindowInfo {
            app_name: "Code".into(),
            window_title: "lib.rs - Mnemo".into()
        })
    );
}

#[test]
fn parses_gnome_eval_json() {
    assert_eq!(
        extract_json_string(
            "(true, '{\\\"app\\\":\\\"org.gnome.Terminal\\\",\\\"title\\\":\\\"Terminal\\\"}')"
                .replace("\\\"", "\"")
                .as_str(),
            "app"
        ),
        "org.gnome.Terminal"
    );
}

#[test]
fn parses_optional_xdotool_metadata() {
    assert_eq!(
        parse_xdotool_window("firefox", "Mnemo - Mozilla Firefox"),
        Some(WindowInfo {
            app_name: "firefox".into(),
            window_title: "Mnemo - Mozilla Firefox".into(),
        })
    );
    assert_eq!(parse_xdotool_window("", "Terminal"), None);
}

#[test]
fn default_window_is_unknown() {
    assert_eq!(WindowInfo::default(), info("Unknown", ""));
}

#[test]
fn xprop_without_class_or_title() {
    assert_eq!(parse_xprop_window("_NET_WM_NAME(UTF8_STRING) = \"x\""), None);
    assert_eq!(parse_xprop_window("WM_CLASS(STRING) = \"\", \"  \""), None);
    assert_eq!(
        parse_xprop_window("WM_CLASS(STRING) = \"a\", \"Term\"\r\nWM_NAME(STRING) = \"shell\""),
        Some(info("Term", "shell"))
    );
    assert_eq!(
        parse_xprop_window("WM_CLASS(STRING) = \"a\", \"Term\""),
        Some(info("Term", ""))
    );
}

#[test]
fn active_window_id_skips_other_words() {
    assert_eq!(parse_active_window_id("0x0 0x12 0x34"), Some("0x12".into()));
    assert_eq!(parse_active_window_id(""), None);
}

#[test]
fn extract_json_string_misses() {
    assert_eq!(extract_json_string("{\"title\":\"x\"}", "app"), "");
    assert_eq!(extract_json_string("{\"app\" \"x\"}", "app"), "");
    assert_eq!(extract_json_string("{\"app\": 1}", "app"), "");
    assert_eq!(extract_json_string("{\"app\": \"open", "app"), "");
    assert_eq!(extract_json_string("{\"app\": \"\"}", "app"), "");
}

#[test]
fn gnome_output_with_escaped_quotes() {
    let out = "(true, '{\\\"app\\\":\\\"org.gnome.Terminal\\\",\\\"title\\\":\\\"Terminal\\\"}')";
    assert_eq!(gnome_window(out), Some(info("org.gnome.Terminal", "Terminal")));
    assert_eq!(gnome_window("(false, '')"), None);
}

#[test]
fn hyprland_needs_a_class() {
    let w = object(vec![("class", text("  kitty ")), ("title", text("zsh"))]);
    assert_eq!(hyprland_window(&w), Some(info("kitty", "zsh")));
    let blank = object(vec![("class", text("  ")), ("title", text("zsh"))]);
    assert_eq!(hyprland_window(&blank), None);
    let untitled = object(vec![("class", text("kitty"))]);
    assert_eq!(hyprland_window(&untitled), Some(info("kitty", "")));
    assert_eq!(hyprland_window(&JsonValue::Null), None);
}

#[test]
fn sway_tree_finds_the_focused_window() {
    let focused = object(vec![
        ("focused", JsonValue::Bool(true)),
        ("app_id", JsonValue::Null),
        (
            "window_properties",
            object(vec![("class", text("Firefox"))]),
        ),
        ("name", text("Mnemo")),
    ]);
    let other = object(vec![
        ("focused", JsonValue::Bool(false)),
        ("app_id", text("foot")),
    ]);
    let workspace = object(vec![
        ("nodes", JsonValue::Array(vec![other])),
        ("floating_nodes", JsonValue::Array(vec![focused])),
    ]);
    let root = object(vec![("nodes", JsonValue::Array(vec![workspace]))]);
    assert_eq!(find_sway_focused_node(&root), Some(info("Firefox", "Mnemo")));
    let empty = object(vec![("nodes", JsonValue::Array(vec![]))]);
    assert_eq!(find_sway_focused_node(&empty), None);
}

#[test]
fn sway_focused_node_without_app_is_skipped() {
    let child = object(vec![
        ("focused", JsonValue::Bool(true)),
        ("app_id", text("alacritty")),
    ]);
    let root = object(vec![
        ("focused", JsonValue::Bool(true)),
        ("nodes", JsonValue::Array(vec![child])),
    ]);
    assert_eq!(find_sway_focused_node(&root), Some(info("alacritty", "")));
}

#[test]
fn macos_and_windows_probe_output() {
    assert_eq!(macos_window("Safari|||Start Page"), info("Safari", "Start Page"));
    assert_eq!(macos_window("Finder"), info("Finder", ""));
    assert_eq!(macos_window("a|||b|||c"), info("a", "b|||c"));
    assert_eq!(
        windows_window(" Code ||| main.rs "),
        Some(info("Code", "main.rs"))
    );
    assert_eq!(windows_window("   |||title"), None);
}
