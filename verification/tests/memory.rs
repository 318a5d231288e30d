use mnemo::commands::memory::clip_context;
use mnemo::commands::memory::infer_purpose;
use mnemo::commands::memory::infer_tags;
use mnemo::commands::memory::json_strings;
use mnemo::commands::memory::preview;
use mnemo::commands::memory::session_summary;
use mnemo::commands::memory::source_breakdown;
use mnemo::commands::memory::source_label;
use mnemo::models::Clip;
use mnemo::models::FilterRule;
use mnemo::services::filter::evaluate;
use mnemo::services::session_builder::domain;
use mnemo::services::session_builder::string_list_json;
use mnemo::services::session_builder::summarize_session;
use mnemo::services::session_builder::title_case;
use mnemo::services::session_builder::SessionClip;

fn clip(app: Option<&str>, url: Option<&str>) -> Clip {
    Clip {
        id: "id".into(),
        content: "c".into(),
        content_type: "text".into(),
        image_path: None,
        source_url: url.map(str::to_string),
        page_title: None,
        app_name: app.map(str::to_string),
        window_title: None,
        language: None,
        session_id: None,
        is_pinned: false,
        copied_at: 0,
        ai_context: None,
        created_at: "now".into(),
    }
}

fn chars(s: &str) -> Vec<char> {
    s.chars().collect()
}

#[test]
fn tags_and_purposes() {
    assert_eq!(infer_tags("useEffect(() => fetch(jwt))"), vec!["react", "auth"]);
    assert_eq!(infer_tags("plain words"), Vec::<String>::new());
    assert_eq!(infer_purpose("Bearer token"), "Implementing authentication flow");
    assert_eq!(infer_purpose("docker compose up"), "Configuring container infrastructure");
    assert_eq!(infer_purpose("SELECT * FROM t"), "Writing database queries");
    assert_eq!(infer_purpose("hello"), "General reference");
}

#[test]
fn labels_and_previews() {
    assert_eq!(source_label(Some("Title"), Some("App"), Some("https://x.io/a")), "Title");
    assert_eq!(source_label(None, Some("App"), Some("https://www.x.io/a")), "x.io");
    assert_eq!(source_label(None, Some("App"), None), "App");
    assert_eq!(source_label(None, None, None), "Unknown source");
    assert_eq!(preview("abcdef", 3), "abc...");
    assert_eq!(preview("abc", 3), "abc");
}

#[test]
fn stored_lists() {
    assert_eq!(json_strings(Some("[\"a\",\"b\"]")), vec!["a", "b"]);
    assert_eq!(json_strings(Some("not json")), Vec::<String>::new());
    assert_eq!(json_strings(None), Vec::<String>::new());
    assert_eq!(string_list_json(&vec!["a".to_string(), "b\"c".to_string()]), "[\"a\",\"b\\\"c\"]");
}

#[test]
fn source_breakdown_counts_sorted_sources() {
    let clips = vec![
        clip(Some("Code"), None),
        clip(None, Some("https://docs.rs/x")),
        clip(Some("Code"), None),
        clip(Some("unknown"), None),
    ];
    let stats = source_breakdown(&clips);
    let view: Vec<(String, i64, String)> = stats
        .iter()
        .map(|s| (s.label.clone(), s.count, s.source_type.clone()))
        .collect();
    assert_eq!(
        view,
        vec![
            ("Code".to_string(), 2, "app".to_string()),
            ("Source unavailable".to_string(), 1, "unavailable".to_string()),
            ("docs.rs".to_string(), 1, "web".to_string()),
        ]
    );
    let total: i64 = stats.iter().map(|s| s.count).sum();
    assert_eq!(total, 4);
}

#[test]
fn clip_context_uses_stored_context_or_infers() {
    let ctx = clip_context("import asyncio", None, Some("Term"), None, None);
    assert_eq!(ctx.source, "Term");
    assert_eq!(ctx.topic_tags, vec!["async", "python"]);
    assert_eq!(ctx.likely_purpose, "Researching async patterns");
}

#[test]
fn session_rows() {
    let s = session_summary(
        "s1".into(),
        None,
        None,
        Some("[\"rust\"]".into()),
        Some("[\"Code\"]".into()),
        None,
        3,
        1_000,
        4_000,
    );
    assert_eq!(s.id, "s1");
    assert_eq!(s.key_topics, vec!["rust"]);
    assert_eq!(s.duration_ms, 3_000);
    assert_eq!(s.clip_count, 3);
}

#[test]
fn sessions_are_summarised() {
    let clips = vec![
        SessionClip {
            content: "tokio runtime tokio spawn".into(),
            app_name: Some("Code".into()),
            source_url: None,
        },
        SessionClip {
            content: "the runtime".into(),
            app_name: Some("Firefox".into()),
            source_url: Some("https://www.tokio.rs/guide".into()),
        },
    ];
    let d = summarize_session(&clips);
    assert_eq!(d.key_topics, vec!["runtime", "tokio", "spawn"]);
    assert_eq!(d.source_apps, vec!["Code", "Firefox"]);
    assert_eq!(d.source_urls, vec!["tokio.rs"]);
    assert_eq!(d.label, "tokio.rs: Runtime & Tokio");
    assert_eq!(
        d.summary,
        "2 clips from Code, Firefox. Key topics: runtime, tokio, spawn."
    );
    assert_eq!(d.clip_count, 2);
    let empty = summarize_session(&vec![]);
    assert_eq!(empty.label, "Research session");
    assert_eq!(empty.summary, "0 clips from Unknown app. Key topics: general reference.");
}

#[test]
fn domains_and_title_case() {
    assert_eq!(domain(&chars("https://www.github.com/a/b")), chars("github.com"));
    assert_eq!(domain(&chars("plain")), chars("plain"));
    assert_eq!(title_case(&chars("\u{df}ig")), chars("SSig"));
    assert_eq!(title_case(&chars("")), chars(""));
}

#[test]
fn filter_rules_block_matches() {
    let rules = vec![
        FilterRule { rule_type: "regex".into(), pattern: "(".into(), action: "block".into() },
        FilterRule { rule_type: "keyword".into(), pattern: "secret".into(), action: "block".into() },
        FilterRule { rule_type: "regex".into(), pattern: "sk-[a-z]+".into(), action: "ask".into() },
        FilterRule { rule_type: "regex".into(), pattern: "secret".into(), action: "allow".into() },
    ];
    let r = evaluate("my sk-abc key", &rules);
    assert!(r.blocked);
    assert_eq!(r.matched_rule.as_deref(), Some("sk-[a-z]+"));
    let r = evaluate("a secret", &rules);
    assert!(!r.blocked);
    assert_eq!(r.matched_rule.as_deref(), Some("secret"));
    let r = evaluate("nothing", &rules);
    assert!(!r.blocked);
    assert_eq!(r.matched_rule, None);
}

#[test]
fn numbers_and_punctuation_are_not_topics() {
    let clips = vec![SessionClip {
        content: "2024 build-build 123 x\u{e9}y_z".into(),
        app_name: None,
        source_url: None,
    }];
    let d = summarize_session(&clips);
    assert_eq!(d.key_topics, vec!["build", "x\u{e9}y_z"]);
    assert_eq!(d.label, "Build & X\u{e9}y_z research");
}
