use mnemo::models::FilterRule;
use mnemo::services::watcher::attached_context;
use mnemo::services::watcher::browser_context_is_fresh;
use mnemo::services::watcher::capture_step;
use mnemo::services::watcher::capture_text;
use mnemo::services::watcher::CaptureOutcome;
use mnemo::services::watcher::clip_preview;
use mnemo::services::watcher::detect_content_type;
use mnemo::services::watcher::detect_language;
use mnemo::services::watcher::initial_embedding_status;
use mnemo::services::watcher::retention_due;
use mnemo::services::watcher::session_step;
use mnemo::services::watcher::SessionStep;
use mnemo::state::BrowserContext;

#[test]
fn keeps_only_recent_browser_context() {
    assert!(browser_context_is_fresh(10_000, 5_000));
    assert!(!browser_context_is_fresh(10_001, 5_000));
}

#[test]
fn freshness_saturates() {
    assert!(!browser_context_is_fresh(i64::MAX, -10));
    assert!(browser_context_is_fresh(i64::MIN, 10));
    assert!(browser_context_is_fresh(0, 100));
}

#[test]
fn context_is_attached_only_when_enabled_and_fresh() {
    let ctx = BrowserContext {
        url: "https://a.dev".into(),
        title: "A".into(),
        timestamp: 1_000,
    };
    assert_eq!(
        attached_context(true, Some(ctx.clone()), 3_000),
        (Some("https://a.dev".to_string()), Some("A".to_string()))
    );
    assert_eq!(attached_context(false, Some(ctx.clone()), 3_000), (None, None));
    assert_eq!(attached_context(true, Some(ctx), 9_000), (None, None));
    assert_eq!(attached_context(true, None, 9_000), (None, None));
}

#[test]
fn capture_skips_blank_repeated_and_huge_text() {
    assert_eq!(capture_text("  hello \n", ""), Some("hello".to_string()));
    assert_eq!(capture_text("   ", ""), None);
    assert_eq!(capture_text(" hello ", "hello"), None);
    assert_eq!(capture_text(&"x".repeat(100_001), ""), None);
    assert_eq!(capture_text(&"x".repeat(100_000), ""), Some("x".repeat(100_000)));
}

#[test]
fn sessions_start_after_fifteen_minutes() {
    assert_eq!(session_step(900_001, 0, true), SessionStep::Start);
    assert_eq!(session_step(900_000, 0, true), SessionStep::Extend);
    assert_eq!(session_step(900_000, 0, false), SessionStep::Unchanged);
}

#[test]
fn retention_and_embedding_status() {
    assert!(retention_due(300));
    assert!(!retention_due(299));
    assert_eq!(initial_embedding_status(true), "skipped");
    assert_eq!(initial_embedding_status(false), "pending");
}

#[test]
fn content_types() {
    assert_eq!(detect_content_type("  https://example.com/a  "), "url");
    assert_eq!(detect_content_type("https://a.com\nhttps://b.com"), "text");
    assert_eq!(detect_content_type("a { b; } c;"), "code");
    assert_eq!(detect_content_type("fn main() {\n    run();\n}"), "code");
    assert_eq!(detect_content_type("let x\n= 1"), "text");
    assert_eq!(detect_content_type("just words"), "text");
}

#[test]
fn languages() {
    assert_eq!(detect_language("pub fn a() {}"), Some("rust".into()));
    assert_eq!(
        detect_language("interface A { b: number }\nconst a = 1"),
        Some("typescript".into())
    );
    assert_eq!(detect_language("const a = () => 1"), Some("javascript".into()));
    assert_eq!(detect_language("def f(x):\n  return x"), Some("python".into()));
    assert_eq!(detect_language("package main\nfunc main() {}"), Some("go".into()));
    assert_eq!(detect_language("hello"), None);
}

#[test]
fn previews_cut_at_120_bytes() {
    assert_eq!(clip_preview("short"), "short");
    let long = "a".repeat(130);
    assert_eq!(clip_preview(&long), format!("{}\u{2026}", "a".repeat(120)));
    let exact = "b".repeat(120);
    assert_eq!(clip_preview(&exact), exact);
}

fn secret_rule() -> Vec<FilterRule> {
    vec![FilterRule { rule_type: "regex".into(), pattern: "secret".into(), action: "block".into() }]
}

#[test]
fn capture_off_reads_and_stores_nothing() {
    let rules = secret_rule();
    let mut last = "before".to_string();
    let r = capture_step(false, Some("  new text  "), &mut last, &rules);
    assert!(matches!(r, CaptureOutcome::Skipped));
    assert_eq!(last, "before");
    let r = capture_step(true, None, &mut last, &rules);
    assert!(matches!(r, CaptureOutcome::Skipped));
    assert_eq!(last, "before");
}

#[test]
fn blocked_copy_is_remembered_but_not_captured() {
    let rules = secret_rule();
    let mut last = String::new();
    match capture_step(true, Some("  my secret key \n"), &mut last, &rules) {
        CaptureOutcome::Blocked(f) => {
            assert!(f.blocked);
            assert_eq!(f.matched_rule.as_deref(), Some("secret"));
        }
        other => panic!("expected a blocked copy, got {other:?}"),
    }
    assert_eq!(last, "my secret key");
    let r = capture_step(true, Some("my secret key"), &mut last, &rules);
    assert!(matches!(r, CaptureOutcome::Skipped));
}

#[test]
fn allowed_copy_is_captured_trimmed_once() {
    let rules = secret_rule();
    let mut last = String::new();
    match capture_step(true, Some("\t hello world  "), &mut last, &rules) {
        CaptureOutcome::Captured(t) => assert_eq!(t, "hello world"),
        other => panic!("expected a captured copy, got {other:?}"),
    }
    assert_eq!(last, "hello world");
    let r = capture_step(true, Some("hello world"), &mut last, &rules);
    assert!(matches!(r, CaptureOutcome::Skipped));
    let r = capture_step(true, Some("   "), &mut last, &rules);
    assert!(matches!(r, CaptureOutcome::Skipped));
    assert_eq!(last, "hello world");
}
