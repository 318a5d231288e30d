use mnemo::commands::settings::checked_embedding_table;
use mnemo::commands::settings::checked_preferences;
use mnemo::commands::settings::onboarded;
use mnemo::commands::settings::CapturePreferencesInput;
use mnemo::commands::settings::CompleteOnboardingInput;
use mnemo::services::capture_state::is_enabled;
use mnemo::services::capture_state::set_enabled;
use mnemo::services::capture_state::CapturePreferences;
use std::sync::atomic::AtomicBool;

fn input(appearance: &str, days: Option<i64>) -> CapturePreferencesInput {
    CapturePreferencesInput {
        capture_enabled: true,
        browser_context_enabled: false,
        auto_delete_days: days,
        appearance: appearance.to_string(),
        onboarding_completed: true,
    }
}

#[test]
fn fresh_preferences_pause_capture_and_keep_everything() {
    let p = CapturePreferences::default();
    assert!(!p.capture_enabled);
    assert!(!p.browser_context_enabled);
    assert_eq!(p.auto_delete_days, None);
    assert_eq!(p.appearance, "dark");
    assert!(!p.onboarding_completed);
}

#[test]
fn preference_updates_are_checked() {
    let ok = checked_preferences(input("light", Some(30))).unwrap();
    assert!(ok.capture_enabled);
    assert_eq!(ok.auto_delete_days, Some(30));
    assert_eq!(ok.appearance, "light");
    assert_eq!(
        checked_preferences(input("blue", Some(30))).unwrap_err(),
        "Appearance must be dark, light, or system"
    );
    assert_eq!(
        checked_preferences(input("system", Some(0))).unwrap_err(),
        "Auto-delete days must be between 1 and 3650"
    );
    assert_eq!(
        checked_preferences(input("blue", Some(0))).unwrap_err(),
        "Appearance must be dark, light, or system"
    );
    assert!(checked_preferences(input("dark", Some(3650))).is_ok());
    assert!(checked_preferences(input("dark", Some(3651))).is_err());
    assert!(checked_preferences(input("dark", None)).is_ok());
}

#[test]
fn onboarding_marks_completion() {
    let current = CapturePreferences::default();
    let next = onboarded(current, CompleteOnboardingInput { capture_enabled: true });
    assert!(next.onboarding_completed);
    assert!(next.capture_enabled);
    assert_eq!(next.appearance, "dark");
}

#[test]
fn embedding_table_names() {
    assert_eq!(checked_embedding_table(None).unwrap(), "clips_embeddings");
    assert_eq!(
        checked_embedding_table(Some("a b".to_string())).unwrap_err(),
        "Invalid active embedding table"
    );
    assert!(checked_embedding_table(Some(String::new())).is_err());
}

#[test]
fn switches_hold_what_was_set() {
    let flag = AtomicBool::new(false);
    set_enabled(&flag, true);
    assert!(is_enabled(&flag));
    set_enabled(&flag, false);
    assert!(!is_enabled(&flag));
}
