//! The user's capture preferences and the switches that the watcher and the
//! context server read.

use std::sync::atomic::AtomicBool;
use std::sync::atomic::Ordering;

use vstd::prelude::*;

use crate::text::chars_of;
use crate::text::string_of;

verus! {

/// What the user chose about capture, retention and appearance.
#[derive(Debug, Clone)]
pub struct CapturePreferences {
    pub capture_enabled: bool,
    pub browser_context_enabled: bool,
    pub auto_delete_days: Option<i64>,
    pub appearance: String,
    pub onboarding_completed: bool,
}

impl Default for CapturePreferences {
    /// Fresh preferences: capture and browser context paused, nothing
    /// deleted automatically, the dark theme, onboarding still to do.
    fn default() -> (r: Self)
        ensures
            !r.capture_enabled,
            !r.browser_context_enabled,
            r.auto_delete_days is None,
            r.appearance@ == "dark"@,
            !r.onboarding_completed,
    {
        CapturePreferences {
            capture_enabled: false,
            browser_context_enabled: false,
            auto_delete_days: None,
            appearance: string_of(&chars_of("dark")),
            onboarding_completed: false,
        }
    }
}

/// Reads a switch.  Other threads set it, so nothing is known of the value.
pub fn is_enabled(flag: &AtomicBool) -> bool {
    flag.load(Ordering::Relaxed)
}

/// Sets a switch.
pub fn set_enabled(flag: &AtomicBool, enabled: bool) {
    flag.store(enabled, Ordering::Relaxed);
}

} // verus!
