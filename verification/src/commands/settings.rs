//! Checking preference updates and the onboarding answer.

use vstd::prelude::*;

use crate::commands::search::spec_valid_identifier;
use crate::commands::search::valid_identifier;
use crate::services::capture_state::CapturePreferences;
use crate::text::chars_of;
use crate::text::eq_str;
use crate::text::string_of;

verus! {

/// The preferences as the settings screen sends them.
#[derive(Debug, Clone)]
pub struct CapturePreferencesInput {
    pub capture_enabled: bool,
    pub browser_context_enabled: bool,
    pub auto_delete_days: Option<i64>,
    pub appearance: String,
    pub onboarding_completed: bool,
}

/// The answer given at the end of onboarding.
#[derive(Debug, Clone, Copy)]
pub struct CompleteOnboardingInput {
    pub capture_enabled: bool,
}

/// The shortest and longest retention the settings accept, in days.
pub const MIN_RETENTION_DAYS: i64 = 1;

pub const MAX_RETENTION_DAYS: i64 = 3650;

pub open spec fn valid_appearance(a: Seq<char>) -> bool {
    a == "dark"@ || a == "light"@ || a == "system"@
}

/// No automatic deletion, or deletion after a day count in the accepted range.
pub open spec fn valid_retention(days: Option<i64>) -> bool {
    match days {
        Some(d) => MIN_RETENTION_DAYS <= d <= MAX_RETENTION_DAYS,
        None => true,
    }
}

/// The preferences an update asks for, accepted where the theme is dark,
/// light or system and the retention is off or within range; the theme is
/// checked first.
pub fn checked_preferences(input: CapturePreferencesInput) -> (r: Result<
    CapturePreferences,
    String,
>)
    ensures
        match r {
            Ok(p) => {
                &&& valid_appearance(input.appearance@)
                &&& valid_retention(input.auto_delete_days)
                &&& p.capture_enabled == input.capture_enabled
                &&& p.browser_context_enabled == input.browser_context_enabled
                &&& p.auto_delete_days == input.auto_delete_days
                &&& p.appearance@ == input.appearance@
                &&& p.onboarding_completed == input.onboarding_completed
            },
            Err(e) => if !valid_appearance(input.appearance@) {
                e@ == "Appearance must be dark, light, or system"@
            } else {
                !valid_retention(input.auto_delete_days) && e@
                    == "Auto-delete days must be between 1 and 3650"@
            },
        },
{
    let a = chars_of(input.appearance.as_str());
    if !(eq_str(&a, "dark") || eq_str(&a, "light") || eq_str(&a, "system")) {
        return Err(string_of(&chars_of("Appearance must be dark, light, or system")));
    }
    match input.auto_delete_days {
        Some(days) => {
            if !(MIN_RETENTION_DAYS <= days && days <= MAX_RETENTION_DAYS) {
                return Err(string_of(&chars_of("Auto-delete days must be between 1 and 3650")));
            }
        },
        None => {},
    }
    Ok(
        CapturePreferences {
            capture_enabled: input.capture_enabled,
            browser_context_enabled: input.browser_context_enabled,
            auto_delete_days: input.auto_delete_days,
            appearance: input.appearance,
            onboarding_completed: input.onboarding_completed,
        },
    )
}

/// The stored preferences once onboarding is done: marked completed, with
/// capture as the user chose, the rest unchanged.
pub fn onboarded(current: CapturePreferences, input: CompleteOnboardingInput) -> (r:
    CapturePreferences)
    ensures
        r.onboarding_completed,
        r.capture_enabled == input.capture_enabled,
        r.browser_context_enabled == current.browser_context_enabled,
        r.auto_delete_days == current.auto_delete_days,
        r.appearance@ == current.appearance@,
{
    CapturePreferences {
        capture_enabled: input.capture_enabled,
        browser_context_enabled: current.browser_context_enabled,
        auto_delete_days: current.auto_delete_days,
        appearance: current.appearance,
        onboarding_completed: true,
    }
}

/// The vector table to clear: the registered one, else `clips_embeddings`;
/// refused where the name is not a plain identifier.
pub fn checked_embedding_table(registered: Option<String>) -> (r: Result<String, String>)
    ensures
        ({
            let name = match registered {
                Some(x) => x@,
                None => "clips_embeddings"@,
            };
            match r {
                Ok(t) => t@ == name && spec_valid_identifier(name),
                Err(e) => !spec_valid_identifier(name) && e@ == "Invalid active embedding table"@,
            }
        }),
{
    let table = match registered {
        Some(t) => t,
        None => string_of(&chars_of("clips_embeddings")),
    };
    if valid_identifier(table.as_str()) {
        Ok(table)
    } else {
        Err(string_of(&chars_of("Invalid active embedding table")))
    }
}

} // verus!
