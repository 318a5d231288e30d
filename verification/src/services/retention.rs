//! When old clips are deleted automatically.

use vstd::prelude::*;

use crate::commands::settings::MAX_RETENTION_DAYS;
use crate::commands::settings::MIN_RETENTION_DAYS;
use crate::services::watcher::saturating_sub_i64;

verus! {

/// Milliseconds in a day.
pub const DAY_MS: i64 = 86_400_000;

/// The copy time before which unpinned clips are deleted: `days` days before
/// `now_ms`, held at `i64::MIN`; none where retention is off or the stored
/// day count is out of range, so that a bad setting deletes nothing.
pub open spec fn spec_retention_cutoff(days: Option<i64>, now_ms: i64) -> Option<int> {
    match days {
        Some(d) => if MIN_RETENTION_DAYS <= d <= MAX_RETENTION_DAYS {
            Some(saturating_sub_i64(now_ms, (d * DAY_MS) as i64))
        } else {
            None
        },
        None => None,
    }
}

pub fn retention_cutoff(days: Option<i64>, now_ms: i64) -> (r: Option<i64>)
    ensures
        match r {
            Some(c) => spec_retention_cutoff(days, now_ms) == Some(c as int),
            None => spec_retention_cutoff(days, now_ms) is None,
        },
{
    let d = match days {
        Some(d) => d,
        None => return None,
    };
    if !(MIN_RETENTION_DAYS <= d && d <= MAX_RETENTION_DAYS) {
        return None;
    }
    let span: i64 = d * DAY_MS;
    match now_ms.checked_sub(span) {
        Some(c) => Some(c),
        None => Some(i64::MIN),
    }
}

/// Retention never deletes a clip younger than its day count: a clip copied
/// within the last `d` days is not before the cutoff.
pub proof fn lemma_recent_clips_survive(d: i64, now_ms: i64, copied_at: i64)
    requires
        now_ms - copied_at <= d * DAY_MS,
    ensures
        spec_retention_cutoff(Some(d), now_ms) matches Some(c) ==> !(copied_at < c),
{
}

/// With retention off, or a day count out of range, nothing is deleted.
pub proof fn lemma_no_cutoff_without_valid_days(days: Option<i64>, now_ms: i64)
    requires
        match days {
            Some(d) => !(MIN_RETENTION_DAYS <= d <= MAX_RETENTION_DAYS),
            None => true,
        },
    ensures
        spec_retention_cutoff(days, now_ms) is None,
{
}

} // verus!
