//! The stage the memory has grown to.

use vstd::prelude::*;

verus! {

/// `archivor` from 200 clips over 5 sessions, `bindor` from 50 clips,
/// `clippy` before that.
pub open spec fn spec_memory_stage(clips: i64, sessions: i64) -> Seq<char> {
    if clips >= 200 && sessions >= 5 {
        "archivor"@
    } else if clips >= 50 {
        "bindor"@
    } else {
        "clippy"@
    }
}

pub fn memory_stage(clips: i64, sessions: i64) -> (r: &'static str)
    ensures
        r@ == spec_memory_stage(clips, sessions),
{
    if clips >= 200 && sessions >= 5 {
        "archivor"
    } else if clips >= 50 {
        "bindor"
    } else {
        "clippy"
    }
}

} // verus!
