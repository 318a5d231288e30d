//! The rank bands over which click-through is reported.

use vstd::prelude::*;

verus! {

/// Result positions in bands: 1 to 3, 4 to 5, 6 to 10, and 11 on.
pub fn position_bands() -> (r: Vec<(&'static str, i64, i64)>)
    ensures
        r@ == seq![("1-3", 1i64, 3i64), ("4-5", 4i64, 5i64), ("6-10", 6i64, 10i64), ("11+", 11i64, i64::MAX)],
{
    let mut v: Vec<(&'static str, i64, i64)> = Vec::new();
    v.push(("1-3", 1, 3));
    v.push(("4-5", 4, 5));
    v.push(("6-10", 6, 10));
    v.push(("11+", 11, i64::MAX));
    assert(v@ =~= seq![("1-3", 1i64, 3i64), ("4-5", 4i64, 5i64), ("6-10", 6i64, 10i64), ("11+", 11i64, i64::MAX)]);
    v
}

} // verus!
