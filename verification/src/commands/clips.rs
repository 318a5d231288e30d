//! Paging through the clip history.

use vstd::prelude::*;

verus! {

/// Clips per page when the shell does not say.
pub const DEFAULT_PAGE_SIZE: u32 = 50;

/// The `LIMIT` and `OFFSET` of a history page: pages count from 1 (a page
/// of 0 is read as 1), fifty clips to a page unless the shell says otherwise.
pub open spec fn spec_page_window(page: Option<u32>, page_size: Option<u32>) -> (int, int) {
    let limit: int = match page_size {
        Some(s) => s as int,
        None => DEFAULT_PAGE_SIZE as int,
    };
    let p: int = match page {
        Some(p) => if p >= 1 {
            p as int
        } else {
            1
        },
        None => 1,
    };
    (limit, (p - 1) * limit)
}

pub fn page_window(page: Option<u32>, page_size: Option<u32>) -> (r: (i64, i64))
    requires
        spec_page_window(page, page_size).1 <= i64::MAX,
    ensures
        (r.0 as int, r.1 as int) == spec_page_window(page, page_size),
{
    let limit: u32 = match page_size {
        Some(s) => s,
        None => DEFAULT_PAGE_SIZE,
    };
    let p: u32 = match page {
        Some(p) => if p >= 1 {
            p
        } else {
            1
        },
        None => 1,
    };
    let index: i64 = (p - 1) as i64;
    let size: i64 = limit as i64;
    assert(0 <= index * size) by (nonlinear_arith)
        requires
            0 <= index,
            0 <= size,
    ;
    (size, index * size)
}

/// Pages follow on from each other: the next page starts where this one
/// ends, so no clip is shown twice or skipped.
pub proof fn lemma_pages_follow_on(page: u32, page_size: Option<u32>)
    requires
        1 <= page < u32::MAX,
    ensures
        spec_page_window(Some((page + 1) as u32), page_size).1 == spec_page_window(
            Some(page),
            page_size,
        ).1 + spec_page_window(Some(page), page_size).0,
{
    let limit: int = spec_page_window(Some(page), page_size).0;
    assert((page + 1 - 1) * limit == (page - 1) * limit + limit) by (nonlinear_arith);
}

} // verus!
