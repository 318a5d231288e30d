//! Where the search popup opens: next to the cursor, kept on its monitor.

use vstd::prelude::*;

verus! {

/// Gap between the popup and the cursor or the monitor's edge, in pixels.
pub const POPUP_MARGIN: i32 = 16;

/// The popup's size when the window cannot report one.
pub const DEFAULT_POPUP_WIDTH: i32 = 600;

pub const DEFAULT_POPUP_HEIGHT: i32 = 400;

/// `v` held between `lo` and `hi` (with `lo <= hi`).
pub open spec fn clamp_int(v: int, lo: int, hi: int) -> int {
    if v < lo {
        lo
    } else if v > hi {
        hi
    } else {
        v
    }
}

/// One coordinate of the popup: a margin past the cursor, but no nearer the
/// monitor's far edge than the margin, nor before its near edge plus the
/// margin; the near edge wins where the monitor is too small.
pub open spec fn spec_popup_coordinate(cursor: int, origin: int, extent: int, popup: int) -> int {
    let lo = origin + POPUP_MARGIN;
    let max = origin + extent - popup - POPUP_MARGIN;
    clamp_int(
        cursor + POPUP_MARGIN,
        lo,
        if max >= lo {
            max
        } else {
            lo
        },
    )
}

/// The values of one coordinate for which every step stays within `i32`.
pub open spec fn coordinate_fits(cursor: int, origin: int, extent: int, popup: int) -> bool {
    &&& i32::MIN <= cursor + POPUP_MARGIN <= i32::MAX
    &&& i32::MIN <= origin + POPUP_MARGIN <= i32::MAX
    &&& i32::MIN <= origin + extent <= i32::MAX
    &&& i32::MIN <= origin + extent - popup <= i32::MAX
    &&& i32::MIN <= origin + extent - popup - POPUP_MARGIN <= i32::MAX
}

fn coordinate(cursor: i32, origin: i32, extent: i32, popup: i32) -> (r: i32)
    requires
        coordinate_fits(cursor as int, origin as int, extent as int, popup as int),
    ensures
        r == spec_popup_coordinate(cursor as int, origin as int, extent as int, popup as int),
{
    let lo = origin + POPUP_MARGIN;
    let max = origin + extent - popup - POPUP_MARGIN;
    let hi = if max >= lo {
        max
    } else {
        lo
    };
    let v = cursor + POPUP_MARGIN;
    if v < lo {
        lo
    } else if v > hi {
        hi
    } else {
        v
    }
}

/// The popup's top-left corner for a cursor at (`cursor_x`, `cursor_y`) on a
/// monitor at (`origin_x`, `origin_y`) of the given size.
pub fn popup_position(
    cursor_x: i32,
    cursor_y: i32,
    origin_x: i32,
    origin_y: i32,
    monitor_width: i32,
    monitor_height: i32,
    popup_width: i32,
    popup_height: i32,
) -> (r: (i32, i32))
    requires
        coordinate_fits(cursor_x as int, origin_x as int, monitor_width as int, popup_width as int),
        coordinate_fits(cursor_y as int, origin_y as int, monitor_height as int, popup_height as int),
    ensures
        r.0 == spec_popup_coordinate(
            cursor_x as int,
            origin_x as int,
            monitor_width as int,
            popup_width as int,
        ),
        r.1 == spec_popup_coordinate(
            cursor_y as int,
            origin_y as int,
            monitor_height as int,
            popup_height as int,
        ),
{
    (
        coordinate(cursor_x, origin_x, monitor_width, popup_width),
        coordinate(cursor_y, origin_y, monitor_height, popup_height),
    )
}

/// The popup never starts before its monitor's edge plus the margin, and
/// where the monitor has room for it, it ends at least the margin before
/// the far edge.
pub proof fn lemma_popup_stays_on_monitor(cursor: int, origin: int, extent: int, popup: int)
    ensures
        spec_popup_coordinate(cursor, origin, extent, popup) >= origin + POPUP_MARGIN,
        origin + extent - popup - POPUP_MARGIN >= origin + POPUP_MARGIN ==> spec_popup_coordinate(
            cursor,
            origin,
            extent,
            popup,
        ) + popup + POPUP_MARGIN <= origin + extent,
{
}

} // verus!
