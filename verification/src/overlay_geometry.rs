//! Screen-rect/cursor placement math for the borderless wedge-menu overlay
//! window, kept independent of any windowing system.
use vstd::prelude::*;

verus! {

/// A screen-space rectangle, e.g. the bounding box of a file icon.
#[derive(Clone, Copy, Debug, PartialEq, Eq, Structural)]
pub struct ScreenRect {
    /// X coordinate of the left edge.
    pub left: i32,
    /// Y coordinate of the top edge.
    pub top: i32,
    /// X coordinate of the right edge.
    pub right: i32,
    /// Y coordinate of the bottom edge.
    pub bottom: i32,
}

/// Integer division of `x` by a positive `y`, rounding towards zero, as
/// machine division on signed integers does.
pub open spec fn trunc_div(x: int, y: int) -> int {
    if x >= 0 {
        x / y
    } else {
        -((-x) / y)
    }
}

/// The corner sums of `r` fit in an `i32`.
pub open spec fn center_fits(r: ScreenRect) -> bool {
    i32::MIN <= r.left + r.right <= i32::MAX && i32::MIN <= r.top + r.bottom <= i32::MAX
}

/// The midpoint of `r`, each coordinate rounded down (towards the
/// top-left) when the sum of its edges is odd.
pub open spec fn spec_center(r: ScreenRect) -> (int, int) {
    ((r.left + r.right) / 2, (r.top + r.bottom) / 2)
}

/// Halves `x` rounding down.
fn half_down(x: i32) -> (r: i32)
    ensures
        r == (x as int) / 2,
{
    let q = x / 2;
    if x < 0 && x % 2 != 0 {
        q - 1
    } else {
        q
    }
}

/// Halves `x` rounding towards zero.
fn half(x: i32) -> (r: i32)
    ensures
        r == trunc_div(x as int, 2),
{
    x / 2
}

impl ScreenRect {
    /// Midpoint of the rectangle, rounded towards the top-left on odd
    /// dimensions.
    pub fn center(&self) -> (r: (i32, i32))
        requires
            center_fits(*self),
        ensures
            r.0 == spec_center(*self).0,
            r.1 == spec_center(*self).1,
    {
        (half_down(self.left + self.right), half_down(self.top + self.bottom))
    }
}

/// The point the overlay is centered on: the item's center when known,
/// otherwise the cursor.
pub open spec fn anchor(item_rect: Option<ScreenRect>, cursor: (i32, i32)) -> (int, int) {
    match item_rect {
        Some(r) => spec_center(r),
        None => (cursor.0 as int, cursor.1 as int),
    }
}

/// Top-left corner of an overlay of `size` centered on `anchor`.
pub open spec fn spec_overlay_position(
    item_rect: Option<ScreenRect>,
    cursor: (i32, i32),
    size: (i32, i32),
) -> (int, int) {
    let a = anchor(item_rect, cursor);
    (a.0 - trunc_div(size.0 as int, 2), a.1 - trunc_div(size.1 as int, 2))
}

/// The placement arithmetic stays within `i32`.
pub open spec fn overlay_fits(item_rect: Option<ScreenRect>, cursor: (i32, i32), size: (i32, i32)) -> bool {
    &&& match item_rect {
        Some(r) => center_fits(r),
        None => true,
    }
    &&& i32::MIN <= spec_overlay_position(item_rect, cursor, size).0 <= i32::MAX
    &&& i32::MIN <= spec_overlay_position(item_rect, cursor, size).1 <= i32::MAX
}

/// Top-left position for the wedge-menu overlay window: centered on the
/// selected file's icon when its rect is known, otherwise on the cursor.
pub fn overlay_position(
    item_rect: Option<ScreenRect>,
    cursor: (i32, i32),
    overlay_size: (i32, i32),
) -> (r: (i32, i32))
    requires
        overlay_fits(item_rect, cursor, overlay_size),
    ensures
        r.0 == spec_overlay_position(item_rect, cursor, overlay_size).0,
        r.1 == spec_overlay_position(item_rect, cursor, overlay_size).1,
{
    let (cx, cy) = match item_rect {
        Some(rect) => rect.center(),
        None => cursor,
    };
    (cx - half(overlay_size.0), cy - half(overlay_size.1))
}

} // verus!
