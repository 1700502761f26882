//! Screen work-area bounds and anchored placement of the preview window.

use vstd::prelude::*;

use crate::commands::capture::PreviewPosition;

verus! {

/// Usable desktop rectangle (excludes taskbar when reported by the OS).
#[derive(Debug, Clone, Copy, PartialEq, Eq, Structural)]
pub struct ScreenBounds {
    pub x: i32,
    pub y: i32,
    pub width: u32,
    pub height: u32,
}

/// Where an anchor puts the window along one axis.
pub enum AxisAlign {
    Start,
    Middle,
    End,
}

/// Spec: horizontal alignment of an anchor.
pub open spec fn horizontal_align(anchor: PreviewPosition) -> AxisAlign {
    match anchor {
        PreviewPosition::TopLeft | PreviewPosition::CenterLeft | PreviewPosition::BottomLeft => {
            AxisAlign::Start
        },
        PreviewPosition::TopCenter | PreviewPosition::Center | PreviewPosition::BottomCenter => {
            AxisAlign::Middle
        },
        _ => AxisAlign::End,
    }
}

/// Spec: vertical alignment of an anchor.
pub open spec fn vertical_align(anchor: PreviewPosition) -> AxisAlign {
    match anchor {
        PreviewPosition::TopLeft | PreviewPosition::TopCenter | PreviewPosition::TopRight => {
            AxisAlign::Start
        },
        PreviewPosition::CenterLeft | PreviewPosition::Center | PreviewPosition::CenterRight => {
            AxisAlign::Middle
        },
        _ => AxisAlign::End,
    }
}

/// Spec: room left over along an axis of length `extent` for a window of `size`.
pub open spec fn free_space(extent: int, size: int) -> int {
    if size < extent {
        extent - size
    } else {
        0
    }
}

/// Spec: offset of the window inside the free room for an alignment.
pub open spec fn aligned_offset(free: int, align: AxisAlign) -> int {
    match align {
        AxisAlign::Start => 0,
        AxisAlign::Middle => free / 2,
        AxisAlign::End => free,
    }
}

/// Spec: coordinate of the window's leading edge along one axis: the aligned
/// offset, kept at or before `start + extent - size` and never before `start`.
pub open spec fn placed_coordinate(start: int, extent: int, size: int, align: AxisAlign) -> int {
    let wanted = start + aligned_offset(free_space(extent, size), align);
    let last = start + extent - size;
    let clamped = if wanted < last {
        wanted
    } else {
        last
    };
    if clamped < start {
        start
    } else {
        clamped
    }
}

/// Spec: the sums the placement computes in `i32` stay in range.
pub open spec fn placement_fits_i32(start: i32, extent: u32, size: u32) -> bool {
    &&& extent <= i32::MAX
    &&& size <= i32::MAX
    &&& start + extent <= i32::MAX
    &&& start + extent - size >= i32::MIN
}

fn place_on_axis(start: i32, extent: u32, size: u32, align: AxisAlign) -> (r: i32)
    requires
        placement_fits_i32(start, extent, size),
    ensures
        r == placed_coordinate(start as int, extent as int, size as int, align),
{
    let extent_i = extent as i32;
    let size_i = size as i32;
    let free: i32 = if size < extent {
        extent_i - size_i
    } else {
        0
    };
    let offset: i32 = match align {
        AxisAlign::Start => 0,
        AxisAlign::Middle => free / 2,
        AxisAlign::End => free,
    };
    let wanted = start + offset;
    let last = start + extent_i - size_i;
    let clamped = if wanted < last {
        wanted
    } else {
        last
    };
    if clamped < start {
        start
    } else {
        clamped
    }
}

fn horizontal_align_exec(anchor: PreviewPosition) -> (r: AxisAlign)
    ensures
        r == horizontal_align(anchor),
{
    match anchor {
        PreviewPosition::TopLeft | PreviewPosition::CenterLeft | PreviewPosition::BottomLeft => {
            AxisAlign::Start
        },
        PreviewPosition::TopCenter | PreviewPosition::Center | PreviewPosition::BottomCenter => {
            AxisAlign::Middle
        },
        _ => AxisAlign::End,
    }
}

fn vertical_align_exec(anchor: PreviewPosition) -> (r: AxisAlign)
    ensures
        r == vertical_align(anchor),
{
    match anchor {
        PreviewPosition::TopLeft | PreviewPosition::TopCenter | PreviewPosition::TopRight => {
            AxisAlign::Start
        },
        PreviewPosition::CenterLeft | PreviewPosition::Center | PreviewPosition::CenterRight => {
            AxisAlign::Middle
        },
        _ => AxisAlign::End,
    }
}

/// Spec: where a fitting window of width `w` stands across an area starting
/// at `x` and `width` wide, for `anchor`: left anchors at the left edge,
/// right anchors flush with the right edge, centre anchors in the middle.
pub open spec fn anchored_x_on_side(x: int, width: int, w: int, anchor: PreviewPosition, at: int) -> bool {
    match anchor {
        PreviewPosition::TopLeft | PreviewPosition::CenterLeft | PreviewPosition::BottomLeft => at
            == x,
        PreviewPosition::TopRight | PreviewPosition::CenterRight | PreviewPosition::BottomRight => at
            + w == x + width,
        _ => at == x + (width - w) / 2,
    }
}

/// Spec: where a fitting window of height `h` stands down an area starting
/// at `y` and `height` tall, for `anchor`: top anchors at the top edge,
/// bottom anchors flush with the bottom edge, centre anchors in the middle.
pub open spec fn anchored_y_on_side(y: int, height: int, h: int, anchor: PreviewPosition, at: int) -> bool {
    match anchor {
        PreviewPosition::TopLeft | PreviewPosition::TopCenter | PreviewPosition::TopRight => at
            == y,
        PreviewPosition::BottomLeft | PreviewPosition::BottomCenter | PreviewPosition::BottomRight => at
            + h == y + height,
        _ => at == y + (height - h) / 2,
    }
}

/// A window that fits is placed on the side its anchor names: left anchors
/// at the left edge, right anchors flush with the right edge, top anchors at
/// the top, bottom anchors flush with the bottom, centre anchors halfway.
pub proof fn law_anchor_sides(
    x: int,
    width: int,
    w: int,
    y: int,
    height: int,
    h: int,
    anchor: PreviewPosition,
)
    requires
        0 <= w,
        0 <= h,
    ensures
        w <= width ==> anchored_x_on_side(
            x,
            width,
            w,
            anchor,
            placed_coordinate(x, width, w, horizontal_align(anchor)),
        ),
        h <= height ==> anchored_y_on_side(
            y,
            height,
            h,
            anchor,
            placed_coordinate(y, height, h, vertical_align(anchor)),
        ),
{
    if w <= width {
        assert(0 <= (width - w) / 2 <= width - w);
    }
    if h <= height {
        assert(0 <= (height - h) / 2 <= height - h);
    }
}

/// Compute top-left position for a window of `window_width` x `window_height`
/// (outer frame) anchored at `anchor` inside `bounds`.
pub fn anchored_window_position(
    bounds: &ScreenBounds,
    window_width: u32,
    window_height: u32,
    anchor: PreviewPosition,
) -> (r: (isize, isize))
    requires
        placement_fits_i32(bounds.x, bounds.width, window_width),
        placement_fits_i32(bounds.y, bounds.height, window_height),
    ensures
        r.0 == placed_coordinate(
            bounds.x as int,
            bounds.width as int,
            window_width as int,
            horizontal_align(anchor),
        ),
        r.1 == placed_coordinate(
            bounds.y as int,
            bounds.height as int,
            window_height as int,
            vertical_align(anchor),
        ),
        window_width <= bounds.width ==> anchored_x_on_side(
            bounds.x as int,
            bounds.width as int,
            window_width as int,
            anchor,
            r.0 as int,
        ),
        window_height <= bounds.height ==> anchored_y_on_side(
            bounds.y as int,
            bounds.height as int,
            window_height as int,
            anchor,
            r.1 as int,
        ),
{
    proof {
        law_anchor_sides(
            bounds.x as int,
            bounds.width as int,
            window_width as int,
            bounds.y as int,
            bounds.height as int,
            window_height as int,
            anchor,
        );
    }
    let x = place_on_axis(bounds.x, bounds.width, window_width, horizontal_align_exec(anchor));
    let y = place_on_axis(bounds.y, bounds.height, window_height, vertical_align_exec(anchor));
    (x as isize, y as isize)
}

/// A window that fits inside the work area is placed entirely inside it;
/// one that does not fit starts at the work area's edge.
pub proof fn law_anchored_window_within_bounds(
    start: int,
    extent: int,
    size: int,
    align: AxisAlign,
)
    requires
        0 <= extent,
        0 <= size,
    ensures
        size <= extent ==> start <= placed_coordinate(start, extent, size, align)
            && placed_coordinate(start, extent, size, align) + size <= start + extent,
        size > extent ==> placed_coordinate(start, extent, size, align) == start,
{
}

/// Centred anchors split the free room evenly (rounding toward the start).
pub proof fn law_centered_anchor_splits_free_space(start: int, extent: int, size: int)
    requires
        0 <= size <= extent,
    ensures
        placed_coordinate(start, extent, size, AxisAlign::Middle) == start + (extent - size) / 2,
{
}

} // verus!
