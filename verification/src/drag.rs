//! Applying a drag to a platform: moving its body, or resizing it by a
//! corner/edge handle with the minimum-size clamp.
//!
//! The interaction layer owns the mouse: it decides which platform and
//! handle are grabbed and turns mouse motion into integer deltas.  The
//! geometry update itself — clamped resize arithmetic — lives here.

use vstd::prelude::*;

use crate::geometry::{Corner, Platform};

verus! {

/// The smallest width and height a platform may be resized to.
pub const MIN_PLATFORM_SIZE: i32 = 20;

/// State captured when a drag begins: which platform is grabbed, its
/// geometry at the moment of the grab, and the handle grabbed (`None`
/// when the body is dragged as a whole).  Deltas are always applied to
/// `original_platform`, not to the platform's current geometry, so a
/// drag never accumulates rounding from intermediate frames.
#[derive(Copy, Clone, PartialEq, Eq, Debug)]
pub struct DragState {
    pub platform: usize,
    pub original_platform: Platform,
    pub corner: Option<Corner>,
}

/// One axis of a resize: dragging the low edge (`offset == -1`) moves
/// the origin and shrinks the extent, dragging the high edge
/// (`offset == 1`) grows the extent, and in both cases the delta is
/// clamped so the extent never drops below `MIN_PLATFORM_SIZE`; offset
/// 0 leaves the axis untouched.  Returns `(origin, extent)`.
pub open spec fn drag_axis_spec(origin: i32, extent: i32, offset: i8, d: int) -> (int, int) {
    if offset == -1 {
        let dd = if d > extent - MIN_PLATFORM_SIZE {
            extent - MIN_PLATFORM_SIZE
        } else {
            d
        };
        (origin + dd, extent - dd)
    } else if offset == 1 {
        let dd = if d < -(extent - MIN_PLATFORM_SIZE) {
            -(extent - MIN_PLATFORM_SIZE)
        } else {
            d
        };
        (origin as int, extent + dd)
    } else {
        (origin as int, extent as int)
    }
}

/// The platform geometry `(x, y, w, h)` after applying the drag deltas
/// `(dx, dy)` to the grabbed platform: a body drag translates the
/// origin, a handle drag resizes each axis named by the handle.
pub open spec fn apply_drag_spec(p: Platform, corner: Option<Corner>, dx: int, dy: int) -> (
    int,
    int,
    int,
    int,
) {
    match corner {
        Option::None => (p.x + dx, p.y + dy, p.w as int, p.h as int),
        Option::Some(c) => {
            let (x, w) = drag_axis_spec(p.x, p.w, c.x, dx);
            let (y, h) = drag_axis_spec(p.y, p.h, c.y, dy);
            (x, y, w, h)
        },
    }
}

/// Do the grabbed platform's extents stay far enough from the integer
/// minimum for the resize clamp `extent - MIN_PLATFORM_SIZE` and its
/// negation to be computable on the dragged axes?  A machine limit, not
/// a geometric one: any extent of an on-screen platform satisfies it.
pub open spec fn resize_arith_fits(p: Platform, corner: Option<Corner>) -> bool {
    match corner {
        Option::None => true,
        Option::Some(c) => (c.x != 0 ==> p.w > i32::MIN + MIN_PLATFORM_SIZE) && (c.y != 0
            ==> p.h > i32::MIN + MIN_PLATFORM_SIZE),
    }
}

/// Does the resize result respect the minimum size on every axis the
/// handle drags?  Axes the handle does not touch keep their extent,
/// whatever it was.
pub open spec fn min_size_on_dragged_axes(r: Platform, corner: Option<Corner>) -> bool {
    match corner {
        Option::None => true,
        Option::Some(c) => (c.x != 0 ==> r.w >= MIN_PLATFORM_SIZE) && (c.y != 0 ==> r.h
            >= MIN_PLATFORM_SIZE),
    }
}

/// Apply a drag, given the integer mouse deltas since the grab.  A body
/// drag translates the platform unchanged in size; a handle drag
/// resizes it, and the clamp leaves every dragged axis at least
/// `MIN_PLATFORM_SIZE` long — even one that started below the minimum
/// is pushed back up to it (resize is the only place the minimum-size
/// invariant is enforced).
pub fn apply_drag(drag: &DragState, dx: i32, dy: i32) -> (r: Platform)
    requires
        drag.corner matches Some(c) ==> c.wf(),
        resize_arith_fits(drag.original_platform, drag.corner),
        i32::MIN <= apply_drag_spec(drag.original_platform, drag.corner, dx as int, dy as int).0
            <= i32::MAX,
        i32::MIN <= apply_drag_spec(drag.original_platform, drag.corner, dx as int, dy as int).1
            <= i32::MAX,
        i32::MIN <= apply_drag_spec(drag.original_platform, drag.corner, dx as int, dy as int).2
            <= i32::MAX,
        i32::MIN <= apply_drag_spec(drag.original_platform, drag.corner, dx as int, dy as int).3
            <= i32::MAX,
    ensures
        ({
            let spec = apply_drag_spec(drag.original_platform, drag.corner, dx as int, dy as int);
            r.x == spec.0 && r.y == spec.1 && r.w == spec.2 && r.h == spec.3
        }),
        min_size_on_dragged_axes(r, drag.corner),
{
    let mut p = drag.original_platform;
    let mut ddx = dx;
    let mut ddy = dy;
    match drag.corner {
        Option::Some(corner) => {
            if corner.x == -1 {
                if ddx > p.w - MIN_PLATFORM_SIZE {
                    ddx = p.w - MIN_PLATFORM_SIZE;
                }
                p.x = p.x + ddx;
                p.w = p.w - ddx;
            } else if corner.x == 1 {
                if ddx < -(p.w - MIN_PLATFORM_SIZE) {
                    ddx = -(p.w - MIN_PLATFORM_SIZE);
                }
                p.w = p.w + ddx;
            }
            if corner.y == -1 {
                if ddy > p.h - MIN_PLATFORM_SIZE {
                    ddy = p.h - MIN_PLATFORM_SIZE;
                }
                p.y = p.y + ddy;
                p.h = p.h - ddy;
            } else if corner.y == 1 {
                if ddy < -(p.h - MIN_PLATFORM_SIZE) {
                    ddy = -(p.h - MIN_PLATFORM_SIZE);
                }
                p.h = p.h + ddy;
            }
        },
        Option::None => {
            p.x = p.x + ddx;
            p.y = p.y + ddy;
        },
    }
    p
}

} // verus!
