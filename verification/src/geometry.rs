//! Geometry primitives: platforms, flags, corner handles, and the tagged
//! union of level elements with a uniform bounding box.

use vstd::prelude::*;

verus! {

/// Side length of the implicit square bounding box of a start or end flag.
pub const FLAG_SIZE: i32 = 32;

/// An axis-aligned rectangular platform: integer origin `(x, y)` and
/// integer extent `(w, h)`.  The y axis grows downward (screen
/// convention), so a larger `y` is lower on screen.
#[derive(Copy, Clone, PartialEq, Eq, Structural, Debug)]
pub struct Platform {
    pub x: i32,
    pub y: i32,
    pub w: i32,
    pub h: i32,
}

/// The level's entry marker, with an implicit 32x32 bounding box.
#[derive(Copy, Clone, PartialEq, Eq, Structural, Debug)]
pub struct StartFlag {
    pub x: i32,
    pub y: i32,
}

/// The level's goal marker, with an implicit 32x32 bounding box.
#[derive(Copy, Clone, PartialEq, Eq, Structural, Debug)]
pub struct EndFlag {
    pub x: i32,
    pub y: i32,
}

/// A level element: a platform or one of the two flags, treated uniformly
/// wherever only a bounding box is needed.  A value type: edges and the
/// solver work on copies, never on aliases of mutable platform state.
#[derive(Copy, Clone, PartialEq, Eq, Structural, Debug)]
pub enum Element {
    Plat(Platform),
    Start(StartFlag),
    End(EndFlag),
}

/// A symbolic corner or edge-midpoint offset of a platform: each axis
/// holds -1 (near edge), 0 (midpoint) or 1 (far edge).
#[derive(Copy, Clone, PartialEq, Eq, Structural, Debug)]
pub struct Corner {
    pub x: i8,
    pub y: i8,
}

impl Corner {
    /// A well-formed corner offset lies in `{-1,0,1}²` and is not `(0,0)`.
    pub open spec fn wf(self) -> bool {
        -1 <= self.x <= 1 && -1 <= self.y <= 1 && !(self.x == 0 && self.y == 0)
    }
}

/// Halve an integer rounding toward zero, as Rust's `/ 2` does on `i32`.
pub open spec fn half_trunc(a: int) -> int {
    if a >= 0 {
        a / 2
    } else {
        -((-a) / 2)
    }
}

/// The coordinate of a corner handle along one axis:
/// `origin + (1 + offset) * extent / 2` with truncating division, so that
/// offset 0 names the (rounded-toward-zero) midpoint and ±1 the two edges.
pub open spec fn corner_coord(origin: int, offset: int, extent: int) -> int {
    origin + half_trunc((1 + offset) * extent)
}

impl Platform {
    /// The x coordinate of the named corner/edge-midpoint handle.
    pub fn corner_x(&self, corner: &Corner) -> (r: i32)
        requires
            corner.wf(),
            i32::MIN <= (1 + corner.x as int) * self.w as int <= i32::MAX,
            i32::MIN <= corner_coord(self.x as int, corner.x as int, self.w as int) <= i32::MAX,
        ensures
            r as int == corner_coord(self.x as int, corner.x as int, self.w as int),
    {
        self.x + (1 + corner.x as i32) * self.w / 2
    }

    /// The y coordinate of the named corner/edge-midpoint handle.
    pub fn corner_y(&self, corner: &Corner) -> (r: i32)
        requires
            corner.wf(),
            i32::MIN <= (1 + corner.y as int) * self.h as int <= i32::MAX,
            i32::MIN <= corner_coord(self.y as int, corner.y as int, self.h as int) <= i32::MAX,
        ensures
            r as int == corner_coord(self.y as int, corner.y as int, self.h as int),
    {
        self.y + (1 + corner.y as i32) * self.h / 2
    }
}

/// The bounding box `(x, y, w, h)` of an element: a platform is its own
/// rectangle, a flag a 32x32 square at its position.
pub open spec fn bounds_spec(e: Element) -> (i32, i32, i32, i32) {
    match e {
        Element::Plat(p) => (p.x, p.y, p.w, p.h),
        Element::Start(s) => (s.x, s.y, FLAG_SIZE, FLAG_SIZE),
        Element::End(f) => (f.x, f.y, FLAG_SIZE, FLAG_SIZE),
    }
}

/// The bounding box `(x, y, w, h)` of an element.
pub fn bounds(e: &Element) -> (r: (i32, i32, i32, i32))
    ensures
        r == bounds_spec(*e),
{
    match *e {
        Element::Plat(p) => (p.x, p.y, p.w, p.h),
        Element::Start(s) => (s.x, s.y, FLAG_SIZE, FLAG_SIZE),
        Element::End(f) => (f.x, f.y, FLAG_SIZE, FLAG_SIZE),
    }
}

/// The eight corner/edge-midpoint offsets, in a fixed enumeration order.
pub fn all_corners() -> (r: Vec<Corner>)
    ensures
        r@.len() == 8,
        forall|i: int| 0 <= i < 8 ==> #[trigger] r@[i].wf(),
        forall|c: Corner| c.wf() ==> r@.contains(c),
        r@[0] == (Corner { x: -1i8, y: -1i8 }),
        r@[1] == (Corner { x: -1i8, y: 0i8 }),
        r@[2] == (Corner { x: -1i8, y: 1i8 }),
        r@[3] == (Corner { x: 0i8, y: -1i8 }),
        r@[4] == (Corner { x: 0i8, y: 1i8 }),
        r@[5] == (Corner { x: 1i8, y: -1i8 }),
        r@[6] == (Corner { x: 1i8, y: 0i8 }),
        r@[7] == (Corner { x: 1i8, y: 1i8 }),
{
    let mut v: Vec<Corner> = Vec::new();
    v.push(Corner { x: -1, y: -1 });
    v.push(Corner { x: -1, y: 0 });
    v.push(Corner { x: -1, y: 1 });
    v.push(Corner { x: 0, y: -1 });
    v.push(Corner { x: 0, y: 1 });
    v.push(Corner { x: 1, y: -1 });
    v.push(Corner { x: 1, y: 0 });
    v.push(Corner { x: 1, y: 1 });
    proof {
        assert forall|c: Corner| c.wf() implies v@.contains(c) by {
            if c == (Corner { x: -1i8, y: -1i8 }) {
                assert(v@[0] == c);
            } else if c == (Corner { x: -1i8, y: 0i8 }) {
                assert(v@[1] == c);
            } else if c == (Corner { x: -1i8, y: 1i8 }) {
                assert(v@[2] == c);
            } else if c == (Corner { x: 0i8, y: -1i8 }) {
                assert(v@[3] == c);
            } else if c == (Corner { x: 0i8, y: 1i8 }) {
                assert(v@[4] == c);
            } else if c == (Corner { x: 1i8, y: -1i8 }) {
                assert(v@[5] == c);
            } else if c == (Corner { x: 1i8, y: 0i8 }) {
                assert(v@[6] == c);
            } else {
                assert(c == (Corner { x: 1i8, y: 1i8 }));
                assert(v@[7] == c);
            }
        }
    }
    v
}

} // verus!
