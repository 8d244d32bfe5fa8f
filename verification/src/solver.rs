//! Ballistic jump feasibility: can a jump under fixed gravity connect two
//! level elements?
//!
//! The solver considers the launch with maximum vertical speed `VY` from
//! element 1 and asks for a real flight time `t` solving
//! `G·t² + VY·t + C = 0`, where `C = y2 - y1` is the required vertical
//! displacement (y grows downward, so a jump up has negative `C`).  With
//! the discriminant `disc = VY² - 4·G·C`, the later root is
//! `t = (VY + √disc) / (-2·G)`, and the jump is feasible iff `disc ≥ 0`
//! and the horizontal gap satisfies `gap ≤ VX·t`.  All of this is decided
//! exactly in integer arithmetic: multiplying `gap ≤ VX·t` through by
//! `-2·G > 0` and squaring turns it into the radical-free condition
//! checked by `within_horizontal_reach`.  Because `VY > 0` and `G < 0`,
//! the later root is at least `VY/(-2·G)` and so always positive: once
//! the discriminant is nonnegative there is a genuine flight time, and
//! no separate guard on its sign is needed.
//!
//! This is a deliberately coarse overapproximation: it ignores horizontal
//! acceleration, interpenetration with either endpoint, and any third
//! platform blocking the path; only platform pairs are connected (flags
//! yield no edges yet).

use vstd::prelude::*;

use crate::geometry::{bounds, bounds_spec, Element};
use crate::geometry::Platform;

verus! {

/// Gravitational acceleration `G`, in units per second squared: the
/// quadratic coefficient of the flight-time equation `G·t² + VY·t + C = 0`.
pub const GRAVITY: i32 = -400;

/// Maximum vertical launch speed, in units per second.
pub const MAX_VERTICAL_SPEED: i32 = 400;

/// Maximum horizontal speed, in units per second.
pub const MAX_HORIZONTAL_SPEED: i32 = 200;

/// The assumption set under which a computed edge holds.  Today the
/// solver models no co-occurring obstacles or launch-speed choices, so
/// the only assumption set it emits is the trivial one; the enum is the
/// extension point for richer preconditions (a clear path, a velocity
/// window) without changing the edge representation.
#[derive(Copy, Clone, PartialEq, Eq, Structural, Debug)]
pub enum Constraints {
    Unconditional,
}

/// Discriminant of `G·t² + VY·t + c = 0`: `VY² - 4·G·c`.
pub open spec fn discriminant(c: int) -> int {
    MAX_VERTICAL_SPEED * MAX_VERTICAL_SPEED - 4 * GRAVITY * c
}

/// Least horizontal distance between the x-ranges `[x1, x1+w1]` and
/// `[x2, x2+w2]` of the two bounding boxes: 0 when they overlap.
pub open spec fn horizontal_gap(e1: Element, e2: Element) -> int {
    let (x1, _y1, w1, _h1) = bounds_spec(e1);
    let (x2, _y2, w2, _h2) = bounds_spec(e2);
    let max_of_mins = if x1 >= x2 {
        x1 as int
    } else {
        x2 as int
    };
    let min_of_maxes = if x1 + w1 <= x2 + w2 {
        x1 + w1
    } else {
        x2 + w2
    };
    if max_of_mins <= min_of_maxes {
        0
    } else {
        max_of_mins - min_of_maxes
    }
}

/// Does `gap ≤ VX·t` hold for the flight time `t = (VY + √disc)/(-2·G)`?
/// Stated without the radical: multiplying by `-2·G > 0` gives
/// `-2·G·gap - VX·VY ≤ VX·√disc`, which (for `disc ≥ 0`) holds iff the
/// left side is nonpositive or its square is at most `VX²·disc`.
pub open spec fn within_horizontal_reach(gap: int, disc: int) -> bool {
    let q = (-2 * GRAVITY) * gap - MAX_HORIZONTAL_SPEED * MAX_VERTICAL_SPEED;
    q <= 0 || q * q <= MAX_HORIZONTAL_SPEED * MAX_HORIZONTAL_SPEED * disc
}

/// Feasibility of a jump from platform `p1` to platform `p2`: the
/// discriminant must be nonnegative (the required rise is within the
/// apex of the maximum-speed launch) and the horizontal gap must be
/// coverable within the flight time.
pub open spec fn platform_jump_feasible(p1: Platform, p2: Platform) -> bool {
    let c = p2.y - p1.y;
    let disc = discriminant(c);
    disc >= 0 && within_horizontal_reach(
        horizontal_gap(Element::Plat(p1), Element::Plat(p2)),
        disc,
    )
}

/// Feasibility of a jump from element `e1` to element `e2`: only
/// platform pairs are connected in the current scope; any pair involving
/// a flag yields no edge.
pub open spec fn jump_feasible(e1: Element, e2: Element) -> bool {
    match e1 {
        Element::Plat(p1) => match e2 {
            Element::Plat(p2) => platform_jump_feasible(p1, p2),
            _ => false,
        },
        _ => false,
    }
}

/// The assumption sets under which `e1` can reach `e2`: one trivial set
/// when the jump is feasible, none otherwise.
pub open spec fn direct_edge_constraints(e1: Element, e2: Element) -> Seq<Constraints> {
    if jump_feasible(e1, e2) {
        seq![Constraints::Unconditional]
    } else {
        Seq::empty()
    }
}

/// Decide whether a ballistic jump can connect `e1` to `e2`, returning
/// the satisfied assumption sets: exactly one (trivial) set when the
/// jump is feasible, none otherwise.  Infeasibility is the normal empty
/// result, not an error.
pub fn find_direct_edges(e1: &Element, e2: &Element) -> (r: Vec<Constraints>)
    ensures
        r@ == direct_edge_constraints(*e1, *e2),
{
    let mut r: Vec<Constraints> = Vec::new();
    match *e1 {
        Element::Plat(_) => {},
        _ => {
            assert(r@ =~= direct_edge_constraints(*e1, *e2));
            return r;
        },
    }
    match *e2 {
        Element::Plat(_) => {},
        _ => {
            assert(r@ =~= direct_edge_constraints(*e1, *e2));
            return r;
        },
    }
    let (x1, y1, w1, _h1) = bounds(e1);
    let (x2, y2, w2, _h2) = bounds(e2);
    let c: i64 = y2 as i64 - y1 as i64;
    let vy: i64 = MAX_VERTICAL_SPEED as i64;
    let g4: i64 = 4 * (GRAVITY as i64);
    proof {
        assert(vy == 400);
        assert(g4 == -1600);
        assert(vy * vy == 160000) by (nonlinear_arith)
            requires vy == 400;
        assert(g4 * c == -1600 * c) by (nonlinear_arith)
            requires g4 == -1600;
    }
    let disc: i64 = vy * vy - g4 * c;
    assert(disc == discriminant(c as int));
    if disc < 0 {
        assert(r@ =~= direct_edge_constraints(*e1, *e2));
        return r;
    }
    let max_of_mins: i64 = if x1 >= x2 {
        x1 as i64
    } else {
        x2 as i64
    };
    let min_of_maxes: i64 = if x1 as i64 + w1 as i64 <= x2 as i64 + w2 as i64 {
        x1 as i64 + w1 as i64
    } else {
        x2 as i64 + w2 as i64
    };
    let gap: i64 = if max_of_mins <= min_of_maxes {
        0
    } else {
        max_of_mins - min_of_maxes
    };
    assert(gap == horizontal_gap(*e1, *e2));
    let n2g: i64 = -2 * (GRAVITY as i64);
    let vx: i64 = MAX_HORIZONTAL_SPEED as i64;
    proof {
        assert(n2g == 800);
        assert(vx == 200);
        assert(0 <= gap <= 7_000_000_000i64);
        assert(n2g * gap == 800 * gap) by (nonlinear_arith)
            requires n2g == 800;
        assert(vx * vy == 80000) by (nonlinear_arith)
            requires vx == 200 && vy == 400;
    }
    let q: i64 = n2g * gap - vx * vy;
    proof {
        assert(-100_000 <= q <= 5_700_000_000_000i64);
        assert((q as i128) * (q as i128) <= 0x1_0000_0000_0000_0000_0000_0000i128)
            by (nonlinear_arith)
            requires -100_000 <= (q as i128) <= 5_700_000_000_000i128;
        assert((vx as i128) * (vx as i128) == 40000) by (nonlinear_arith)
            requires vx == 200;
        assert((vx as i128) * (vx as i128) * (disc as i128) <= 40000 * (disc as i128))
            by (nonlinear_arith)
            requires (vx as i128) * (vx as i128) == 40000;
        assert(disc <= 7_000_000_000_000i64);
    }
    let feasible: bool = q <= 0 || (q as i128) * (q as i128) <= (vx as i128) * (vx as i128) * (
    disc as i128);
    assert(feasible == within_horizontal_reach(gap as int, disc as int));
    if feasible {
        r.push(Constraints::Unconditional);
        assert(r@ =~= direct_edge_constraints(*e1, *e2));
    } else {
        assert(r@ =~= direct_edge_constraints(*e1, *e2));
    }
    r
}

/// For two platforms at the same height the flight time of the
/// maximum-speed launch is exactly 1 second, so the jump is feasible
/// precisely when the horizontal gap is at most `VX` — feasibility flips
/// at that threshold.
pub proof fn lemma_equal_height_gap_threshold(p1: Platform, p2: Platform)
    requires
        p1.y == p2.y,
    ensures
        platform_jump_feasible(p1, p2) <==> horizontal_gap(
            Element::Plat(p1),
            Element::Plat(p2),
        ) <= MAX_HORIZONTAL_SPEED,
{
    let c = p2.y - p1.y;
    let disc = discriminant(c);
    let gap = horizontal_gap(Element::Plat(p1), Element::Plat(p2));
    let q = (-2 * GRAVITY) * gap - MAX_HORIZONTAL_SPEED * MAX_VERTICAL_SPEED;
    assert(MAX_VERTICAL_SPEED * MAX_VERTICAL_SPEED == 160000) by (nonlinear_arith)
        requires MAX_VERTICAL_SPEED == 400;
    assert((4 * GRAVITY) * c == 0) by (nonlinear_arith)
        requires c == 0;
    assert(disc == 160000);
    assert((-2 * GRAVITY) * gap == 800 * gap) by (nonlinear_arith)
        requires -2 * GRAVITY == 800;
    assert(MAX_HORIZONTAL_SPEED * MAX_VERTICAL_SPEED == 80000) by (nonlinear_arith)
        requires MAX_HORIZONTAL_SPEED == 200 && MAX_VERTICAL_SPEED == 400;
    assert(q == 800 * gap - 80000);
    assert(MAX_HORIZONTAL_SPEED * MAX_HORIZONTAL_SPEED * disc == 6_400_000_000) by (
    nonlinear_arith)
        requires MAX_HORIZONTAL_SPEED == 200 && disc == 160000;
    assert(q > 0 ==> (q * q <= 6_400_000_000 <==> q <= 80000)) by (nonlinear_arith);
    assert(q <= 0 <==> gap <= 100);
    assert(q <= 80000 <==> gap <= 200);
}

/// Closing the horizontal gap never breaks feasibility: for a fixed
/// discriminant, if a gap is within reach then so is every smaller
/// one — the gap bound is a genuine threshold, flipping exactly once
/// as the gap grows.
pub proof fn lemma_reach_monotone_in_gap(g1: int, g2: int, disc: int)
    requires
        0 <= g2 <= g1,
        disc >= 0,
        within_horizontal_reach(g1, disc),
    ensures
        within_horizontal_reach(g2, disc),
{
    let q1 = (-2 * GRAVITY) * g1 - MAX_HORIZONTAL_SPEED * MAX_VERTICAL_SPEED;
    let q2 = (-2 * GRAVITY) * g2 - MAX_HORIZONTAL_SPEED * MAX_VERTICAL_SPEED;
    assert((-2 * GRAVITY) * g1 == 800 * g1) by (nonlinear_arith)
        requires -2 * GRAVITY == 800;
    assert((-2 * GRAVITY) * g2 == 800 * g2) by (nonlinear_arith)
        requires -2 * GRAVITY == 800;
    assert(q2 <= q1);
    if q2 > 0 {
        assert(q2 * q2 <= q1 * q1) by (nonlinear_arith)
            requires 0 < q2 <= q1;
    }
}

/// When the two platforms overlap horizontally (gap 0), no horizontal
/// motion is needed, and feasibility depends only on the vertical
/// displacement: the jump works iff the rise is at most 100 units, the
/// apex height `VY²/(-4·G)` of the maximum-speed launch.  Jumping down
/// (`p2` below `p1`) is therefore always feasible while the reverse jump
/// up may not be: feasibility is not symmetric.
pub proof fn lemma_overlap_feasible_iff_rise_bounded(p1: Platform, p2: Platform)
    requires
        horizontal_gap(Element::Plat(p1), Element::Plat(p2)) == 0,
    ensures
        platform_jump_feasible(p1, p2) <==> p1.y - p2.y <= 100,
{
    let c = p2.y - p1.y;
    let disc = discriminant(c);
    let gap = horizontal_gap(Element::Plat(p1), Element::Plat(p2));
    assert(MAX_VERTICAL_SPEED * MAX_VERTICAL_SPEED == 160000) by (nonlinear_arith)
        requires MAX_VERTICAL_SPEED == 400;
    assert((4 * GRAVITY) * c == -1600 * c) by (nonlinear_arith)
        requires 4 * GRAVITY == -1600;
    assert(disc == 160000 + 1600 * c);
    assert((-2 * GRAVITY) * gap == 0) by (nonlinear_arith)
        requires gap == 0;
    assert(within_horizontal_reach(gap, disc));
    assert(disc >= 0 <==> c >= -100);
}

} // verus!
