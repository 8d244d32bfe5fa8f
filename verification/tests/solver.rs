use level_graph::geometry::{Element, EndFlag, Platform, StartFlag};
use level_graph::solver::{find_direct_edges, Constraints};

fn plat(x: i32, y: i32, w: i32, h: i32) -> Element {
    Element::Plat(Platform { x, y, w, h })
}

#[test]
fn equal_height_gap_at_threshold_is_feasible() {
    // Same height: flight time of the max-speed launch is 1 s, so the
    // reachable horizontal distance is exactly 200.
    let a = plat(0, 0, 100, 10);
    let b = plat(300, 0, 100, 10);  // gap 200
    assert_eq!(find_direct_edges(&a, &b), vec![Constraints::Unconditional]);
    assert_eq!(find_direct_edges(&b, &a), vec![Constraints::Unconditional]);
}

#[test]
fn equal_height_gap_above_threshold_is_infeasible() {
    let a = plat(0, 0, 100, 10);
    let b = plat(301, 0, 100, 10);  // gap 201
    assert_eq!(find_direct_edges(&a, &b), vec![]);
    assert_eq!(find_direct_edges(&b, &a), vec![]);
}

#[test]
fn feasibility_is_checked_per_direction() {
    // b lies 101 units below a (y grows downward) and overlaps it in x:
    // jumping down is feasible, jumping back up exceeds the 100-unit
    // apex of the maximum-speed launch.
    let a = plat(0, 0, 100, 10);
    let b = plat(0, 101, 100, 10);
    assert_eq!(find_direct_edges(&a, &b), vec![Constraints::Unconditional]);
    assert_eq!(find_direct_edges(&b, &a), vec![]);
}

#[test]
fn rise_of_exactly_100_is_feasible() {
    // The discriminant is exactly zero: the apex just reaches the
    // target, and the flight time is positive, so the jump counts.
    let a = plat(0, 0, 100, 10);
    let b = plat(0, 100, 100, 10);
    assert_eq!(find_direct_edges(&a, &b), vec![Constraints::Unconditional]);
    assert_eq!(find_direct_edges(&b, &a), vec![Constraints::Unconditional]);
}

#[test]
fn gap_of_50_at_equal_height_is_feasible_both_ways() {
    // disc = 160000, t = 1.0, reachable distance 200 >= 50.
    let a = plat(0, 0, 100, 10);
    let b = plat(150, 0, 100, 10);
    assert_eq!(find_direct_edges(&a, &b), vec![Constraints::Unconditional]);
    assert_eq!(find_direct_edges(&b, &a), vec![Constraints::Unconditional]);
}

#[test]
fn overlapping_in_x_counts_as_zero_gap() {
    // Far apart horizontally in origin but overlapping ranges.
    let a = plat(0, 0, 200, 10);
    let b = plat(150, 40, 200, 10);
    assert_eq!(find_direct_edges(&a, &b), vec![Constraints::Unconditional]);
}

#[test]
fn flags_yield_no_edges() {
    let a = plat(0, 0, 100, 10);
    let s = Element::Start(StartFlag { x: 0, y: 0 });
    let e = Element::End(EndFlag { x: 0, y: 0 });
    assert_eq!(find_direct_edges(&a, &s), vec![]);
    assert_eq!(find_direct_edges(&s, &a), vec![]);
    assert_eq!(find_direct_edges(&a, &e), vec![]);
    assert_eq!(find_direct_edges(&e, &a), vec![]);
    assert_eq!(find_direct_edges(&s, &e), vec![]);
}

#[test]
fn zero_width_platforms_collapse_the_gap() {
    let a = plat(0, 0, 0, 10);
    let b = plat(200, 0, 0, 10);  // gap exactly 200
    assert_eq!(find_direct_edges(&a, &b), vec![Constraints::Unconditional]);
    let c = plat(201, 0, 0, 10);
    assert_eq!(find_direct_edges(&a, &c), vec![]);
}
