use level_graph::geometry::{Element, EndFlag, Platform, StartFlag};
use level_graph::graph::{recalculate_neighbors, unpack_loc, Edge, ObjectLoc};
use level_graph::solver::Constraints;

fn plat(x: i32, y: i32, w: i32, h: i32) -> Platform {
    Platform { x, y, w, h }
}

fn edge(source: ObjectLoc, dest: ObjectLoc) -> Edge {
    Edge { source, dest, assuming: Constraints::Unconditional }
}

fn touches(e: &Edge, loc: ObjectLoc) -> bool {
    e.source == loc || e.dest == loc
}

#[test]
fn unpack_loc_resolves_both_kinds() {
    let forced = vec![Element::Start(StartFlag { x: 1, y: 2 })];
    let plats = vec![plat(0, 0, 100, 10)];
    assert_eq!(
        unpack_loc(ObjectLoc::Forced(0), &forced, &plats),
        Element::Start(StartFlag { x: 1, y: 2 })
    );
    assert_eq!(
        unpack_loc(ObjectLoc::Platform(0), &forced, &plats),
        Element::Plat(plat(0, 0, 100, 10))
    );
}

#[test]
fn full_rebuild_connects_two_reachable_platforms() {
    // Two platforms at the same height, 50 units apart: feasible both
    // ways.  A rebuild over both nodes visits each pair once from each
    // changed endpoint, and self pairs are not excluded, so each
    // direction appears twice and each platform carries two self edges.
    let forced: Vec<Element> = vec![];
    let plats = vec![plat(0, 0, 100, 10), plat(150, 0, 100, 10)];
    let p0 = ObjectLoc::Platform(0);
    let p1 = ObjectLoc::Platform(1);
    let g = recalculate_neighbors(vec![], &forced, &plats, vec![p0, p1]);
    assert_eq!(
        g,
        vec![
            edge(p0, p0),
            edge(p0, p0),
            edge(p1, p0),
            edge(p0, p1),
            edge(p0, p1),
            edge(p1, p0),
            edge(p1, p1),
            edge(p1, p1),
        ]
    );
}

#[test]
fn rebuild_over_one_node_yields_one_edge_per_direction() {
    // Recomputing only node A installs exactly one A->B and one B->A
    // edge between the two reachable platforms.
    let forced: Vec<Element> = vec![];
    let plats = vec![plat(0, 0, 100, 10), plat(150, 0, 100, 10)];
    let p0 = ObjectLoc::Platform(0);
    let p1 = ObjectLoc::Platform(1);
    let g = recalculate_neighbors(vec![], &forced, &plats, vec![p0]);
    assert_eq!(g, vec![edge(p0, p0), edge(p0, p0), edge(p1, p0), edge(p0, p1)]);
    assert_eq!(g.iter().filter(|e| **e == edge(p0, p1)).count(), 1);
    assert_eq!(g.iter().filter(|e| **e == edge(p1, p0)).count(), 1);
}

#[test]
fn widened_gap_leaves_no_edges_between_platforms() {
    // Same two platforms but 10000 units apart: infeasible both ways,
    // so only the self edges of each platform remain.
    let forced: Vec<Element> = vec![];
    let plats = vec![plat(0, 0, 100, 10), plat(10100, 0, 100, 10)];
    let p0 = ObjectLoc::Platform(0);
    let p1 = ObjectLoc::Platform(1);
    let g = recalculate_neighbors(vec![], &forced, &plats, vec![p0, p1]);
    assert_eq!(g, vec![edge(p0, p0), edge(p0, p0), edge(p1, p1), edge(p1, p1)]);
    assert!(!g.iter().any(|e| touches(e, p0) && touches(e, p1)));
}

#[test]
fn retention_keeps_untouched_edges_and_recomputes_touched_ones() {
    // Three platforms in a row, then platform 1 moves out of reach.
    let forced = vec![Element::Plat(plat(0, 1000, 100, 10))];
    let p0 = ObjectLoc::Platform(0);
    let p1 = ObjectLoc::Platform(1);
    let p2 = ObjectLoc::Platform(2);
    let plats_before = vec![plat(0, 0, 100, 10), plat(150, 0, 100, 10), plat(300, 0, 100, 10)];
    let old = recalculate_neighbors(
        vec![],
        &forced,
        &plats_before,
        vec![p0, p1, p2, ObjectLoc::Forced(0)],
    );
    assert!(old.iter().any(|e| *e == edge(p0, p1)));

    let plats_after = vec![plat(0, 0, 100, 10), plat(20000, 0, 100, 10), plat(300, 0, 100, 10)];
    let new = recalculate_neighbors(old.clone(), &forced, &plats_after, vec![p1]);

    // Every edge not touching the moved node is kept, in order, ahead
    // of the recomputed ones; every recomputed edge touches the node.
    let kept: Vec<Edge> = old.iter().copied().filter(|e| !touches(e, p1)).collect();
    assert_eq!(new[..kept.len()], kept[..]);
    assert!(new[kept.len()..].iter().all(|e| touches(e, p1)));

    // The stale edges to the moved platform are gone, and out of its
    // new position no edge to the others is feasible.
    assert!(!new.iter().any(|e| touches(e, p0) && touches(e, p1)));
    assert!(!new.iter().any(|e| touches(e, p2) && touches(e, p1)));
    // Only its self edges were recomputed.
    assert_eq!(new[kept.len()..], [edge(p1, p1), edge(p1, p1)][..]);
}

#[test]
fn recalculating_twice_adds_no_duplicates() {
    let forced = vec![
        Element::Plat(plat(0, 568, 64, 16)),
        Element::Start(StartFlag { x: 16, y: 536 }),
        Element::End(EndFlag { x: 448, y: 376 }),
    ];
    let plats = vec![plat(64, 472, 128, 16), plat(192, 408, 64, 16), plat(320, 472, 128, 16)];
    let all = vec![
        ObjectLoc::Platform(0),
        ObjectLoc::Platform(1),
        ObjectLoc::Platform(2),
        ObjectLoc::Forced(0),
        ObjectLoc::Forced(1),
        ObjectLoc::Forced(2),
    ];
    let g1 = recalculate_neighbors(vec![], &forced, &plats, all.clone());
    let g2 = recalculate_neighbors(g1.clone(), &forced, &plats, all.clone());
    assert_eq!(g1, g2);

    let moved = vec![ObjectLoc::Platform(1)];
    let h1 = recalculate_neighbors(g1.clone(), &forced, &plats, moved.clone());
    let h2 = recalculate_neighbors(h1.clone(), &forced, &plats, moved);
    assert_eq!(h1, h2);
}

#[test]
fn edges_between_unchanged_nodes_survive_and_touched_ones_are_dropped() {
    // Regression for the retention polarity: the evaluated condition is
    // "neither endpoint changed", so an edge between two unchanged
    // nodes must survive and an edge touching a changed node must go.
    let forced = vec![
        Element::Start(StartFlag { x: 0, y: 0 }),
        Element::End(EndFlag { x: 50, y: 0 }),
    ];
    let plats = vec![plat(0, 200, 100, 10)];
    let f0 = ObjectLoc::Forced(0);
    let f1 = ObjectLoc::Forced(1);
    let p0 = ObjectLoc::Platform(0);
    let old = vec![edge(f0, f1), edge(f0, p0)];

    let new = recalculate_neighbors(old, &forced, &plats, vec![p0]);
    // Flags make no new edges, so the result is the kept edge plus the
    // platform's recomputed self edges.
    assert_eq!(new, vec![edge(f0, f1), edge(p0, p0), edge(p0, p0)]);

    // With Forced(0) changed instead, both old edges touch it and go;
    // flags yield nothing new.
    let old2 = vec![edge(f0, f1), edge(f0, p0)];
    let new2 = recalculate_neighbors(old2, &forced, &plats, vec![f0]);
    assert_eq!(new2, vec![]);
}
