//! The incremental reachability-graph maintainer.
//!
//! Graph nodes are stable `(kind, index)` keys into two parallel node
//! lists: the immutable forced elements and the user-editable platforms.
//! Edges are a multiset: a pair of endpoints may carry several edges
//! under different assumption sets.  Given the previous edge list and a
//! set of changed nodes, the maintainer drops every edge touching a
//! changed node and recomputes, for each changed node, its edges against
//! every node of the level in both directions, returning a new owned
//! edge list (functional replace, no in-place mutation).

use vstd::multiset::Multiset;
use vstd::prelude::*;

use crate::geometry::{Element, Platform};
use crate::solver::{direct_edge_constraints, find_direct_edges, Constraints};

verus! {

/// A stable key identifying a graph node: an index into the immutable
/// forced-element list, or into the mutable platform list.  Equality is
/// structural (kind + index).  Elements are never removed, only mutated,
/// so indices are never recycled and stay valid for the lifetime of the
/// owning lists; supporting removal would require a generation tag here.
#[derive(Copy, Clone, PartialEq, Eq, Structural, Debug)]
pub enum ObjectLoc {
    Forced(usize),
    Platform(usize),
}

/// A directed jump-connectivity edge: it is physically possible to jump
/// from `source` to `dest` under the assumptions in `assuming`.
#[derive(Copy, Clone, PartialEq, Eq, Structural, Debug)]
pub struct Edge {
    pub source: ObjectLoc,
    pub dest: ObjectLoc,
    pub assuming: Constraints,
}

/// Does the node key index into its owning list?
pub open spec fn loc_valid(loc: ObjectLoc, forced: Seq<Element>, plats: Seq<Platform>) -> bool {
    match loc {
        ObjectLoc::Forced(i) => i < forced.len(),
        ObjectLoc::Platform(i) => i < plats.len(),
    }
}

/// The element a node key stands for.
pub open spec fn unpack_loc_spec(
    loc: ObjectLoc,
    forced: Seq<Element>,
    plats: Seq<Platform>,
) -> Element
    recommends
        loc_valid(loc, forced, plats),
{
    match loc {
        ObjectLoc::Forced(i) => forced[i as int],
        ObjectLoc::Platform(i) => Element::Plat(plats[i as int]),
    }
}

/// Resolve a node key to a copy of its element.  A key out of range of
/// its list is a contract violation of the caller, not a handled error,
/// so it is excluded up front rather than detected late.
pub fn unpack_loc(loc: ObjectLoc, forced: &Vec<Element>, plats: &Vec<Platform>) -> (r: Element)
    requires
        loc_valid(loc, forced@, plats@),
    ensures
        r == unpack_loc_spec(loc, forced@, plats@),
{
    match loc {
        ObjectLoc::Forced(i) => forced[i],
        ObjectLoc::Platform(i) => Element::Plat(plats[i]),
    }
}

/// Does the edge touch (start or end at) one of the changed nodes?
pub open spec fn touches(e: Edge, changed: Seq<ObjectLoc>) -> bool {
    changed.contains(e.source) || changed.contains(e.dest)
}

/// Decide whether the edge touches one of the changed nodes.
fn touches_changed(e: &Edge, changed: &Vec<ObjectLoc>) -> (r: bool)
    ensures
        r == touches(*e, changed@),
{
    let mut i: usize = 0;
    while i < changed.len()
        invariant
            i <= changed@.len(),
            forall|j: int| 0 <= j < i ==> #[trigger] changed@[j] != e.source && changed@[j]
                != e.dest,
        decreases changed@.len() - i,
    {
        if changed[i] == e.source || changed[i] == e.dest {
            return true;
        }
        i += 1;
    }
    false
}

/// The edges from `src` to `dst`, one per assumption set.
pub open spec fn edges_between(src: ObjectLoc, dst: ObjectLoc, cs: Seq<Constraints>) -> Seq<Edge> {
    cs.map_values(|c: Constraints| Edge { source: src, dest: dst, assuming: c })
}

/// The edges installed from `src` to `dst` when their elements are
/// `src_el` and `dst_el`: one per assumption set the solver returns.
pub open spec fn directed_edges(
    src: ObjectLoc,
    src_el: Element,
    dst: ObjectLoc,
    dst_el: Element,
) -> Seq<Edge> {
    edges_between(src, dst, direct_edge_constraints(src_el, dst_el))
}

/// The edges recomputed between a changed node and one other node:
/// first toward the changed node, then away from it.
pub open spec fn pair_edges(
    loc: ObjectLoc,
    elt: Element,
    other: ObjectLoc,
    other_el: Element,
) -> Seq<Edge> {
    directed_edges(other, other_el, loc, elt) + directed_edges(loc, elt, other, other_el)
}

/// The edges recomputed between a changed node and the first `n` forced
/// elements, in index order.
pub open spec fn forced_pair_edges_upto(
    loc: ObjectLoc,
    elt: Element,
    forced: Seq<Element>,
    n: int,
) -> Seq<Edge>
    decreases n,
{
    if n <= 0 {
        Seq::empty()
    } else {
        forced_pair_edges_upto(loc, elt, forced, n - 1) + pair_edges(
            loc,
            elt,
            ObjectLoc::Forced((n - 1) as usize),
            forced[n - 1],
        )
    }
}

/// The edges recomputed between a changed node and the first `n`
/// platforms, in index order.
pub open spec fn platform_pair_edges_upto(
    loc: ObjectLoc,
    elt: Element,
    plats: Seq<Platform>,
    n: int,
) -> Seq<Edge>
    decreases n,
{
    if n <= 0 {
        Seq::empty()
    } else {
        platform_pair_edges_upto(loc, elt, plats, n - 1) + pair_edges(
            loc,
            elt,
            ObjectLoc::Platform((n - 1) as usize),
            Element::Plat(plats[n - 1]),
        )
    }
}

/// All edges recomputed for one changed node: against every forced
/// element, then against every platform (other changed nodes and the
/// node itself included — self and duplicate pairs are not excluded).
pub open spec fn node_recomputed_edges(
    loc: ObjectLoc,
    forced: Seq<Element>,
    plats: Seq<Platform>,
) -> Seq<Edge> {
    let elt = unpack_loc_spec(loc, forced, plats);
    forced_pair_edges_upto(loc, elt, forced, forced.len() as int) + platform_pair_edges_upto(
        loc,
        elt,
        plats,
        plats.len() as int,
    )
}

/// All edges recomputed for the first `n` changed nodes, in order.
pub open spec fn recomputed_edges_upto(
    changed: Seq<ObjectLoc>,
    forced: Seq<Element>,
    plats: Seq<Platform>,
    n: int,
) -> Seq<Edge>
    decreases n,
{
    if n <= 0 {
        Seq::empty()
    } else {
        recomputed_edges_upto(changed, forced, plats, n - 1) + node_recomputed_edges(
            changed[n - 1],
            forced,
            plats,
        )
    }
}

/// The retention predicate: an old edge survives iff it touches no
/// changed node.
pub open spec fn keeps(changed: Seq<ObjectLoc>) -> spec_fn(Edge) -> bool {
    |e: Edge| !touches(e, changed)
}

/// The edges of the old graph that survive a recomputation: exactly
/// those touching no changed node.
pub open spec fn retained_edges(old: Seq<Edge>, changed: Seq<ObjectLoc>) -> Seq<Edge> {
    old.filter(keeps(changed))
}

/// The full result of one maintainer call: the retained old edges
/// followed by all recomputed edges.
pub open spec fn recalculated_graph(
    old: Seq<Edge>,
    forced: Seq<Element>,
    plats: Seq<Platform>,
    changed: Seq<ObjectLoc>,
) -> Seq<Edge> {
    retained_edges(old, changed) + recomputed_edges_upto(
        changed,
        forced,
        plats,
        changed.len() as int,
    )
}

/// Append to `out` one edge from `src` to `dst` per assumption set under
/// which the solver connects their elements.
fn push_directed_edges(
    out: &mut Vec<Edge>,
    src: ObjectLoc,
    src_el: &Element,
    dst: ObjectLoc,
    dst_el: &Element,
)
    ensures
        final(out)@ == old(out)@ + directed_edges(src, *src_el, dst, *dst_el),
{
    let cs = find_direct_edges(src_el, dst_el);
    let mut k: usize = 0;
    while k < cs.len()
        invariant
            k <= cs@.len(),
            cs@ == direct_edge_constraints(*src_el, *dst_el),
            out@ == old(out)@ + edges_between(src, dst, cs@.take(k as int)),
        decreases cs@.len() - k,
    {
        let c = cs[k];
        out.push(Edge { source: src, dest: dst, assuming: c });
        proof {
            assert(cs@.take(k as int + 1) =~= cs@.take(k as int).push(cs@[k as int]));
            assert(edges_between(src, dst, cs@.take(k as int + 1)) =~= edges_between(
                src,
                dst,
                cs@.take(k as int),
            ).push(Edge { source: src, dest: dst, assuming: cs@[k as int] }));
        }
        k += 1;
    }
    proof {
        assert(cs@.take(cs@.len() as int) =~= cs@);
    }
}

/// Produce the updated edge list after the nodes in `changed` may have
/// moved: every old edge touching a changed node is dropped, every old
/// edge touching none is kept, and for each changed node fresh edges
/// against every node of the level are recomputed in both directions.
/// The old graph is consumed and a new owned list returned, so the
/// caller always sees either the old graph or the complete new one.
#[verifier::loop_isolation(false)]
#[verifier::rlimit(100)]
pub fn recalculate_neighbors(
    old_graph: Vec<Edge>,
    forced: &Vec<Element>,
    plats: &Vec<Platform>,
    changed: Vec<ObjectLoc>,
) -> (r: Vec<Edge>)
    requires
        forall|i: int| 0 <= i < changed@.len() ==> loc_valid(
            #[trigger] changed@[i],
            forced@,
            plats@,
        ),
    ensures
        r@ == recalculated_graph(old_graph@, forced@, plats@, changed@),
{
    let ghost keep = keeps(changed@);
    let mut result: Vec<Edge> = Vec::new();
    let mut i: usize = 0;
    while i < old_graph.len()
        invariant
            i <= old_graph@.len(),
            result@ == old_graph@.take(i as int).filter(keep),
        decreases old_graph@.len() - i,
    {
        let e = old_graph[i];
        if !touches_changed(&e, &changed) {
            result.push(e);
        }
        proof {
            assert(old_graph@.take(i as int + 1) =~= old_graph@.take(i as int).push(
                old_graph@[i as int],
            ));
            old_graph@.take(i as int).lemma_filter_push(old_graph@[i as int], keep);
        }
        i += 1;
    }
    proof {
        assert(old_graph@.take(old_graph@.len() as int) =~= old_graph@);
        assert(result@ == retained_edges(old_graph@, changed@));
    }
    let ghost retained = retained_edges(old_graph@, changed@);
    let mut ci: usize = 0;
    while ci < changed.len()
        invariant
            ci <= changed@.len(),
            result@ == retained + recomputed_edges_upto(changed@, forced@, plats@, ci as int),
        decreases changed@.len() - ci,
    {
        let loc = changed[ci];
        let elt = unpack_loc(loc, forced, plats);
        let ghost upto_ci = recomputed_edges_upto(changed@, forced@, plats@, ci as int);
        let mut fi: usize = 0;
        while fi < forced.len()
            invariant
                fi <= forced@.len(),
                result@ == retained + upto_ci + forced_pair_edges_upto(
                    loc,
                    elt,
                    forced@,
                    fi as int,
                ),
            decreases forced@.len() - fi,
        {
            let f = forced[fi];
            push_directed_edges(&mut result, ObjectLoc::Forced(fi), &f, loc, &elt);
            push_directed_edges(&mut result, loc, &elt, ObjectLoc::Forced(fi), &f);
            proof {
                assert(result@ =~= retained + upto_ci + forced_pair_edges_upto(
                    loc,
                    elt,
                    forced@,
                    fi as int + 1,
                ));
            }
            fi += 1;
        }
        let ghost forced_all = forced_pair_edges_upto(loc, elt, forced@, forced@.len() as int);
        let mut pi: usize = 0;
        while pi < plats.len()
            invariant
                pi <= plats@.len(),
                result@ == retained + upto_ci + forced_all + platform_pair_edges_upto(
                    loc,
                    elt,
                    plats@,
                    pi as int,
                ),
            decreases plats@.len() - pi,
        {
            let p = plats[pi];
            let pe = Element::Plat(p);
            push_directed_edges(&mut result, ObjectLoc::Platform(pi), &pe, loc, &elt);
            push_directed_edges(&mut result, loc, &elt, ObjectLoc::Platform(pi), &pe);
            proof {
                assert(result@ =~= retained + upto_ci + forced_all + platform_pair_edges_upto(
                    loc,
                    elt,
                    plats@,
                    pi as int + 1,
                ));
            }
            pi += 1;
        }
        proof {
            assert(result@ =~= retained + recomputed_edges_upto(
                changed@,
                forced@,
                plats@,
                ci as int + 1,
            ));
        }
        ci += 1;
    }
    result
}

/// A filter keeps a sequence unchanged when every element satisfies the
/// predicate.
proof fn lemma_filter_retains_all<A>(s: Seq<A>, pred: spec_fn(A) -> bool)
    requires
        forall|i: int| 0 <= i < s.len() ==> pred(#[trigger] s[i]),
    ensures
        s.filter(pred) == s,
    decreases s.len(),
{
    reveal(Seq::filter);
    if s.len() == 0 {
        assert(s.filter(pred) =~= s);
    } else {
        lemma_filter_retains_all(s.drop_last(), pred);
        assert(pred(s.last()));
        assert(s.filter(pred) =~= s);
    }
}

/// A filter drops a sequence entirely when no element satisfies the
/// predicate.
proof fn lemma_filter_drops_all<A>(s: Seq<A>, pred: spec_fn(A) -> bool)
    requires
        forall|i: int| 0 <= i < s.len() ==> !pred(#[trigger] s[i]),
    ensures
        s.filter(pred) == Seq::<A>::empty(),
    decreases s.len(),
{
    reveal(Seq::filter);
    if s.len() == 0 {
        assert(s.filter(pred) =~= Seq::<A>::empty());
    } else {
        lemma_filter_drops_all(s.drop_last(), pred);
        assert(!pred(s.last()));
    }
}

/// Filtering preserves the multiplicity of every element that satisfies
/// the predicate and erases every element that does not.
proof fn lemma_filter_multiset_count<A>(s: Seq<A>, pred: spec_fn(A) -> bool, e: A)
    ensures
        pred(e) ==> s.filter(pred).to_multiset().count(e) == s.to_multiset().count(e),
        !pred(e) ==> s.filter(pred).to_multiset().count(e) == 0,
    decreases s.len(),
{
    broadcast use vstd::multiset::group_multiset_axioms;
    broadcast use vstd::seq_lib::to_multiset_build;
    broadcast use vstd::seq_lib::to_multiset_len;
    broadcast use vstd::multiset::lemma_insert_increases_count_by_1;
    broadcast use vstd::multiset::lemma_insert_other_elements_unchanged;

    reveal(Seq::filter);
    if s.len() == 0 {
        assert(s.to_multiset().len() == 0);
        assert(s.to_multiset() =~= Multiset::<A>::empty()) by {
            vstd::multiset::lemma_multiset_empty_len(s.to_multiset());
        }
        assert(s.filter(pred) =~= Seq::<A>::empty());
    } else {
        let dl = s.drop_last();
        let l = s.last();
        lemma_filter_multiset_count(dl, pred, e);
        assert(s =~= dl.push(l));
        assert(s.to_multiset() == dl.push(l).to_multiset());
        assert(dl.push(l).to_multiset() == dl.to_multiset().insert(l));
        if pred(l) {
            assert(s.filter(pred) == dl.filter(pred).push(l));
            assert(dl.filter(pred).push(l).to_multiset() == dl.filter(pred).to_multiset().insert(
                l,
            ));
        } else {
            assert(s.filter(pred) == dl.filter(pred));
        }
        if e == l {
        } else {
        }
    }
}

/// Every recomputed edge between a changed node and the first `n` forced
/// elements starts or ends at that node.
proof fn lemma_forced_pairs_touch(loc: ObjectLoc, elt: Element, forced: Seq<Element>, n: int)
    ensures
        forall|i: int|
            0 <= i < forced_pair_edges_upto(loc, elt, forced, n).len() ==> {
                let e = #[trigger] forced_pair_edges_upto(loc, elt, forced, n)[i];
                e.source == loc || e.dest == loc
            },
    decreases n,
{
    if n > 0 {
        lemma_forced_pairs_touch(loc, elt, forced, n - 1);
    }
}

/// Every recomputed edge between a changed node and the first `n`
/// platforms starts or ends at that node.
proof fn lemma_platform_pairs_touch(loc: ObjectLoc, elt: Element, plats: Seq<Platform>, n: int)
    ensures
        forall|i: int|
            0 <= i < platform_pair_edges_upto(loc, elt, plats, n).len() ==> {
                let e = #[trigger] platform_pair_edges_upto(loc, elt, plats, n)[i];
                e.source == loc || e.dest == loc
            },
    decreases n,
{
    if n > 0 {
        lemma_platform_pairs_touch(loc, elt, plats, n - 1);
    }
}

/// Every edge recomputed for the first `n` changed nodes touches a
/// changed node.
proof fn lemma_recomputed_edges_touch(
    changed: Seq<ObjectLoc>,
    forced: Seq<Element>,
    plats: Seq<Platform>,
    n: int,
)
    requires
        n <= changed.len(),
    ensures
        forall|i: int|
            0 <= i < recomputed_edges_upto(changed, forced, plats, n).len() ==> touches(
                #[trigger] recomputed_edges_upto(changed, forced, plats, n)[i],
                changed,
            ),
    decreases n,
{
    if n > 0 {
        lemma_recomputed_edges_touch(changed, forced, plats, n - 1);
        let loc = changed[n - 1];
        let elt = unpack_loc_spec(loc, forced, plats);
        lemma_forced_pairs_touch(loc, elt, forced, forced.len() as int);
        lemma_platform_pairs_touch(loc, elt, plats, plats.len() as int);
        assert(changed.contains(loc)) by {
            assert(changed[n - 1] == loc);
        }
        let whole = recomputed_edges_upto(changed, forced, plats, n);
        let prev = recomputed_edges_upto(changed, forced, plats, n - 1);
        let fpart = forced_pair_edges_upto(loc, elt, forced, forced.len() as int);
        let ppart = platform_pair_edges_upto(loc, elt, plats, plats.len() as int);
        assert forall|i: int| 0 <= i < whole.len() implies touches(#[trigger] whole[i], changed) by {
            if i < prev.len() {
                assert(whole[i] == prev[i]);
            } else if i - prev.len() < fpart.len() {
                let j = i - prev.len();
                assert(whole[i] == fpart[j]);
                assert(fpart[j].source == loc || fpart[j].dest == loc);
            } else {
                let j = i - prev.len() - fpart.len();
                assert(whole[i] == ppart[j]);
                assert(ppart[j].source == loc || ppart[j].dest == loc);
            }
        }
    }
}

/// Graph retention law: after one maintainer call, an edge touching no
/// changed node occurs in the result exactly as often as in the old
/// graph, and an edge touching a changed node occurs exactly as often
/// as this call recomputed it — no stale edge touching a changed node
/// survives, and no untouched edge is disturbed.
pub proof fn lemma_graph_retention(
    old: Seq<Edge>,
    forced: Seq<Element>,
    plats: Seq<Platform>,
    changed: Seq<ObjectLoc>,
    e: Edge,
)
    ensures
        !touches(e, changed) ==> recalculated_graph(old, forced, plats, changed).to_multiset()
            .count(e) == old.to_multiset().count(e),
        touches(e, changed) ==> recalculated_graph(old, forced, plats, changed).to_multiset()
            .count(e) == recomputed_edges_upto(
            changed,
            forced,
            plats,
            changed.len() as int,
        ).to_multiset().count(e),
{
    broadcast use vstd::multiset::group_multiset_axioms;
    broadcast use vstd::seq_lib::to_multiset_contains;

    let keep = keeps(changed);
    let retained = retained_edges(old, changed);
    let fresh = recomputed_edges_upto(changed, forced, plats, changed.len() as int);
    vstd::seq_lib::lemma_multiset_commutative(retained, fresh);
    lemma_filter_multiset_count(old, keep, e);
    if !touches(e, changed) {
        lemma_recomputed_edges_touch(changed, forced, plats, changed.len() as int);
        assert(!fresh.contains(e));
        assert(fresh.to_multiset().count(e) == 0);
    }
}

/// Idempotence law: recomputing a second time with the same changed set
/// and unchanged geometry reproduces the first result exactly — no
/// duplicate edges accumulate across repeated no-op recomputations.
pub proof fn lemma_recalculate_idempotent(
    old: Seq<Edge>,
    forced: Seq<Element>,
    plats: Seq<Platform>,
    changed: Seq<ObjectLoc>,
)
    ensures
        recalculated_graph(
            recalculated_graph(old, forced, plats, changed),
            forced,
            plats,
            changed,
        ) == recalculated_graph(old, forced, plats, changed),
{
    let keep = keeps(changed);
    let retained = retained_edges(old, changed);
    let fresh = recomputed_edges_upto(changed, forced, plats, changed.len() as int);
    let r1 = recalculated_graph(old, forced, plats, changed);
    Seq::filter_distributes_over_add(retained, fresh, keep);
    assert forall|i: int| 0 <= i < retained.len() implies keep(#[trigger] retained[i]) by {
        old.lemma_filter_pred(keep, i);
    }
    lemma_filter_retains_all(retained, keep);
    lemma_recomputed_edges_touch(changed, forced, plats, changed.len() as int);
    assert forall|i: int| 0 <= i < fresh.len() implies !keep(#[trigger] fresh[i]) by {}
    lemma_filter_drops_all(fresh, keep);
    assert(retained_edges(r1, changed) == retained + Seq::<Edge>::empty());
    assert(retained + Seq::<Edge>::empty() =~= retained);
    assert(recalculated_graph(r1, forced, plats, changed) == retained + fresh);
}

} // verus!
