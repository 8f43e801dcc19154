//! Counting how often the edges of a road network are used by routes: which
//! requests are taken from a list, and which edges a route runs over.

use std::collections::HashSet;
use vstd::prelude::*;

verus! {

/// The stops of a route: its first node, and of the nodes after it those
/// that are intersections, in the order of the route.
pub open spec fn stops(nodes: Seq<i64>, intersections: Set<i64>) -> Seq<i64>
    recommends
        nodes.len() > 0,
{
    seq![nodes[0]] + nodes.skip(1).filter(|node: i64| intersections.contains(node))
}

/// The edges between each stop and the next.
pub open spec fn edges_between(stops: Seq<i64>) -> Seq<(i64, i64)> {
    Seq::new((stops.len() - 1) as nat, |i: int| (stops[i], stops[i + 1]))
}

/// The n-th request of a list, counted from one, is taken. `sample_requests`
/// is the share to take, in thousandths.
pub open spec fn sampled(ordinal: nat, sample_requests: nat) -> bool {
    ordinal % 1000 <= sample_requests
}

/// Tells whether the n-th request of a list, counted from one, is taken.
pub fn is_sampled(ordinal: usize, sample_requests: usize) -> (taken: bool)
    ensures
        taken == sampled(ordinal as nat, sample_requests as nat),
{
    ordinal % 1000 <= sample_requests
}

/// What one more node adds to the stops of a route.
proof fn lemma_stops_step(nodes: Seq<i64>, intersections: Set<i64>, k: int)
    requires
        1 <= k < nodes.len(),
    ensures
        stops(nodes.take(k + 1), intersections) == if intersections.contains(nodes[k]) {
            stops(nodes.take(k), intersections).push(nodes[k])
        } else {
            stops(nodes.take(k), intersections)
        },
{
    let keep = |node: i64| intersections.contains(node);
    let longer = nodes.take(k + 1).skip(1);
    assert(longer.drop_last() =~= nodes.take(k).skip(1));
    assert(longer.last() == nodes[k]);
    reveal(Seq::filter);
    assert(longer.filter(keep) == if keep(nodes[k]) {
        nodes.take(k).skip(1).filter(keep).push(nodes[k])
    } else {
        nodes.take(k).skip(1).filter(keep)
    });
    if intersections.contains(nodes[k]) {
        assert(stops(nodes.take(k + 1), intersections) =~= stops(
            nodes.take(k),
            intersections,
        ).push(nodes[k]));
    }
}

/// Returns the edges that a route runs over: from its first node to the
/// first intersection after it, and from each intersection to the next.
/// Nodes that are no intersections are passed over, and so is what follows
/// the last intersection.
pub fn route_edges(nodes: &Vec<i64>, intersections: &HashSet<i64>) -> (edges: Vec<(i64, i64)>)
    requires
        nodes@.len() > 0,
    ensures
        edges@ == edges_between(stops(nodes@, intersections@)),
{
    broadcast use vstd::std_specs::hash::group_hash_axioms;

    let mut edges: Vec<(i64, i64)> = Vec::new();
    let mut from = nodes[0];
    let mut k: usize = 1;
    assert(nodes@.take(1).skip(1) =~= Seq::<i64>::empty());
    assert(stops(nodes@.take(1), intersections@) =~= seq![nodes@[0]]);
    while k < nodes.len()
        invariant
            1 <= k <= nodes@.len(),
            stops(nodes@.take(k as int), intersections@).len() > 0,
            from == stops(nodes@.take(k as int), intersections@).last(),
            edges@ == edges_between(stops(nodes@.take(k as int), intersections@)),
        decreases nodes@.len() - k,
    {
        let node = nodes[k];
        proof {
            lemma_stops_step(nodes@, intersections@, k as int);
        }
        if intersections.contains(&node) {
            edges.push((from, node));
            from = node;
            assert(edges@ =~= edges_between(stops(nodes@.take(k + 1), intersections@)));
        }
        k += 1;
    }
    assert(nodes@.take(k as int) =~= nodes@);
    edges
}

} // verus!
