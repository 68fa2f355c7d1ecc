//! The dependency graph's storage: a `petgraph` directed graph whose nodes
//! are numbered in the order they were added.
//!
//! The graph is opaque to the verifier; it is described by two names, its
//! number of nodes and its edges in the order they were added, and each
//! operation the rule engine uses is a wrapper whose contract says what the
//! operation does to them.

use vstd::prelude::*;
use petgraph::graph::{DiGraph, Graph, NodeIndex};
use petgraph::algo::toposort;
use petgraph::{Directed, Direction};

verus! {

#[verifier::external_type_specification]
#[verifier::external_body]
#[verifier::reject_recursive_types(N)]
#[verifier::reject_recursive_types(E)]
#[verifier::reject_recursive_types(Ty)]
#[verifier::reject_recursive_types(Ix)]
pub struct ExGraph<N, E, Ty, Ix>(Graph<N, E, Ty, Ix>);

#[verifier::external_type_specification]
#[verifier::external_body]
pub struct ExDirected(Directed);

/// The edges of a graph, as (source, target) node numbers, in the order they
/// were added.
pub uninterp spec fn graph_edges(g: DiGraph<(), ()>) -> Seq<(usize, usize)>;

/// The number of nodes of a graph.
pub uninterp spec fn graph_node_count(g: DiGraph<(), ()>) -> nat;

/// What `petgraph::algo::toposort` returns on a graph with `n` nodes and the
/// given edges: the node numbers in topological order, or a node of a cycle.
pub uninterp spec fn toposort_result(n: nat, edges: Seq<(usize, usize)>) -> Result<Seq<usize>, usize>;

/// Every edge joins two nodes of the graph.
pub open spec fn edges_within(n: nat, edges: Seq<(usize, usize)>) -> bool {
    forall|e: int| 0 <= e < edges.len() ==> (#[trigger] edges[e]).0 < n && edges[e].1 < n
}

/// Whether `v` is one of the elements of `order`.
pub open spec fn appears_in(order: Seq<usize>, v: usize) -> bool {
    exists|i: int| 0 <= i < order.len() && order[i] == v
}

/// `order` lists each of the `n` nodes once, each before the targets of its
/// edges.
pub open spec fn is_topo_order(n: nat, edges: Seq<(usize, usize)>, order: Seq<usize>) -> bool {
    &&& order.len() == n
    &&& forall|i: int| 0 <= i < order.len() ==> #[trigger] order[i] < n
    &&& forall|i: int, j: int| 0 <= i < j < order.len() ==> order[i] != order[j]
    &&& forall|v: usize| v < n ==> #[trigger] appears_in(order, v)
    &&& forall|e: int, i: int, j: int|
        0 <= e < edges.len() && 0 <= i < order.len() && 0 <= j < order.len() && #[trigger] order[i]
            == (#[trigger] edges[e]).0 && #[trigger] order[j] == edges[e].1 ==> i < j
}

/// The sources of the edges into `v`, the most recently added first.
pub open spec fn incoming(edges: Seq<(usize, usize)>, v: usize) -> Seq<usize>
    decreases edges.len(),
{
    if edges.len() == 0 {
        seq![]
    } else {
        let rest = incoming(edges.drop_last(), v);
        if edges.last().1 == v {
            seq![edges.last().0] + rest
        } else {
            rest
        }
    }
}

/// Whether `a -> b` is one of the edges.
pub open spec fn has_edge(edges: Seq<(usize, usize)>, a: usize, b: usize) -> bool {
    exists|e: int| 0 <= e < edges.len() && #[trigger] edges[e] == (a, b)
}

/// Each source in `incoming(edges, v)` is that of an edge into `v`.
pub proof fn lemma_incoming(edges: Seq<(usize, usize)>, v: usize)
    ensures
        forall|k: int| 0 <= k < incoming(edges, v).len() ==> has_edge(edges, #[trigger] incoming(edges, v)[k], v),
        forall|e: int| 0 <= e < edges.len() && (#[trigger] edges[e]).1 == v ==> incoming(edges, v).contains(edges[e].0),
    decreases edges.len(),
{
    if edges.len() > 0 {
        let rest = edges.drop_last();
        lemma_incoming(rest, v);
        let cur = incoming(edges, v);
        assert forall|k: int| 0 <= k < cur.len() implies has_edge(edges, #[trigger] cur[k], v) by {
            if edges.last().1 == v {
                if k == 0 {
                    assert(edges[edges.len() - 1] == (cur[k], v));
                } else {
                    assert(cur[k] == incoming(rest, v)[k - 1]);
                    assert(has_edge(rest, incoming(rest, v)[k - 1], v));
                    let e = choose|e: int| 0 <= e < rest.len() && (#[trigger] rest[e]) == (incoming(rest, v)[k - 1], v);
                    assert(edges[e] == rest[e]);
                }
            } else {
                assert(has_edge(rest, incoming(rest, v)[k], v));
                let e = choose|e: int| 0 <= e < rest.len() && (#[trigger] rest[e]) == (incoming(rest, v)[k], v);
                assert(edges[e] == rest[e]);
            }
        }
        assert forall|e: int| 0 <= e < edges.len() && (#[trigger] edges[e]).1 == v implies cur.contains(edges[e].0) by {
            if e == edges.len() - 1 {
                assert(cur[0] == edges[e].0);
            } else {
                assert(rest[e] == edges[e]);
                assert(incoming(rest, v).contains(edges[e].0));
                let k = choose|k: int| 0 <= k < incoming(rest, v).len() && incoming(rest, v)[k] == edges[e].0;
                if edges.last().1 == v {
                    assert(cur[k + 1] == edges[e].0);
                } else {
                    assert(cur[k] == edges[e].0);
                }
            }
        }
    }
}

/// The targets of the edges out of `v`, the most recently added first.
pub open spec fn outgoing(edges: Seq<(usize, usize)>, v: usize) -> Seq<usize>
    decreases edges.len(),
{
    if edges.len() == 0 {
        seq![]
    } else {
        let rest = outgoing(edges.drop_last(), v);
        if edges.last().0 == v {
            seq![edges.last().1] + rest
        } else {
            rest
        }
    }
}

/// Each target in `outgoing(edges, v)` is that of an edge out of `v`.
pub proof fn lemma_outgoing(edges: Seq<(usize, usize)>, v: usize)
    ensures
        forall|k: int| 0 <= k < outgoing(edges, v).len() ==> has_edge(edges, v, #[trigger] outgoing(edges, v)[k]),
    decreases edges.len(),
{
    if edges.len() > 0 {
        let rest = edges.drop_last();
        lemma_outgoing(rest, v);
        let cur = outgoing(edges, v);
        assert forall|k: int| 0 <= k < cur.len() implies has_edge(edges, v, #[trigger] cur[k]) by {
            if edges.last().0 == v {
                if k == 0 {
                    assert(edges[edges.len() - 1] == (v, cur[k]));
                } else {
                    assert(has_edge(rest, v, outgoing(rest, v)[k - 1]));
                    let e = choose|e: int| 0 <= e < rest.len() && (#[trigger] rest[e]) == (v, outgoing(rest, v)[k - 1]);
                    assert(edges[e] == rest[e]);
                }
            } else {
                assert(has_edge(rest, v, outgoing(rest, v)[k]));
                let e = choose|e: int| 0 <= e < rest.len() && (#[trigger] rest[e]) == (v, outgoing(rest, v)[k]);
                assert(edges[e] == rest[e]);
            }
        }
    }
}

/// `DiGraph::new`: an empty graph.
#[verifier::external_body]
pub(crate) fn graph_new() -> (g: DiGraph<(), ()>)
    ensures
        graph_node_count(g) == 0,
        graph_edges(g) == Seq::<(usize, usize)>::empty(),
{
    DiGraph::new()
}

/// `Graph::add_node`: a new node, numbered by the count of nodes before it.
/// It panics when the count reaches the limit of its `u32` index type.
#[verifier::external_body]
pub(crate) fn graph_add_node(g: &mut DiGraph<(), ()>) -> (i: usize)
    requires
        graph_node_count(*old(g)) < u32::MAX,
    ensures
        i == graph_node_count(*old(g)),
        graph_node_count(*final(g)) == graph_node_count(*old(g)) + 1,
        graph_edges(*final(g)) == graph_edges(*old(g)),
{
    g.add_node(()).index()
}

/// `Graph::add_edge`: appends the edge `a -> b` (parallel edges are kept).
/// It panics when a node does not exist or the count of edges reaches the
/// limit of its `u32` index type.
#[verifier::external_body]
pub(crate) fn graph_add_edge(g: &mut DiGraph<(), ()>, a: usize, b: usize)
    requires
        a < graph_node_count(*old(g)),
        b < graph_node_count(*old(g)),
        graph_edges(*old(g)).len() < u32::MAX,
    ensures
        graph_node_count(*final(g)) == graph_node_count(*old(g)),
        graph_edges(*final(g)) == graph_edges(*old(g)).push((a, b)),
{
    g.add_edge(NodeIndex::new(a), NodeIndex::new(b), ());
}

/// `Graph::raw_edges`: the edges in the order they were added, each as its
/// (`source`, `target`) pair.
#[verifier::external_body]
pub(crate) fn graph_edge_list(g: &DiGraph<(), ()>) -> (r: Vec<(usize, usize)>)
    ensures
        r@ == graph_edges(*g),
{
    g.raw_edges().iter().map(|e| (e.source().index(), e.target().index())).collect()
}

/// `Graph::neighbors_directed(v, Incoming)`: the sources of the edges into
/// `v`, most recently added first, as the crate documents for directed
/// graphs.
#[verifier::external_body]
pub(crate) fn graph_incoming(g: &DiGraph<(), ()>, v: usize) -> (r: Vec<usize>)
    requires
        v < graph_node_count(*g),
    ensures
        r@ == incoming(graph_edges(*g), v),
{
    g.neighbors_directed(NodeIndex::new(v), Direction::Incoming).map(|i| i.index()).collect()
}

/// `Graph::neighbors_directed(v, Outgoing)`: the targets of the edges out of
/// `v`, most recently added first.
#[verifier::external_body]
pub(crate) fn graph_outgoing(g: &DiGraph<(), ()>, v: usize) -> (r: Vec<usize>)
    requires
        v < graph_node_count(*g),
    ensures
        r@ == outgoing(graph_edges(*g), v),
{
    g.neighbors_directed(NodeIndex::new(v), Direction::Outgoing).map(|i| i.index()).collect()
}

/// `petgraph::algo::toposort`.  As its documentation says, on an acyclic
/// graph it returns every node once, each before its successors; otherwise
/// it returns a `Cycle` error naming a node.  Which topological order (and
/// which node of a cycle) comes back is left to the name `toposort_result`.
#[verifier::external_body]
pub(crate) fn graph_toposort(g: &DiGraph<(), ()>) -> (r: Result<Vec<usize>, usize>)
    requires
        edges_within(graph_node_count(*g), graph_edges(*g)),
    ensures
        match r {
            Ok(v) => toposort_result(graph_node_count(*g), graph_edges(*g)) == Ok::<Seq<usize>, usize>(v@)
                && is_topo_order(graph_node_count(*g), graph_edges(*g), v@),
            Err(c) => toposort_result(graph_node_count(*g), graph_edges(*g)) == Err::<Seq<usize>, usize>(c)
                && c < graph_node_count(*g) && !exists|o: Seq<usize>|
                is_topo_order(graph_node_count(*g), graph_edges(*g), o),
        },
{
    match toposort(g, None) {
        Ok(order) => Ok(order.into_iter().map(|i| i.index()).collect()),
        Err(cycle) => Err(cycle.node_id().index()),
    }
}

} // verus!
