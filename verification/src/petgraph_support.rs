//! The shape of a directed graph, kept in a `petgraph` graph.
//!
//! The graph holds no payload of its own: a node is its index, and an edge
//! carries, as its weight, the index of its record in a table that the
//! caller keeps. What a graph holds is named by [`node_count_of`] and
//! [`edges_of`]; the functions of this module state what `petgraph` does to
//! the two, and nothing of them is proved here.

use fixedbitset::FixedBitSet;
use petgraph::algo::DfsSpace;
use petgraph::graph::{Graph, NodeIndex};
use petgraph::visit::EdgeRef;
use petgraph::Directed;
use vstd::prelude::*;

verus! {

/// `petgraph::graph::Graph`, of which nothing is seen but through the
/// functions below.
#[verifier::external_type_specification]
#[verifier::external_body]
#[verifier::reject_recursive_types(N)]
#[verifier::reject_recursive_types(E)]
#[verifier::reject_recursive_types(Ty)]
#[verifier::reject_recursive_types(Ix)]
pub struct ExGraph<N, E, Ty, Ix>(Graph<N, E, Ty, Ix>);

/// `petgraph::Directed`, the mark of a graph with directed edges.
#[verifier::external_type_specification]
#[verifier::external_body]
pub struct ExDirected(Directed);

/// `petgraph::graph::NodeIndex`, carried in the working space of walks.
#[verifier::external_type_specification]
#[verifier::external_body]
#[verifier::reject_recursive_types(Ix)]
pub struct ExNodeIndex<Ix>(NodeIndex<Ix>);

/// `fixedbitset::FixedBitSet`, carried in the working space of walks.
#[verifier::external_type_specification]
#[verifier::external_body]
pub struct ExFixedBitSet(FixedBitSet);

/// `petgraph::algo::DfsSpace`, the working space of walks: kept from one
/// question to the next, it says nothing of the answers.
#[verifier::external_type_specification]
#[verifier::external_body]
#[verifier::reject_recursive_types(N)]
#[verifier::reject_recursive_types(VM)]
pub struct ExDfsSpace<N, VM>(DfsSpace<N, VM>);

/// An edge of a graph: its source, its target and its weight.
pub type Edge = (usize, usize, usize);

/// The number of nodes of a graph; its nodes are `0 .. node_count_of`.
pub uninterp spec fn node_count_of(g: Graph<(), usize, Directed, u32>) -> nat;

/// The edges of a graph, by edge index.
pub uninterp spec fn edges_of(g: Graph<(), usize, Directed, u32>) -> Seq<Edge>;

/// The two ways to walk along an edge.
#[derive(Clone, Copy, Debug, PartialEq, Eq)]
pub enum DependencyDirection {
    /// From the source of an edge to its target: from a package to what it
    /// depends on.
    Forward,
    /// From the target of an edge to its source: from a package to what
    /// depends on it.
    Reverse,
}

/// Whether an edge leads from `a` to `b`.
pub open spec fn joins(edge: Edge, a: int, b: int) -> bool {
    edge.0 == a && edge.1 == b
}

/// Whether some edge leads from `a` to `b`.
pub open spec fn has_edge(edges: Seq<Edge>, a: int, b: int) -> bool {
    exists|e: int| 0 <= e < edges.len() && joins(#[trigger] edges[e], a, b)
}

/// Whether `p` is a walk: a sequence of one or more nodes, each joined to
/// the next by an edge.
pub open spec fn is_walk(edges: Seq<Edge>, p: Seq<int>) -> bool {
    p.len() >= 1 && forall|i: int|
        #![trigger p[i]]
        0 <= i < p.len() - 1 ==> has_edge(edges, p[i], p[i + 1])
}

/// Whether a walk leads from `a` to `b`. Every node reaches itself.
pub open spec fn reachable(edges: Seq<Edge>, a: int, b: int) -> bool {
    exists|p: Seq<int>| is_walk(edges, p) && #[trigger] p.first() == a && p.last() == b
}

/// Whether all edges have their ends among the nodes `0 .. n`.
pub open spec fn edges_in_range(edges: Seq<Edge>, n: nat) -> bool {
    forall|e: int| 0 <= e < edges.len() ==> (#[trigger] edges[e]).0 < n && edges[e].1 < n
}

/// Whether no two edges have the same weight.
pub open spec fn distinct_weights(edges: Seq<Edge>) -> bool {
    forall|e: int, f: int|
        0 <= e < edges.len() && 0 <= f < edges.len() && e != f ==> (#[trigger] edges[e]).2 != (
        #[trigger] edges[f]).2
}

/// Whether `order` lists every node `0 .. n` once, each before all the
/// nodes that its edges lead to.
pub open spec fn is_topological_order(order: Seq<usize>, n: nat, edges: Seq<Edge>) -> bool {
    &&& order.len() == n
    &&& forall|v: usize| v < n ==> #[trigger] order.contains(v)
    &&& forall|i: int| 0 <= i < order.len() ==> (#[trigger] order[i]) < n
    &&& forall|i: int, j: int|
        0 <= i < order.len() && 0 <= j < order.len() && i != j ==> (#[trigger] order[i]) != (
        #[trigger] order[j])
    &&& forall|e: int, i: int, j: int|
        0 <= e < edges.len() && 0 <= i < order.len() && 0 <= j < order.len() && (
        #[trigger] edges[e]).0 == (#[trigger] order[i]) && edges[e].1 == (#[trigger] order[j])
            ==> i < j
}

/// Whether the graph has no cycle: its nodes can be put in topological
/// order.
pub open spec fn is_acyclic(n: nat, edges: Seq<Edge>) -> bool {
    exists|order: Seq<usize>| is_topological_order(order, n, edges)
}

/// Whether one of the lists holds the node `v`.
pub open spec fn listed(lists: Seq<Vec<usize>>, v: int) -> bool {
    exists|i: int, j: int|
        0 <= i < lists.len() && 0 <= j < lists[i].len() && #[trigger] lists[i][j] == v
}

/// Whether the lists are the strongly connected components of a graph of
/// `n` nodes: every node is in one list, once, and two nodes are in the
/// same list exactly when each reaches the other.
pub open spec fn components_of(n: nat, edges: Seq<Edge>, lists: Seq<Vec<usize>>) -> bool {
    &&& forall|i: int, j: int|
        0 <= i < lists.len() && 0 <= j < lists[i].len() ==> (#[trigger] lists[i][j]) < n
    &&& forall|v: int| 0 <= v < n ==> #[trigger] listed(lists, v)
    &&& forall|i: int, j: int, k: int, l: int|
        0 <= i < lists.len() && 0 <= j < lists[i].len() && 0 <= k < lists.len() && 0 <= l
            < lists[k].len() ==> ((i == k) <==> reachable(
            edges,
            (#[trigger] lists[i][j]) as int,
            (#[trigger] lists[k][l]) as int,
        ) && reachable(edges, lists[k][l] as int, lists[i][j] as int))
    &&& forall|i: int, j: int, l: int|
        0 <= i < lists.len() && 0 <= j < lists[i].len() && 0 <= l < lists[i].len() && j != l ==> (
        #[trigger] lists[i][j]) != (#[trigger] lists[i][l])
}

/// An order that is topological for the edges of a graph is topological
/// for any part of them.
pub proof fn lemma_topological_for_part(order: Seq<usize>, n: nat, all: Seq<Edge>, part: Seq<Edge>)
    requires
        is_topological_order(order, n, all),
        forall|e: int| 0 <= e < part.len() ==> all.contains(#[trigger] part[e]),
    ensures
        is_topological_order(order, n, part),
{
    assert forall|e: int, i: int, j: int|
        0 <= e < part.len() && 0 <= i < order.len() && 0 <= j < order.len() && (
        #[trigger] part[e]).0 == (#[trigger] order[i]) && part[e].1 == (
        #[trigger] order[j]) implies i < j by {
        let f = choose|f: int| 0 <= f < all.len() && all[f] == part[e];
        assert(all[f].0 == order[i] && all[f].1 == order[j]);
    }
}

/// The place of a node in an order that lists it.
pub open spec fn place_of(order: Seq<usize>, v: int) -> int {
    choose|i: int| 0 <= i < order.len() && order[i] == v
}

/// Along a walk, the places in a topological order rise.
pub proof fn lemma_walk_rises(order: Seq<usize>, n: nat, edges: Seq<Edge>, p: Seq<int>)
    requires
        is_topological_order(order, n, edges),
        edges_in_range(edges, n),
        is_walk(edges, p),
        p.len() >= 2,
    ensures
        place_of(order, p.first()) < place_of(order, p.last()),
        0 <= p.first() < n,
        0 <= p.last() < n,
    decreases p.len(),
{
    let k = p.len() - 2;
    assert(has_edge(edges, p[k], p[k + 1]));
    let e = choose|e: int| 0 <= e < edges.len() && joins(#[trigger] edges[e], p[k], p[k + 1]);
    assert(order.contains(edges[e].0));
    assert(order.contains(edges[e].1));
    let i = place_of(order, p[k]);
    let j = place_of(order, p[k + 1]);
    assert(order[i] == edges[e].0 && order[j] == edges[e].1);
    assert(i < j);
    if p.len() > 2 {
        let q = p.drop_last();
        assert forall|x: int| #![trigger q[x]] 0 <= x < q.len() - 1 implies has_edge(
            edges,
            q[x],
            q[x + 1],
        ) by {
            assert(q[x] == p[x] && q[x + 1] == p[x + 1]);
        }
        lemma_walk_rises(order, n, edges, q);
        assert(q.last() == p[k]);
        assert(q.first() == p.first());
    }
}

/// In a graph without a cycle no walk of two or more nodes comes back to
/// where it began.
pub proof fn lemma_acyclic_has_no_closed_walk(n: nat, edges: Seq<Edge>, p: Seq<int>)
    requires
        is_acyclic(n, edges),
        edges_in_range(edges, n),
        is_walk(edges, p),
        p.len() >= 2,
    ensures
        p.first() != p.last(),
{
    let order = choose|order: Seq<usize>| is_topological_order(order, n, edges);
    lemma_walk_rises(order, n, edges, p);
}

/// Whether the flag at `w` is there and set.
pub open spec fn flag_set(flags: Seq<bool>, w: int) -> bool {
    0 <= w < flags.len() && flags[w]
}

/// The flag at `w`, taken to be unset where there is none.
pub fn flag_at(flags: &Vec<bool>, w: usize) -> (r: bool)
    ensures
        r == flag_set(flags@, w as int),
{
    w < flags.len() && flags[w]
}

/// `Graph::new`: a graph without nodes and edges.
#[verifier::external_body]
pub(crate) fn graph_new() -> (g: Graph<(), usize, Directed, u32>)
    ensures
        node_count_of(g) == 0,
        edges_of(g) == Seq::<Edge>::empty(),
{
    Graph::new()
}

/// `Graph::node_count`.
#[verifier::external_body]
pub(crate) fn graph_node_count(g: &Graph<(), usize, Directed, u32>) -> (n: usize)
    ensures
        n == node_count_of(*g),
{
    g.node_count()
}

/// `Graph::edge_count`.
#[verifier::external_body]
pub(crate) fn graph_edge_count(g: &Graph<(), usize, Directed, u32>) -> (n: usize)
    ensures
        n == edges_of(*g).len(),
{
    g.edge_count()
}

/// `Graph::add_node`: appends one node and returns its index. The edges
/// stay. It panics when the index would not fit, which `requires` leaves
/// out.
#[verifier::external_body]
pub(crate) fn graph_add_node(g: &mut Graph<(), usize, Directed, u32>) -> (ix: usize)
    requires
        node_count_of(*old(g)) < u32::MAX,
    ensures
        ix == node_count_of(*old(g)),
        node_count_of(*final(g)) == node_count_of(*old(g)) + 1,
        edges_of(*final(g)) == edges_of(*old(g)),
{
    g.add_node(()).index()
}

/// `Graph::add_edge`: appends one edge from `a` to `b` and returns its
/// index; an edge between the same nodes may be there already. It panics
/// when a node does not exist or the index would not fit, which `requires`
/// leaves out.
#[verifier::external_body]
pub(crate) fn graph_add_edge(
    g: &mut Graph<(), usize, Directed, u32>,
    a: usize,
    b: usize,
    weight: usize,
) -> (ix: usize)
    requires
        a < node_count_of(*old(g)),
        b < node_count_of(*old(g)),
        edges_of(*old(g)).len() < u32::MAX,
    ensures
        ix == edges_of(*old(g)).len(),
        node_count_of(*final(g)) == node_count_of(*old(g)),
        edges_of(*final(g)) == edges_of(*old(g)).push((a, b, weight)),
{
    g.add_edge(NodeIndex::new(a), NodeIndex::new(b), weight).index()
}

/// `Graph::raw_edges`, at one index: the edge with index `e`.
#[verifier::external_body]
pub(crate) fn graph_edge(g: &Graph<(), usize, Directed, u32>, e: usize) -> (edge: Edge)
    requires
        e < edges_of(*g).len(),
    ensures
        edge == edges_of(*g)[e as int],
{
    let edge = &g.raw_edges()[e];
    (edge.source().index(), edge.target().index(), edge.weight)
}

/// `Graph::edges_directed`: the edges that leave `a` (forward) or enter it
/// (reverse), each once, with its index in front. In which order they come
/// is left open. `a` is to be a node of the graph: an index beyond what the
/// graph can count would be cut down to one that it can.
#[verifier::external_body]
pub(crate) fn graph_edges_directed(
    g: &Graph<(), usize, Directed, u32>,
    a: usize,
    direction: DependencyDirection,
) -> (r: Vec<(usize, Edge)>)
    requires
        a < node_count_of(*g),
    ensures
        forall|k: int|
            0 <= k < r.len() ==> {
                &&& (#[trigger] r[k]).0 < edges_of(*g).len()
                &&& edges_of(*g)[r[k].0 as int] == r[k].1
                &&& (if direction == DependencyDirection::Forward {
                    r[k].1.0
                } else {
                    r[k].1.1
                }) == a
            },
        forall|k: int, l: int|
            0 <= k < r.len() && 0 <= l < r.len() && k != l ==> (#[trigger] r[k]).0 != (
            #[trigger] r[l]).0,
        forall|e: int|
            0 <= e < edges_of(*g).len() && (if direction == DependencyDirection::Forward {
                (#[trigger] edges_of(*g)[e]).0
            } else {
                edges_of(*g)[e].1
            }) == a ==> exists|k: int| 0 <= k < r.len() && (#[trigger] r[k]).0 == e,
{
    let dir = match direction {
        DependencyDirection::Forward => petgraph::Direction::Outgoing,
        DependencyDirection::Reverse => petgraph::Direction::Incoming,
    };
    g.edges_directed(NodeIndex::new(a), dir).map(
        |e| (e.id().index(), (e.source().index(), e.target().index(), *e.weight())),
    ).collect()
}

/// `Graph::retain_edges`: keeps the edges whose weight has its flag set in
/// `keep` and removes the others. The nodes stay; the edges that stay may
/// change their indices, and are no more than there were.
#[verifier::external_body]
pub(crate) fn graph_retain_edges(g: &mut Graph<(), usize, Directed, u32>, keep: &Vec<bool>)
    requires
        distinct_weights(edges_of(*old(g))),
    ensures
        node_count_of(*final(g)) == node_count_of(*old(g)),
        edges_of(*final(g)).len() <= edges_of(*old(g)).len(),
        distinct_weights(edges_of(*final(g))),
        (forall|edge: Edge| #[trigger]
            edges_of(*final(g)).contains(edge) <==> (edges_of(*old(g)).contains(edge) && flag_set(
                keep@,
                edge.2 as int,
            ))),
{
    g.retain_edges(|frozen, e| flag_at(keep, frozen[e]));
}

/// `DfsSpace::new`: working space for walks over a graph.
#[verifier::external_body]
pub(crate) fn dfs_space_new(g: &Graph<(), usize, Directed, u32>) -> (space: DfsSpace<
    NodeIndex<u32>,
    FixedBitSet,
>) {
    DfsSpace::new(g)
}

/// `petgraph::algo::has_path_connecting`: whether a walk leads from `a` to
/// `b`; a node reaches itself. It panics on a node that does not exist,
/// which `requires` leaves out.
#[verifier::external_body]
pub(crate) fn graph_has_path(
    g: &Graph<(), usize, Directed, u32>,
    a: usize,
    b: usize,
    space: &mut DfsSpace<NodeIndex<u32>, FixedBitSet>,
) -> (r: bool)
    requires
        a < node_count_of(*g),
        b < node_count_of(*g),
    ensures
        r == reachable(edges_of(*g), a as int, b as int),
{
    petgraph::algo::has_path_connecting(g, NodeIndex::new(a), NodeIndex::new(b), Some(space))
}

/// `petgraph::algo::toposort`: the nodes in a topological order, where the
/// graph has no cycle, and else a node of a cycle.
#[verifier::external_body]
pub(crate) fn graph_toposort(g: &Graph<(), usize, Directed, u32>) -> (r: Result<
    Vec<usize>,
    usize,
>)
    ensures
        match r {
            Ok(order) => is_topological_order(order@, node_count_of(*g), edges_of(*g)),
            Err(node) => !is_acyclic(node_count_of(*g), edges_of(*g)) && node < node_count_of(*g),
        },
{
    match petgraph::algo::toposort(g, None) {
        Ok(order) => Ok(order.into_iter().map(|n| n.index()).collect()),
        Err(cycle) => Err(cycle.node_id().index()),
    }
}

/// `petgraph::algo::kosaraju_scc`: the strongly connected components of
/// the graph. Every node is in one component; two nodes are in the same
/// component when each reaches the other.
#[verifier::external_body]
pub(crate) fn graph_sccs(g: &Graph<(), usize, Directed, u32>) -> (r: Vec<Vec<usize>>)
    ensures
        forall|i: int, j: int|
            0 <= i < r.len() && 0 <= j < r[i].len() ==> (#[trigger] r[i][j]) < node_count_of(*g),
        forall|v: int| 0 <= v < node_count_of(*g) ==> #[trigger] listed(r@, v),
        forall|i: int, j: int, k: int, l: int|
            0 <= i < r.len() && 0 <= j < r[i].len() && 0 <= k < r.len() && 0 <= l < r[k].len() ==> (
            (i == k) <==> reachable(edges_of(*g), (#[trigger] r[i][j]) as int, (#[trigger] r[k][l]) as int)
                && reachable(edges_of(*g), r[k][l] as int, r[i][j] as int)),
        forall|i: int, j: int, l: int|
            0 <= i < r.len() && 0 <= j < r[i].len() && 0 <= l < r[i].len() && j != l ==> (
            #[trigger] r[i][j]) != (#[trigger] r[i][l]),
{
    petgraph::algo::kosaraju_scc(g).into_iter().map(
        |scc| scc.into_iter().map(|n| n.index()).collect(),
    ).collect()
}

} // verus!
