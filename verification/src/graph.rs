//! The dependency graph, kept in a `petgraph` graph, and what it means for
//! an order of its nodes to be topological.
//!
//! Nodes are numbered from zero in the order in which they were added; an
//! edge is a pair of node numbers, from a package to one that it requires.

use petgraph::algo::Cycle;
use petgraph::graph::Graph;
use petgraph::graph::NodeIndex;
use petgraph::Directed;
use vstd::prelude::*;

verus! {

#[verifier::external_type_specification]
#[verifier::external_body]
#[verifier::reject_recursive_types(N)]
#[verifier::reject_recursive_types(E)]
#[verifier::reject_recursive_types(Ty)]
#[verifier::reject_recursive_types(Ix)]
pub struct ExGraph<N, E, Ty, Ix>(Graph<N, E, Ty, Ix>);

#[verifier::external_type_specification]
#[verifier::external_body]
pub struct ExDirected(Directed);

#[verifier::external_type_specification]
#[verifier::external_body]
#[verifier::reject_recursive_types(Ix)]
pub struct ExNodeIndex<Ix>(NodeIndex<Ix>);

#[verifier::external_type_specification]
#[verifier::external_body]
#[verifier::reject_recursive_types(N)]
pub struct ExCycle<N>(Cycle<N>);

/// The number of nodes of a graph.
pub uninterp spec fn graph_node_count(g: Graph<(), (), Directed, u32>) -> nat;

/// The edges of a graph in the order in which they were added, each as the
/// numbers of its source and its target.
pub uninterp spec fn graph_edges(g: Graph<(), (), Directed, u32>) -> Seq<(int, int)>;

/// The order in which `petgraph::algo::toposort` lists the nodes of an
/// acyclic graph with the given number of nodes and the given edges.
pub uninterp spec fn toposort_order(nodes: nat, edges: Seq<(int, int)>) -> Seq<int>;

/// Whether every edge joins two of the nodes `0..nodes`.
pub open spec fn edges_in_range(nodes: nat, edges: Seq<(int, int)>) -> bool {
    forall|e: int|
        0 <= e < edges.len() ==> 0 <= (#[trigger] edges[e]).0 < nodes && 0 <= edges[e].1 < nodes
}

/// Whether `order` lists each of the nodes `0..nodes` exactly once.
pub open spec fn lists_every_node(order: Seq<int>, nodes: nat) -> bool {
    &&& order.len() == nodes
    &&& order.no_duplicates()
    &&& forall|k: int| 0 <= k < order.len() ==> 0 <= #[trigger] order[k] < nodes
    &&& forall|node: int| 0 <= node < nodes ==> order.contains(node)
}

/// Whether `first` stands before `second` in `order`.
pub open spec fn precedes(order: Seq<int>, first: int, second: int) -> bool {
    exists|i: int, j: int|
        0 <= i < j < order.len() && #[trigger] order[i] == first && #[trigger] order[j] == second
}

/// Whether `order` is a topological order: it lists every node once, and
/// the source of every edge before its target.
pub open spec fn is_topological(order: Seq<int>, nodes: nat, edges: Seq<(int, int)>) -> bool {
    &&& lists_every_node(order, nodes)
    &&& forall|e: int|
        0 <= e < edges.len() ==> precedes(order, (#[trigger] edges[e]).0, edges[e].1)
}

/// Whether `walk` follows edges from each of its nodes to the next.
pub open spec fn is_walk(walk: Seq<int>, edges: Seq<(int, int)>) -> bool {
    &&& walk.len() >= 2
    &&& forall|k: int| 0 <= k < walk.len() - 1 ==> edges.contains((#[trigger] walk[k], walk[k + 1]))
}

/// Whether some walk along the edges returns to the node it started from.
pub open spec fn has_cycle(edges: Seq<(int, int)>) -> bool {
    exists|walk: Seq<int>| #[trigger] is_walk(walk, edges) && walk.first() == walk.last()
}

/// Along a walk in a topologically ordered graph, every later node stands
/// behind the first one.
proof fn lemma_walk_descends(order: Seq<int>, nodes: nat, edges: Seq<(int, int)>, walk: Seq<int>, k: int)
    requires
        is_topological(order, nodes, edges),
        is_walk(walk, edges),
        1 <= k < walk.len(),
    ensures
        precedes(order, walk[0], walk[k]),
    decreases k,
{
    let e = choose|e: int| 0 <= e < edges.len() && edges[e] == (walk[k - 1], walk[k]);
    assert(edges.contains((walk[k - 1], walk[k])));
    assert(precedes(order, edges[e].0, edges[e].1));
    if k > 1 {
        lemma_walk_descends(order, nodes, edges, walk, k - 1);
        let (i1, j1) = choose|i: int, j: int|
            0 <= i < j < order.len() && #[trigger] order[i] == walk[0] && #[trigger] order[j]
                == walk[k - 1];
        let (i2, j2) = choose|i: int, j: int|
            0 <= i < j < order.len() && #[trigger] order[i] == walk[k - 1] && #[trigger] order[j]
                == walk[k];
        assert(j1 == i2);
        assert(order[i1] == walk[0] && order[j2] == walk[k]);
    }
}

/// A graph that has a topological order has no cycle.
pub proof fn lemma_topological_is_acyclic(order: Seq<int>, nodes: nat, edges: Seq<(int, int)>)
    requires
        is_topological(order, nodes, edges),
    ensures
        !has_cycle(edges),
{
    if has_cycle(edges) {
        let walk = choose|walk: Seq<int>| #[trigger]
            is_walk(walk, edges) && walk.first() == walk.last();
        lemma_walk_descends(order, nodes, edges, walk, walk.len() - 1);
        let (i, j) = choose|i: int, j: int|
            0 <= i < j < order.len() && #[trigger] order[i] == walk[0] && #[trigger] order[j]
                == walk[walk.len() - 1];
        assert(order[i] == order[j]);
    }
}

/// Two nodes that require each other form a cycle, and so does a node that
/// requires itself.
pub proof fn lemma_mutual_edges_cycle(edges: Seq<(int, int)>, a: int, b: int)
    requires
        edges.contains((a, b)),
        edges.contains((b, a)),
    ensures
        has_cycle(edges),
{
    let walk = seq![a, b, a];
    assert(is_walk(walk, edges));
    assert(walk.first() == walk.last());
}

/// A graph without edges has no cycle.
pub proof fn lemma_no_edges_no_cycle(edges: Seq<(int, int)>)
    requires
        edges.len() == 0,
    ensures
        !has_cycle(edges),
{
    if has_cycle(edges) {
        let walk = choose|walk: Seq<int>| #[trigger]
            is_walk(walk, edges) && walk.first() == walk.last();
        assert(edges.contains((walk[0], walk[1])));
    }
}

/// The numbers of a vector of node numbers, as integers.
pub open spec fn node_numbers(order: Seq<usize>) -> Seq<int> {
    Seq::new(order.len(), |k: int| order[k] as int)
}

/// `Graph::new`: a graph without nodes and edges.
#[verifier::external_body]
pub(crate) fn graph_new() -> (g: Graph<(), (), Directed, u32>)
    ensures
        graph_node_count(g) == 0,
        graph_edges(g) == Seq::<(int, int)>::empty(),
{
    Graph::new()
}

/// `Graph::add_node`: appends a node and returns its number, which is the
/// number of nodes before the call. The graph indexes its nodes by `u32`
/// and keeps the largest value for itself.
#[verifier::external_body]
pub(crate) fn graph_add_node(g: &mut Graph<(), (), Directed, u32>) -> (node: usize)
    requires
        graph_node_count(*old(g)) < u32::MAX,
    ensures
        node == graph_node_count(*old(g)),
        graph_node_count(*final(g)) == graph_node_count(*old(g)) + 1,
        graph_edges(*final(g)) == graph_edges(*old(g)),
{
    g.add_node(()).index()
}

/// `Graph::add_edge`: appends an edge between two existing nodes; parallel
/// edges and loops are kept. The graph indexes its edges by `u32` and keeps
/// the largest value for itself.
#[verifier::external_body]
pub(crate) fn graph_add_edge(g: &mut Graph<(), (), Directed, u32>, from: usize, to: usize)
    requires
        from < graph_node_count(*old(g)),
        to < graph_node_count(*old(g)),
        graph_edges(*old(g)).len() < u32::MAX,
    ensures
        graph_node_count(*final(g)) == graph_node_count(*old(g)),
        graph_edges(*final(g)) == graph_edges(*old(g)).push((from as int, to as int)),
{
    g.add_edge(NodeIndex::new(from), NodeIndex::new(to), ());
}

/// `petgraph::algo::toposort`: for an acyclic graph the nodes in a
/// topological order, each node before its successors; for any other graph
/// (a self loop counts as a cycle) an error. Which of the topological
/// orders comes out is a function of the graph alone.
#[verifier::external_body]
pub(crate) fn graph_toposort(g: &Graph<(), (), Directed, u32>) -> (r: Result<
    Vec<usize>,
    Cycle<NodeIndex<u32>>,
>)
    ensures
        match r {
            Ok(order) => node_numbers(order@) == toposort_order(
                graph_node_count(*g),
                graph_edges(*g),
            ) && is_topological(node_numbers(order@), graph_node_count(*g), graph_edges(*g)),
            Err(_) => has_cycle(graph_edges(*g)),
        },
{
    petgraph::algo::toposort(g, None).map(|order| order.into_iter().map(|n| n.index()).collect())
}

} // verus!
