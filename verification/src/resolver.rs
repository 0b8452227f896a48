//! The dependency resolver: from the packages that a manifest requires
//! directly to an install order that covers everything they require in turn.
//!
//! The resolver decides and records; asking the index is left to its caller.
//! A caller seeds it with the packages that the direct dependencies resolved
//! to. Then, as long as [`DependencyResolver::next_package`] hands out a
//! node, it asks the index for that node's dependencies and reports the
//! answers in [`DependencyResolver::add_dependencies`], or the failure of a
//! request in [`DependencyResolver::fail`]. At the end
//! [`DependencyResolver::resolve`] orders the graph, unless a request failed
//! or the dependencies of a node were never reported.

use crate::error::{CobraError, ErrorView};
use crate::graph::{
    edges_in_range, graph_add_edge, graph_add_node, graph_edges, graph_new, graph_node_count,
    graph_toposort, has_cycle, is_topological, lemma_topological_is_acyclic, node_numbers,
    toposort_order,
};
use crate::package::{
    dependency_views, package_views, Dependency, DependencyView, Package, PackageView,
};
use crate::text::same_text;
use crate::vectors::reversed;
use petgraph::graph::Graph;
use petgraph::Directed;
use vstd::prelude::*;

verus! {

/// Whether `nodes` holds a package with the identity `id`.
pub open spec fn has_node(nodes: Seq<PackageView>, id: (Seq<char>, Seq<char>)) -> bool {
    exists|i: int| 0 <= i < nodes.len() && (#[trigger] nodes[i]).identity() == id
}

/// The number of the node with the identity `id`.
pub open spec fn node_index(nodes: Seq<PackageView>, id: (Seq<char>, Seq<char>)) -> int {
    choose|i: int| 0 <= i < nodes.len() && (#[trigger] nodes[i]).identity() == id
}

/// Whether no two of `nodes` have the same identity.
pub open spec fn distinct_nodes(nodes: Seq<PackageView>) -> bool {
    forall|i: int, j: int|
        0 <= i < j < nodes.len() ==> (#[trigger] nodes[i]).identity() != (
        #[trigger] nodes[j]).identity()
}

/// The graph that a resolver has built, with its worklist.
#[verifier::ext_equal]
pub struct GraphView {
    /// The packages found so far; a package's index is its node number.
    pub nodes: Seq<PackageView>,
    /// The edges, each from a package to one that it requires.
    pub edges: Seq<(int, int)>,
    /// The worklist: node numbers, the next one to look at last.
    pub pending: Seq<int>,
    /// For each node, whether it has been handed out for its dependencies
    /// to be asked for.
    pub expanded: Seq<bool>,
}

impl GraphView {
    /// A graph without a node.
    pub open spec fn empty() -> GraphView {
        GraphView {
            nodes: Seq::empty(),
            edges: Seq::empty(),
            pending: Seq::empty(),
            expanded: Seq::empty(),
        }
    }

    /// What holds of every graph: one flag per node, no identity twice,
    /// only existing nodes in the edges and in the worklist, and every node
    /// that has not been handed out in the worklist.
    pub open spec fn valid(self) -> bool {
        &&& self.expanded.len() == self.nodes.len()
        &&& distinct_nodes(self.nodes)
        &&& edges_in_range(self.nodes.len(), self.edges)
        &&& forall|k: int|
            0 <= k < self.pending.len() ==> 0 <= #[trigger] self.pending[k] < self.nodes.len()
        &&& forall|node: int|
            0 <= node < self.nodes.len() && !#[trigger] self.expanded[node]
                ==> self.pending.contains(node)
    }

    /// Whether every node has been handed out.
    pub open spec fn complete(self) -> bool {
        forall|node: int| 0 <= node < self.nodes.len() ==> #[trigger] self.expanded[node]
    }

    /// The resolver after it has met `p`: a package with a new identity
    /// becomes the last node and the last entry of the worklist.
    pub open spec fn discover(self, p: PackageView) -> GraphView {
        if has_node(self.nodes, p.identity()) {
            self
        } else {
            GraphView {
                nodes: self.nodes.push(p),
                edges: self.edges,
                pending: self.pending.push(self.nodes.len() as int),
                expanded: self.expanded.push(false),
            }
        }
    }

    /// The resolver after it has met each of `found`, in order.
    pub open spec fn discover_all(self, found: Seq<PackageView>) -> GraphView
        decreases found.len(),
    {
        if found.len() == 0 {
            self
        } else {
            self.discover_all(found.drop_last()).discover(found.last())
        }
    }

    /// The resolver after it has met `p` as a dependency of the node
    /// `parent`: `p` is discovered, and an edge leads from `parent` to the
    /// node of `p`.
    pub open spec fn link(self, parent: int, p: PackageView) -> GraphView {
        let met = self.discover(p);
        GraphView {
            nodes: met.nodes,
            edges: met.edges.push((parent, node_index(met.nodes, p.identity()))),
            pending: met.pending,
            expanded: met.expanded,
        }
    }

    /// The resolver after it has met each of `found`, in order, as a
    /// dependency of the node `parent`.
    pub open spec fn link_all(self, parent: int, found: Seq<PackageView>) -> GraphView
        decreases found.len(),
    {
        if found.len() == 0 {
            self
        } else {
            self.link_all(parent, found.drop_last()).link(parent, found.last())
        }
    }

    /// The next node whose dependencies are to be asked for, and the
    /// resolver that is left: entries are taken from the end of the
    /// worklist until one names a node that has not been expanded, which is
    /// then marked as expanded.
    pub open spec fn advance(self) -> (Option<int>, GraphView)
        decreases self.pending.len(),
    {
        if self.pending.len() == 0 {
            (None, self)
        } else {
            let node = self.pending.last();
            let rest = GraphView {
                nodes: self.nodes,
                edges: self.edges,
                pending: self.pending.drop_last(),
                expanded: self.expanded,
            };
            if 0 <= node < rest.expanded.len() && !rest.expanded[node] {
                (
                    Some(node),
                    GraphView {
                        nodes: rest.nodes,
                        edges: rest.edges,
                        pending: rest.pending,
                        expanded: rest.expanded.update(node, true),
                    },
                )
            } else {
                rest.advance()
            }
        }
    }

    /// Whether `first` stands before `second` in `plan`.
    pub open spec fn installs_before(
        plan: Seq<PackageView>,
        first: PackageView,
        second: PackageView,
    ) -> bool {
        exists|i: int, j: int|
            0 <= i < j < plan.len() && #[trigger] plan[i] == first && #[trigger] plan[j] == second
    }

    /// Whether `plan` holds every node exactly once and nothing else, and
    /// for every edge the required package before the one that requires it.
    pub open spec fn ordered_by(self, plan: Seq<PackageView>) -> bool {
        &&& plan.len() == self.nodes.len()
        &&& forall|k: int| 0 <= k < self.nodes.len() ==> plan.contains(#[trigger] self.nodes[k])
        &&& forall|k: int| 0 <= k < plan.len() ==> self.nodes.contains(#[trigger] plan[k])
        &&& forall|i: int, j: int|
            0 <= i < j < plan.len() ==> (#[trigger] plan[i]).identity() != (
            #[trigger] plan[j]).identity()
        &&& forall|e: int|
            0 <= e < self.edges.len() ==> Self::installs_before(
                plan,
                self.nodes[(#[trigger] self.edges[e]).1],
                self.nodes[self.edges[e].0],
            )
    }
}

/// The packages of `nodes` in the reverse of `order`.
pub open spec fn plan_of(nodes: Seq<PackageView>, order: Seq<int>) -> Seq<PackageView> {
    Seq::new(order.len(), |k: int| nodes[order[order.len() - 1 - k]])
}

/// Discovering packages keeps a resolver valid, and keeps what it had.
pub proof fn lemma_discover_valid(v: GraphView, p: PackageView)
    requires
        v.valid(),
    ensures
        v.discover(p).valid(),
        has_node(v.discover(p).nodes, p.identity()),
        0 <= node_index(v.discover(p).nodes, p.identity()) < v.discover(p).nodes.len(),
        v.nodes.len() <= v.discover(p).nodes.len() <= v.nodes.len() + 1,
        v.discover(p).edges == v.edges,
{
    let d = v.discover(p);
    if has_node(v.nodes, p.identity()) {
    } else {
        let n = v.nodes.len() as int;
        assert(d.nodes[n].identity() == p.identity());
        assert forall|i: int, j: int| 0 <= i < j < d.nodes.len() implies (
        #[trigger] d.nodes[i]).identity() != (#[trigger] d.nodes[j]).identity() by {
            if j == n {
                assert(v.nodes[i].identity() != p.identity());
            }
        }
        assert forall|node: int|
            0 <= node < d.nodes.len() && !#[trigger] d.expanded[node] implies d.pending.contains(
            node,
        ) by {
            if node == n {
                assert(d.pending[d.pending.len() - 1] == n);
            } else {
                assert(!v.expanded[node]);
                let k = choose|k: int| 0 <= k < v.pending.len() && v.pending[k] == node;
                assert(d.pending[k] == node);
            }
        }
    }
}

/// Taking the next node off the worklist keeps a resolver valid; when the
/// worklist has run out, the dependencies of every node have been asked
/// for.
pub proof fn lemma_advance_valid(v: GraphView)
    requires
        v.valid(),
    ensures
        v.advance().1.valid(),
        v.advance().1.nodes == v.nodes,
        v.advance().1.edges == v.edges,
        v.advance().0 is None ==> v.advance().1.complete(),
        match v.advance().0 {
            Some(node) => 0 <= node < v.nodes.len() && !v.expanded[node] && v.advance().1.expanded
                == v.expanded.update(node, true),
            None => v.advance().1.expanded == v.expanded,
        },
    decreases v.pending.len(),
{
    if v.pending.len() > 0 {
        let node = v.pending.last();
        let rest = GraphView {
            nodes: v.nodes,
            edges: v.edges,
            pending: v.pending.drop_last(),
            expanded: v.expanded,
        };
        if !rest.expanded[node] {
            let after = v.advance().1;
            assert forall|m: int|
                0 <= m < after.nodes.len() && !#[trigger] after.expanded[m] implies after.pending.contains(
                m,
            ) by {
                assert(!v.expanded[m]);
                let k = choose|k: int| 0 <= k < v.pending.len() && v.pending[k] == m;
                assert(after.pending[k] == m);
            }
        } else {
            assert forall|m: int|
                0 <= m < rest.nodes.len() && !#[trigger] rest.expanded[m] implies rest.pending.contains(
                m,
            ) by {
                let k = choose|k: int| 0 <= k < v.pending.len() && v.pending[k] == m;
                assert(rest.pending[k] == m);
            }
            lemma_advance_valid(rest);
        }
    } else {
        assert forall|m: int| 0 <= m < v.nodes.len() implies #[trigger] v.expanded[m] by {
            if !v.expanded[m] {
                assert(v.pending.contains(m));
            }
        }
    }
}

/// Linking a dependency keeps a resolver valid and adds one edge.
pub proof fn lemma_link_valid(v: GraphView, parent: int, p: PackageView)
    requires
        v.valid(),
        0 <= parent < v.nodes.len(),
    ensures
        v.link(parent, p).valid(),
        v.nodes.len() <= v.link(parent, p).nodes.len() <= v.nodes.len() + 1,
        v.link(parent, p).edges.len() == v.edges.len() + 1,
{
    lemma_discover_valid(v, p);
}

/// Discovering a package leaves every node at its number.
pub proof fn lemma_discover_keeps_nodes(v: GraphView, p: PackageView, id: (Seq<char>, Seq<char>))
    requires
        v.valid(),
        has_node(v.nodes, id),
    ensures
        has_node(v.discover(p).nodes, id),
        node_index(v.discover(p).nodes, id) == node_index(v.nodes, id),
{
    let d = v.discover(p);
    lemma_discover_valid(v, p);
    let i = node_index(v.nodes, id);
    assert(v.nodes[i].identity() == id);
    assert(d.nodes[i].identity() == id);
    let j = node_index(d.nodes, id);
    assert(d.nodes[j].identity() == id);
    if i < j {
        assert(d.nodes[i].identity() != d.nodes[j].identity());
    } else if j < i {
        assert(d.nodes[j].identity() != d.nodes[i].identity());
    }
}

/// Every package that was reported as a dependency of a node has a node of
/// its own, and an edge leads from the node that requires it to that node.
pub proof fn lemma_link_all_edges(v: GraphView, parent: int, found: Seq<PackageView>, i: int)
    requires
        v.valid(),
        0 <= parent < v.nodes.len(),
        0 <= i < found.len(),
    ensures
        v.link_all(parent, found).valid(),
        v.nodes.len() <= v.link_all(parent, found).nodes.len(),
        has_node(v.link_all(parent, found).nodes, found[i].identity()),
        v.link_all(parent, found).edges.contains(
            (parent, node_index(v.link_all(parent, found).nodes, found[i].identity())),
        ),
    decreases found.len(),
{
    let earlier = found.drop_last();
    let prev = v.link_all(parent, earlier);
    let last = found.last();
    let after = v.link_all(parent, found);
    if earlier.len() > 0 {
        lemma_link_all_edges(v, parent, earlier, 0);
    }
    lemma_discover_valid(prev, last);
    lemma_link_valid(prev, parent, last);
    if i == found.len() - 1 {
        let edge = (parent, node_index(after.nodes, last.identity()));
        assert(after.edges[after.edges.len() - 1] == edge);
    } else {
        lemma_link_all_edges(v, parent, earlier, i);
        let id = found[i].identity();
        assert(earlier[i] == found[i]);
        lemma_discover_keeps_nodes(prev, last, id);
        let edge = (parent, node_index(prev.nodes, id));
        let e = choose|e: int| 0 <= e < prev.edges.len() && prev.edges[e] == edge;
        assert(after.edges[e] == edge);
    }
}

/// Whatever a package requires is installed before it: where an edge
/// leads from a node to the node of a package, that package stands before
/// the node's package in every plan that the resolver orders.
pub proof fn lemma_dependencies_first(
    v: GraphView,
    plan: Seq<PackageView>,
    parent: int,
    required: (Seq<char>, Seq<char>),
)
    requires
        v.valid(),
        v.ordered_by(plan),
        has_node(v.nodes, required),
        v.edges.contains((parent, node_index(v.nodes, required))),
    ensures
        exists|i: int, j: int|
            0 <= i < j < plan.len() && (#[trigger] plan[i]).identity() == required
                && #[trigger] plan[j] == v.nodes[parent],
{
    let child = node_index(v.nodes, required);
    assert(v.nodes[child].identity() == required);
    let e = choose|e: int| 0 <= e < v.edges.len() && v.edges[e] == (parent, child);
    assert(GraphView::installs_before(plan, v.nodes[v.edges[e].1], v.nodes[v.edges[e].0]));
    let (i, j) = choose|i: int, j: int|
        0 <= i < j < plan.len() && #[trigger] plan[i] == v.nodes[child] && #[trigger] plan[j]
            == v.nodes[parent];
    assert(plan[i].identity() == required && plan[j] == v.nodes[parent]);
}

/// A cycle among the edges stays one when the resolver learns more: no
/// later step can make a graph with a cycle orderable.
pub proof fn lemma_link_keeps_cycle(v: GraphView, parent: int, p: PackageView)
    requires
        has_cycle(v.edges),
    ensures
        has_cycle(v.link(parent, p).edges),
{
    let walk = choose|walk: Seq<int>| #[trigger]
        crate::graph::is_walk(walk, v.edges) && walk.first() == walk.last();
    let after = v.link(parent, p).edges;
    assert forall|k: int| 0 <= k < walk.len() - 1 implies after.contains(
        (#[trigger] walk[k], walk[k + 1]),
    ) by {
        let e = choose|e: int| 0 <= e < v.edges.len() && v.edges[e] == (walk[k], walk[k + 1]);
        assert(v.edges.contains((walk[k], walk[k + 1])));
        assert(after[e] == (walk[k], walk[k + 1]));
    }
    assert(crate::graph::is_walk(walk, after));
}

/// The reverse of a topological order is an install order: it holds every
/// node once, and whatever a package requires stands before it.
pub proof fn lemma_plan_is_ordered(v: GraphView, order: Seq<int>)
    requires
        v.valid(),
        is_topological(order, v.nodes.len(), v.edges),
    ensures
        v.ordered_by(plan_of(v.nodes, order)),
{
    let plan = plan_of(v.nodes, order);
    let n = order.len() as int;
    assert forall|k: int| 0 <= k < v.nodes.len() implies plan.contains(#[trigger] v.nodes[k]) by {
        assert(order.contains(k));
        let i = choose|i: int| 0 <= i < order.len() && order[i] == k;
        assert(plan[n - 1 - i] == v.nodes[k]);
    }
    assert forall|k: int| 0 <= k < plan.len() implies v.nodes.contains(#[trigger] plan[k]) by {
        assert(plan[k] == v.nodes[order[n - 1 - k]]);
    }
    assert forall|i: int, j: int| 0 <= i < j < plan.len() implies (#[trigger] plan[i]).identity()
        != (#[trigger] plan[j]).identity() by {
        let a = order[n - 1 - i];
        let b = order[n - 1 - j];
        assert(a != b);
        if a < b {
            assert(v.nodes[a].identity() != v.nodes[b].identity());
        } else {
            assert(v.nodes[b].identity() != v.nodes[a].identity());
        }
    }
    assert forall|e: int| 0 <= e < v.edges.len() implies GraphView::installs_before(
        plan,
        v.nodes[(#[trigger] v.edges[e]).1],
        v.nodes[v.edges[e].0],
    ) by {
        assert(crate::graph::precedes(order, v.edges[e].0, v.edges[e].1));
        let (i, j) = choose|i: int, j: int|
            0 <= i < j < order.len() && #[trigger] order[i] == v.edges[e].0 && #[trigger] order[j]
                == v.edges[e].1;
        assert(plan[n - 1 - j] == v.nodes[v.edges[e].1]);
        assert(plan[n - 1 - i] == v.nodes[v.edges[e].0]);
    }
}

/// A resolver that was seeded with nothing orders to the empty plan: it
/// has no node, hence no edge and no cycle.
pub proof fn lemma_empty_resolver()
    ensures
        GraphView::empty().discover_all(Seq::empty()) == GraphView::empty(),
        GraphView::empty().valid(),
        !has_cycle(GraphView::empty().edges),
{
    crate::graph::lemma_no_edges_no_cycle(GraphView::empty().edges);
}

/// The packages of `packages` in the reverse of `order`.
pub fn install_order(packages: &Vec<Package>, order: &Vec<usize>) -> (plan: Vec<Package>)
    requires
        forall|k: int| 0 <= k < order@.len() ==> #[trigger] order@[k] < packages@.len(),
    ensures
        package_views(plan@) == plan_of(package_views(packages@), node_numbers(order@)),
{
    let n = order.len();
    let mut plan: Vec<Package> = Vec::new();
    let mut k: usize = 0;
    while k < n
        invariant
            k <= n,
            n == order@.len(),
            plan@.len() == k,
            forall|i: int| 0 <= i < order@.len() ==> #[trigger] order@[i] < packages@.len(),
            forall|i: int|
                0 <= i < k ==> (#[trigger] plan@[i])@ == packages@[order@[n - 1 - i] as int]@,
        decreases n - k,
    {
        let node = order[n - 1 - k];
        plan.push(packages[node].clone());
        k += 1;
    }
    assert(package_views(plan@) =~= plan_of(package_views(packages@), node_numbers(order@)));
    plan
}

/// The graph of one resolution, kept in a `petgraph` graph.
struct DependencyGraph {
    packages: Vec<Package>,
    graph: Graph<(), (), Directed, u32>,
    links: usize,
    pending: Vec<usize>,
    expanded: Vec<bool>,
}

impl View for DependencyGraph {
    type V = GraphView;

    closed spec fn view(&self) -> GraphView {
        GraphView {
            nodes: package_views(self.packages@),
            edges: graph_edges(self.graph),
            pending: node_numbers(self.pending@),
            expanded: self.expanded@,
        }
    }
}

/// The number of the node of `packages` that has the identity of `p`.
fn find_node(packages: &Vec<Package>, p: &Package) -> (r: Option<usize>)
    ensures
        match r {
            Some(i) => i < packages@.len() && packages@[i as int]@.identity() == p@.identity(),
            None => !has_node(package_views(packages@), p@.identity()),
        },
{
    let mut i: usize = 0;
    while i < packages.len()
        invariant
            i <= packages.len(),
            forall|j: int| 0 <= j < i ==> (#[trigger] packages@[j])@.identity() != p@.identity(),
        decreases packages.len() - i,
    {
        if packages[i].same_identity(p) {
            return Some(i);
        }
        i += 1;
    }
    proof {
        let nodes = package_views(packages@);
        assert forall|j: int| 0 <= j < nodes.len() implies (#[trigger] nodes[j]).identity()
            != p@.identity() by {
            assert(nodes[j] == packages@[j]@);
        }
    }
    None
}

impl DependencyGraph {
    #[verifier::type_invariant]
    spec fn well_formed(self) -> bool {
        &&& self@.valid()
        &&& graph_node_count(self.graph) == self.packages@.len()
        &&& self.links == graph_edges(self.graph).len()
    }

    /// Whether the graph has room for `extra` more nodes and `extra` more
    /// edges: it counts both in 32 bits.
    spec fn has_room(&self, extra: nat) -> bool {
        self@.nodes.len() + extra < u32::MAX && self@.edges.len() + extra < u32::MAX
    }

    /// Tests whether the graph has room for `extra` more nodes and edges.
    fn can_take(&self, extra: usize) -> (r: bool)
        ensures
            r == self.has_room(extra as nat),
            self@.valid(),
    {
        proof {
            use_type_invariant(self);
        }
        let limit: u64 = 0xFFFF_FFFF;
        let nodes = self.packages.len() as u64;
        let links = self.links as u64;
        let extra = extra as u64;
        extra < limit && nodes < limit - extra && links < limit - extra
    }

    /// Seeds a resolution with the packages that the direct dependencies
    /// resolved to. Packages with one identity become one node.
    fn seed(direct: Vec<Package>) -> (resolver: Self)
        requires
            direct@.len() < u32::MAX,
        ensures
            resolver@ == GraphView::empty().discover_all(package_views(direct@)),
            resolver@.valid(),
    {
        let mut packages: Vec<Package> = Vec::new();
        let mut graph = graph_new();
        let mut pending: Vec<usize> = Vec::new();
        let mut expanded: Vec<bool> = Vec::new();
        let ghost found = package_views(direct@);
        let ghost start = GraphView::empty();
        let n = direct.len();
        let mut waiting = reversed(direct);
        assert forall|i: int| 0 <= i < waiting@.len() implies (#[trigger] waiting@[i])@ == found[n - 1
            - i] by {
            assert(waiting@[i] == direct@[n - 1 - i]);
        }
        let mut k: usize = 0;
        while waiting.len() > 0
            invariant
                k + waiting@.len() == n,
                n < u32::MAX,
                found.len() == n,
                forall|i: int|
                    0 <= i < waiting@.len() ==> (#[trigger] waiting@[i])@ == found[n - 1 - i],
                graph_node_count(graph) == packages@.len(),
                packages@.len() <= k,
                graph_edges(graph) == Seq::<(int, int)>::empty(),
                (GraphView {
                    nodes: package_views(packages@),
                    edges: graph_edges(graph),
                    pending: node_numbers(pending@),
                    expanded: expanded@,
                }) =~= start.discover_all(found.take(k as int)),
                start.discover_all(found.take(k as int)).valid(),
            decreases waiting@.len(),
        {
            let ghost before = start.discover_all(found.take(k as int));
            match waiting.pop() {
                Some(p) => {
                    proof {
                        assert(p@ == found[k as int]);
                        assert(found.take(k + 1).drop_last() =~= found.take(k as int));
                        assert(found.take(k + 1).last() == found[k as int]);
                        lemma_discover_valid(before, p@);
                    }
                    match find_node(&packages, &p) {
                        Some(i) => {
                            assert(before.nodes[i as int] == packages@[i as int]@);
                        },
                        None => {
                            let node = graph_add_node(&mut graph);
                            packages.push(p);
                            pending.push(node);
                            expanded.push(false);
                            proof {
                                assert(package_views(packages@) =~= before.nodes.push(p@));
                                assert(node_numbers(pending@) =~= before.pending.push(
                                    before.nodes.len() as int,
                                ));
                            }
                        },
                    }
                    k += 1;
                },
                None => {},
            }
        }
        proof {
            assert(found.take(n as int) =~= found);
        }
        DependencyGraph { packages, graph, links: 0, pending, expanded }
    }

    /// Whether every node has been handed out.
    fn all_handed_out(&self) -> (r: bool)
        ensures
            r == self@.complete(),
    {
        proof {
            use_type_invariant(self);
        }
        let mut i: usize = 0;
        while i < self.expanded.len()
            invariant
                i <= self.expanded.len(),
                self.expanded@.len() == self@.nodes.len(),
                forall|k: int| 0 <= k < i ==> #[trigger] self.expanded@[k],
            decreases self.expanded.len() - i,
        {
            if !self.expanded[i] {
                assert(!self@.expanded[i as int]);
                return false;
            }
            i += 1;
        }
        true
    }

    /// The number of packages found so far.
    fn node_count(&self) -> (n: usize)
        ensures
            n == self@.nodes.len(),
            self@.valid(),
    {
        proof {
            use_type_invariant(self);
        }
        self.packages.len()
    }

    /// The package of a node.
    fn package(&self, node: usize) -> (p: &Package)
        requires
            node < self@.nodes.len(),
        ensures
            p@ == self@.nodes[node as int],
    {
        &self.packages[node]
    }

    /// Takes the next node whose dependencies are to be asked for off the
    /// worklist; `None` when the worklist has run out.
    fn advance(&mut self) -> (node: Option<usize>)
        ensures
            final(self)@ == old(self)@.advance().1,
            match node {
                Some(i) => old(self)@.advance().0 == Some(i as int) && i < old(self)@.nodes.len(),
                None => old(self)@.advance().0 is None && final(self)@.complete(),
            },
            final(self)@.valid(),
    {
        proof {
            use_type_invariant(&*self);
            lemma_advance_valid(old(self)@);
        }
        let mut taken = DependencyGraph {
            packages: Vec::new(),
            graph: graph_new(),
            links: 0,
            pending: Vec::new(),
            expanded: Vec::new(),
        };
        core::mem::swap(self, &mut taken);
        let DependencyGraph { packages, graph, links, mut pending, mut expanded } = taken;
        let ghost nodes = package_views(packages@);
        let ghost edges = graph_edges(graph);
        let mut found: Option<usize> = None;
        proof {
            assert forall|k: int| 0 <= k < pending@.len() implies 0 <= #[trigger] pending@[k]
                < nodes.len() by {
                assert(node_numbers(pending@)[k] == pending@[k]);
            }
        }
        while pending.len() > 0
            invariant_except_break
                found is None,
                old(self)@.advance() == (GraphView {
                    nodes,
                    edges,
                    pending: node_numbers(pending@),
                    expanded: expanded@,
                }).advance(),
            invariant
                expanded@.len() == nodes.len(),
                forall|k: int|
                    0 <= k < pending@.len() ==> 0 <= #[trigger] pending@[k] < nodes.len(),
            ensures
                match found {
                    Some(i) => old(self)@.advance().0 == Some(i as int) && i < nodes.len(),
                    None => old(self)@.advance().0 is None,
                },
                old(self)@.advance().1 =~= (GraphView {
                    nodes,
                    edges,
                    pending: node_numbers(pending@),
                    expanded: expanded@,
                }),
            decreases pending@.len(),
        {
            let ghost here = GraphView {
                nodes,
                edges,
                pending: node_numbers(pending@),
                expanded: expanded@,
            };
            let node = pending[pending.len() - 1];
            let _ = pending.pop();
            proof {
                assert(node_numbers(pending@) =~= here.pending.drop_last());
                assert(here.pending.last() == node as int);
            }
            if !expanded[node] {
                expanded.set(node, true);
                found = Some(node);
                break ;
            }
        }
        proof {
            let last = GraphView {
                nodes,
                edges,
                pending: node_numbers(pending@),
                expanded: expanded@,
            };
            assert forall|k: int| 0 <= k < last.pending.len() implies 0 <= #[trigger] last.pending[k]
                < last.nodes.len() by {
                assert(last.pending[k] == pending@[k]);
            }
        }
        *self = DependencyGraph { packages, graph, links, pending, expanded };
        found
    }

    /// Records what the index resolved the dependencies of the node
    /// `parent` to. Each package becomes a node, unless a node has its
    /// identity already, and an edge leads from `parent` to it.
    fn link(&mut self, parent: usize, found: Vec<Package>)
        requires
            parent < old(self)@.nodes.len(),
            old(self).has_room(found@.len()),
        ensures
            final(self)@ == old(self)@.link_all(parent as int, package_views(found@)),
            final(self)@.valid(),
    {
        proof {
            use_type_invariant(&*self);
        }
        let mut taken = DependencyGraph {
            packages: Vec::new(),
            graph: graph_new(),
            links: 0,
            pending: Vec::new(),
            expanded: Vec::new(),
        };
        core::mem::swap(self, &mut taken);
        let DependencyGraph { mut packages, mut graph, mut links, mut pending, mut expanded } =
            taken;
        let ghost start = old(self)@;
        let ghost views = package_views(found@);
        let n = found.len();
        let mut waiting = reversed(found);
        assert forall|i: int| 0 <= i < waiting@.len() implies (#[trigger] waiting@[i])@
            == views[n - 1 - i] by {
            assert(waiting@[i] == found@[n - 1 - i]);
        }
        let mut k: usize = 0;
        while waiting.len() > 0
            invariant
                k + waiting@.len() == n,
                views.len() == n,
                parent < start.nodes.len(),
                start.nodes.len() + n < u32::MAX,
                start.edges.len() + n < u32::MAX,
                forall|i: int|
                    0 <= i < waiting@.len() ==> (#[trigger] waiting@[i])@ == views[n - 1 - i],
                graph_node_count(graph) == packages@.len(),
                links == graph_edges(graph).len(),
                start.nodes.len() <= packages@.len() <= start.nodes.len() + k,
                links == start.edges.len() + k,
                (GraphView {
                    nodes: package_views(packages@),
                    edges: graph_edges(graph),
                    pending: node_numbers(pending@),
                    expanded: expanded@,
                }) =~= start.link_all(parent as int, views.take(k as int)),
                start.link_all(parent as int, views.take(k as int)).valid(),
            decreases waiting@.len(),
        {
            let ghost before = start.link_all(parent as int, views.take(k as int));
            match waiting.pop() {
                Some(p) => {
                    proof {
                        assert(p@ == views[k as int]);
                        assert(views.take(k + 1).drop_last() =~= views.take(k as int));
                        assert(views.take(k + 1).last() == views[k as int]);
                        lemma_discover_valid(before, p@);
                        lemma_link_valid(before, parent as int, p@);
                    }
                    let ghost met = before.discover(p@);
                    let child = match find_node(&packages, &p) {
                        Some(i) => {
                            proof {
                                assert(before.nodes[i as int] == packages@[i as int]@);
                                let j = node_index(met.nodes, p@.identity());
                                assert(met.nodes[j].identity() == p@.identity());
                                assert(j == i);
                            }
                            i
                        },
                        None => {
                            let node = graph_add_node(&mut graph);
                            packages.push(p);
                            pending.push(node);
                            expanded.push(false);
                            proof {
                                assert(package_views(packages@) =~= before.nodes.push(p@));
                                assert(node_numbers(pending@) =~= before.pending.push(
                                    before.nodes.len() as int,
                                ));
                                let j = node_index(met.nodes, p@.identity());
                                assert(met.nodes[j].identity() == p@.identity());
                                assert(met.nodes[node as int].identity() == p@.identity());
                                assert(j == node);
                            }
                            node
                        },
                    };
                    graph_add_edge(&mut graph, parent, child);
                    links += 1;
                    k += 1;
                },
                None => {},
            }
        }
        proof {
            assert(views.take(n as int) =~= views);
        }
        *self = DependencyGraph { packages, graph, links, pending, expanded };
    }

    /// Orders the graph into an install plan: every package found, each
    /// once, and whatever a package requires before it. A graph with a
    /// cycle has no such order and is refused.
    fn order(self) -> (r: Result<Vec<Package>, CobraError>)
        ensures
            r is Err <==> has_cycle(self@.edges),
            match r {
                Ok(plan) => package_views(plan@) == plan_of(
                    self@.nodes,
                    toposort_order(self@.nodes.len(), self@.edges),
                ) && self@.ordered_by(package_views(plan@)),
                Err(e) => e@ == ErrorView::ResolutionFailed("circular dependency"@),
            },
            self@.nodes.len() == 0 ==> (r matches Ok(plan) && plan@.len() == 0),
    {
        proof {
            use_type_invariant(&self);
        }
        match graph_toposort(&self.graph) {
            Ok(order) => {
                proof {
                    let numbers = node_numbers(order@);
                    lemma_topological_is_acyclic(numbers, self@.nodes.len(), self@.edges);
                    lemma_plan_is_ordered(self@, numbers);
                    assert forall|k: int| 0 <= k < order@.len() implies #[trigger] order@[k]
                        < self.packages@.len() by {
                        assert(numbers[k] == order@[k]);
                    }
                }
                let plan = install_order(&self.packages, &order);
                Ok(plan)
            },
            Err(_) => {
                proof {
                    if self@.nodes.len() == 0 {
                        if self@.edges.len() > 0 {
                            assert(0 <= self@.edges[0].0 < 0);
                        }
                        crate::graph::lemma_no_edges_no_cycle(self@.edges);
                    }
                }
                Err(CobraError::ResolutionFailed(String::from_str("circular dependency")))
            },
        }
    }
}

/// Whether an edge leads from `node` to a package named `name`.
pub open spec fn requires_edge(g: GraphView, node: int, name: Seq<char>) -> bool {
    exists|e: int|
        0 <= e < g.edges.len() && (#[trigger] g.edges[e]).0 == node && g.nodes[g.edges[e].1].name
            == name
}

/// Whether an edge leads to the node `k` from a node that was found before
/// it.
pub open spec fn found_from_earlier(g: GraphView, k: int) -> bool {
    exists|e: int| 0 <= e < g.edges.len() && (#[trigger] g.edges[e]).1 == k && 0 <= g.edges[e].0 < k
}

/// Whether `found` answers `deps` one for one: as many packages as
/// dependencies, each with the name of its dependency.
pub open spec fn answers(deps: Seq<DependencyView>, found: Seq<PackageView>) -> bool {
    found.len() == deps.len() && forall|i: int|
        0 <= i < deps.len() ==> (#[trigger] found[i]).name == deps[i].name
}

/// The answers to the dependencies of the node `parent`: for each place
/// among them the identity of the package that was reported for it.
pub open spec fn answers_of(parent: int, found: Seq<PackageView>) -> Map<
    (int, int),
    (Seq<char>, Seq<char>),
> {
    Map::new(
        |k: (int, int)| k.0 == parent && 0 <= k.1 < found.len(),
        |k: (int, int)| found[k.1].identity(),
    )
}

/// The mathematical value of a [`DependencyResolver`].
#[verifier::ext_equal]
pub struct ResolverView {
    /// The graph built so far.
    pub graph: GraphView,
    /// The number of the nodes that the direct dependencies resolved to:
    /// they are the first nodes.
    pub roots: nat,
    /// The node that was handed out and whose dependencies are yet to be
    /// reported.
    pub awaited: Option<int>,
    /// Why the resolution has failed, if it has.
    pub failure: Option<ErrorView>,
    /// For each dependency whose answer was reported, by the number of its
    /// node and its place among the node's dependencies: the identity of
    /// the package that the index answered with.
    pub answered: Map<(int, int), (Seq<char>, Seq<char>)>,
}

impl ResolverView {
    /// Whether the dependency `i` of the node `node` has its answer: a
    /// package of the dependency's name that is a node, with an edge from
    /// `node` to it.
    pub open spec fn settled_at(self, node: int, i: int) -> bool {
        &&& self.answered.contains_key((node, i))
        &&& self.answered[(node, i)].0 == self.graph.nodes[node].dependencies[i].name
        &&& has_node(self.graph.nodes, self.answered[(node, i)])
        &&& self.graph.edges.contains(
            (node, node_index(self.graph.nodes, self.answered[(node, i)])),
        )
    }

    /// Whether every dependency of every node whose dependencies were
    /// reported has its answer.
    pub open spec fn linked(self) -> bool {
        forall|node: int, i: int|
            0 <= node < self.graph.nodes.len() && self.graph.expanded[node] && self.awaited
                != Some(node) && 0 <= i < self.graph.nodes[node].dependencies.len()
                ==> #[trigger] self.settled_at(node, i)
    }

    /// Whether every node but the first ones is required by a node that
    /// was found before it.
    pub open spec fn reached(self) -> bool {
        forall|k: int|
            self.roots <= k < self.graph.nodes.len() ==> #[trigger] found_from_earlier(
                self.graph,
                k,
            )
    }

    /// What holds of every resolver.
    pub open spec fn valid(self) -> bool {
        &&& self.graph.valid()
        &&& self.roots <= self.graph.nodes.len()
        &&& self.awaited matches Some(n) ==> 0 <= n < self.graph.nodes.len()
            && self.graph.expanded[n]
        &&& self.linked()
        &&& self.reached()
    }

    /// Whether the dependencies of every node have been reported.
    pub open spec fn complete(self) -> bool {
        self.awaited is None && self.graph.complete()
    }

    /// The resolver that was seeded with `direct`.
    pub open spec fn seeded(direct: Seq<PackageView>) -> ResolverView {
        ResolverView {
            graph: GraphView::empty().discover_all(direct),
            roots: GraphView::empty().discover_all(direct).nodes.len(),
            awaited: None,
            failure: None,
            answered: Map::empty(),
        }
    }

    /// The resolver after the failure `e`; an earlier failure stands.
    pub open spec fn failed(self, e: ErrorView) -> ResolverView {
        ResolverView {
            graph: self.graph,
            roots: self.roots,
            awaited: self.awaited,
            failure: if self.failure is Some {
                self.failure
            } else {
                Some(e)
            },
            answered: self.answered,
        }
    }

    /// Whether the graph has room for `extra` more nodes and `extra` more
    /// edges: it counts both in 32 bits.
    pub open spec fn has_room(self, extra: nat) -> bool {
        self.graph.nodes.len() + extra < u32::MAX && self.graph.edges.len() + extra < u32::MAX
    }

    /// The failure of a graph that has no room left.
    pub open spec fn overfull() -> ErrorView {
        ErrorView::ResolutionFailed("the dependency graph is full"@)
    }

    /// The failure of a report that no node waits for.
    pub open spec fn unasked() -> ErrorView {
        ErrorView::ResolutionFailed("dependencies were reported for no package"@)
    }

    /// The failure of a report that does not answer the dependencies of the
    /// node that waits.
    pub open spec fn mismatched() -> ErrorView {
        ErrorView::ResolutionFailed("the index answered for another package"@)
    }

    /// The failure of a resolution that was to be ordered before the
    /// dependencies of every node were reported.
    pub open spec fn unresolved() -> ErrorView {
        ErrorView::ResolutionFailed("dependencies are still to be resolved"@)
    }

    /// The failure of a graph with a cycle.
    pub open spec fn circular() -> ErrorView {
        ErrorView::ResolutionFailed("circular dependency"@)
    }

    /// The node whose dependencies are to be asked for next, and the
    /// resolver that is left. A resolution that has failed hands out no
    /// node; a node that was handed out is handed out again until its
    /// dependencies are reported; else the next node comes off the
    /// worklist.
    pub open spec fn next(self) -> (Option<int>, ResolverView) {
        if self.failure is Some {
            (None, self)
        } else if self.awaited is Some {
            (self.awaited, self)
        } else {
            (
                self.graph.advance().0,
                ResolverView {
                    graph: self.graph.advance().1,
                    roots: self.roots,
                    awaited: self.graph.advance().0,
                    failure: None,
                    answered: self.answered,
                },
            )
        }
    }

    /// The resolver after `found` was reported as what the dependencies of
    /// the awaited node resolved to. Each package becomes a node, unless a
    /// node has its identity already, and an edge leads to it from the
    /// awaited node. A report that no node waits for, that does not answer
    /// the node's dependencies one for one, or that the graph has no room
    /// for, fails the resolution.
    pub open spec fn reported(self, found: Seq<PackageView>) -> ResolverView {
        if self.failure is Some {
            self
        } else {
            match self.awaited {
                None => self.failed(Self::unasked()),
                Some(parent) => if !answers(self.graph.nodes[parent].dependencies, found) {
                    self.failed(Self::mismatched())
                } else if !self.has_room(found.len()) {
                    self.failed(Self::overfull())
                } else {
                    ResolverView {
                        graph: self.graph.link_all(parent, found),
                        roots: self.roots,
                        awaited: None,
                        failure: None,
                        answered: self.answered.union_prefer_right(answers_of(parent, found)),
                    }
                },
            }
        }
    }

    /// Why a resolver cannot be ordered, if it cannot: a request has
    /// failed, some dependencies were never reported, or the graph has a
    /// cycle.
    pub open spec fn obstacle(self) -> Option<ErrorView> {
        if self.failure is Some {
            self.failure
        } else if !self.complete() {
            Some(Self::unresolved())
        } else if has_cycle(self.graph.edges) {
            Some(Self::circular())
        } else {
            None
        }
    }

    /// Whether `plan` holds, for every dependency of every node, the
    /// package that the index answered with before the package of the
    /// node.
    pub open spec fn answers_first(self, plan: Seq<PackageView>) -> bool {
        forall|node: int, i: int|
            0 <= node < self.graph.nodes.len() && 0 <= i
                < self.graph.nodes[node].dependencies.len() ==> #[trigger] self.answered.contains_key(
                (node, i),
            ) && exists|a: int, b: int|
                0 <= a < b < plan.len() && (#[trigger] plan[a]).identity() == self.answered[(
                    node,
                    i,
                )] && #[trigger] plan[b] == self.graph.nodes[node]
    }

    /// Whether a package named `name` stands in `plan` before the index
    /// `j`.
    pub open spec fn stands_before(plan: Seq<PackageView>, j: int, name: Seq<char>) -> bool {
        exists|a: int| 0 <= a < j && a < plan.len() && (#[trigger] plan[a]).name == name
    }

    /// Whether `plan` is closed under what its packages require: for every
    /// dependency of every package a package of its name stands in the
    /// plan, before the package that requires it.
    pub open spec fn dependencies_first(plan: Seq<PackageView>) -> bool {
        forall|j: int, i: int|
            0 <= j < plan.len() && 0 <= i < plan[j].dependencies.len() ==> Self::stands_before(
                plan,
                j,
                (#[trigger] plan[j].dependencies[i]).name,
            )
    }
}

/// A graph that was seeded has no edge, and none of its nodes has been
/// handed out.
pub proof fn lemma_seeded(direct: Seq<PackageView>)
    ensures
        GraphView::empty().discover_all(direct).valid(),
        GraphView::empty().discover_all(direct).edges.len() == 0,
        GraphView::empty().discover_all(direct).nodes.len() <= direct.len(),
        forall|k: int|
            0 <= k < GraphView::empty().discover_all(direct).nodes.len()
                ==> !#[trigger] GraphView::empty().discover_all(direct).expanded[k],
        ResolverView::seeded(direct).valid(),
        forall|i: int|
            0 <= i < direct.len() ==> has_node(
                GraphView::empty().discover_all(direct).nodes,
                (#[trigger] direct[i]).identity(),
            ),
    decreases direct.len(),
{
    if direct.len() > 0 {
        let earlier = direct.drop_last();
        let before = GraphView::empty().discover_all(earlier);
        lemma_seeded(earlier);
        lemma_discover_valid(before, direct.last());
        let after = before.discover(direct.last());
        assert forall|i: int| 0 <= i < direct.len() implies has_node(
            after.nodes,
            (#[trigger] direct[i]).identity(),
        ) by {
            if i < direct.len() - 1 {
                assert(earlier[i] == direct[i]);
                lemma_discover_keeps_nodes(before, direct.last(), direct[i].identity());
            }
        }
    }
}

/// Linking dependencies only adds to a graph: the nodes, the edges and the
/// flags that it had stay, new nodes have not been handed out, and an edge
/// leads from the parent to each new node.
pub proof fn lemma_link_all_extends(v: GraphView, parent: int, found: Seq<PackageView>)
    requires
        v.valid(),
        0 <= parent < v.nodes.len(),
    ensures
        v.link_all(parent, found).valid(),
        v.nodes.len() <= v.link_all(parent, found).nodes.len(),
        v.edges.len() <= v.link_all(parent, found).edges.len(),
        forall|k: int| 0 <= k < v.nodes.len() ==> #[trigger] v.link_all(parent, found).nodes[k]
            == v.nodes[k],
        forall|e: int| 0 <= e < v.edges.len() ==> #[trigger] v.link_all(parent, found).edges[e]
            == v.edges[e],
        forall|k: int|
            0 <= k < v.nodes.len() ==> #[trigger] v.link_all(parent, found).expanded[k]
                == v.expanded[k],
        forall|k: int|
            v.nodes.len() <= k < v.link_all(parent, found).nodes.len()
                ==> #[trigger] found_from_earlier(v.link_all(parent, found), k),
    decreases found.len(),
{
    if found.len() > 0 {
        let prev = v.link_all(parent, found.drop_last());
        let last = found.last();
        let after = v.link_all(parent, found);
        lemma_link_all_extends(v, parent, found.drop_last());
        lemma_discover_valid(prev, last);
        lemma_link_valid(prev, parent, last);
        let met = prev.discover(last);
        assert forall|k: int| v.nodes.len() <= k < after.nodes.len() implies #[trigger] found_from_earlier(
            after,
            k,
        ) by {
            if k < prev.nodes.len() {
                assert(found_from_earlier(prev, k));
                let e = choose|e: int|
                    0 <= e < prev.edges.len() && (#[trigger] prev.edges[e]).1 == k && 0
                        <= prev.edges[e].0 < k;
                assert(after.edges[e] == prev.edges[e]);
            } else {
                // The node is new: it is the node of `last`, to which the edge leads.
                let j = node_index(met.nodes, last.identity());
                assert(met.nodes[j].identity() == last.identity());
                assert(met.nodes[k].identity() == last.identity());
                if j < k {
                    assert(met.nodes[j].identity() != met.nodes[k].identity());
                } else if k < j {
                    assert(met.nodes[k].identity() != met.nodes[j].identity());
                }
                let e = after.edges.len() - 1;
                assert(after.edges[e] == (parent, k));
            }
        }
    }
}

/// Linking dependencies leaves every node at its number.
pub proof fn lemma_link_all_keeps_nodes(
    v: GraphView,
    parent: int,
    found: Seq<PackageView>,
    id: (Seq<char>, Seq<char>),
)
    requires
        v.valid(),
        0 <= parent < v.nodes.len(),
        has_node(v.nodes, id),
    ensures
        has_node(v.link_all(parent, found).nodes, id),
        node_index(v.link_all(parent, found).nodes, id) == node_index(v.nodes, id),
    decreases found.len(),
{
    if found.len() > 0 {
        let prev = v.link_all(parent, found.drop_last());
        lemma_link_all_keeps_nodes(v, parent, found.drop_last(), id);
        lemma_link_all_extends(v, parent, found.drop_last());
        lemma_discover_keeps_nodes(prev, found.last(), id);
    }
}

/// A report that answers the dependencies of the awaited node keeps a
/// resolver valid.
pub proof fn lemma_report_valid(v: ResolverView, found: Seq<PackageView>)
    requires
        v.valid(),
        v.failure is None,
        v.awaited is Some,
        answers(v.graph.nodes[v.awaited.unwrap()].dependencies, found),
        v.has_room(found.len()),
    ensures
        v.reported(found).valid(),
        v.reported(found).failure is None,
        v.reported(found).awaited is None,
{
    let parent = v.awaited.unwrap();
    let g = v.graph;
    let after = v.reported(found);
    let h = after.graph;
    lemma_link_all_extends(g, parent, found);
    assert forall|node: int, i: int|
        0 <= node < h.nodes.len() && h.expanded[node] && 0 <= i
            < h.nodes[node].dependencies.len() implies #[trigger] after.settled_at(node, i) by {
        if node >= g.nodes.len() {
            // New nodes have not been handed out.
            lemma_link_all_new_nodes(g, parent, found, node);
        } else {
            assert(h.nodes[node] == g.nodes[node]);
            assert(h.expanded[node] == g.expanded[node]);
            if node == parent {
                lemma_link_all_edges(g, parent, found, i);
                assert(answers_of(parent, found).contains_key((node, i)));
                assert(after.answered[(node, i)] == found[i].identity());
            } else {
                assert(v.settled_at(node, i));
                assert(!answers_of(parent, found).contains_key((node, i)));
                let id = v.answered[(node, i)];
                assert(after.answered[(node, i)] == id);
                lemma_link_all_keeps_nodes(g, parent, found, id);
                let edge = (node, node_index(g.nodes, id));
                let e = choose|e: int| 0 <= e < g.edges.len() && g.edges[e] == edge;
                assert(h.edges[e] == edge);
            }
        }
    }
    assert forall|k: int| after.roots <= k < h.nodes.len() implies #[trigger] found_from_earlier(
        h,
        k,
    ) by {
        if k < g.nodes.len() {
            assert(found_from_earlier(g, k));
            let e = choose|e: int|
                0 <= e < g.edges.len() && (#[trigger] g.edges[e]).1 == k && 0 <= g.edges[e].0 < k;
            assert(h.edges[e] == g.edges[e]);
        }
    }
}

/// A node that linking has added has not been handed out.
pub proof fn lemma_link_all_new_nodes(v: GraphView, parent: int, found: Seq<PackageView>, k: int)
    requires
        v.valid(),
        0 <= parent < v.nodes.len(),
        v.nodes.len() <= k < v.link_all(parent, found).nodes.len(),
    ensures
        !v.link_all(parent, found).expanded[k],
    decreases found.len(),
{
    if found.len() > 0 {
        let prev = v.link_all(parent, found.drop_last());
        lemma_link_all_extends(v, parent, found.drop_last());
        if k < prev.nodes.len() {
            lemma_link_all_new_nodes(v, parent, found.drop_last(), k);
        }
    }
}

/// A failure keeps a resolver valid.
pub proof fn lemma_failed_valid(v: ResolverView, e: ErrorView)
    requires
        v.valid(),
    ensures
        v.failed(e).valid(),
{
    let after = v.failed(e);
    assert forall|node: int, i: int|
        0 <= node < after.graph.nodes.len() && after.graph.expanded[node] && after.awaited != Some(
            node,
        ) && 0 <= i < after.graph.nodes[node].dependencies.len() implies #[trigger] after.settled_at(
        node,
        i,
    ) by {
        assert(v.settled_at(node, i));
    }
}

/// Handing out the next node keeps a resolver valid. When no node is
/// handed out, the resolution has failed or the dependencies of every node
/// have been reported.
pub proof fn lemma_next_valid(v: ResolverView)
    requires
        v.valid(),
    ensures
        v.next().1.valid(),
        v.next().0 is None ==> v.next().1.failure is Some || v.next().1.complete(),
        v.next().0 matches Some(node) ==> v.next().1.awaited == Some(node) && 0 <= node
            < v.graph.nodes.len(),
{
    if v.failure is None && v.awaited is None {
        let g = v.graph;
        let after = v.next().1;
        let h = after.graph;
        lemma_advance_valid(g);
        assert forall|node: int, i: int|
            0 <= node < h.nodes.len() && h.expanded[node] && after.awaited != Some(node) && 0 <= i
                < h.nodes[node].dependencies.len() implies #[trigger] after.settled_at(node, i) by {
            assert(g.expanded[node]);
            assert(v.settled_at(node, i));
        }
        assert forall|k: int| after.roots <= k < h.nodes.len() implies #[trigger] found_from_earlier(
            h,
            k,
        ) by {
            assert(found_from_earlier(g, k));
        }
    }
}

/// The plan of a resolver whose every node's dependencies were reported is
/// closed: for every dependency of every package of the plan, the package
/// that the index answered with stands in the plan before it. The plan
/// holds the packages that the direct dependencies resolved to, and every
/// other package of it is required by a package that was found before it.
pub proof fn lemma_plan_is_closed(v: ResolverView, plan: Seq<PackageView>)
    requires
        v.valid(),
        v.complete(),
        v.graph.ordered_by(plan),
    ensures
        v.answers_first(plan),
        ResolverView::dependencies_first(plan),
        forall|k: int| 0 <= k < v.roots ==> plan.contains(#[trigger] v.graph.nodes[k]),
        forall|k: int|
            v.roots <= k < v.graph.nodes.len() ==> #[trigger] found_from_earlier(v.graph, k),
{
    let g = v.graph;
    assert forall|node: int, i: int|
        0 <= node < g.nodes.len() && 0 <= i < g.nodes[node].dependencies.len() implies #[trigger] v.answered.contains_key(
        (node, i),
    ) && exists|a: int, b: int|
        0 <= a < b < plan.len() && (#[trigger] plan[a]).identity() == v.answered[(node, i)]
            && #[trigger] plan[b] == g.nodes[node] by {
        assert(g.expanded[node]);
        assert(v.settled_at(node, i));
        let id = v.answered[(node, i)];
        let c = node_index(g.nodes, id);
        assert(g.nodes[c].identity() == id);
        let e = choose|e: int| 0 <= e < g.edges.len() && g.edges[e] == (node, c);
        assert(GraphView::installs_before(plan, g.nodes[g.edges[e].1], g.nodes[g.edges[e].0]));
        let (a, b) = choose|a: int, b: int|
            0 <= a < b < plan.len() && #[trigger] plan[a] == g.nodes[c] && #[trigger] plan[b]
                == g.nodes[node];
        assert(plan[a].identity() == id && plan[b] == g.nodes[node]);
    }
    assert forall|j: int, i: int|
        0 <= j < plan.len() && 0 <= i < plan[j].dependencies.len() implies ResolverView::stands_before(
        plan,
        j,
        (#[trigger] plan[j].dependencies[i]).name,
    ) by {
        assert(g.nodes.contains(plan[j]));
        let n = choose|n: int| 0 <= n < g.nodes.len() && g.nodes[n] == plan[j];
        assert(g.expanded[n]);
        assert(v.settled_at(n, i));
        assert(v.answered.contains_key((n, i)));
        let (a, b) = choose|a: int, b: int|
            0 <= a < b < plan.len() && (#[trigger] plan[a]).identity() == v.answered[(n, i)]
                && #[trigger] plan[b] == g.nodes[n];
        if b < j {
            assert(plan[b].identity() != plan[j].identity());
        } else if j < b {
            assert(plan[j].identity() != plan[b].identity());
        }
        assert(plan[a].name == plan[j].dependencies[i].name);
    }
}

/// Whether `found` answers `deps` one for one.
fn answers_each(deps: &Vec<Dependency>, found: &Vec<Package>) -> (r: bool)
    ensures
        r == answers(dependency_views(deps@), package_views(found@)),
{
    if found.len() != deps.len() {
        return false;
    }
    let mut i: usize = 0;
    while i < deps.len()
        invariant
            i <= deps.len(),
            found.len() == deps.len(),
            forall|k: int|
                0 <= k < i ==> (#[trigger] package_views(found@)[k]).name == dependency_views(
                    deps@,
                )[k].name,
        decreases deps.len() - i,
    {
        if !same_text(found[i].name.as_str(), deps[i].name.as_str()) {
            assert(package_views(found@)[i as int].name != dependency_views(deps@)[i as int].name);
            return false;
        }
        i += 1;
    }
    true
}

fn failure_of(text: &str) -> (e: CobraError)
    ensures
        e@ == ErrorView::ResolutionFailed(text@),
{
    CobraError::ResolutionFailed(String::from_str(text))
}

/// The state of one resolution.
pub struct DependencyResolver {
    core: DependencyGraph,
    roots: usize,
    awaited: Option<usize>,
    failure: Option<CobraError>,
    answered: Ghost<Map<(int, int), (Seq<char>, Seq<char>)>>,
}

impl View for DependencyResolver {
    type V = ResolverView;

    closed spec fn view(&self) -> ResolverView {
        ResolverView {
            graph: self.core@,
            roots: self.roots as nat,
            awaited: match self.awaited {
                Some(n) => Some(n as int),
                None => None,
            },
            failure: match self.failure {
                Some(e) => Some(e@),
                None => None,
            },
            answered: self.answered@,
        }
    }
}

impl DependencyResolver {
    #[verifier::type_invariant]
    spec fn well_formed(self) -> bool {
        self@.valid()
    }

    fn vacant() -> (resolver: Self)
        ensures
            resolver@ == ResolverView::seeded(Seq::empty()),
    {
        proof {
            lemma_seeded(Seq::<PackageView>::empty());
        }
        let none: Vec<Package> = Vec::new();
        assert(package_views(none@) =~= Seq::<PackageView>::empty());
        DependencyResolver {
            core: DependencyGraph::seed(none),
            roots: 0,
            awaited: None,
            failure: None,
            answered: Ghost(Map::empty()),
        }
    }

    /// Seeds a resolution with the packages that the direct dependencies
    /// resolved to. Packages with one identity become one node. More
    /// packages than the graph can count fail the resolution at once.
    pub fn new(direct: Vec<Package>) -> (resolver: Self)
        ensures
            resolver@ == if direct@.len() < u32::MAX {
                ResolverView::seeded(package_views(direct@))
            } else {
                ResolverView::seeded(Seq::empty()).failed(ResolverView::overfull())
            },
            resolver@.valid(),
    {
        let limit: u64 = 0xFFFF_FFFF;
        if direct.len() as u64 >= limit {
            let mut resolver = Self::vacant();
            proof {
                lemma_seeded(Seq::<PackageView>::empty());
                lemma_failed_valid(
                    ResolverView::seeded(Seq::<PackageView>::empty()),
                    ResolverView::overfull(),
                );
            }
            resolver.failure = Some(failure_of("the dependency graph is full"));
            return resolver;
        }
        proof {
            lemma_seeded(package_views(direct@));
        }
        let core = DependencyGraph::seed(direct);
        let roots = core.node_count();
        DependencyResolver { core, roots, awaited: None, failure: None, answered: Ghost(Map::empty()) }
    }

    /// The number of packages found so far.
    pub fn node_count(&self) -> (n: usize)
        ensures
            n == self@.graph.nodes.len(),
            self@.valid(),
    {
        proof {
            use_type_invariant(self);
        }
        self.core.node_count()
    }

    /// The package of a node.
    pub fn package(&self, node: usize) -> (p: &Package)
        requires
            node < self@.graph.nodes.len(),
        ensures
            p@ == self@.graph.nodes[node as int],
    {
        self.core.package(node)
    }

    /// Whether the resolution has failed.
    pub fn has_failed(&self) -> (r: bool)
        ensures
            r == self@.failure is Some,
    {
        self.failure.is_some()
    }

    /// Hands out the node whose dependencies are to be asked for next;
    /// `None` when the resolution has failed or no node is left.
    pub fn next_package(&mut self) -> (node: Option<usize>)
        ensures
            final(self)@ == old(self)@.next().1,
            match node {
                Some(i) => old(self)@.next().0 == Some(i as int) && i < old(self)@.graph.nodes.len() && final(self)@.awaited == Some(i as int),
                None => old(self)@.next().0 is None && (final(self)@.failure is Some || final(self)@.complete()),
            },
            final(self)@.valid(),
    {
        proof {
            use_type_invariant(&*self);
            lemma_next_valid(old(self)@);
        }
        if self.failure.is_some() {
            return None;
        }
        if self.awaited.is_some() {
            return self.awaited;
        }
        let mut taken = Self::vacant();
        core::mem::swap(self, &mut taken);
        let DependencyResolver { mut core, roots, awaited, failure, answered } = taken;
        let node = core.advance();
        *self = DependencyResolver { core, roots, awaited: node, failure, answered };
        node
    }

    /// Records what the index resolved the dependencies of the awaited
    /// node to, one package for each dependency and in their order. A
    /// report that no node waits for, that does not answer the node's
    /// dependencies, or that the graph has no room for, fails the
    /// resolution.
    pub fn add_dependencies(&mut self, found: Vec<Package>)
        ensures
            final(self)@ == old(self)@.reported(package_views(found@)),
            final(self)@.valid(),
    {
        proof {
            use_type_invariant(&*self);
        }
        if self.failure.is_some() {
            return ;
        }
        let parent = match self.awaited {
            Some(parent) => parent,
            None => {
                proof {
                    lemma_failed_valid(old(self)@, ResolverView::unasked());
                }
                self.failure = Some(failure_of("dependencies were reported for no package"));
                return ;
            },
        };
        if !answers_each(&self.core.package(parent).dependencies, &found) {
            proof {
                lemma_failed_valid(old(self)@, ResolverView::mismatched());
            }
            self.failure = Some(failure_of("the index answered for another package"));
            return ;
        }
        if !self.core.can_take(found.len()) {
            proof {
                lemma_failed_valid(old(self)@, ResolverView::overfull());
            }
            self.failure = Some(failure_of("the dependency graph is full"));
            return ;
        }
        proof {
            lemma_report_valid(old(self)@, package_views(found@));
        }
        let mut taken = Self::vacant();
        core::mem::swap(self, &mut taken);
        let DependencyResolver { mut core, roots, awaited, failure, answered } = taken;
        let ghost reports = answered@.union_prefer_right(
            answers_of(parent as int, package_views(found@)),
        );
        core.link(parent, found);
        *self = DependencyResolver { core, roots, awaited: None, failure, answered: Ghost(reports) };
    }

    /// Records that a request to the index has failed. The resolution is
    /// over: no node is handed out any more, and [`Self::resolve`] returns
    /// the failure. A second failure leaves the first in place.
    pub fn fail(&mut self, error: CobraError)
        ensures
            final(self)@ == old(self)@.failed(error@),
            final(self)@.failure is Some,
            final(self)@.valid(),
    {
        proof {
            use_type_invariant(&*self);
        }
        if self.failure.is_none() {
            proof {
                lemma_failed_valid(old(self)@, error@);
            }
            self.failure = Some(error);
        }
    }

    /// Orders the graph into an install plan: every package found, each
    /// once, and whatever a package requires before it. There is no plan
    /// where a request has failed, where the dependencies of a node were
    /// never reported, or where the graph has a cycle.
    pub fn resolve(self) -> (r: Result<Vec<Package>, CobraError>)
        ensures
            match r {
                Ok(plan) => self@.obstacle() is None && package_views(plan@) == plan_of(
                    self@.graph.nodes,
                    toposort_order(self@.graph.nodes.len(), self@.graph.edges),
                ) && self@.graph.ordered_by(package_views(plan@)) && self@.answers_first(
                    package_views(plan@),
                ) && ResolverView::dependencies_first(package_views(plan@)),
                Err(e) => self@.obstacle() == Some(e@),
            },
            self@.graph.nodes.len() == 0 && self@.failure is None && self@.awaited is None ==> (
            r matches Ok(plan) && plan@.len() == 0),
    {
        proof {
            use_type_invariant(&self);
        }
        let DependencyResolver { core, roots, awaited, failure, answered } = self;
        match failure {
            Some(e) => {
                return Err(e);
            },
            None => {},
        }
        if awaited.is_some() || !core.all_handed_out() {
            return Err(failure_of("dependencies are still to be resolved"));
        }
        let ghost graph = core@;
        match core.order() {
            Ok(plan) => {
                proof {
                    lemma_plan_is_closed(self@, package_views(plan@));
                }
                Ok(plan)
            },
            Err(e) => Err(e),
        }
    }
}

} // verus!
