//! The crafting graph as petgraph holds it: its contents as spec values, the
//! calls into petgraph with their contracts, and walks along its edges.

use vstd::prelude::*;
use petgraph::graph::{Graph, NodeIndex};
use petgraph::{Directed, Direction};
use crate::node::RespiNode;

verus! {

#[verifier::external_type_specification]
#[verifier::external_body]
#[verifier::reject_recursive_types(N)]
#[verifier::reject_recursive_types(E)]
#[verifier::reject_recursive_types(Ty)]
#[verifier::reject_recursive_types(Ix)]
pub struct ExGraph<N, E, Ty, Ix>(Graph<N, E, Ty, Ix>);

#[verifier::external_type_specification]
#[verifier::external_body]
pub struct ExDirected(Directed);

/// The crafting graph: petgraph's directed graph with `usize` indices and
/// placeholder `usize` edge weights.
pub type CraftGraph = Graph<RespiNode, usize, Directed, usize>;

/// The node weights of a graph, in index order.
pub uninterp spec fn graph_nodes(g: CraftGraph) -> Seq<RespiNode>;

/// The edges of a graph as (source, target) index pairs, in insertion order.
pub uninterp spec fn graph_edges(g: CraftGraph) -> Seq<(usize, usize)>;

/// The target of an edge when `incoming`, else its source.
pub open spec fn endpoint(e: (usize, usize), incoming: bool) -> usize {
    if incoming {
        e.1
    } else {
        e.0
    }
}

/// The number of edges into `v` (when `incoming`) or out of `v` (otherwise).
pub open spec fn degree(edges: Seq<(usize, usize)>, v: usize, incoming: bool) -> nat
    decreases edges.len(),
{
    if edges.len() == 0 {
        0
    } else {
        degree(edges.drop_last(), v, incoming) + if endpoint(edges.last(), incoming) == v {
            1nat
        } else {
            0nat
        }
    }
}

/// Degrees add up over concatenated edge lists.
pub proof fn lemma_degree_add(a: Seq<(usize, usize)>, b: Seq<(usize, usize)>, v: usize, incoming: bool)
    ensures
        degree(a + b, v, incoming) == degree(a, v, incoming) + degree(b, v, incoming),
    decreases b.len(),
{
    if b.len() == 0 {
        assert(a + b =~= a);
    } else {
        assert((a + b).drop_last() =~= a + b.drop_last());
        lemma_degree_add(a, b.drop_last(), v, incoming);
    }
}

/// A node that is no edge's endpoint has degree zero.
pub proof fn lemma_degree_zero(a: Seq<(usize, usize)>, v: usize, incoming: bool)
    requires
        forall|k: int| 0 <= k < a.len() ==> endpoint(#[trigger] a[k], incoming) != v,
    ensures
        degree(a, v, incoming) == 0,
    decreases a.len(),
{
    if a.len() > 0 {
        lemma_degree_zero(a.drop_last(), v, incoming);
    }
}

/// Every edge joins two nodes of the graph.
pub open spec fn edges_in_bounds(nodes_len: nat, edges: Seq<(usize, usize)>) -> bool {
    forall|k: int| 0 <= k < edges.len() ==> (#[trigger] edges[k]).0 < nodes_len && edges[k].1 < nodes_len
}

/// Every node of a walk that starts at a node of the graph is a node of the graph.
pub proof fn lemma_walk_in_bounds(edges: Seq<(usize, usize)>, n: nat, p: Seq<usize>, a: usize, b: usize, k: int)
    requires
        edges_in_bounds(n, edges),
        is_walk(edges, p, a, b),
        a < n,
        0 <= k < p.len(),
    ensures
        p[k] < n,
{
    if k > 0 {
        let j = k - 1;
        assert(edges.contains((p[j], p[j + 1])));
        let i = choose|i: int| 0 <= i < edges.len() && edges[i] == (p[k - 1], p[k]);
        assert(edges[i].1 < n);
    }
}

/// `p` is a walk from `a` to `b` along stored edges, in their direction.
pub open spec fn is_walk(edges: Seq<(usize, usize)>, p: Seq<usize>, a: usize, b: usize) -> bool {
    &&& p.len() >= 1
    &&& p[0] == a
    &&& p.last() == b
    &&& forall|k: int| 0 <= k < p.len() - 1 ==> #[trigger] edges.contains((p[k], p[k + 1]))
}

/// `p` is a walk from `a` to `b` with no fewer nodes than any other such walk.
pub open spec fn is_shortest_walk(edges: Seq<(usize, usize)>, p: Seq<usize>, a: usize, b: usize) -> bool {
    &&& is_walk(edges, p, a, b)
    &&& forall|q: Seq<usize>| #[trigger] is_walk(edges, q, a, b) ==> p.len() <= q.len()
}

/// Relies on petgraph's `Graph::with_capacity`: a graph with no nodes and no edges.
#[verifier::external_body]
pub(crate) fn graph_empty() -> (g: CraftGraph)
    ensures
        graph_nodes(g) == Seq::<RespiNode>::empty(),
        graph_edges(g) == Seq::<(usize, usize)>::empty(),
{
    Graph::with_capacity(0, 0)
}

/// Relies on petgraph's `Graph::node_count`: the number of nodes.
#[verifier::external_body]
pub(crate) fn graph_node_count(g: &CraftGraph) -> (r: usize)
    ensures
        r == graph_nodes(*g).len(),
{
    g.node_count()
}

/// Relies on petgraph's `Graph::add_node`: the weight is appended and its index
/// returned (with `usize` indices it never panics).
#[verifier::external_body]
pub(crate) fn graph_add_node(g: &mut CraftGraph, n: RespiNode) -> (i: usize)
    ensures
        graph_nodes(*final(g)) == graph_nodes(*old(g)).push(n),
        graph_edges(*final(g)) == graph_edges(*old(g)),
        i == graph_nodes(*old(g)).len(),
{
    g.add_node(n).index()
}

/// Relies on petgraph's `Graph::add_edge`: the edge is appended; it panics only
/// on an index out of bounds, which `requires` leaves out.
#[verifier::external_body]
pub(crate) fn graph_add_edge(g: &mut CraftGraph, a: usize, b: usize, w: usize)
    requires
        a < graph_nodes(*old(g)).len(),
        b < graph_nodes(*old(g)).len(),
    ensures
        graph_nodes(*final(g)) == graph_nodes(*old(g)),
        graph_edges(*final(g)) == graph_edges(*old(g)).push((a, b)),
{
    g.add_edge(NodeIndex::new(a), NodeIndex::new(b), w);
}

/// Relies on petgraph's `Index<NodeIndex>` for `Graph`: the weight of node `i`.
#[verifier::external_body]
pub(crate) fn graph_node(g: &CraftGraph, i: usize) -> (r: &RespiNode)
    requires
        i < graph_nodes(*g).len(),
    ensures
        *r == graph_nodes(*g)[i as int],
{
    &g[NodeIndex::new(i)]
}

/// Relies on petgraph's `Graph::neighbors_directed` with `Incoming`: on a
/// directed graph it yields the source of every edge into `i`.
#[verifier::external_body]
pub(crate) fn graph_incoming(g: &CraftGraph, i: usize) -> (r: Vec<usize>)
    requires
        i < graph_nodes(*g).len(),
    ensures
        forall|a: usize| r@.contains(a) <==> graph_edges(*g).contains((a, i)),
{
    g.neighbors_directed(NodeIndex::new(i), Direction::Incoming).map(|n| n.index()).collect()
}

/// Whether `a` and `b` are the same node index.
fn same_node(a: usize, b: usize) -> (r: bool)
    ensures
        r == (a == b),
{
    a == b
}

/// The cost of every edge: all edges are equivalent.
fn unit_cost() -> (r: usize)
    ensures
        r == 1,
{
    1
}

/// The estimate of the remaining cost: always zero, which makes the search a
/// breadth-first one.
fn zero_estimate() -> (r: usize)
    ensures
        r == 0,
{
    0
}

/// Relies on petgraph's `algo::astar`, run with unit edge costs and a zero
/// estimate (admissible): it returns a walk from `start` to `goal` of least
/// length when one exists, and `None` otherwise.
#[verifier::external_body]
pub(crate) fn graph_astar(g: &CraftGraph, start: usize, goal: usize) -> (r: Option<Vec<usize>>)
    requires
        start < graph_nodes(*g).len(),
        goal < graph_nodes(*g).len(),
    ensures
        match r {
            Some(p) => is_shortest_walk(graph_edges(*g), p@, start, goal),
            None => forall|q: Seq<usize>| !is_walk(graph_edges(*g), q, start, goal),
        },
{
    petgraph::algo::astar(
        g,
        NodeIndex::new(start),
        |n: NodeIndex<usize>| same_node(n.index(), goal),
        |_| unit_cost(),
        |_| zero_estimate(),
    ).map(|(_, path)| path.into_iter().map(|n| n.index()).collect())
}

} // verus!
