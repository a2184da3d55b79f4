use vstd::prelude::*;
use petgraph::stable_graph::{NodeIndex, EdgeIndex, StableGraph};
use petgraph::visit::{EdgeRef, IntoEdgeReferences};
use petgraph::{Directed, Direction};
use crate::node::{Edge, Node};

verus! {

#[verifier::external_type_specification]
#[verifier::external_body]
#[verifier::reject_recursive_types(N)]
#[verifier::reject_recursive_types(E)]
#[verifier::reject_recursive_types(Ty)]
#[verifier::reject_recursive_types(Ix)]
pub struct ExStableGraph<N, E, Ty, Ix>(StableGraph<N, E, Ty, Ix>);

#[verifier::external_type_specification]
#[verifier::external_body]
pub struct ExDirected(Directed);

/// The graph that holds the nodes and edges: node and edge indices stay
/// valid across the removal of other nodes and edges.
pub type NodeGraph = StableGraph<Node, Edge, Directed, usize>;

/// The live nodes of the graph, by node index.
pub uninterp spec fn graph_nodes(g: StableGraph<Node, Edge, Directed, usize>) -> Map<usize, Node>;

/// The live edges of the graph, by edge index: source node, target node and
/// weight.
pub uninterp spec fn graph_edges(g: StableGraph<Node, Edge, Directed, usize>) -> Map<usize, (usize, usize, Edge)>;

/// The edges of `edges` that neither start nor end at node `i`.
pub open spec fn edges_avoiding(edges: Map<usize, (usize, usize, Edge)>, i: usize) -> Map<usize, (usize, usize, Edge)> {
    edges.restrict(edges.dom().filter(|k: usize| edges[k].0 != i && edges[k].1 != i))
}

/// Relies on `StableGraph::default`: a graph with no nodes and no edges.
#[verifier::external_body]
pub(crate) fn graph_new() -> (r: NodeGraph)
    ensures
        graph_nodes(r).dom() == Set::<usize>::empty(),
        graph_nodes(r).dom().finite(),
        graph_edges(r).dom() == Set::<usize>::empty(),
{
    StableGraph::default()
}

/// Relies on `StableGraph::add_node`: the weight is stored under an index
/// that no live node has, and no edge changes. With `usize` indices it
/// does not panic.
#[verifier::external_body]
pub(crate) fn graph_add_node(g: &mut NodeGraph, n: Node) -> (r: usize)
    ensures
        !graph_nodes(*old(g)).contains_key(r),
        graph_nodes(*final(g)) == graph_nodes(*old(g)).insert(r, n),
        graph_edges(*final(g)) == graph_edges(*old(g)),
{
    g.add_node(n).index()
}

/// Relies on `StableGraph::remove_node`: the node and every edge from or to
/// it leave the graph; `None` where there is no such node.
#[verifier::external_body]
pub(crate) fn graph_remove_node(g: &mut NodeGraph, i: usize) -> (r: Option<Node>)
    ensures
        r == graph_nodes(*old(g)).get(i),
        graph_nodes(*final(g)) == graph_nodes(*old(g)).remove(i),
        graph_edges(*final(g)) == edges_avoiding(graph_edges(*old(g)), i),
{
    g.remove_node(NodeIndex::new(i))
}

/// Relies on `StableGraph::contains_node`: whether a node is live.
#[verifier::external_body]
pub(crate) fn graph_contains(g: &NodeGraph, i: usize) -> (r: bool)
    ensures
        r == graph_nodes(*g).contains_key(i),
{
    g.contains_node(NodeIndex::new(i))
}

/// Relies on `StableGraph::add_edge`: the edge is stored under an index that
/// no live edge has. It panics where an endpoint is not a live node.
#[verifier::external_body]
pub(crate) fn graph_add_edge(g: &mut NodeGraph, a: usize, b: usize, e: Edge) -> (r: usize)
    requires
        graph_nodes(*old(g)).contains_key(a),
        graph_nodes(*old(g)).contains_key(b),
    ensures
        !graph_edges(*old(g)).contains_key(r),
        graph_edges(*final(g)) == graph_edges(*old(g)).insert(r, (a, b, e)),
        graph_nodes(*final(g)) == graph_nodes(*old(g)),
{
    g.add_edge(NodeIndex::new(a), NodeIndex::new(b), e).index()
}

/// Relies on `StableGraph::remove_edge`: the edge leaves the graph and its
/// weight is returned; `None` where there is no such edge.
#[verifier::external_body]
pub(crate) fn graph_remove_edge(g: &mut NodeGraph, k: usize) -> (r: Option<Edge>)
    ensures
        r == (if graph_edges(*old(g)).contains_key(k) {
            Some(graph_edges(*old(g))[k].2)
        } else {
            None
        }),
        graph_edges(*final(g)) == graph_edges(*old(g)).remove(k),
        graph_nodes(*final(g)) == graph_nodes(*old(g)),
{
    g.remove_edge(EdgeIndex::new(k))
}

/// Relies on indexing a `StableGraph` by node index: the weight of a live
/// node. It panics where the node is not live.
#[verifier::external_body]
pub(crate) fn graph_node(g: &NodeGraph, i: usize) -> (r: &Node)
    requires
        graph_nodes(*g).contains_key(i),
    ensures
        *r == graph_nodes(*g)[i],
{
    &g[NodeIndex::new(i)]
}

/// Relies on `StableGraph::node_weight_mut`: the weight of a live node is
/// swapped for `n`, and the old weight is returned.
#[verifier::external_body]
pub(crate) fn graph_swap_node(g: &mut NodeGraph, i: usize, n: Node) -> (r: Node)
    requires
        graph_nodes(*old(g)).contains_key(i),
    ensures
        r == graph_nodes(*old(g))[i],
        graph_nodes(*final(g)) == graph_nodes(*old(g)).insert(i, n),
        graph_edges(*final(g)) == graph_edges(*old(g)),
{
    std::mem::replace(g.node_weight_mut(NodeIndex::new(i)).unwrap(), n)
}

/// Relies on `StableGraph::edges_directed` with `Incoming`: each edge into
/// a live node, once, as (edge index, source node, weight).
#[verifier::external_body]
pub(crate) fn graph_incoming(g: &NodeGraph, i: usize) -> (r: Vec<(usize, usize, Edge)>)
    requires
        graph_nodes(*g).contains_key(i),
    ensures
        forall|j: int| 0 <= j < r@.len() ==> {
            &&& #[trigger] graph_edges(*g).contains_key(r@[j].0)
            &&& graph_edges(*g)[r@[j].0] == (r@[j].1, i, r@[j].2)
        },
        forall|k: usize| #[trigger] graph_edges(*g).contains_key(k) && graph_edges(*g)[k].1 == i
            ==> exists|j: int| 0 <= j < r@.len() && r@[j].0 == k,
        forall|j1: int, j2: int| 0 <= j1 < j2 < r@.len() ==> r@[j1].0 != r@[j2].0,
{
    g.edges_directed(NodeIndex::new(i), Direction::Incoming)
        .map(|e| (e.id().index(), e.source().index(), *e.weight()))
        .collect()
}

/// Relies on `StableGraph::node_indices`: every live node once, in
/// increasing index order.
#[verifier::external_body]
pub(crate) fn graph_node_ids(g: &NodeGraph) -> (r: Vec<usize>)
    ensures
        forall|j: int| 0 <= j < r@.len() ==> #[trigger] graph_nodes(*g).contains_key(r@[j]),
        forall|n: usize| #[trigger] graph_nodes(*g).contains_key(n) ==> r@.contains(n),
        forall|j1: int, j2: int| 0 <= j1 < j2 < r@.len() ==> r@[j1] < r@[j2],
{
    g.node_indices().map(|n| n.index()).collect()
}

/// Relies on `StableGraph::edge_references`: every live edge once, in
/// increasing index order, as (edge index, source node, target node,
/// weight).
#[verifier::external_body]
pub(crate) fn graph_edge_list(g: &NodeGraph) -> (r: Vec<(usize, usize, usize, Edge)>)
    ensures
        forall|j: int| 0 <= j < r@.len() ==> {
            &&& graph_edges(*g).contains_key((#[trigger] r@[j]).0)
            &&& graph_edges(*g)[r@[j].0] == (r@[j].1, r@[j].2, r@[j].3)
        },
        forall|k: usize| #[trigger] graph_edges(*g).contains_key(k)
            ==> exists|j: int| 0 <= j < r@.len() && r@[j].0 == k,
        forall|j1: int, j2: int| 0 <= j1 < j2 < r@.len() ==> r@[j1].0 < r@[j2].0,
{
    g.edge_references()
        .map(|e| (e.id().index(), e.source().index(), e.target().index(), *e.weight()))
        .collect()
}

} // verus!
