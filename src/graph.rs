use vstd::prelude::*;
use crate::node::{Connection, Edge, IoDefinition, Node, NodeInput, NodeOutput, NodeState, Position};
use crate::value::{Value, ValueView};
use crate::store::{
    graph_add_edge, graph_add_node, graph_contains, graph_incoming, graph_new, graph_node,
    graph_remove_edge, graph_remove_node, graph_swap_node, graph_node_ids, graph_edge_list, edges_avoiding, graph_edges,
    graph_nodes, NodeGraph,
};

verus! {

/// A point on the canvas, in whole pixels.
#[derive(Clone, Copy, Debug, PartialEq, Eq, Structural)]
pub struct Point {
    pub x: i32,
    pub y: i32,
}

/// A node being dragged, and where on it the pointer grabbed it.
#[derive(Clone, Copy, Debug, PartialEq, Eq, Structural)]
pub struct NodeDragInfo {
    pub element_offset: Position,
    pub node: usize,
}

/// The slot terminal a connection drag starts or ends on.
#[derive(Clone, Copy, Debug, PartialEq, Eq, Structural)]
pub enum DraggingIndex {
    Input(Connection),
    Output(usize),
}

/// A connection being dragged out of a slot of node `from`.
#[derive(Clone, Copy, Debug, PartialEq, Eq, Structural)]
pub struct CurrentlyDraggingProps {
    pub from: usize,
    pub index: DraggingIndex,
    pub to: Point,
}

/// What the user is dragging.
#[derive(Clone, Copy, Debug, PartialEq, Eq, Structural)]
pub enum CurrentlyDragging {
    Node(NodeDragInfo),
    Connection(CurrentlyDraggingProps),
}

/// The graph and the drag in progress.
pub struct VisualGraphInner {
    graph: NodeGraph,
    currently_dragging: Option<CurrentlyDragging>,
    next_serial: u64,
}

/// The dataflow graph that the editor shows and runs.
pub struct VisualGraph {
    inner: VisualGraphInner,
}

pub type NodeMap = Map<usize, Node>;

pub type EdgeMap = Map<usize, (usize, usize, Edge)>;

/// There is an edge from node `a` to node `b`.
pub open spec fn is_edge(edges: EdgeMap, a: usize, b: usize) -> bool {
    exists|k: usize| #[trigger] edges.contains_key(k) && edges[k].0 == a && edges[k].1 == b
}

pub open spec fn path_step(edges: EdgeMap, p: Seq<usize>, i: int) -> bool {
    is_edge(edges, p[i], p[i + 1])
}

/// `p` is a walk of at least one edge along the edges of the graph.
pub open spec fn is_path(edges: EdgeMap, p: Seq<usize>) -> bool {
    &&& p.len() >= 2
    &&& forall|i: int| 0 <= i < p.len() - 1 ==> #[trigger] path_step(edges, p, i)
}

/// Node `a` reaches node `t` by one or more edges: `t` depends on `a`.
pub open spec fn is_ancestor(edges: EdgeMap, a: usize, t: usize) -> bool {
    exists|p: Seq<usize>| #[trigger] is_path(edges, p) && p[0] == a && p.last() == t
}

/// Some node other than `t` that `t` depends on is queued or running.
pub open spec fn has_busy_ancestor(nodes: NodeMap, edges: EdgeMap, t: usize) -> bool {
    exists|a: usize|
        #[trigger] is_ancestor(edges, a, t) && a != t && nodes.contains_key(a)
            && nodes[a].state.is_busy()
}

/// Node `t` may run now: it is not running, and nothing it depends on is
/// queued or running.
pub open spec fn is_ready(nodes: NodeMap, edges: EdgeMap, t: usize) -> bool {
    !(nodes[t].state is Running) && !has_busy_ancestor(nodes, edges, t)
}

/// The edges of a well-formed graph join live nodes, through slots that
/// exist on both sides, and no input slot has more than one edge.
pub open spec fn edges_wf(nodes: NodeMap, edges: EdgeMap) -> bool {
    &&& nodes.dom().finite()
    &&& forall|k: usize| #[trigger] edges.contains_key(k) ==> {
        &&& nodes.contains_key(edges[k].0)
        &&& nodes.contains_key(edges[k].1)
        &&& edges[k].2.start < nodes[edges[k].0].outputs@.len()
        &&& edges[k].2.end.index < nodes[edges[k].1].inputs@.len()
    }
    &&& forall|k1: usize, k2: usize|
        #[trigger] edges.contains_key(k1) && #[trigger] edges.contains_key(k2)
            && edges[k1].1 == edges[k2].1 && edges[k1].2.end.index == edges[k2].2.end.index
            ==> k1 == k2
}

/// Output slot `e.start` of node `p` and input slot `e.end.index` of node
/// `c` exist and are declared with the same type.
pub open spec fn valid_connection(nodes: NodeMap, p: usize, c: usize, e: Edge) -> bool {
    &&& nodes.contains_key(p)
    &&& nodes.contains_key(c)
    &&& nodes[p].spec_output_type(e.start as int) is Some
    &&& nodes[p].spec_output_type(e.start as int) == nodes[c].spec_input_type(e.end.index as int)
}

/// The edges that do not end at input slot `slot` of node `c`.
pub open spec fn edges_off_slot(edges: EdgeMap, c: usize, slot: usize) -> EdgeMap {
    edges.restrict(edges.dom().filter(|k: usize| !(edges[k].1 == c && edges[k].2.end.index == slot)))
}

/// `after` is `before` with the edges into the slot of `e` replaced by one
/// new edge `e` from `p` to `c`.
pub open spec fn connected(before: EdgeMap, after: EdgeMap, p: usize, c: usize, e: Edge) -> bool {
    exists|k: usize|
        !edges_off_slot(before, c, e.end.index).contains_key(k)
            && after == #[trigger] edges_off_slot(before, c, e.end.index).insert(k, (p, c, e))
}

/// The edges into input slot `slot` of node `c`.
pub open spec fn edges_into_slot(edges: EdgeMap, c: usize, slot: usize) -> Set<usize> {
    edges.dom().filter(|k: usize| edges[k].1 == c && edges[k].2.end.index == slot)
}

/// After a successful `connect`, the input slot it wired has exactly one
/// incoming edge, and it is the new one.
pub proof fn lemma_connect_single_producer(before: EdgeMap, after: EdgeMap, p: usize, c: usize, e: Edge)
    requires
        connected(before, after, p, c, e),
    ensures
        exists|k: usize|
            edges_into_slot(after, c, e.end.index) == set![k] && #[trigger] after[k] == (p, c, e),
{
    let k = choose|k: usize|
        !edges_off_slot(before, c, e.end.index).contains_key(k)
            && after == #[trigger] edges_off_slot(before, c, e.end.index).insert(k, (p, c, e));
    assert(edges_into_slot(after, c, e.end.index) =~= set![k]);
    assert(after[k] == (p, c, e));
}

/// Two successful `connect`s into the same input slot leave exactly one
/// incoming edge there: the second.
pub proof fn lemma_reconnect_replaces(
    e0: EdgeMap,
    e1: EdgeMap,
    e2: EdgeMap,
    p1: usize,
    p2: usize,
    c: usize,
    first: Edge,
    second: Edge,
)
    requires
        connected(e0, e1, p1, c, first),
        connected(e1, e2, p2, c, second),
        first.end.index == second.end.index,
    ensures
        exists|k: usize|
            edges_into_slot(e2, c, second.end.index) == set![k] && #[trigger] e2[k] == (p2, c, second),
{
    lemma_connect_single_producer(e1, e2, p2, c, second);
}

/// `n` is the node made from the slot declarations `ins` and `outs`: empty
/// inputs, no outputs produced yet, idle, at the origin, 120 by 120.
pub open spec fn fresh_node(n: Node, ins: Seq<IoDefinition>, outs: Seq<IoDefinition>) -> bool {
    &&& n.inputs@.len() == ins.len()
    &&& forall|j: int| 0 <= j < ins.len() ==> {
        &&& (#[trigger] n.inputs@[j]).definition == ins[j]
        &&& n.inputs@[j].value@ == ins[j].ty.empty_view()
    }
    &&& n.outputs@.len() == outs.len()
    &&& forall|j: int| 0 <= j < outs.len() ==> {
        &&& (#[trigger] n.outputs@[j]).definition == outs[j]
        &&& n.outputs@[j].value is None
    }
    &&& n.state is Idle
    &&& n.position == (Position { x: 0, y: 0 })
    &&& n.width == 120
    &&& n.height == 120
}

/// Where a connection drag of `drag` that ends on terminal `index` of node
/// `node_id` joins an output to an input: the producer, its output slot,
/// the consumer and the input slot.
pub open spec fn drag_pair(drag: Option<CurrentlyDragging>, node_id: usize, index: DraggingIndex)
    -> Option<(usize, usize, usize, Connection)> {
    match drag {
        Some(CurrentlyDragging::Connection(d)) => match (index, d.index) {
            (DraggingIndex::Input(input), DraggingIndex::Output(output)) => Some((d.from, output, node_id, input)),
            (DraggingIndex::Output(output), DraggingIndex::Input(input)) => Some((node_id, output, d.from, input)),
            _ => None,
        },
        _ => None,
    }
}

/// Where a dragged node goes when the pointer is at `cursor` and the node
/// was grabbed `offset` away from its position: the pointer less the
/// offset. Coordinates wrap at the bounds of `i64`.
pub open spec fn follow(cursor: i32, offset: i64) -> i64 {
    (cursor as i64).wrapping_sub(offset)
}

/// The grab offset of a node at `pos` grabbed with the pointer at `at`.
pub open spec fn grab_offset(at: i32, pos: i64) -> i64 {
    (at as i64).wrapping_sub(pos)
}

/// The error recorded when a run returns a number of values other than
/// the node's number of outputs.
pub fn wrong_output_count() -> (r: String)
    ensures
        r@ == "wrong number of outputs"@,
{
    "wrong number of outputs".to_owned()
}

/// The view of an optional value.
pub open spec fn opt_view(o: Option<Value>) -> Option<ValueView> {
    match o {
        Some(v) => Some(v@),
        None => None,
    }
}

/// There is an edge into input slot `slot` of node `c`.
pub open spec fn slot_connected(edges: EdgeMap, c: usize, slot: int) -> bool {
    exists|k: usize| #[trigger] edges.contains_key(k) && edges[k].1 == c && edges[k].2.end.index == slot
}

/// What propagation writes into input slot `slot` of node `c`: the value
/// that the producer's output slot holds, where the slot has an incoming
/// edge and that value is present.
pub open spec fn incoming_value(nodes: NodeMap, edges: EdgeMap, c: usize, slot: int) -> Option<ValueView> {
    if slot_connected(edges, c, slot) {
        let k = choose|k: usize| #[trigger] edges.contains_key(k) && edges[k].1 == c && edges[k].2.end.index == slot;
        nodes[edges[k].0].output_view(edges[k].2.start as int)
    } else {
        None
    }
}

/// `after` is node `c` of the graph (`before`) once propagation has run:
/// each input slot with a present incoming value holds it, and everything
/// else is as it was.
pub open spec fn propagated(nodes: NodeMap, edges: EdgeMap, c: usize, before: Node, after: Node) -> bool {
    &&& after.outputs == before.outputs
    &&& after.state == before.state
    &&& after.position == before.position
    &&& after.width == before.width
    &&& after.height == before.height
    &&& after.serial == before.serial
    &&& after.inputs@.len() == before.inputs@.len()
    &&& forall|s: int| 0 <= s < before.inputs@.len() ==> {
        &&& (#[trigger] after.inputs@[s]).definition == before.inputs@[s].definition
        &&& match incoming_value(nodes, edges, c, s) {
            Some(v) => after.inputs@[s].value@ == v,
            None => after.inputs@[s] == before.inputs@[s],
        }
    }
}

/// One of the first `upto` incoming edges carries a present value into
/// input slot `s`.
spec fn slot_written(preds: Seq<(usize, usize, Edge)>, updates: Seq<Option<Value>>, upto: int, s: int) -> bool {
    exists|jj: int| 0 <= jj < upto && preds[jj].2.end.index == s && (#[trigger] updates[jj]) is Some
}

/// Whichever terminal is grabbed first, a drag between output slot `out`
/// of node `p` and input slot `input` of node `c` hands `connect` the same
/// producer, output slot, consumer and input slot.
pub proof fn lemma_drag_order_irrelevant(p: usize, out: usize, c: usize, input: Connection, at1: Point, at2: Point)
    ensures
        drag_pair(
            Some(CurrentlyDragging::Connection(CurrentlyDraggingProps { from: p, index: DraggingIndex::Output(out), to: at1 })),
            c,
            DraggingIndex::Input(input),
        ) == Some((p, out, c, input)),
        drag_pair(
            Some(CurrentlyDragging::Connection(CurrentlyDraggingProps { from: c, index: DraggingIndex::Input(input), to: at2 })),
            p,
            DraggingIndex::Output(out),
        ) == Some((p, out, c, input)),
{
}

/// A running node is never ready to run again.
pub proof fn lemma_running_not_ready(nodes: NodeMap, edges: EdgeMap, t: usize)
    requires
        nodes.contains_key(t),
        nodes[t].state is Running,
    ensures
        !is_ready(nodes, edges, t),
{
}

/// An idle node with no incoming edges is ready to run.
pub proof fn lemma_idle_source_ready(nodes: NodeMap, edges: EdgeMap, t: usize)
    requires
        nodes.contains_key(t),
        nodes[t].state is Idle,
        forall|k: usize| #[trigger] edges.contains_key(k) ==> edges[k].1 != t,
    ensures
        is_ready(nodes, edges, t),
{
    assert forall|a: usize| !#[trigger] is_ancestor(edges, a, t) by {
        if is_ancestor(edges, a, t) {
            let p = choose|p: Seq<usize>| #[trigger] is_path(edges, p) && p[0] == a && p.last() == t;
            let i = p.len() - 2;
            assert(path_step(edges, p, i));
            assert(p[i + 1] == t);
        }
    }
}

/// A node is not ready while any node it depends on, directly or through
/// other nodes, is queued or running.
pub proof fn lemma_busy_ancestor_blocks(nodes: NodeMap, edges: EdgeMap, t: usize, a: usize)
    requires
        is_ancestor(edges, a, t),
        a != t,
        nodes.contains_key(a),
        nodes[a].state.is_busy(),
    ensures
        !is_ready(nodes, edges, t),
{
}

proof fn lemma_extend_ancestor(edges: EdgeMap, s: usize, v: usize, t: usize)
    requires
        is_edge(edges, s, v),
        v == t || is_ancestor(edges, v, t),
    ensures
        is_ancestor(edges, s, t),
{
    if v == t {
        let p = seq![s, t];
        assert(path_step(edges, p, 0));
        assert(is_path(edges, p));
    } else {
        let p = choose|p: Seq<usize>| #[trigger] is_path(edges, p) && p[0] == v && p.last() == t;
        let q = seq![s] + p;
        assert forall|i: int| 0 <= i < q.len() - 1 implies #[trigger] path_step(edges, q, i) by {
            if i > 0 {
                assert(path_step(edges, p, i - 1));
                assert(q[i] == p[i - 1] && q[i + 1] == p[i]);
            } else {
                assert(q[0] == s && q[1] == v);
            }
        }
        assert(is_path(edges, q));
        assert(q.last() == t);
    }
}

proof fn lemma_path_in_closed(edges: EdgeMap, vis: Seq<usize>, t: usize, p: Seq<usize>, i: int)
    requires
        is_path(edges, p),
        p.last() == t,
        0 <= i < p.len() - 1,
        forall|k: usize| #[trigger] edges.contains_key(k) && edges[k].1 == t ==> vis.contains(edges[k].0),
        forall|k: usize| #[trigger] edges.contains_key(k) && vis.contains(edges[k].1) && edges[k].1 != t
            ==> vis.contains(edges[k].0),
    ensures
        vis.contains(p[i]),
    decreases p.len() - 1 - i,
{
    assert(path_step(edges, p, i));
    let k = choose|k: usize| #[trigger] edges.contains_key(k) && edges[k].0 == p[i] && edges[k].1 == p[i + 1];
    if i < p.len() - 2 {
        lemma_path_in_closed(edges, vis, t, p, i + 1);
        if p[i + 1] != t {
            assert(vis.contains(p[i + 1]));
        }
    }
}

/// Every node that `t` depends on is in a set that holds the sources of
/// the edges into `t` and into each of its other members.
proof fn lemma_closed_holds_ancestors(edges: EdgeMap, vis: Seq<usize>, t: usize, a: usize)
    requires
        is_ancestor(edges, a, t),
        forall|k: usize| #[trigger] edges.contains_key(k) && edges[k].1 == t ==> vis.contains(edges[k].0),
        forall|k: usize| #[trigger] edges.contains_key(k) && vis.contains(edges[k].1) && edges[k].1 != t
            ==> vis.contains(edges[k].0),
    ensures
        vis.contains(a),
{
    let p = choose|p: Seq<usize>| #[trigger] is_path(edges, p) && p[0] == a && p.last() == t;
    lemma_path_in_closed(edges, vis, t, p, 0);
}

broadcast use vstd::seq_lib::lemma_seq_contains_after_push;

fn contains_index(v: &Vec<usize>, x: usize) -> (r: bool)
    ensures
        r == v@.contains(x),
{
    let mut i: usize = 0;
    while i < v.len()
        invariant
            i <= v@.len(),
            forall|j: int| 0 <= j < i ==> v@[j] != x,
        decreases v@.len() - i,
    {
        if v[i] == x {
            return true;
        }
        i = i + 1;
    }
    false
}

impl VisualGraph {
    pub closed spec fn nodes(&self) -> NodeMap {
        graph_nodes(self.inner.graph)
    }

    pub closed spec fn edges(&self) -> EdgeMap {
        graph_edges(self.inner.graph)
    }

    pub closed spec fn dragging(&self) -> Option<CurrentlyDragging> {
        self.inner.currently_dragging
    }

    /// The drag in progress, if any.
    pub fn currently_dragging(&self) -> (r: Option<CurrentlyDragging>)
        ensures
            r == self.dragging(),
    {
        self.inner.currently_dragging
    }

    /// The serial that the next node created will get.
    pub closed spec fn next_serial(&self) -> u64 {
        self.inner.next_serial
    }

    /// The edges are well formed, and every live node has a serial below
    /// the next one (until serials run out).
    pub open spec fn wf(&self) -> bool {
        &&& edges_wf(self.nodes(), self.edges())
        &&& self.next_serial() < u64::MAX ==> forall|n: usize| #[trigger] self.nodes().contains_key(n)
            ==> self.nodes()[n].serial < self.next_serial()
    }

    /// An empty graph with no drag in progress.
    pub fn new() -> (r: VisualGraph)
        ensures
            r.wf(),
            r.nodes().dom() == Set::<usize>::empty(),
            r.edges().dom() == Set::<usize>::empty(),
            r.dragging() is None,
    {
        VisualGraph { inner: VisualGraphInner { graph: graph_new(), currently_dragging: None, next_serial: 0 } }
    }

    /// Whether `id` names a live node.
    pub fn contains_node(&self, id: usize) -> (r: bool)
        ensures
            r == self.nodes().contains_key(id),
    {
        graph_contains(&self.inner.graph, id)
    }

    /// The live node `id`.
    pub fn node(&self, id: usize) -> (r: &Node)
        requires
            self.nodes().contains_key(id),
        ensures
            *r == self.nodes()[id],
    {
        graph_node(&self.inner.graph, id)
    }

    /// Every live node, once, in increasing index order.
    pub fn node_ids(&self) -> (r: Vec<usize>)
        ensures
            forall|j: int| 0 <= j < r@.len() ==> #[trigger] self.nodes().contains_key(r@[j]),
            forall|n: usize| #[trigger] self.nodes().contains_key(n) ==> r@.contains(n),
            forall|j1: int, j2: int| 0 <= j1 < j2 < r@.len() ==> r@[j1] < r@[j2],
    {
        graph_node_ids(&self.inner.graph)
    }

    /// Every edge, once, in increasing index order, as (edge index,
    /// producer, consumer, edge).
    pub fn edge_list(&self) -> (r: Vec<(usize, usize, usize, Edge)>)
        ensures
            forall|j: int| 0 <= j < r@.len() ==> {
                &&& self.edges().contains_key((#[trigger] r@[j]).0)
                &&& self.edges()[r@[j].0] == (r@[j].1, r@[j].2, r@[j].3)
            },
            forall|k: usize| #[trigger] self.edges().contains_key(k)
                ==> exists|j: int| 0 <= j < r@.len() && r@[j].0 == k,
            forall|j1: int, j2: int| 0 <= j1 < j2 < r@.len() ==> r@[j1].0 < r@[j2].0,
    {
        graph_edge_list(&self.inner.graph)
    }

    /// Removes edge `k`; returns its weight, or `None` for a stale index.
    pub fn remove_edge(&mut self, k: usize) -> (r: Option<Edge>)
        requires
            old(self).wf(),
        ensures
            final(self).wf(),
            r == (if old(self).edges().contains_key(k) { Some(old(self).edges()[k].2) } else { None }),
            final(self).edges() == old(self).edges().remove(k),
            final(self).nodes() == old(self).nodes(),
            final(self).dragging() == old(self).dragging(),
    {
        graph_remove_edge(&mut self.inner.graph, k)
    }

    /// The edges into node `id`, each once, as (edge index, producer,
    /// edge); none for a stale index.
    pub fn incoming_edges(&self, id: usize) -> (r: Vec<(usize, usize, Edge)>)
        ensures
            !self.nodes().contains_key(id) ==> r@.len() == 0,
            forall|j: int| 0 <= j < r@.len() ==> {
                &&& #[trigger] self.edges().contains_key(r@[j].0)
                &&& self.edges()[r@[j].0] == (r@[j].1, id, r@[j].2)
            },
            forall|k: usize| #[trigger] self.edges().contains_key(k) && self.edges()[k].1 == id
                && self.nodes().contains_key(id) ==> exists|j: int| 0 <= j < r@.len() && r@[j].0 == k,
            forall|j1: int, j2: int| 0 <= j1 < j2 < r@.len() ==> r@[j1].0 != r@[j2].0,
    {
        if !graph_contains(&self.inner.graph, id) {
            return Vec::new();
        }
        graph_incoming(&self.inner.graph, id)
    }

    /// The readiness check: whether node `id` may run now. It may not while
    /// it runs, nor while any node it depends on, directly or through other
    /// nodes, is queued or running. The walk goes back from each visited
    /// node along its own incoming edges, so every ancestor is checked; a
    /// path that leads back to `id` itself does not hold it back.
    pub fn should_run_node(&self, id: usize) -> (r: bool)
        requires
            self.wf(),
        ensures
            r == (self.nodes().contains_key(id) && is_ready(self.nodes(), self.edges(), id)),
    {
        if !graph_contains(&self.inner.graph, id) {
            return false;
        }
        let ghost nodes = self.nodes();
        let ghost edges = self.edges();
        let target = graph_node(&self.inner.graph, id);
        if let NodeState::Running = target.state {
            return false;
        }
        let mut visited: Vec<usize> = Vec::new();
        visited.push(id);
        let mut should_visit: Vec<usize> = Vec::new();
        let mut current: usize = id;
        proof {
            assert(visited@[0] == id);
            assert(visited@ =~= seq![id]);
            visited@.unique_seq_to_set();
            assert(visited@.to_set() =~= set![id]);
            vstd::set_lib::lemma_len_subset(visited@.to_set(), nodes.dom());
        }
        loop
            invariant
                nodes == self.nodes(),
                edges == self.edges(),
                edges_wf(nodes, edges),
                nodes.contains_key(id),
                nodes.contains_key(current),
                !(nodes[id].state is Running),
                visited@.contains(id),
                visited@.contains(current),
                visited@.no_duplicates(),
                should_visit@.no_duplicates(),
                !should_visit@.contains(current),
                !should_visit@.contains(id),
                forall|v: usize| #[trigger] visited@.contains(v) ==> nodes.contains_key(v),
                forall|v: usize| #[trigger] should_visit@.contains(v) ==> visited@.contains(v),
                forall|v: usize| visited@.contains(v) && v != id ==> #[trigger] is_ancestor(edges, v, id),
                forall|v: usize| #[trigger] visited@.contains(v) && v != id && !should_visit@.contains(v)
                    ==> !nodes[v].state.is_busy(),
                current == id || !nodes[current].state.is_busy(),
                forall|k: usize| #[trigger] edges.contains_key(k) && edges[k].1 == id && current != id
                    ==> visited@.contains(edges[k].0),
                forall|k: usize| #[trigger] edges.contains_key(k) && visited@.contains(edges[k].1)
                    && edges[k].1 != id && edges[k].1 != current && !should_visit@.contains(edges[k].1)
                    ==> visited@.contains(edges[k].0),
                visited@.len() <= nodes.dom().len(),
            decreases 2 * (nodes.dom().len() - visited@.len()) + should_visit@.len() + if current == id { 1int } else { 0 },
        {
            // visit the sources of the edges into `current`
            let preds = graph_incoming(&self.inner.graph, current);
            let ghost vis0 = visited@;
            let ghost stack0 = should_visit@;
            let mut j: usize = 0;
            while j < preds.len()
                invariant
                    nodes == self.nodes(),
                    edges == self.edges(),
                    edges_wf(nodes, edges),
                    nodes.contains_key(id),
                    nodes.contains_key(current),
                    !(nodes[id].state is Running),
                    j <= preds@.len(),
                    forall|jj: int| 0 <= jj < preds@.len() ==> {
                        &&& #[trigger] edges.contains_key(preds@[jj].0)
                        &&& edges[preds@[jj].0] == (preds@[jj].1, current, preds@[jj].2)
                    },
                    forall|jj: int| 0 <= jj < j ==> visited@.contains(#[trigger] preds@[jj].1),
                    vis0.len() <= visited@.len(),
                    visited@.len() - vis0.len() == should_visit@.len() - stack0.len(),
                    should_visit@.len() >= stack0.len(),
                    forall|v: usize| vis0.contains(v) ==> #[trigger] visited@.contains(v),
                    forall|v: usize| #[trigger] visited@.contains(v) && !vis0.contains(v) ==> should_visit@.contains(v),
                    forall|v: usize| #[trigger] stack0.contains(v) ==> should_visit@.contains(v),
                    forall|v: usize| #[trigger] should_visit@.contains(v) ==> stack0.contains(v) || !vis0.contains(v),
                    visited@.contains(id),
                    visited@.contains(current),
                    visited@.no_duplicates(),
                    should_visit@.no_duplicates(),
                    !should_visit@.contains(current),
                    !should_visit@.contains(id),
                    forall|v: usize| #[trigger] visited@.contains(v) ==> nodes.contains_key(v),
                    forall|v: usize| #[trigger] should_visit@.contains(v) ==> visited@.contains(v),
                    forall|v: usize| visited@.contains(v) && v != id ==> #[trigger] is_ancestor(edges, v, id),
                    forall|v: usize| #[trigger] visited@.contains(v) && v != id && !should_visit@.contains(v)
                        ==> !nodes[v].state.is_busy(),
                    current == id || !nodes[current].state.is_busy(),
                    forall|k: usize| #[trigger] edges.contains_key(k) && edges[k].1 == id && current != id
                        ==> visited@.contains(edges[k].0),
                    forall|k: usize| #[trigger] edges.contains_key(k) && visited@.contains(edges[k].1)
                        && edges[k].1 != id && edges[k].1 != current && !should_visit@.contains(edges[k].1)
                        ==> visited@.contains(edges[k].0),
                    visited@.len() <= nodes.dom().len(),
                decreases preds@.len() - j,
            {
                let source = preds[j].1;
                proof {
                    assert(edges.contains_key(preds@[j as int].0));
                    assert(is_edge(edges, source, current));
                }
                if !contains_index(&visited, source) {
                    proof {
                        lemma_extend_ancestor(edges, source, current, id);
                        assert(nodes.contains_key(source));
                    }
                    assert(!should_visit@.contains(source));
                    let ghost vis1 = visited@;
                    let ghost st1 = should_visit@;
                    visited.push(source);
                    should_visit.push(source);
                    assert forall|a: int, b: int| 0 <= a < b < should_visit@.len()
                        implies should_visit@[a] != should_visit@[b] by {
                        if b == st1.len() {
                            assert(st1.contains(st1[a]));
                        } else {
                            assert(st1[a] == should_visit@[a] && st1[b] == should_visit@[b]);
                        }
                    }
                    assert forall|a: int, b: int| 0 <= a < b < visited@.len()
                        implies visited@[a] != visited@[b] by {
                        if b == vis1.len() {
                            assert(vis1.contains(vis1[a]));
                        } else {
                            assert(vis1[a] == visited@[a] && vis1[b] == visited@[b]);
                        }
                    }
                    proof {
                        visited@.unique_seq_to_set();
                        assert forall|v: usize| #[trigger] visited@.to_set().contains(v) implies nodes.dom().contains(v) by {
                            assert(visited@.contains(v));
                        }
                        vstd::set_lib::lemma_len_subset(visited@.to_set(), nodes.dom());
                        assert(visited@.last() == source);
                        assert(should_visit@.last() == source);
                    }
                }
                j = j + 1;
            }
            proof {
                assert forall|k: usize| #[trigger] edges.contains_key(k) && edges[k].1 == current
                    implies visited@.contains(edges[k].0) by {
                    let jj = choose|jj: int| 0 <= jj < preds@.len() && preds@[jj].0 == k;
                    assert(visited@.contains(preds@[jj].1));
                }
            }
            let ghost stack1 = should_visit@;
            match should_visit.pop() {
                None => {
                    proof {
                        assert forall|a: usize| #[trigger] is_ancestor(edges, a, id) && a != id
                            && nodes.contains_key(a) implies !nodes[a].state.is_busy() by {
                            lemma_closed_holds_ancestors(edges, visited@, id, a);
                        }
                    }
                    return true;
                },
                Some(next) => {
                    proof {
                        assert(stack1 =~= should_visit@.push(next));
                        assert(stack1.contains(next));
                        assert forall|v: usize| #[trigger] should_visit@.contains(v) implies stack1.contains(v) by {
                            let i = choose|i: int| 0 <= i < should_visit@.len() && should_visit@[i] == v;
                            assert(stack1[i] == v);
                        }
                        assert(next != id);
                        assert(visited@.contains(next));
                    }
                    if next != id {
                        let n = graph_node(&self.inner.graph, next);
                        match n.state {
                            NodeState::Running | NodeState::Queued => {
                                proof {
                                    assert(is_ancestor(edges, next, id));
                                }
                                return false;
                            },
                            _ => {},
                        }
                    }
                    current = next;
                },
            }
        }
    }

    /// Whether `edge` may join output slot `edge.start` of node `input_id`
    /// (the producer) to input slot `edge.end` of node `output_id` (the
    /// consumer): both slots exist and are declared with the same type.
    pub fn check_connection_validity(&self, input_id: usize, output_id: usize, edge: Edge) -> (r: bool)
        ensures
            r == valid_connection(self.nodes(), input_id, output_id, edge),
    {
        if !graph_contains(&self.inner.graph, input_id) || !graph_contains(&self.inner.graph, output_id) {
            return false;
        }
        let producer = graph_node(&self.inner.graph, input_id).output_type(edge.start);
        let consumer = graph_node(&self.inner.graph, output_id).input_type(edge.end.index);
        match (producer, consumer) {
            (Some(a), Some(b)) => a == b,
            _ => false,
        }
    }

    /// Wires `edge` from node `input_id` (the producer) to node `output_id`
    /// (the consumer). An invalid connection is ignored. Otherwise any edge
    /// into the same input slot is removed first, so that the latest
    /// connection to a slot wins.
    pub fn connect(&mut self, input_id: usize, output_id: usize, edge: Edge)
        requires
            old(self).wf(),
        ensures
            final(self).wf(),
            final(self).nodes() == old(self).nodes(),
            final(self).dragging() == old(self).dragging(),
            valid_connection(old(self).nodes(), input_id, output_id, edge)
                ==> connected(old(self).edges(), final(self).edges(), input_id, output_id, edge),
            !valid_connection(old(self).nodes(), input_id, output_id, edge)
                ==> final(self).edges() == old(self).edges(),
    {
        if !self.check_connection_validity(input_id, output_id, edge) {
            return;
        }
        let ghost nodes = self.nodes();
        let ghost before = self.edges();
        let slot = edge.end.index;
        let preds = graph_incoming(&self.inner.graph, output_id);
        assert forall|jj: int| 0 <= jj < preds@.len() implies {
            &&& before.contains_key((#[trigger] preds@[jj]).0)
            &&& before[preds@[jj].0] == (preds@[jj].1, output_id, preds@[jj].2)
        } by {
            assert(graph_edges(self.inner.graph).contains_key(preds@[jj].0));
        }
        let mut j: usize = 0;
        while j < preds.len()
            invariant
                nodes == self.nodes(),
                edges_wf(nodes, before),
                valid_connection(nodes, input_id, output_id, edge),
                slot == edge.end.index,
                j <= preds@.len(),
                self.dragging() == old(self).dragging(),
                self.next_serial() == old(self).next_serial(),
                forall|jj: int| 0 <= jj < preds@.len() ==> #[trigger] before.contains_key(preds@[jj].0),
                forall|jj: int| 0 <= jj < preds@.len() ==> before[(#[trigger] preds@[jj]).0] == (preds@[jj].1, output_id, preds@[jj].2),
                forall|k: usize| #[trigger] before.contains_key(k) && before[k].1 == output_id
                    ==> exists|jj: int| 0 <= jj < preds@.len() && preds@[jj].0 == k,
                forall|k: usize| #[trigger] self.edges().contains_key(k)
                    ==> before.contains_key(k) && self.edges()[k] == before[k],
                forall|k: usize| #[trigger] before.contains_key(k)
                    && !(before[k].1 == output_id && before[k].2.end.index == slot)
                    ==> self.edges().contains_key(k),
                forall|jj: int| 0 <= jj < j && (#[trigger] preds@[jj]).2.end.index == slot
                    ==> !self.edges().contains_key(preds@[jj].0),
            decreases preds@.len() - j,
        {
            if preds[j].2.end.index == slot {
                let ghost cur = self.edges();
                graph_remove_edge(&mut self.inner.graph, preds[j].0);
                assert forall|k: usize| #[trigger] self.edges().contains_key(k)
                    implies cur.contains_key(k) && self.edges()[k] == cur[k] by {
                    assert(self.edges() == cur.remove(preds@[j as int].0));
                }
            }
            j = j + 1;
        }
        proof {
            assert forall|k: usize| before.contains_key(k) && before[k].1 == output_id
                && before[k].2.end.index == slot implies !#[trigger] self.edges().contains_key(k) by {
                let jj = choose|jj: int| 0 <= jj < preds@.len() && preds@[jj].0 == k;
                assert(preds@[jj].2.end.index == slot);
            }
            assert(self.edges() =~= edges_off_slot(before, output_id, slot));
        }
        let k = graph_add_edge(&mut self.inner.graph, input_id, output_id, edge);
        proof {
            assert(self.edges() == edges_off_slot(before, output_id, slot).insert(k, (input_id, output_id, edge)));
            assert(connected(before, self.edges(), input_id, output_id, edge));
        }
    }

    /// Propagation: where node `id` may run now, copies into each of its
    /// input slots the value that the producer of that slot's edge holds,
    /// if it holds one, and returns true. Slots with no incoming edge or
    /// with an absent producer value keep theirs. Where the node may not
    /// run, or does not exist, nothing changes and the result is false.
    pub fn set_input_nodes(&mut self, id: usize) -> (r: bool)
        requires
            old(self).wf(),
        ensures
            final(self).wf(),
            r == (old(self).nodes().contains_key(id) && is_ready(old(self).nodes(), old(self).edges(), id)),
            final(self).edges() == old(self).edges(),
            final(self).dragging() == old(self).dragging(),
            !r ==> final(self).nodes() == old(self).nodes(),
            r ==> final(self).nodes().dom() == old(self).nodes().dom(),
            r ==> forall|n: usize| n != id && #[trigger] old(self).nodes().contains_key(n)
                ==> final(self).nodes()[n] == old(self).nodes()[n],
            r ==> propagated(old(self).nodes(), old(self).edges(), id, old(self).nodes()[id], final(self).nodes()[id]),
    {
        if !self.should_run_node(id) {
            return false;
        }
        let ghost nodes = self.nodes();
        let ghost edges = self.edges();
        let preds = graph_incoming(&self.inner.graph, id);
        assert forall|jj: int| 0 <= jj < preds@.len() implies {
            &&& edges.contains_key((#[trigger] preds@[jj]).0)
            &&& edges[preds@[jj].0] == (preds@[jj].1, id, preds@[jj].2)
        } by {
            assert(graph_edges(self.inner.graph).contains_key(preds@[jj].0));
        }
        // read every producer value first: a node may feed itself
        let mut updates: Vec<Option<Value>> = Vec::new();
        let mut j: usize = 0;
        while j < preds.len()
            invariant
                nodes == self.nodes(),
                edges == self.edges(),
                edges_wf(nodes, edges),
                j <= preds@.len(),
                updates@.len() == j,
                forall|jj: int| 0 <= jj < preds@.len() ==> {
                    &&& edges.contains_key((#[trigger] preds@[jj]).0)
                    &&& edges[preds@[jj].0] == (preds@[jj].1, id, preds@[jj].2)
                },
                forall|jj: int| 0 <= jj < j ==> opt_view(#[trigger] updates@[jj])
                    == nodes[preds@[jj].1].output_view(preds@[jj].2.start as int),
            decreases preds@.len() - j,
        {
            let producer = graph_node(&self.inner.graph, preds[j].1);
            let start = preds[j].2.start;
            assert(edges.contains_key(preds@[j as int].0));
            match &producer.outputs[start].value {
                Some(v) => updates.push(Some(v.duplicate())),
                None => updates.push(None),
            }
            j = j + 1;
        }
        let placeholder = Node {
            inputs: Vec::new(),
            outputs: Vec::new(),
            state: NodeState::Idle,
            position: Position { x: 0, y: 0 },
            width: 0,
            height: 0,
            serial: 0,
        };
        let mut node = graph_swap_node(&mut self.inner.graph, id, placeholder);
        let ghost orig = node;
        let mut j: usize = 0;
        while j < preds.len()
            invariant
                edges_wf(nodes, edges),
                orig == nodes[id],
                nodes.contains_key(id),
                j <= preds@.len(),
                updates@.len() == preds@.len(),
                forall|jj: int| 0 <= jj < preds@.len() ==> opt_view(#[trigger] updates@[jj])
                    == nodes[preds@[jj].1].output_view(preds@[jj].2.start as int),
                forall|jj: int| 0 <= jj < preds@.len() ==> {
                    &&& edges.contains_key((#[trigger] preds@[jj]).0)
                    &&& edges[preds@[jj].0] == (preds@[jj].1, id, preds@[jj].2)
                },
                forall|j1: int, j2: int| 0 <= j1 < j2 < preds@.len() ==> preds@[j1].0 != preds@[j2].0,
                node.outputs == orig.outputs,
                node.state == orig.state,
                node.position == orig.position,
                node.width == orig.width,
                node.height == orig.height,
                node.serial == orig.serial,
                node.inputs@.len() == orig.inputs@.len(),
                forall|s: int| 0 <= s < orig.inputs@.len()
                    ==> (#[trigger] node.inputs@[s]).definition == orig.inputs@[s].definition,
                forall|jj: int| 0 <= jj < j && (#[trigger] updates@[jj]) is Some
                    ==> node.inputs@[preds@[jj].2.end.index as int].value@ == updates@[jj].unwrap()@,
                forall|s: int| 0 <= s < orig.inputs@.len() && !slot_written(preds@, updates@, j as int, s)
                    ==> #[trigger] node.inputs@[s] == orig.inputs@[s],
            decreases preds@.len() - j,
        {
            let slot = preds[j].2.end.index;
            assert(edges.contains_key(preds@[j as int].0));
            match &updates[j] {
                Some(v) => {
                    let nv = v.duplicate();
                    let def = node.inputs[slot].definition.duplicate();
                    node.inputs.set(slot, NodeInput { definition: def, value: nv });
                    proof {
                        assert forall|jj: int| 0 <= jj < j && (#[trigger] updates@[jj]) is Some
                            implies preds@[jj].2.end.index != slot by {
                            assert(edges.contains_key(preds@[jj].0));
                        }
                    }
                },
                None => {},
            }
            j = j + 1;
        }
        graph_swap_node(&mut self.inner.graph, id, node);
        proof {
            assert forall|s: int| 0 <= s < orig.inputs@.len() implies {
                &&& (#[trigger] node.inputs@[s]).definition == orig.inputs@[s].definition
                &&& match incoming_value(nodes, edges, id, s) {
                    Some(v) => node.inputs@[s].value@ == v,
                    None => node.inputs@[s] == orig.inputs@[s],
                }
            } by {
                if slot_connected(edges, id, s) {
                    let k = choose|k: usize| #[trigger] edges.contains_key(k) && edges[k].1 == id
                        && edges[k].2.end.index == s;
                    let jj = choose|jj: int| 0 <= jj < preds@.len() && preds@[jj].0 == k;
                    assert(preds@[jj] == (k, edges[k].0, edges[k].2));
                    assert(incoming_value(nodes, edges, id, s) == opt_view(updates@[jj]));
                    assert forall|j2: int| 0 <= j2 < preds@.len() && j2 != jj
                        implies !(preds@[j2].2.end.index == s && (#[trigger] updates@[j2]) is Some) by {
                        assert(edges.contains_key(preds@[j2].0));
                    }
                    if updates@[jj] is None {
                        assert(!slot_written(preds@, updates@, j as int, s));
                    }
                } else {
                    assert forall|j2: int| 0 <= j2 < preds@.len()
                        implies !(preds@[j2].2.end.index == s && (#[trigger] updates@[j2]) is Some) by {
                        assert(edges.contains_key(preds@[j2].0));
                    }
                    assert(!slot_written(preds@, updates@, j as int, s));
                }
            }
            assert(propagated(nodes, edges, id, orig, node));
        }
        true
    }

    /// Adds a node whose slots follow the declarations `inputs` and
    /// `outputs`, and returns its index, which no live node had.
    pub fn create_node(&mut self, inputs: &Vec<IoDefinition>, outputs: &Vec<IoDefinition>) -> (r: usize)
        requires
            old(self).wf(),
        ensures
            final(self).wf(),
            !old(self).nodes().contains_key(r),
            final(self).nodes() == old(self).nodes().insert(r, final(self).nodes()[r]),
            fresh_node(final(self).nodes()[r], inputs@, outputs@),
            final(self).nodes()[r].serial == old(self).next_serial(),
            final(self).next_serial() == (if old(self).next_serial() < u64::MAX {
                (old(self).next_serial() + 1) as u64
            } else {
                old(self).next_serial()
            }),
            final(self).edges() == old(self).edges(),
            final(self).dragging() == old(self).dragging(),
    {
        let mut ins: Vec<NodeInput> = Vec::new();
        let mut i: usize = 0;
        while i < inputs.len()
            invariant
                i <= inputs@.len(),
                ins@.len() == i,
                forall|j: int| 0 <= j < i ==> {
                    &&& (#[trigger] ins@[j]).definition == inputs@[j]
                    &&& ins@[j].value@ == inputs@[j].ty.empty_view()
                },
            decreases inputs@.len() - i,
        {
            let d = inputs[i].duplicate();
            let v = d.ty.empty_value();
            ins.push(NodeInput { definition: d, value: v });
            i = i + 1;
        }
        let mut outs: Vec<NodeOutput> = Vec::new();
        let mut i: usize = 0;
        while i < outputs.len()
            invariant
                i <= outputs@.len(),
                outs@.len() == i,
                forall|j: int| 0 <= j < i ==> {
                    &&& (#[trigger] outs@[j]).definition == outputs@[j]
                    &&& outs@[j].value is None
                },
            decreases outputs@.len() - i,
        {
            outs.push(NodeOutput { definition: outputs[i].duplicate(), value: None });
            i = i + 1;
        }
        let node = Node {
            inputs: ins,
            outputs: outs,
            state: NodeState::Idle,
            position: Position { x: 0, y: 0 },
            width: 120,
            height: 120,
            serial: self.inner.next_serial,
        };
        let ghost before = self.nodes();
        let r = graph_add_node(&mut self.inner.graph, node);
        if self.inner.next_serial < u64::MAX {
            self.inner.next_serial = self.inner.next_serial + 1;
        }
        proof {
            assert(self.nodes()[r] == node);
            assert(self.nodes() == before.insert(r, self.nodes()[r]));
            assert forall|k: usize| #[trigger] self.edges().contains_key(k) implies {
                &&& self.nodes()[self.edges()[k].0] == before[self.edges()[k].0]
                &&& self.nodes()[self.edges()[k].1] == before[self.edges()[k].1]
            } by {}
        }
        r
    }

    /// Removes node `id` and every edge from or to it. Returns whether the
    /// node was live; a stale index changes nothing.
    pub fn remove_node(&mut self, id: usize) -> (r: bool)
        requires
            old(self).wf(),
        ensures
            final(self).wf(),
            r == old(self).nodes().contains_key(id),
            final(self).nodes() == old(self).nodes().remove(id),
            final(self).edges() == edges_avoiding(old(self).edges(), id),
            forall|k: usize| #[trigger] final(self).edges().contains_key(k)
                ==> final(self).edges()[k].0 != id && final(self).edges()[k].1 != id,
            final(self).dragging() == old(self).dragging(),
    {
        let removed = graph_remove_node(&mut self.inner.graph, id);
        removed.is_some()
    }

    /// Ends any drag in progress without changing the graph.
    pub fn clear_dragging(&mut self)
        ensures
            final(self).next_serial() == old(self).next_serial(),
            final(self).dragging() is None,
            final(self).nodes() == old(self).nodes(),
            final(self).edges() == old(self).edges(),
    {
        self.inner.currently_dragging = None;
    }

    /// Starts dragging live node `node` by its body, grabbed with the
    /// pointer at `at`. The grab offset is the pointer less the node's
    /// position, so that the node does not jump when the pointer moves: at
    /// the grab point it stays where it is. A stale index changes nothing.
    pub fn start_dragging_node(&mut self, node: usize, at: Point)
        ensures
            final(self).next_serial() == old(self).next_serial(),
            final(self).nodes() == old(self).nodes(),
            final(self).edges() == old(self).edges(),
            old(self).nodes().contains_key(node) ==> final(self).dragging() == Some(CurrentlyDragging::Node(NodeDragInfo {
                element_offset: Position {
                    x: grab_offset(at.x, old(self).nodes()[node].position.x),
                    y: grab_offset(at.y, old(self).nodes()[node].position.y),
                },
                node,
            })),
            old(self).nodes().contains_key(node) ==> {
                &&& follow(at.x, grab_offset(at.x, old(self).nodes()[node].position.x))
                    == old(self).nodes()[node].position.x
                &&& follow(at.y, grab_offset(at.y, old(self).nodes()[node].position.y))
                    == old(self).nodes()[node].position.y
            },
            !old(self).nodes().contains_key(node) ==> final(self).dragging() == old(self).dragging(),
    {
        if !graph_contains(&self.inner.graph, node) {
            return;
        }
        let pos = graph_node(&self.inner.graph, node).position;
        let x = (at.x as i64).wrapping_sub(pos.x);
        let y = (at.y as i64).wrapping_sub(pos.y);
        self.inner.currently_dragging = Some(CurrentlyDragging::Node(NodeDragInfo {
            element_offset: Position { x, y },
            node,
        }));
    }

    /// Starts dragging a connection out of terminal `index` of node `from`,
    /// with the pointer at `to`.
    pub fn start_dragging_connection(&mut self, from: usize, index: DraggingIndex, to: Point)
        ensures
            final(self).next_serial() == old(self).next_serial(),
            final(self).nodes() == old(self).nodes(),
            final(self).edges() == old(self).edges(),
            final(self).dragging() == Some(CurrentlyDragging::Connection(CurrentlyDraggingProps { from, index, to })),
    {
        self.inner.currently_dragging = Some(CurrentlyDragging::Connection(CurrentlyDraggingProps { from, index, to }));
    }

    /// Follows the pointer at (`x`, `y`): a dragged connection moves its
    /// loose end there; a dragged node moves to the pointer less the grab
    /// offset.
    pub fn update_mouse(&mut self, x: i32, y: i32)
        requires
            old(self).wf(),
        ensures
            final(self).wf(),
            final(self).edges() == old(self).edges(),
            match old(self).dragging() {
                Some(CurrentlyDragging::Connection(d)) => {
                    &&& final(self).dragging() == Some(CurrentlyDragging::Connection(CurrentlyDraggingProps {
                        to: Point { x, y },
                        ..d
                    }))
                    &&& final(self).nodes() == old(self).nodes()
                },
                Some(CurrentlyDragging::Node(d)) => {
                    &&& final(self).dragging() == old(self).dragging()
                    &&& old(self).nodes().contains_key(d.node) ==> final(self).nodes() == old(self).nodes().insert(
                        d.node,
                        Node {
                            position: Position {
                                x: follow(x, d.element_offset.x),
                                y: follow(y, d.element_offset.y),
                            },
                            ..old(self).nodes()[d.node]
                        },
                    )
                    &&& !old(self).nodes().contains_key(d.node) ==> final(self).nodes() == old(self).nodes()
                },
                None => final(self).dragging() is None && final(self).nodes() == old(self).nodes(),
            },
    {
        match self.inner.currently_dragging {
            Some(CurrentlyDragging::Connection(d)) => {
                self.inner.currently_dragging = Some(CurrentlyDragging::Connection(CurrentlyDraggingProps {
                    from: d.from,
                    index: d.index,
                    to: Point { x, y },
                }));
            },
            Some(CurrentlyDragging::Node(d)) => {
                if graph_contains(&self.inner.graph, d.node) {
                    let placeholder = Node {
                        inputs: Vec::new(),
                        outputs: Vec::new(),
                        state: NodeState::Idle,
                        position: Position { x: 0, y: 0 },
                        width: 0,
                        height: 0,
                        serial: 0,
                    };
                    let mut n = graph_swap_node(&mut self.inner.graph, d.node, placeholder);
                    n.position = Position {
                        x: (x as i64).wrapping_sub(d.element_offset.x),
                        y: (y as i64).wrapping_sub(d.element_offset.y),
                    };
                    graph_swap_node(&mut self.inner.graph, d.node, n);
                }
            },
            None => {},
        }
    }

    /// Ends a connection drag on terminal `index` of node `node_id`. Where
    /// the drag started on a terminal of the other kind, the output and
    /// input are joined through `connect`, whichever was grabbed first; a
    /// drop on a terminal of the same kind changes no edge. Either way the
    /// drag ends.
    pub fn finish_connection(&mut self, node_id: usize, index: DraggingIndex)
        requires
            old(self).wf(),
        ensures
            final(self).wf(),
            final(self).dragging() is None,
            final(self).nodes() == old(self).nodes(),
            match drag_pair(old(self).dragging(), node_id, index) {
                Some((p, out, c, input)) => {
                    &&& valid_connection(old(self).nodes(), p, c, Edge { start: out, end: input })
                        ==> connected(old(self).edges(), final(self).edges(), p, c, Edge { start: out, end: input })
                    &&& !valid_connection(old(self).nodes(), p, c, Edge { start: out, end: input })
                        ==> final(self).edges() == old(self).edges()
                },
                None => final(self).edges() == old(self).edges(),
            },
    {
        if let Some(CurrentlyDragging::Connection(d)) = self.inner.currently_dragging {
            let pair = match (index, d.index) {
                (DraggingIndex::Input(input), DraggingIndex::Output(output)) => Some((d.from, output, node_id, input)),
                (DraggingIndex::Output(output), DraggingIndex::Input(input)) => Some((node_id, output, d.from, input)),
                _ => None,
            };
            if let Some((producer, out, consumer, input)) = pair {
                self.connect(producer, consumer, Edge::new(out, input));
            }
        }
        self.inner.currently_dragging = None;
    }

    /// Replaces the execution state of live node `id`.
    fn set_state(&mut self, id: usize, state: NodeState)
        requires
            old(self).wf(),
            old(self).nodes().contains_key(id),
        ensures
            final(self).wf(),
            final(self).nodes() == old(self).nodes().insert(id, Node { state, ..old(self).nodes()[id] }),
            final(self).edges() == old(self).edges(),
            final(self).dragging() == old(self).dragging(),
    {
        let placeholder = Node {
            inputs: Vec::new(),
            outputs: Vec::new(),
            state: NodeState::Idle,
            position: Position { x: 0, y: 0 },
            width: 0,
            height: 0,
            serial: 0,
        };
        let mut n = graph_swap_node(&mut self.inner.graph, id, placeholder);
        n.state = state;
        graph_swap_node(&mut self.inner.graph, id, n);
        assert(self.nodes() =~= old(self).nodes().insert(id, Node { state, ..old(self).nodes()[id] }));
    }

    /// Schedules node `id` in one step: where it may run now and is not
    /// already queued, its inputs are propagated, it is marked queued, and
    /// the result is true. Otherwise nothing changes and the result is
    /// false.
    pub fn queue_node(&mut self, id: usize) -> (r: bool)
        requires
            old(self).wf(),
        ensures
            final(self).wf(),
            r == (old(self).nodes().contains_key(id) && is_ready(old(self).nodes(), old(self).edges(), id)
                && !(old(self).nodes()[id].state is Queued)),
            final(self).edges() == old(self).edges(),
            final(self).dragging() == old(self).dragging(),
            !r ==> final(self).nodes() == old(self).nodes(),
            r ==> final(self).nodes().dom() == old(self).nodes().dom(),
            r ==> forall|n: usize| n != id && #[trigger] old(self).nodes().contains_key(n)
                ==> final(self).nodes()[n] == old(self).nodes()[n],
            r ==> final(self).nodes()[id].state is Queued,
            r ==> propagated(
                old(self).nodes(),
                old(self).edges(),
                id,
                old(self).nodes()[id],
                Node { state: old(self).nodes()[id].state, ..final(self).nodes()[id] },
            ),
    {
        if !graph_contains(&self.inner.graph, id) {
            return false;
        }
        if let NodeState::Queued = graph_node(&self.inner.graph, id).state {
            return false;
        }
        if !self.set_input_nodes(id) {
            return false;
        }
        self.set_state(id, NodeState::Queued);
        true
    }

    /// Marks queued node `id` as running. Any other node, or a node in
    /// another state, is left as it is, and the result is false.
    pub fn start_running(&mut self, id: usize) -> (r: bool)
        requires
            old(self).wf(),
        ensures
            final(self).wf(),
            r == (old(self).nodes().contains_key(id) && old(self).nodes()[id].state is Queued),
            r ==> final(self).nodes() == old(self).nodes().insert(
                id,
                Node { state: NodeState::Running, ..old(self).nodes()[id] },
            ),
            !r ==> final(self).nodes() == old(self).nodes(),
            final(self).edges() == old(self).edges(),
            final(self).dragging() == old(self).dragging(),
    {
        if !graph_contains(&self.inner.graph, id) {
            return false;
        }
        if let NodeState::Queued = graph_node(&self.inner.graph, id).state {
            self.set_state(id, NodeState::Running);
            true
        } else {
            false
        }
    }

    /// Records that running node `id`, created with serial `serial`, failed
    /// with `message`. Where no such node runs (it was removed, or its index
    /// now names another node, or it is in another state) nothing changes
    /// and the result is false.
    pub fn fail_running(&mut self, id: usize, serial: u64, message: String) -> (r: bool)
        requires
            old(self).wf(),
        ensures
            final(self).wf(),
            r == (old(self).nodes().contains_key(id) && old(self).nodes()[id].state is Running
                && old(self).nodes()[id].serial == serial),
            r ==> final(self).nodes() == old(self).nodes().insert(
                id,
                Node { state: NodeState::Error(message), ..old(self).nodes()[id] },
            ),
            !r ==> final(self).nodes() == old(self).nodes(),
            final(self).edges() == old(self).edges(),
            final(self).dragging() == old(self).dragging(),
    {
        if !graph_contains(&self.inner.graph, id) {
            return false;
        }
        let current = graph_node(&self.inner.graph, id);
        if current.serial != serial {
            return false;
        }
        if let NodeState::Running = current.state {
            self.set_state(id, NodeState::Error(message));
            true
        } else {
            false
        }
    }

    /// Records that running node `id`, created with serial `serial`,
    /// finished with `values`, one for each of its output slots, and makes
    /// it idle. Where no such node runs (it was removed, or its index now
    /// names another node, or it is in another state), or the number of
    /// values is not its number of outputs, nothing changes and the result
    /// is false.
    pub fn finish_running(&mut self, id: usize, serial: u64, values: &Vec<Option<Value>>) -> (r: bool)
        requires
            old(self).wf(),
        ensures
            final(self).wf(),
            r == (old(self).nodes().contains_key(id) && old(self).nodes()[id].state is Running
                && old(self).nodes()[id].serial == serial
                && values@.len() == old(self).nodes()[id].outputs@.len()),
            !r ==> final(self).nodes() == old(self).nodes(),
            r ==> final(self).nodes().dom() == old(self).nodes().dom(),
            r ==> forall|n: usize| n != id && #[trigger] old(self).nodes().contains_key(n)
                ==> final(self).nodes()[n] == old(self).nodes()[n],
            r ==> final(self).nodes()[id] == (Node {
                state: NodeState::Idle,
                outputs: final(self).nodes()[id].outputs,
                ..old(self).nodes()[id]
            }),
            r ==> final(self).nodes()[id].outputs@.len() == values@.len(),
            r ==> forall|j: int| 0 <= j < values@.len() ==> {
                &&& (#[trigger] final(self).nodes()[id].outputs@[j]).definition
                    == old(self).nodes()[id].outputs@[j].definition
                &&& opt_view(final(self).nodes()[id].outputs@[j].value) == opt_view(values@[j])
            },
            final(self).edges() == old(self).edges(),
            final(self).dragging() == old(self).dragging(),
    {
        if !graph_contains(&self.inner.graph, id) {
            return false;
        }
        let current = graph_node(&self.inner.graph, id);
        if values.len() != current.outputs.len() || current.serial != serial {
            return false;
        }
        if let NodeState::Running = current.state {
        } else {
            return false;
        }
        let placeholder = Node {
            inputs: Vec::new(),
            outputs: Vec::new(),
            state: NodeState::Idle,
            position: Position { x: 0, y: 0 },
            width: 0,
            height: 0,
            serial: 0,
        };
        let mut n = graph_swap_node(&mut self.inner.graph, id, placeholder);
        let ghost orig = n;
        let mut outs: Vec<NodeOutput> = Vec::new();
        let mut j: usize = 0;
        while j < values.len()
            invariant
                j <= values@.len(),
                values@.len() == n.outputs@.len(),
                outs@.len() == j,
                forall|jj: int| 0 <= jj < j ==> {
                    &&& (#[trigger] outs@[jj]).definition == n.outputs@[jj].definition
                    &&& opt_view(outs@[jj].value) == opt_view(values@[jj])
                },
            decreases values@.len() - j,
        {
            let v = match &values[j] {
                Some(v) => Some(v.duplicate()),
                None => None,
            };
            outs.push(NodeOutput { definition: n.outputs[j].definition.duplicate(), value: v });
            j = j + 1;
        }
        n.outputs = outs;
        n.state = NodeState::Idle;
        graph_swap_node(&mut self.inner.graph, id, n);
        true
    }

    /// Applies the outcome of running node `id` (serial `serial`): values
    /// for its outputs finish it; an error, or values that do not match its
    /// outputs in number, fail it. Where no such node runs, nothing changes
    /// and the result is false.
    pub fn complete_running(&mut self, id: usize, serial: u64, outcome: Result<Vec<Option<Value>>, String>) -> (r: bool)
        requires
            old(self).wf(),
        ensures
            final(self).wf(),
            final(self).edges() == old(self).edges(),
            final(self).dragging() == old(self).dragging(),
            r == (old(self).nodes().contains_key(id) && old(self).nodes()[id].state is Running
                && old(self).nodes()[id].serial == serial),
            !r ==> final(self).nodes() == old(self).nodes(),
            r ==> match outcome {
                Ok(values) => if values@.len() == old(self).nodes()[id].outputs@.len() {
                    &&& final(self).nodes().dom() == old(self).nodes().dom()
                    &&& forall|n: usize| n != id && #[trigger] old(self).nodes().contains_key(n)
                        ==> final(self).nodes()[n] == old(self).nodes()[n]
                    &&& final(self).nodes()[id] == (Node {
                        state: NodeState::Idle,
                        outputs: final(self).nodes()[id].outputs,
                        ..old(self).nodes()[id]
                    })
                    &&& final(self).nodes()[id].outputs@.len() == values@.len()
                    &&& forall|j: int| 0 <= j < values@.len() ==> {
                        &&& (#[trigger] final(self).nodes()[id].outputs@[j]).definition
                            == old(self).nodes()[id].outputs@[j].definition
                        &&& opt_view(final(self).nodes()[id].outputs@[j].value) == opt_view(values@[j])
                    }
                } else {
                    &&& final(self).nodes() == old(self).nodes().insert(
                        id,
                        Node { state: final(self).nodes()[id].state, ..old(self).nodes()[id] },
                    )
                    &&& match final(self).nodes()[id].state {
                        NodeState::Error(m) => m@ == "wrong number of outputs"@,
                        _ => false,
                    }
                },
                Err(message) => final(self).nodes() == old(self).nodes().insert(
                    id,
                    Node { state: NodeState::Error(message), ..old(self).nodes()[id] },
                ),
            },
    {
        match outcome {
            Ok(values) => {
                if !graph_contains(&self.inner.graph, id) {
                    return false;
                }
                if values.len() == graph_node(&self.inner.graph, id).outputs.len() {
                    self.finish_running(id, serial, &values)
                } else {
                    self.fail_running(id, serial, wrong_output_count())
                }
            },
            Err(message) => self.fail_running(id, serial, message),
        }
    }
}

impl Default for VisualGraph {
    fn default() -> (r: VisualGraph)
        ensures
            r.wf(),
            r.nodes().dom() == Set::<usize>::empty(),
            r.edges().dom() == Set::<usize>::empty(),
            r.dragging() is None,
    {
        VisualGraph::new()
    }
}

} // verus!
