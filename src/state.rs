use vstd::prelude::*;
use crate::graph::VisualGraph;
use crate::store::edges_avoiding;

verus! {

/// The editor's state: the graph and the node that has the focus, if any.
pub struct ApplicationState {
    pub graph: VisualGraph,
    pub currently_focused: Option<usize>,
}

impl ApplicationState {
    /// An empty graph with nothing focused.
    pub fn new() -> (r: ApplicationState)
        ensures
            r.graph.wf(),
            r.graph.nodes().dom() == Set::<usize>::empty(),
            r.graph.edges().dom() == Set::<usize>::empty(),
            r.currently_focused is None,
    {
        ApplicationState { graph: VisualGraph::new(), currently_focused: None }
    }

    /// Removes node `node` with every edge from or to it, and drops the
    /// focus if it was on that node. A stale index changes nothing.
    pub fn remove(&mut self, node: usize)
        requires
            old(self).graph.wf(),
        ensures
            final(self).graph.wf(),
            final(self).graph.nodes() == old(self).graph.nodes().remove(node),
            final(self).graph.edges() == edges_avoiding(old(self).graph.edges(), node),
            forall|k: usize| #[trigger] final(self).graph.edges().contains_key(k)
                ==> final(self).graph.edges()[k].0 != node && final(self).graph.edges()[k].1 != node,
            final(self).currently_focused == (if old(self).currently_focused == Some(node)
                && old(self).graph.nodes().contains_key(node) {
                None
            } else {
                old(self).currently_focused
            }),
    {
        let removed = self.graph.remove_node(node);
        if let Some(focused) = self.currently_focused {
            if removed && focused == node {
                self.currently_focused = None;
            }
        }
    }
}

impl Default for ApplicationState {
    fn default() -> (r: ApplicationState)
        ensures
            r.graph.wf(),
            r.graph.nodes().dom() == Set::<usize>::empty(),
            r.graph.edges().dom() == Set::<usize>::empty(),
            r.currently_focused is None,
    {
        ApplicationState::new()
    }
}

} // verus!
