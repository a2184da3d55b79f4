use floneum::graph::{CurrentlyDragging, DraggingIndex, Point, VisualGraph};
use floneum::node::{Connection, Edge, IoDefinition, NodeState, Position};
use floneum::state::ApplicationState;
use floneum::value::{Value, ValueType};

fn def(name: &str, ty: ValueType) -> IoDefinition {
    IoDefinition { name: name.to_string(), ty }
}

fn text_edge(start: usize, slot: usize) -> Edge {
    Edge::new(start, Connection { index: slot, ty: ValueType::Text })
}

/// A node with text inputs and outputs.
fn text_node(g: &mut VisualGraph, inputs: usize, outputs: usize) -> usize {
    let ins: Vec<IoDefinition> = (0..inputs).map(|i| def(&format!("in{i}"), ValueType::Text)).collect();
    let outs: Vec<IoDefinition> = (0..outputs).map(|i| def(&format!("out{i}"), ValueType::Text)).collect();
    g.create_node(&ins, &outs)
}

fn sources(g: &VisualGraph, id: usize) -> Vec<(usize, Edge)> {
    g.incoming_edges(id).into_iter().map(|(_, s, e)| (s, e)).collect()
}

#[test]
fn create_node_starts_empty_and_idle() {
    let mut g = VisualGraph::new();
    let ins = vec![def("prompt", ValueType::Text), def("count", ValueType::Number)];
    let outs = vec![def("result", ValueType::Text)];
    let a = g.create_node(&ins, &outs);
    let n = g.node(a);
    assert_eq!(n.inputs.len(), 2);
    assert_eq!(n.inputs[0].value, Value::Text(String::new()));
    assert_eq!(n.inputs[1].value, Value::Number(0));
    assert_eq!(n.inputs[1].definition, def("count", ValueType::Number));
    assert_eq!(n.outputs.len(), 1);
    assert_eq!(n.outputs[0].value, None);
    assert_eq!(n.state, NodeState::Idle);
    assert_eq!(n.position, Position { x: 0, y: 0 });
    assert_eq!((n.width, n.height), (120, 120));
    let b = g.create_node(&ins, &outs);
    assert_ne!(a, b);
}

#[test]
fn connect_leaves_one_producer_per_slot() {
    let mut g = VisualGraph::new();
    let a = text_node(&mut g, 0, 1);
    let b = text_node(&mut g, 2, 0);
    let c = text_node(&mut g, 0, 1);
    g.connect(a, b, text_edge(0, 1));
    assert_eq!(sources(&g, b), vec![(a, text_edge(0, 1))]);
    g.connect(c, b, text_edge(0, 1));
    assert_eq!(sources(&g, b), vec![(c, text_edge(0, 1))]);
    g.connect(a, b, text_edge(0, 0));
    let mut s = sources(&g, b);
    s.sort_by_key(|(src, e)| (e.end.index, *src));
    assert_eq!(s, vec![(a, text_edge(0, 0)), (c, text_edge(0, 1))]);
}

#[test]
fn connect_with_mismatched_types_changes_nothing() {
    let mut g = VisualGraph::new();
    let a = g.create_node(&vec![], &vec![def("n", ValueType::Number)]);
    let b = text_node(&mut g, 1, 0);
    let c = text_node(&mut g, 0, 1);
    g.connect(c, b, text_edge(0, 0));
    assert!(!g.check_connection_validity(a, b, Edge::new(0, Connection { index: 0, ty: ValueType::Number })));
    g.connect(a, b, Edge::new(0, Connection { index: 0, ty: ValueType::Number }));
    assert_eq!(sources(&g, b), vec![(c, text_edge(0, 0))]);
    // a slot that does not exist is no valid target either
    assert!(!g.check_connection_validity(c, b, text_edge(0, 5)));
    g.connect(c, b, text_edge(0, 5));
    assert_eq!(sources(&g, b).len(), 1);
}

#[test]
fn running_node_is_not_ready() {
    let mut g = VisualGraph::new();
    let a = text_node(&mut g, 1, 1);
    assert!(g.queue_node(a));
    assert!(g.start_running(a));
    assert_eq!(g.node(a).state, NodeState::Running);
    assert!(!g.should_run_node(a));
    assert!(!g.set_input_nodes(a));
}

#[test]
fn idle_node_without_inputs_is_ready() {
    let mut g = VisualGraph::new();
    let a = text_node(&mut g, 2, 1);
    assert!(g.should_run_node(a));
    assert!(!g.should_run_node(a + 100));
}

#[test]
fn busy_ancestor_blocks_readiness() {
    let mut g = VisualGraph::new();
    let a = text_node(&mut g, 1, 1);
    let b = text_node(&mut g, 1, 1);
    let c = text_node(&mut g, 1, 1);
    g.connect(a, b, text_edge(0, 0));
    g.connect(b, c, text_edge(0, 0));
    assert!(g.should_run_node(c));
    assert!(g.queue_node(a));
    // a is two steps up from c
    assert!(!g.should_run_node(b));
    assert!(!g.should_run_node(c));
    assert!(g.start_running(a));
    assert!(!g.should_run_node(c));
    assert!(g.finish_running(a, g.node(a).serial, &vec![Some(Value::Text("hi".to_string()))]));
    assert!(g.should_run_node(c));
}

#[test]
fn failed_node_does_not_block() {
    let mut g = VisualGraph::new();
    let a = text_node(&mut g, 0, 1);
    let b = text_node(&mut g, 1, 0);
    g.connect(a, b, text_edge(0, 0));
    assert!(g.queue_node(a));
    assert!(g.start_running(a));
    assert!(g.fail_running(a, g.node(a).serial, "boom".to_string()));
    assert_eq!(g.node(a).state, NodeState::Error("boom".to_string()));
    assert!(g.should_run_node(b));
    assert!(g.queue_node(a));
}

#[test]
fn cycle_back_to_target_does_not_block() {
    let mut g = VisualGraph::new();
    let a = text_node(&mut g, 1, 1);
    let b = text_node(&mut g, 1, 1);
    g.connect(a, b, text_edge(0, 0));
    g.connect(b, a, text_edge(0, 0));
    assert!(g.queue_node(a));
    assert!(!g.should_run_node(b));
    assert!(g.should_run_node(a));
    assert!(!g.queue_node(a));
}

#[test]
fn propagation_copies_only_present_values() {
    let mut g = VisualGraph::new();
    let a = text_node(&mut g, 0, 1);
    let b = text_node(&mut g, 0, 1);
    let c = text_node(&mut g, 3, 0);
    g.connect(a, c, text_edge(0, 0));
    g.connect(b, c, text_edge(0, 1));
    assert!(g.queue_node(a));
    assert!(g.start_running(a));
    assert!(g.finish_running(a, g.node(a).serial, &vec![Some(Value::Text("from a".to_string()))]));
    assert!(g.set_input_nodes(c));
    let n = g.node(c);
    assert_eq!(n.inputs[0].value, Value::Text("from a".to_string()));
    assert_eq!(n.inputs[1].value, Value::Text(String::new()));
    assert_eq!(n.inputs[2].value, Value::Text(String::new()));
    assert_eq!(n.state, NodeState::Idle);
}

#[test]
fn queue_node_marks_queued_once() {
    let mut g = VisualGraph::new();
    let a = text_node(&mut g, 0, 1);
    assert!(g.queue_node(a));
    assert_eq!(g.node(a).state, NodeState::Queued);
    assert!(!g.queue_node(a));
    assert!(!g.fail_running(a, g.node(a).serial, "x".to_string()));
    assert!(!g.finish_running(a, g.node(a).serial, &vec![None]));
    assert!(g.start_running(a));
    assert!(!g.start_running(a));
    assert!(!g.finish_running(a, g.node(a).serial, &vec![]));
    assert!(g.finish_running(a, g.node(a).serial, &vec![None]));
    assert_eq!(g.node(a).outputs[0].value, None);
}

#[test]
fn remove_node_drops_its_edges_and_focus() {
    let mut s = ApplicationState::new();
    let a = text_node(&mut s.graph, 1, 1);
    let b = text_node(&mut s.graph, 1, 1);
    let c = text_node(&mut s.graph, 1, 1);
    s.graph.connect(a, b, text_edge(0, 0));
    s.graph.connect(b, c, text_edge(0, 0));
    s.currently_focused = Some(b);
    s.remove(b);
    assert_eq!(s.currently_focused, None);
    assert!(!s.graph.contains_node(b));
    assert!(sources(&s.graph, c).is_empty());
    assert!(s.graph.contains_node(a));
    s.currently_focused = Some(a);
    s.remove(c);
    assert_eq!(s.currently_focused, Some(a));
    assert!(!s.graph.remove_node(c));
}

#[test]
fn drag_output_onto_input_connects() {
    let mut g = VisualGraph::new();
    let a = text_node(&mut g, 0, 1);
    let b = text_node(&mut g, 2, 0);
    let c = text_node(&mut g, 2, 0);
    let slot1 = Connection { index: 1, ty: ValueType::Text };
    g.start_dragging_connection(a, DraggingIndex::Output(0), Point { x: 5, y: 5 });
    g.finish_connection(b, DraggingIndex::Input(slot1));
    assert_eq!(sources(&g, b), vec![(a, Edge { start: 0, end: slot1 })]);
    assert_eq!(g.currently_dragging(), None);
    g.start_dragging_connection(a, DraggingIndex::Output(0), Point { x: 5, y: 5 });
    g.finish_connection(c, DraggingIndex::Input(slot1));
    assert_eq!(sources(&g, b), vec![(a, Edge { start: 0, end: slot1 })]);
    assert_eq!(sources(&g, c), vec![(a, Edge { start: 0, end: slot1 })]);
}

#[test]
fn drag_from_input_onto_output_connects() {
    let mut g = VisualGraph::new();
    let a = text_node(&mut g, 0, 1);
    let b = text_node(&mut g, 1, 0);
    let slot0 = Connection { index: 0, ty: ValueType::Text };
    g.start_dragging_connection(b, DraggingIndex::Input(slot0), Point { x: 0, y: 0 });
    g.finish_connection(a, DraggingIndex::Output(0));
    assert_eq!(sources(&g, b), vec![(a, Edge { start: 0, end: slot0 })]);
}

#[test]
fn drag_with_mismatched_types_connects_nothing() {
    let mut g = VisualGraph::new();
    let a = g.create_node(&vec![], &vec![def("n", ValueType::Number)]);
    let b = text_node(&mut g, 1, 0);
    g.start_dragging_connection(a, DraggingIndex::Output(0), Point { x: 1, y: 2 });
    g.finish_connection(b, DraggingIndex::Input(Connection { index: 0, ty: ValueType::Text }));
    assert!(sources(&g, b).is_empty());
    assert_eq!(g.currently_dragging(), None);
}

#[test]
fn drag_onto_same_kind_connects_nothing() {
    let mut g = VisualGraph::new();
    let a = text_node(&mut g, 1, 1);
    let b = text_node(&mut g, 1, 1);
    g.start_dragging_connection(a, DraggingIndex::Output(0), Point { x: 1, y: 2 });
    g.finish_connection(b, DraggingIndex::Output(0));
    assert!(sources(&g, a).is_empty());
    assert!(sources(&g, b).is_empty());
    assert_eq!(g.currently_dragging(), None);
    let slot0 = Connection { index: 0, ty: ValueType::Text };
    g.start_dragging_connection(a, DraggingIndex::Input(slot0), Point { x: 1, y: 2 });
    g.finish_connection(b, DraggingIndex::Input(slot0));
    assert!(sources(&g, a).is_empty());
    assert!(sources(&g, b).is_empty());
}

#[test]
fn dragging_a_node_follows_the_pointer() {
    let mut g = VisualGraph::new();
    let a = text_node(&mut g, 0, 0);
    g.start_dragging_node(a, Point { x: 30, y: 20 });
    match g.currently_dragging() {
        Some(CurrentlyDragging::Node(info)) => {
            assert_eq!(info.node, a);
            assert_eq!(info.element_offset, Position { x: 30, y: 20 });
        }
        _ => panic!("expected a node drag"),
    }
    // at the grab point the node does not jump
    g.update_mouse(30, 20);
    assert_eq!(g.node(a).position, Position { x: 0, y: 0 });
    g.update_mouse(100, 40);
    assert_eq!(g.node(a).position, Position { x: 70, y: 20 });
    g.clear_dragging();
    // grabbed again where it now stands, at another point of its body
    g.start_dragging_node(a, Point { x: 75, y: 25 });
    g.update_mouse(75, 25);
    assert_eq!(g.node(a).position, Position { x: 70, y: 20 });
    g.update_mouse(i32::MIN, i32::MAX);
    assert_eq!(g.node(a).position, Position { x: i32::MIN as i64 - 5, y: i32::MAX as i64 - 5 });
    g.clear_dragging();
    g.update_mouse(0, 0);
    assert_eq!(g.node(a).position, Position { x: i32::MIN as i64 - 5, y: i32::MAX as i64 - 5 });
    // a stale index starts no drag
    g.start_dragging_node(a + 100, Point { x: 0, y: 0 });
    assert_eq!(g.currently_dragging(), None);
}

#[test]
fn dragging_a_connection_moves_only_its_end() {
    let mut g = VisualGraph::new();
    let a = text_node(&mut g, 0, 1);
    g.start_dragging_connection(a, DraggingIndex::Output(0), Point { x: 0, y: 0 });
    g.update_mouse(7, 9);
    match g.currently_dragging() {
        Some(CurrentlyDragging::Connection(d)) => {
            assert_eq!(d.to, Point { x: 7, y: 9 });
            assert_eq!(d.from, a);
        }
        _ => panic!("expected a connection drag"),
    }
    assert_eq!(g.node(a).position, Position { x: 0, y: 0 });
}

#[test]
fn listing_is_in_index_order_and_survives_removal() {
    let mut g = VisualGraph::new();
    let a = text_node(&mut g, 1, 1);
    let b = text_node(&mut g, 1, 1);
    let c = text_node(&mut g, 1, 1);
    g.connect(a, b, text_edge(0, 0));
    g.connect(b, c, text_edge(0, 0));
    assert_eq!(g.node_ids(), vec![a, b, c]);
    let edges = g.edge_list();
    assert_eq!(edges.len(), 2);
    assert_eq!((edges[0].1, edges[0].2, edges[0].3), (a, b, text_edge(0, 0)));
    assert_eq!((edges[1].1, edges[1].2, edges[1].3), (b, c, text_edge(0, 0)));
    assert!(edges[0].0 < edges[1].0);
    g.remove_node(a);
    // the surviving nodes keep their indices
    assert_eq!(g.node_ids(), vec![b, c]);
    assert_eq!(g.node(c).inputs.len(), 1);
    assert_eq!(g.remove_edge(edges[1].0), Some(text_edge(0, 0)));
    assert_eq!(g.remove_edge(edges[1].0), None);
    assert!(g.edge_list().is_empty());
}

#[test]
fn late_completion_for_a_removed_node_is_ignored() {
    let mut g = VisualGraph::new();
    let a = text_node(&mut g, 0, 1);
    assert!(g.queue_node(a));
    assert!(g.start_running(a));
    let old_serial = g.node(a).serial;
    assert!(g.remove_node(a));
    let b = text_node(&mut g, 0, 1);
    assert!(g.queue_node(b));
    assert!(g.start_running(b));
    // b may reuse a's index, but not its serial
    assert_ne!(g.node(b).serial, old_serial);
    assert!(!g.finish_running(b, old_serial, &vec![Some(Value::Text("late".to_string()))]));
    assert!(!g.fail_running(b, old_serial, "late".to_string()));
    assert!(!g.complete_running(b, old_serial, Err("late".to_string())));
    assert_eq!(g.node(b).state, NodeState::Running);
    assert_eq!(g.node(b).outputs[0].value, None);
}

#[test]
fn complete_running_applies_the_outcome() {
    let mut g = VisualGraph::new();
    let a = text_node(&mut g, 0, 1);
    let s = g.node(a).serial;
    assert!(!g.complete_running(a, s, Ok(vec![None])));
    assert!(g.queue_node(a) && g.start_running(a));
    assert!(g.complete_running(a, s, Ok(vec![Some(Value::Text("done".to_string()))])));
    assert_eq!(g.node(a).state, NodeState::Idle);
    assert_eq!(g.node(a).outputs[0].value, Some(Value::Text("done".to_string())));
    assert!(g.queue_node(a) && g.start_running(a));
    assert!(g.complete_running(a, s, Ok(vec![])));
    assert_eq!(g.node(a).state, NodeState::Error("wrong number of outputs".to_string()));
    assert!(g.queue_node(a) && g.start_running(a));
    assert!(g.complete_running(a, s, Err("boom".to_string())));
    assert_eq!(g.node(a).state, NodeState::Error("boom".to_string()));
}

#[test]
fn serials_increase_with_each_node() {
    let mut g = VisualGraph::new();
    let a = text_node(&mut g, 0, 0);
    let b = text_node(&mut g, 0, 0);
    assert_eq!(g.node(a).serial, 0);
    assert_eq!(g.node(b).serial, 1);
}

#[test]
fn removing_a_stale_index_keeps_the_focus() {
    let mut s = ApplicationState::new();
    let a = text_node(&mut s.graph, 0, 0);
    s.remove(a);
    s.currently_focused = Some(a);
    s.remove(a);
    assert_eq!(s.currently_focused, Some(a));
}
