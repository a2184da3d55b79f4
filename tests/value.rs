use floneum::graph::VisualGraph;
use floneum::state::ApplicationState;
use floneum::value::{Value, ValueType};

#[test]
fn empty_values_match_their_type() {
    assert_eq!(ValueType::Number.empty_value(), Value::Number(0));
    assert_eq!(ValueType::Text.empty_value(), Value::Text(String::new()));
    assert_eq!(ValueType::Boolean.empty_value(), Value::Boolean(false));
    assert_eq!(ValueType::Embedding.empty_value(), Value::Embedding(vec![]));
    assert_eq!(ValueType::Structure.empty_value(), Value::Structure(0));
    for t in [ValueType::Number, ValueType::Text, ValueType::Boolean, ValueType::Embedding, ValueType::Structure] {
        assert_eq!(t.empty_value().ty(), t);
    }
}

#[test]
fn duplicate_keeps_the_value() {
    let v = Value::Embedding(vec![1, 2, 3]);
    assert_eq!(v.duplicate(), v);
    let t = Value::Text("abc".to_string());
    assert_eq!(t.duplicate(), t);
    assert_eq!(t.ty(), ValueType::Text);
}

#[test]
fn defaults_are_empty() {
    let g = VisualGraph::default();
    assert!(g.node_ids().is_empty());
    assert!(g.edge_list().is_empty());
    assert_eq!(g.currently_dragging(), None);
    let s = ApplicationState::default();
    assert_eq!(s.currently_focused, None);
}
