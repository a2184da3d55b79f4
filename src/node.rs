use vstd::prelude::*;
use crate::value::{Value, ValueType, ValueView};

verus! {

/// The declared name and type of an input or output slot.
#[derive(Clone, Debug, PartialEq)]
pub struct IoDefinition {
    pub name: String,
    pub ty: ValueType,
}

/// An input slot: its declaration and the value currently bound to it.
#[derive(Clone, Debug, PartialEq)]
pub struct NodeInput {
    pub definition: IoDefinition,
    pub value: Value,
}

/// An output slot: its declaration and the value last produced, if any.
#[derive(Clone, Debug, PartialEq)]
pub struct NodeOutput {
    pub definition: IoDefinition,
    pub value: Option<Value>,
}

/// Where a node stands in its execution.
#[derive(Clone, Debug, PartialEq)]
pub enum NodeState {
    Idle,
    Queued,
    Running,
    Error(String),
}

/// The position of a node on the canvas.
#[derive(Clone, Copy, Debug, PartialEq, Eq, Structural)]
pub struct Position {
    pub x: i64,
    pub y: i64,
}

/// The input slot an edge writes to, with the type it carries.
#[derive(Clone, Copy, Debug, PartialEq, Eq, Structural)]
pub struct Connection {
    pub index: usize,
    pub ty: ValueType,
}

/// A connection from an output slot of the producer (`start`) to an input
/// slot of the consumer (`end`).
#[derive(Clone, Copy, Debug, PartialEq, Eq, Structural)]
pub struct Edge {
    pub start: usize,
    pub end: Connection,
}

impl Edge {
    pub fn new(start: usize, end: Connection) -> (r: Edge)
        ensures
            r == (Edge { start, end }),
    {
        Edge { start, end }
    }
}

/// One computation unit placed in the graph.
#[derive(Clone, Debug, PartialEq)]
pub struct Node {
    pub inputs: Vec<NodeInput>,
    pub outputs: Vec<NodeOutput>,
    pub state: NodeState,
    pub position: Position,
    pub width: u32,
    pub height: u32,
    /// The number the graph gave this node when it was created; no two
    /// nodes created by one graph share it, so that an event naming a
    /// removed node does not reach a later node at the same index.
    pub serial: u64,
}

impl IoDefinition {
    /// A copy of this declaration.
    pub fn duplicate(&self) -> (r: IoDefinition)
        ensures
            r == *self,
    {
        IoDefinition { name: self.name.clone(), ty: self.ty }
    }
}

impl NodeState {
    /// Holds while the node waits to run or runs. A failed node is not
    /// busy: its error is shown, and it does not hold back the nodes that
    /// depend on it.
    pub open spec fn is_busy(&self) -> bool {
        self is Queued || self is Running
    }
}

impl Node {
    /// The declared type of output slot `i`, if there is such a slot.
    pub open spec fn spec_output_type(&self, i: int) -> Option<ValueType> {
        if 0 <= i < self.outputs@.len() {
            Some(self.outputs@[i].definition.ty)
        } else {
            None
        }
    }

    /// The declared type of input slot `i`, if there is such a slot.
    pub open spec fn spec_input_type(&self, i: int) -> Option<ValueType> {
        if 0 <= i < self.inputs@.len() {
            Some(self.inputs@[i].definition.ty)
        } else {
            None
        }
    }

    /// The value output slot `i` holds, if it has produced one.
    pub open spec fn output_view(&self, i: int) -> Option<ValueView> {
        match self.outputs@[i].value {
            Some(v) => Some(v@),
            None => None,
        }
    }

    pub fn output_type(&self, index: usize) -> (r: Option<ValueType>)
        ensures
            r == self.spec_output_type(index as int),
    {
        if index < self.outputs.len() {
            Some(self.outputs[index].definition.ty)
        } else {
            None
        }
    }

    pub fn input_type(&self, index: usize) -> (r: Option<ValueType>)
        ensures
            r == self.spec_input_type(index as int),
    {
        if index < self.inputs.len() {
            Some(self.inputs[index].definition.ty)
        } else {
            None
        }
    }
}

} // verus!
