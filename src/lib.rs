//! A dataflow graph of computation units for a visual pipeline editor: the
//! node and edge store, the readiness check and input propagation that
//! schedule nodes, the connection rules that keep each input slot fed by at
//! most one type-compatible edge, and the drag interaction that rewires the
//! graph. Shapes for constrained generation are built in `structure`.

pub mod value;
pub mod node;
pub mod store;
pub mod graph;
pub mod structure;
pub mod state;
