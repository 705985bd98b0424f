//! A builder of symbolic dataflow graphs: typed, shape-aware tensor values
//! composed under hierarchical naming scopes, and turned into the ordered
//! calls that a graph-execution backend expects.

pub mod attr;
pub mod backend;
pub mod descriptor;
pub mod dtype;
pub mod error;
pub mod graph;
pub mod infer;
pub mod installs;
pub mod kind;
pub mod laws;
pub mod ops;
pub mod prelude;
pub mod registry;
pub mod scope;
pub mod shape;
pub mod tensor;
pub mod text;
pub mod train;

pub use crate::error::Error;
