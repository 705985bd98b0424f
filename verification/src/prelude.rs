//! The names that most users of the library need.

pub use crate::attr::{AttrValue, Attribute, Values};
pub use crate::backend::{BackendCall, Outcome};
pub use crate::descriptor::{Descriptor, Draft, InputList};
pub use crate::dtype::DataType;
pub use crate::error::{Error, Stage, Status};
pub use crate::kind::OpKind;
pub use crate::ops::Operand;
pub use crate::registry::NodeIdent;
pub use crate::scope::Scope;
pub use crate::shape::ShapeHint;
pub use crate::tensor::Tensor;
