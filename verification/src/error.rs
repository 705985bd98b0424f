//! The failures that building a graph can report.

use vstd::prelude::*;

verus! {

/// What the backend said when it refused to finish a node.
#[derive(Debug, PartialEq, Eq)]
pub struct Status {
    /// The backend's numeric error code.
    pub code: u32,
    /// The backend's message, as it gave it.
    pub message: String,
}

/// The steps of a composite operation, for telling where a failure arose.
#[derive(Clone, Copy, Debug, PartialEq, Eq, Structural)]
pub enum Stage {
    /// While the rank of the input was computed.
    RankComputation,
    /// While the target dimension was moved to the end.
    AxisSwap,
    /// While the shape after the swap was recorded.
    ShapeQuery,
    /// While the leading dimensions were flattened.
    Flatten,
    /// While the two-dimensional primitive was installed.
    Primitive,
    /// While the result was brought back to the input's layout.
    Restore,
    /// While the input's shape was asserted on the result.
    ShapeAssertion,
}

/// Why a node could not be described or installed.
#[derive(Debug, PartialEq, Eq)]
pub enum Error {
    /// The backend refused to finish the node; its status is passed on as
    /// it came.
    TFError(Status),
    /// A name or a string attribute holds a NUL character, which the
    /// backend cannot represent.
    NulError,
    /// The members of one input list do not share a data type.
    InputTypeMismatch,
    /// The number of inputs, input lists or attribute values is not what
    /// the operation takes.
    ArgumentCount,
    /// The operation does not take tensors of the data type it was given.
    UnsupportedType,
    /// A shape has a negative size.
    MalformedShape,
    /// The values of a constant do not fit its declared type and shape.
    TypeMismatch,
    /// A shape was asserted that contradicts what is already known.
    ShapeMismatch,
    /// The graph already has a node of that name.
    DuplicateName,
    /// The identity was installed before, or was never issued by this
    /// registry.
    DuplicateIdentity,
    /// A tensor does not belong to this graph.
    UnknownTensor,
    /// The combination of arguments has no graph form yet.
    Unimplemented,
    /// The rank of a tensor must be known at build time and is not.
    UnknownRank,
    /// A dimension was named that the tensor does not have.
    AxisOutOfRange,
    /// A data format is neither `NHWC` nor `NCHW`.
    UnsupportedFormat,
    /// A failure described in words.
    Msg(String),
    /// A failure inside a composite operation, with the stage it arose in.
    During(Stage, Box<Error>),
}

} // verus!
