//! The operation kinds, each defined once.
//!
//! A kind states the backend's name for it, how many single inputs and input
//! lists it takes, how the data type of its outputs is found, how many
//! outputs it has, and how a node of it is named when the caller gives no
//! name. Everything else about a node is uniform: the same description, the
//! same naming, the same installation.

use vstd::prelude::*;
use crate::dtype::DataType;

verus! {

/// How the data type of a node's outputs is found.
#[derive(Clone, Copy, Debug, PartialEq, Eq, Structural)]
pub enum OutputRule {
    /// The type of the single input at this position.
    SameAsInput(usize),
    /// The type shared by the members of the input list at this position
    /// among the lists.
    SameAsList(usize),
    /// Always this type.
    Fixed(DataType),
    /// The type that the description declares.
    Declared,
}

/// How a node is named when the caller gives no name.
#[derive(Clone, Copy, Debug, PartialEq, Eq, Structural)]
pub enum NameRule {
    /// After the kind's own backend name.
    Own,
    /// After the backend name of the kind that produced the single input at
    /// this position.
    Input(usize),
}

/// An operation kind.
#[derive(Clone, Copy, Debug, PartialEq, Eq, Structural, Hash)]
pub enum OpKind {
    Const,
    Identity,
    Placeholder,
    ConcatV2,
    ExpandDims,
    Fill,
    Gather,
    Rank,
    Reshape,
    Shape,
    Size,
    Squeeze,
    Slice,
    Transpose,
    Where,
    Sub,
    Range,
    BiasAdd,
    LogSoftmax,
    Relu,
    Softmax,
}

impl OpKind {
    /// The name under which the backend knows the kind.
    pub open spec fn spec_backend_name(self) -> Seq<char> {
        match self {
            OpKind::Const => "Const"@,
            OpKind::Identity => "Identity"@,
            OpKind::Placeholder => "Placeholder"@,
            OpKind::ConcatV2 => "ConcatV2"@,
            OpKind::ExpandDims => "ExpandDims"@,
            OpKind::Fill => "Fill"@,
            OpKind::Gather => "Gather"@,
            OpKind::Rank => "Rank"@,
            OpKind::Reshape => "Reshape"@,
            OpKind::Shape => "Shape"@,
            OpKind::Size => "Size"@,
            OpKind::Squeeze => "Squeeze"@,
            OpKind::Slice => "Slice"@,
            OpKind::Transpose => "Transpose"@,
            OpKind::Where => "Where"@,
            OpKind::Sub => "Sub"@,
            OpKind::Range => "Range"@,
            OpKind::BiasAdd => "BiasAdd"@,
            OpKind::LogSoftmax => "LogSoftmax"@,
            OpKind::Relu => "Relu"@,
            OpKind::Softmax => "Softmax"@,
        }
    }

    /// The number of single inputs that a node of the kind takes.
    pub open spec fn spec_arity(self) -> nat {
        match self {
            OpKind::Const | OpKind::Placeholder => 0,
            OpKind::Identity
            | OpKind::ConcatV2
            | OpKind::Rank
            | OpKind::Shape
            | OpKind::Size
            | OpKind::Squeeze
            | OpKind::Where
            | OpKind::LogSoftmax
            | OpKind::Relu
            | OpKind::Softmax => 1,
            OpKind::ExpandDims
            | OpKind::Fill
            | OpKind::Gather
            | OpKind::Reshape
            | OpKind::Transpose
            | OpKind::Sub
            | OpKind::BiasAdd => 2,
            OpKind::Slice | OpKind::Range => 3,
        }
    }

    /// The number of input lists that a node of the kind takes.
    pub open spec fn spec_lists(self) -> nat {
        match self {
            OpKind::ConcatV2 => 1,
            _ => 0,
        }
    }

    /// The number of outputs that a node of the kind has.
    pub open spec fn spec_outputs(self) -> nat {
        1
    }

    /// How the data type of the outputs is found.
    pub open spec fn spec_output_rule(self) -> OutputRule {
        match self {
            OpKind::Const | OpKind::Placeholder | OpKind::Shape => OutputRule::Declared,
            OpKind::ConcatV2 => OutputRule::SameAsList(0),
            OpKind::Fill => OutputRule::SameAsInput(1),
            OpKind::Rank | OpKind::Size => OutputRule::Fixed(DataType::Int32),
            OpKind::Where => OutputRule::Fixed(DataType::Int64),
            _ => OutputRule::SameAsInput(0),
        }
    }

    /// How a node of the kind is named when the caller gives no name.
    pub open spec fn spec_name_rule(self) -> NameRule {
        match self {
            OpKind::Identity => NameRule::Input(0),
            _ => NameRule::Own,
        }
    }

    /// The name under which the backend knows the kind.
    pub fn backend_name(self) -> (name: &'static str)
        ensures
            name@ == self.spec_backend_name(),
    {
        match self {
            OpKind::Const => "Const",
            OpKind::Identity => "Identity",
            OpKind::Placeholder => "Placeholder",
            OpKind::ConcatV2 => "ConcatV2",
            OpKind::ExpandDims => "ExpandDims",
            OpKind::Fill => "Fill",
            OpKind::Gather => "Gather",
            OpKind::Rank => "Rank",
            OpKind::Reshape => "Reshape",
            OpKind::Shape => "Shape",
            OpKind::Size => "Size",
            OpKind::Squeeze => "Squeeze",
            OpKind::Slice => "Slice",
            OpKind::Transpose => "Transpose",
            OpKind::Where => "Where",
            OpKind::Sub => "Sub",
            OpKind::Range => "Range",
            OpKind::BiasAdd => "BiasAdd",
            OpKind::LogSoftmax => "LogSoftmax",
            OpKind::Relu => "Relu",
            OpKind::Softmax => "Softmax",
        }
    }

    /// The number of single inputs that a node of the kind takes.
    pub fn arity(self) -> (n: usize)
        ensures
            n == self.spec_arity(),
    {
        match self {
            OpKind::Const | OpKind::Placeholder => 0,
            OpKind::Identity
            | OpKind::ConcatV2
            | OpKind::Rank
            | OpKind::Shape
            | OpKind::Size
            | OpKind::Squeeze
            | OpKind::Where
            | OpKind::LogSoftmax
            | OpKind::Relu
            | OpKind::Softmax => 1,
            OpKind::ExpandDims
            | OpKind::Fill
            | OpKind::Gather
            | OpKind::Reshape
            | OpKind::Transpose
            | OpKind::Sub
            | OpKind::BiasAdd => 2,
            OpKind::Slice | OpKind::Range => 3,
        }
    }

    /// The number of input lists that a node of the kind takes.
    pub fn lists(self) -> (n: usize)
        ensures
            n == self.spec_lists(),
    {
        match self {
            OpKind::ConcatV2 => 1,
            _ => 0,
        }
    }

    /// The number of outputs that a node of the kind has.
    pub fn outputs(self) -> (n: usize)
        ensures
            n == self.spec_outputs(),
    {
        1
    }

    /// How the data type of the outputs is found.
    pub fn output_rule(self) -> (rule: OutputRule)
        ensures
            rule == self.spec_output_rule(),
    {
        match self {
            OpKind::Const | OpKind::Placeholder | OpKind::Shape => OutputRule::Declared,
            OpKind::ConcatV2 => OutputRule::SameAsList(0),
            OpKind::Fill => OutputRule::SameAsInput(1),
            OpKind::Rank | OpKind::Size => OutputRule::Fixed(DataType::Int32),
            OpKind::Where => OutputRule::Fixed(DataType::Int64),
            _ => OutputRule::SameAsInput(0),
        }
    }

    /// How a node of the kind is named when the caller gives no name.
    pub fn digest_name_rule(self) -> (rule: NameRule)
        ensures
            rule == self.spec_name_rule(),
    {
        match self {
            OpKind::Identity => NameRule::Input(0),
            _ => NameRule::Own,
        }
    }

    /// A rule that takes after an input names an input that a node of the
    /// kind has.
    pub proof fn lemma_rules_in_range(self)
        ensures
            self.spec_output_rule() matches OutputRule::SameAsInput(n) ==> n < self.spec_arity(),
            self.spec_output_rule() matches OutputRule::SameAsList(n) ==> n < self.spec_lists(),
            self.spec_name_rule() matches NameRule::Input(n) ==> n < self.spec_arity(),
    {
    }
}

} // verus!
