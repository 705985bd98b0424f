//! Operations on tensors, each a thin consumer of the scope.

pub mod array_ops;
pub mod math_ops;

use vstd::prelude::*;
use crate::attr::{Values, ValuesView};
use crate::dtype::DataType;
use crate::shape::ShapeView;
use crate::descriptor::constant_draft;
use crate::error::Error;
use crate::graph::GraphView;
use crate::scope::Scope;
use crate::tensor::Tensor;

verus! {

/// An argument of an operation that is either a tensor of the graph or
/// integers given in place, which become a constant of the graph.
#[derive(Debug)]
pub enum Operand {
    /// A tensor of the graph.
    Tensor(Tensor),
    /// A 32-bit scalar.
    Int32(i32),
    /// A 64-bit scalar.
    Int64(i64),
    /// A vector of 32-bit integers.
    Int32s(Vec<i32>),
    /// A vector of 64-bit integers.
    Int64s(Vec<i64>),
}

/// What an [`Operand`] stands for.
pub enum OperandView {
    Tensor(Tensor),
    Int32(i32),
    Int64(i64),
    Int32s(Seq<i32>),
    Int64s(Seq<i64>),
}

impl View for Operand {
    type V = OperandView;

    open spec fn view(&self) -> OperandView {
        match self {
            Operand::Tensor(t) => OperandView::Tensor(*t),
            Operand::Int32(x) => OperandView::Int32(*x),
            Operand::Int64(x) => OperandView::Int64(*x),
            Operand::Int32s(v) => OperandView::Int32s(v@),
            Operand::Int64s(v) => OperandView::Int64s(v@),
        }
    }
}

/// What a vector of `len` integers given in place becomes: a constant of
/// one dimension, or `MalformedShape` where the length does not fit a size.
pub open spec fn vector_model(g: GraphView, values: ValuesView, len: nat, name: Seq<char>) -> (
    GraphView,
    Result<Tensor, Error>,
) {
    if len > i64::MAX {
        (g, Err(Error::MalformedShape))
    } else {
        g.add(constant_draft(values, seq![len as i64], name))
    }
}

/// What turning an operand into a tensor does and returns: a tensor as it
/// is, with the graph unchanged; integers as a constant installed under the
/// name `name`, a scalar for one integer and a vector for several.
#[verifier::opaque]
pub open spec fn operand_model(g: GraphView, operand: OperandView, name: Seq<char>) -> (
    GraphView,
    Result<Tensor, Error>,
) {
    match operand {
        OperandView::Tensor(t) => (g, Ok(t)),
        OperandView::Int32(x) => g.add(
            constant_draft(ValuesView::Int32(seq![x]), Seq::empty(), name),
        ),
        OperandView::Int64(x) => g.add(
            constant_draft(ValuesView::Int64(seq![x]), Seq::empty(), name),
        ),
        OperandView::Int32s(v) => vector_model(g, ValuesView::Int32(v), v.len(), name),
        OperandView::Int64s(v) => vector_model(g, ValuesView::Int64(v), v.len(), name),
    }
}

/// The data type of the tensor that an operand becomes.
pub open spec fn operand_type(operand: OperandView) -> DataType {
    match operand {
        OperandView::Tensor(t) => t.dtype,
        OperandView::Int32(_) | OperandView::Int32s(_) => DataType::Int32,
        OperandView::Int64(_) | OperandView::Int64s(_) => DataType::Int64,
    }
}

/// The elements of the tensor that an operand becomes, where they are known
/// at build time.
pub open spec fn operand_value(g: GraphView, operand: OperandView) -> Option<Seq<i64>> {
    match operand {
        OperandView::Tensor(t) => g.value_of(t),
        OperandView::Int32(x) => Some(seq![x as i64]),
        OperandView::Int64(x) => Some(seq![x]),
        OperandView::Int32s(v) => Some(Seq::new(v.len(), |i: int| v[i] as i64)),
        OperandView::Int64s(v) => Some(v),
    }
}

/// What is known of the shape of the tensor that an operand becomes.
pub open spec fn operand_shape(g: GraphView, operand: OperandView) -> ShapeView {
    match operand {
        OperandView::Tensor(t) => g.shape_of(t),
        OperandView::Int32(_) | OperandView::Int64(_) => Some(Seq::empty()),
        OperandView::Int32s(v) => Some(seq![Some(v.len() as i64)]),
        OperandView::Int64s(v) => Some(seq![Some(v.len() as i64)]),
    }
}

/// The one-element vector of `x`.
pub fn single<T>(x: T) -> (v: Vec<T>)
    ensures
        v@ == seq![x],
{
    let mut v: Vec<T> = Vec::new();
    v.push(x);
    v
}

/// The two-element vector of `x` and `y`.
pub fn pair<T>(x: T, y: T) -> (v: Vec<T>)
    ensures
        v@ == seq![x, y],
{
    let mut v: Vec<T> = Vec::new();
    v.push(x);
    v.push(y);
    v
}

/// The three-element vector of `x`, `y` and `z`.
pub fn triple<T>(x: T, y: T, z: T) -> (v: Vec<T>)
    ensures
        v@ == seq![x, y, z],
{
    let mut v: Vec<T> = Vec::new();
    v.push(x);
    v.push(y);
    v.push(z);
    v
}

impl Operand {
    /// Turns the operand into a tensor of the graph of `scope`, installing
    /// a constant under the name `name` where the operand is given in
    /// place.
    pub fn into_tensor(self, scope: &mut Scope, name: &str) -> (r: Result<Tensor, Error>)
        requires
            old(scope).wf(),
        ensures
            final(scope).wf(),
            (final(scope)@, r) == operand_model(old(scope)@, self@, name@),
            final(scope)@.grows_from(old(scope)@),
            self@ matches OperandView::Tensor(t) ==> r == Ok::<Tensor, Error>(t) && final(scope)@
                == old(scope)@,
            r matches Ok(t) ==> {
                &&& t.dtype == operand_type(self@)
                &&& self@ is Tensor || final(scope)@.owns(t)
                &&& final(scope)@.value_of(t) == operand_value(old(scope)@, self@)
                &&& final(scope)@.shape_of(t) == operand_shape(old(scope)@, self@)
            },
            r is Err ==> final(scope)@ == old(scope)@,
    {
        proof {
            reveal(operand_model);
            old(scope).lemma_wf();
            old(scope)@.lemma_grows_reflexive();
        }
        match self {
            Operand::Tensor(t) => Ok(t),
            Operand::Int32(x) => scope.constant(Values::Int32(single(x)), Vec::new(), name),
            Operand::Int64(x) => scope.constant(Values::Int64(single(x)), Vec::new(), name),
            Operand::Int32s(v) => {
                if (v.len() as u64) > (i64::MAX as u64) {
                    return Err(Error::MalformedShape);
                }
                let sizes = single(v.len() as i64);
                scope.constant(Values::Int32(v), sizes, name)
            },
            Operand::Int64s(v) => {
                if (v.len() as u64) > (i64::MAX as u64) {
                    return Err(Error::MalformedShape);
                }
                let sizes = single(v.len() as i64);
                scope.constant(Values::Int64(v), sizes, name)
            },
        }
    }
}

} // verus!
