//! Symbolic tensor values.

use vstd::prelude::*;
use vstd::std_specs::cmp::PartialEqSpecImpl;
use crate::dtype::DataType;
use crate::registry::NodeIdent;

verus! {

/// One output of a node: the node's identity, the output's position, and the
/// data type of its elements. A tensor never refers to a backend node
/// directly, so it can be made before the backend knows the node.
#[derive(Clone, Copy, Debug)]
pub struct Tensor {
    /// The identity of the producing node.
    pub ident: NodeIdent,
    /// The position of the output among the node's outputs.
    pub index: usize,
    /// The data type of the elements.
    pub dtype: DataType,
}

impl PartialEq for Tensor {
    /// Two tensors are equal when they are the same output of the same node.
    fn eq(&self, other: &Tensor) -> (same: bool) {
        self.ident == other.ident && self.index == other.index
    }
}

impl PartialEqSpecImpl for Tensor {
    open spec fn obeys_eq_spec() -> bool {
        true
    }

    open spec fn eq_spec(&self, other: &Tensor) -> bool {
        self.ident == other.ident && self.index == other.index
    }
}

impl Eq for Tensor {

}

/// Whether the tensors of `group` share one data type.
pub open spec fn homogeneous(group: Seq<Tensor>) -> bool {
    forall|i: int| 0 <= i < group.len() ==> (#[trigger] group[i]).dtype == group[0].dtype
}

/// Tells whether the tensors of `group` share one data type.
pub fn is_homogeneous(group: &Vec<Tensor>) -> (yes: bool)
    ensures
        yes == homogeneous(group@),
{
    let mut i: usize = 1;
    if group.len() <= 1 {
        return true;
    }
    while i < group.len()
        invariant
            1 <= i <= group.len(),
            forall|j: int| 0 <= j < i ==> (#[trigger] group@[j]).dtype == group@[0].dtype,
        decreases group.len() - i,
    {
        if group[i].dtype != group[0].dtype {
            return false;
        }
        i += 1;
    }
    true
}

} // verus!
