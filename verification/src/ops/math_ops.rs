//! Arithmetic on tensors.

use vstd::prelude::*;
use crate::descriptor::{plain_draft, Draft};
use crate::error::Error;
use crate::graph::GraphView;
use crate::kind::OpKind;
use crate::ops::{operand_model, pair, triple, Operand, OperandView};
use crate::scope::Scope;
use crate::tensor::Tensor;

verus! {

/// What [`sub`] does and returns: the subtrahend becomes a tensor, then one
/// node subtracts it from `x`. Nothing is claimed of the shape of the
/// difference.
pub open spec fn sub_model(g: GraphView, x: Tensor, y: OperandView, name: Seq<char>) -> (
    GraphView,
    Result<Tensor, Error>,
) {
    let (g1, r1) = operand_model(g, y, Seq::empty());
    match r1 {
        Err(e) => (g1, Err(e)),
        Ok(t) => g1.add(plain_draft(OpKind::Sub, name, seq![x, t], None)),
    }
}

/// Returns `x - y`, element by element.
pub fn sub(scope: &mut Scope, x: Tensor, y: Operand, name: &str) -> (r: Result<Tensor, Error>)
    requires
        old(scope).wf(),
    ensures
        final(scope).wf(),
        (final(scope)@, r) == sub_model(old(scope)@, x, y@, name@),
        final(scope)@.grows_from(old(scope)@),
        r matches Ok(t) ==> {
            &&& final(scope)@.knows(t, x.dtype, None)
            &&& final(scope)@.value_of(t) is None
        },
{
    proof {
        reveal_strlit("");
        assert(""@ =~= Seq::<char>::empty());
    }
    let t = match y.into_tensor(scope, "") {
        Ok(t) => t,
        Err(e) => {
            return Err(e);
        },
    };
    let ghost mid = scope@;
    let r = scope.add(
        Draft::plain(OpKind::Sub, name, pair(x, t), crate::shape::ShapeHint::unknown()),
    );
    proof {
        scope@.lemma_grows_transitive(mid, old(scope)@);
    }
    r
}

/// What [`range`] does and returns: the start, the limit and the step
/// become tensors, in this order, then one node makes the sequence, a
/// vector of unknown length.
pub open spec fn range_model(
    g: GraphView,
    start: OperandView,
    limit: OperandView,
    delta: OperandView,
    name: Seq<char>,
) -> (GraphView, Result<Tensor, Error>) {
    let (g1, r1) = operand_model(g, start, Seq::empty());
    match r1 {
        Err(e) => (g1, Err(e)),
        Ok(s) => {
            let (g2, r2) = operand_model(g1, limit, Seq::empty());
            match r2 {
                Err(e) => (g2, Err(e)),
                Ok(l) => {
                    let (g3, r3) = operand_model(g2, delta, Seq::empty());
                    match r3 {
                        Err(e) => (g3, Err(e)),
                        Ok(d) => g3.add(
                            plain_draft(OpKind::Range, name, seq![s, l, d], Some(seq![None])),
                        ),
                    }
                },
            }
        },
    }
}

/// Creates the sequence of numbers that begins at `start` and extends by
/// increments of `delta` up to but not including `limit`.
pub fn range(scope: &mut Scope, start: Operand, limit: Operand, delta: Operand, name: &str) -> (r:
    Result<Tensor, Error>)
    requires
        old(scope).wf(),
    ensures
        final(scope).wf(),
        (final(scope)@, r) == range_model(old(scope)@, start@, limit@, delta@, name@),
        final(scope)@.grows_from(old(scope)@),
        r matches Ok(t) ==> {
            &&& final(scope)@.knows(t, crate::ops::operand_type(start@), Some(seq![None]))
            &&& final(scope)@.value_of(t) is None
        },
{
    proof {
        reveal_strlit("");
        assert(""@ =~= Seq::<char>::empty());
    }
    let s = match start.into_tensor(scope, "") {
        Ok(t) => t,
        Err(e) => {
            return Err(e);
        },
    };
    let ghost first = scope@;
    let l = match limit.into_tensor(scope, "") {
        Ok(t) => t,
        Err(e) => {
            return Err(e);
        },
    };
    let ghost second = scope@;
    let d = match delta.into_tensor(scope, "") {
        Ok(t) => t,
        Err(e) => {
            proof {
                second.lemma_grows_transitive(first, old(scope)@);
            }
            return Err(e);
        },
    };
    let ghost third = scope@;
    let shape = crate::shape::ShapeHint::of_rank(1);
    assert(shape@->0 =~= seq![None::<i64>]);
    let r = scope.add(Draft::plain(OpKind::Range, name, triple(s, l, d), shape));
    proof {
        second.lemma_grows_transitive(first, old(scope)@);
        third.lemma_grows_transitive(second, old(scope)@);
        scope@.lemma_grows_transitive(third, old(scope)@);
    }
    r
}

} // verus!
