//! When operations are installed: for each operation that composites are
//! built from, the conditions under which it succeeds, and what is then
//! known of its result.

use vstd::prelude::*;
use crate::attr::ValuesView;
use crate::descriptor::{constant_draft, lemma_constant_fault, lemma_simple_fault, plain_draft};
use crate::dtype::DataType;
use crate::error::Error;
use crate::graph::GraphView;
use crate::infer::{
    expand_shape, lemma_reshape_well_formed, reshape_shape, scalar_shape, static_rank,
    transpose_shape,
};
use crate::kind::OpKind;
use crate::laws::{law_concat, law_shape, law_unary, lemma_scalar_fault};
use crate::train::nn::{
    flat_sizes, flatten_model, inner_model, last_index_model, last_size_model, names_dimension, primitive_kind, restore_model, scaffold_model,
    softmax_model, swap_model, swap_pieces_model, target, unary_draft,
};
use crate::ops::array_ops::{
    concat_model, expand_dims_model, rank_model, reshape_model, scalar_draft, shape_model,
    slice_model, transpose_draft, transpose_model,
};
use crate::ops::math_ops::{range_model, sub_model};
use crate::ops::{operand_model, OperandView};
use crate::shape::{element_count, shape_well_formed, ShapeView};
use crate::tensor::{homogeneous, Tensor};
use crate::text::holds_nul;

verus! {

/// Whether `out` is what an operation did to the graph `g` and returned
/// when it was installed with at most `most` nodes: the graph after it
/// satisfies the invariant and grew from `g`, and the tensor that came back
/// belongs to it.
pub open spec fn installs(g: GraphView, out: (GraphView, Result<Tensor, Error>), most: int) -> bool {
    &&& out.0.wf()
    &&& out.1 is Ok
    &&& out.0.owns(out.1->Ok_0)
    &&& out.0.grows_from(g)
    &&& out.0.room() >= g.room() - most
}

/// An operation installed after another was installed after the graph
/// before both.
pub proof fn lemma_installs_after(
    g: GraphView,
    first: (GraphView, Result<Tensor, Error>),
    a: int,
    second: (GraphView, Result<Tensor, Error>),
    b: int,
)
    requires
        installs(g, first, a),
        installs(first.0, second, b),
    ensures
        installs(g, second, a + b),
{
    second.0.lemma_grows_transitive(first.0, g);
}

/// The data type of the tensor that an operand becomes.
pub open spec fn operand_type(operand: OperandView) -> DataType {
    match operand {
        OperandView::Tensor(t) => t.dtype,
        OperandView::Int32(_) | OperandView::Int32s(_) => DataType::Int32,
        OperandView::Int64(_) | OperandView::Int64s(_) => DataType::Int64,
    }
}

/// Whether an operand can become a tensor of the graph `g`: a tensor
/// belongs to the graph; a vector given in place has a length that fits a
/// size.
pub open spec fn operand_fits(g: GraphView, operand: OperandView) -> bool {
    match operand {
        OperandView::Tensor(t) => g.owns(t),
        OperandView::Int32s(v) => v.len() <= i64::MAX,
        OperandView::Int64s(v) => v.len() <= i64::MAX,
        _ => true,
    }
}

/// The constant of one 32-bit integer is installed under a name of the
/// scope's choice wherever there is room.
pub proof fn lemma_scalar_installs(g: GraphView, x: i32)
    requires
        g.wf(),
        g.room() >= 1,
    ensures
        installs(g, g.add(scalar_draft(x)), 1),
        g.add(scalar_draft(x)).1->Ok_0.dtype == DataType::Int32,
{
    lemma_scalar_fault(g, x);
    g.lemma_add_room(scalar_draft(x));
}

/// An operand that fits becomes a tensor of the graph under a name of the
/// scope's choice wherever there is room.
pub proof fn lemma_operand_installs(g: GraphView, operand: OperandView)
    requires
        g.wf(),
        g.room() >= 1,
        operand_fits(g, operand),
    ensures
        installs(g, operand_model(g, operand, Seq::empty()), 1),
        operand_model(g, operand, Seq::empty()).1->Ok_0.dtype == operand_type(operand),
{
    reveal(operand_model);
    let name = Seq::<char>::empty();
    match operand {
        OperandView::Tensor(t) => {
            g.lemma_grows_reflexive();
        },
        OperandView::Int32(x) => {
            lemma_scalar_installs(g, x);
        },
        OperandView::Int64(x) => {
            let values = ValuesView::Int64(seq![x]);
            lemma_constant_fault(g, values, Seq::empty(), name);
            g.lemma_add_room(constant_draft(values, Seq::empty(), name));
        },
        OperandView::Int32s(v) => {
            let values = ValuesView::Int32(v);
            let sizes = seq![v.len() as i64];
            lemma_vector_count(v.len());
            lemma_constant_fault(g, values, sizes, name);
            g.lemma_add_room(constant_draft(values, sizes, name));
        },
        OperandView::Int64s(v) => {
            let values = ValuesView::Int64(v);
            let sizes = seq![v.len() as i64];
            lemma_vector_count(v.len());
            lemma_constant_fault(g, values, sizes, name);
            g.lemma_add_room(constant_draft(values, sizes, name));
        },
    }
}

/// A vector has as many elements as its one size says.
pub proof fn lemma_vector_count(len: nat)
    requires
        len <= i64::MAX,
    ensures
        element_count(seq![len as i64]) == len,
{
    let sizes = seq![len as i64];
    assert(sizes.drop_last() =~= Seq::<i64>::empty());
    assert(element_count(Seq::<i64>::empty()) == 1);
}

/// Every one of `inputs` is a tensor of the graph where each of them
/// is.
pub proof fn lemma_owns_two(g: GraphView, a: Tensor, b: Tensor)
    requires
        g.owns(a),
        g.owns(b),
    ensures
        g.owns_all(seq![a, b]),
{
}

/// Every one of three tensors of the graph is a tensor of the graph.
pub proof fn lemma_owns_three(g: GraphView, a: Tensor, b: Tensor, c: Tensor)
    requires
        g.owns(a),
        g.owns(b),
        g.owns(c),
    ensures
        g.owns_all(seq![a, b, c]),
{
}

/// A node of kind `kind` that takes the single inputs `inputs`, all of the
/// graph, and of whose output the well-formed shape `shape` is stated, is
/// installed under a name of the scope's choice wherever there is room,
/// provided the kind takes that many inputs, no lists, and its outputs
/// have the type of its first input. The result has that type and the
/// shape stated; nothing is known of its elements.
pub proof fn lemma_plain_installs(g: GraphView, kind: OpKind, inputs: Seq<Tensor>, shape: ShapeView)
    requires
        g.wf(),
        g.room() >= 1,
        g.owns_all(inputs),
        inputs.len() == kind.spec_arity(),
        inputs.len() >= 1,
        kind.spec_lists() == 0,
        kind.spec_output_rule() == crate::kind::OutputRule::SameAsInput(0),
        shape_well_formed(shape),
    ensures
        installs(g, g.add(plain_draft(kind, Seq::empty(), inputs, shape)), 1),
        ({
            let (post, r) = g.add(plain_draft(kind, Seq::empty(), inputs, shape));
            &&& r->Ok_0.dtype == inputs[0].dtype
            &&& post.shape_of(r->Ok_0) == shape
            &&& post.value_of(r->Ok_0) is None
            &&& post.nodes.len() == g.nodes.len() + 1
            &&& post.nodes.last().kind == kind
        }),
{
    let draft = plain_draft(kind, Seq::empty(), inputs, shape);
    lemma_simple_fault(g, draft);
    g.lemma_add_room(draft);
}

/// Subtracting an operand that fits from a tensor of the graph is installed
/// under a name of the scope's choice wherever there is room for two nodes.
/// The difference has the data type of the tensor.
pub proof fn lemma_sub_installs(g: GraphView, x: Tensor, y: OperandView)
    requires
        g.wf(),
        g.room() >= 2,
        g.owns(x),
        operand_fits(g, y),
    ensures
        installs(g, sub_model(g, x, y, Seq::empty()), 2),
        sub_model(g, x, y, Seq::empty()).1->Ok_0.dtype == x.dtype,
{
    lemma_operand_installs(g, y);
    let first = operand_model(g, y, Seq::empty());
    let t = first.1->Ok_0;
    lemma_owns_two(first.0, x, t);
    lemma_plain_installs(first.0, OpKind::Sub, seq![x, t], None);
    lemma_installs_after(g, first, 1, sub_model(g, x, y, Seq::empty()), 1);
}

/// A range between operands that fit is installed under a name of the
/// scope's choice wherever there is room for four nodes. It has the data
/// type of its start, and nothing is known of its elements.
pub proof fn lemma_range_installs(
    g: GraphView,
    start: OperandView,
    limit: OperandView,
    delta: OperandView,
)
    requires
        g.wf(),
        g.room() >= 4,
        operand_fits(g, start),
        operand_fits(g, limit),
        operand_fits(g, delta),
    ensures
        installs(g, range_model(g, start, limit, delta, Seq::empty()), 4),
        ({
            let (post, r) = range_model(g, start, limit, delta, Seq::empty());
            &&& r->Ok_0.dtype == operand_type(start)
            &&& post.value_of(r->Ok_0) is None
        }),
{
    let name = Seq::<char>::empty();
    lemma_operand_installs(g, start);
    let a = operand_model(g, start, name);
    lemma_operand_installs(a.0, limit);
    let b = operand_model(a.0, limit, name);
    lemma_installs_after(g, a, 1, b, 1);
    lemma_operand_installs(b.0, delta);
    let c = operand_model(b.0, delta, name);
    lemma_installs_after(g, b, 2, c, 1);
    let (s, l, d) = (a.1->Ok_0, b.1->Ok_0, c.1->Ok_0);
    lemma_owns_three(c.0, s, l, d);
    let shape: ShapeView = Some(seq![None]);
    lemma_plain_installs(c.0, OpKind::Range, seq![s, l, d], shape);
    lemma_installs_after(g, c, 3, range_model(g, start, limit, delta, name), 1);
}

/// Inserting a dimension never states a negative size.
pub proof fn lemma_expand_well_formed(input: ShapeView, axis: int)
    requires
        shape_well_formed(input),
    ensures
        shape_well_formed(expand_shape(input, axis)),
{
    let out = expand_shape(input, axis);
    if out is Some {
        let d = input->0;
        let at = if axis >= 0 {
            axis
        } else {
            axis + d.len() + 1
        };
        assert forall|i: int| 0 <= i < out->0.len() implies (#[trigger] out->0[i] matches Some(v)
            ==> v >= 0) by {
            if i < at {
                assert(out->0[i] == d[i]);
            } else if i > at {
                assert(out->0[i] == d[i - 1]);
            }
        }
    }
}

/// Inserting a dimension into a tensor of the graph is installed under a
/// name of the scope's choice wherever there is room for two nodes. The
/// result has the data type of the tensor.
pub proof fn lemma_expand_installs(g: GraphView, tensor: Tensor, axis: i32)
    requires
        g.wf(),
        g.room() >= 2,
        g.owns(tensor),
    ensures
        installs(g, expand_dims_model(g, tensor, axis, Seq::empty()), 2),
        expand_dims_model(g, tensor, axis, Seq::empty()).1->Ok_0.dtype == tensor.dtype,
{
    lemma_scalar_installs(g, axis);
    let first = g.add(scalar_draft(axis));
    let at = first.1->Ok_0;
    g.lemma_wf();
    lemma_expand_well_formed(g.shape_of(tensor), axis as int);
    lemma_owns_two(first.0, tensor, at);
    lemma_plain_installs(
        first.0,
        OpKind::ExpandDims,
        seq![tensor, at],
        expand_shape(g.shape_of(tensor), axis as int),
    );
    lemma_installs_after(g, first, 1, expand_dims_model(g, tensor, axis, Seq::empty()), 1);
}

/// Slicing a tensor of the graph between operands that fit is installed
/// under a name of the scope's choice wherever there is room for three
/// nodes. The slice has the data type of the tensor.
pub proof fn lemma_slice_installs(g: GraphView, input: Tensor, begin: OperandView, size: OperandView)
    requires
        g.wf(),
        g.room() >= 3,
        g.owns(input),
        operand_fits(g, begin),
        operand_fits(g, size),
    ensures
        installs(g, slice_model(g, input, begin, size, Seq::empty()), 3),
        slice_model(g, input, begin, size, Seq::empty()).1->Ok_0.dtype == input.dtype,
{
    let name = Seq::<char>::empty();
    lemma_operand_installs(g, begin);
    let a = operand_model(g, begin, name);
    lemma_operand_installs(a.0, size);
    let b = operand_model(a.0, size, name);
    lemma_installs_after(g, a, 1, b, 1);
    let (bt, st) = (a.1->Ok_0, b.1->Ok_0);
    lemma_owns_three(b.0, input, bt, st);
    let shape = crate::infer::slice_shape(b.0.shape_of(input), b.0.value_of(bt), b.0.value_of(st));
    crate::infer::lemma_slice_well_formed(b.0.shape_of(input), b.0.value_of(bt), b.0.value_of(st));
    lemma_plain_installs(b.0, OpKind::Slice, seq![input, bt, st], shape);
    lemma_installs_after(g, b, 2, slice_model(g, input, begin, size, name), 1);
}

/// Reshaping a tensor of the graph to an operand that fits is installed
/// under a name of the scope's choice wherever there is room for two nodes.
/// The result has the data type of the tensor; where the target is a
/// tensor of the graph, no node but the reshape is installed.
pub proof fn lemma_reshape_installs(g: GraphView, tensor: Tensor, shape: OperandView)
    requires
        g.wf(),
        g.room() >= 2,
        g.owns(tensor),
        operand_fits(g, shape),
    ensures
        installs(g, reshape_model(g, tensor, shape, Seq::empty()), 2),
        ({
            let (post, r) = reshape_model(g, tensor, shape, Seq::empty());
            let (g1, r1) = operand_model(g, shape, Seq::empty());
            &&& r->Ok_0.dtype == tensor.dtype
            &&& post.shape_of(r->Ok_0) == reshape_shape(
                g1.shape_of(tensor),
                g1.value_of(r1->Ok_0),
                g1.shape_of(r1->Ok_0),
            )
            &&& post.nodes.last().kind == OpKind::Reshape
        }),
{
    let name = Seq::<char>::empty();
    lemma_operand_installs(g, shape);
    let a = operand_model(g, shape, name);
    let s = a.1->Ok_0;
    let hint = reshape_shape(a.0.shape_of(tensor), a.0.value_of(s), a.0.shape_of(s));
    lemma_reshape_well_formed(a.0.shape_of(tensor), a.0.value_of(s), a.0.shape_of(s));
    lemma_owns_two(a.0, tensor, s);
    lemma_plain_installs(a.0, OpKind::Reshape, seq![tensor, s], hint);
    lemma_installs_after(g, a, 1, reshape_model(g, tensor, shape, name), 1);
}

/// Asking for the rank of a tensor of the graph is installed under a name
/// of the scope's choice wherever there is room: as a constant where the
/// rank is known at build time, else as a node that computes it. The result
/// is a 32-bit scalar.
pub proof fn lemma_rank_installs(g: GraphView, input: Tensor)
    requires
        g.wf(),
        g.room() >= 1,
        g.owns(input),
    ensures
        installs(g, rank_model(g, input, Seq::empty()), 1),
        rank_model(g, input, Seq::empty()).1->Ok_0.dtype == DataType::Int32,
{
    reveal_strlit("Rank");
    let wanted = GraphView::scope_hint(Seq::empty(), "Rank"@);
    let e = g.entered(wanted);
    g.lemma_entered(wanted);
    e.lemma_grows_reflexive();
    g.lemma_scoped(wanted, e);
    match static_rank(g.shape_of(input)) {
        Some(n) => {
            lemma_scalar_installs(e, n);
            let inner = e.add(scalar_draft(n));
            g.lemma_scoped(wanted, inner.0);
        },
        None => {
            let outer = e.left();
            let draft = plain_draft(OpKind::Rank, Seq::empty(), seq![input], scalar_shape());
            lemma_simple_fault(outer, draft);
            outer.lemma_add_room(draft);
            outer.add(draft).0.lemma_grows_transitive(outer, g);
        },
    }
}

/// Permuting the dimensions never states a negative size.
pub proof fn lemma_transpose_well_formed(input: ShapeView, perm: Option<Seq<i64>>)
    requires
        shape_well_formed(input),
    ensures
        shape_well_formed(transpose_shape(input, perm)),
{
}

/// Transposing a tensor of the graph by a permutation that is a tensor of
/// the graph is installed in a scope of its own, named by the enclosing
/// scope, wherever there is room. The result has the data type of the
/// tensor; where the permutation is not known at build time, nothing is
/// known of the shape of the result.
pub proof fn lemma_transpose_installs(g: GraphView, a: Tensor, perm: Tensor)
    requires
        g.wf(),
        g.room() >= 1,
        g.owns(a),
        g.owns(perm),
    ensures
        installs(g, transpose_model(g, a, Some(OperandView::Tensor(perm)), Seq::empty()), 1),
        ({
            let (post, r) = transpose_model(g, a, Some(OperandView::Tensor(perm)), Seq::empty());
            &&& r->Ok_0.dtype == a.dtype
            &&& g.value_of(perm) is None ==> post.shape_of(r->Ok_0) is None
            &&& post.nodes.last().kind == OpKind::Transpose
        }),
{
    reveal_strlit("transpose");
    reveal(operand_model);
    let wanted = GraphView::scope_hint(Seq::empty(), "transpose"@);
    let e = g.entered(wanted);
    g.lemma_entered(wanted);
    e.lemma_grows_reflexive();
    g.lemma_scoped(wanted, e);
    e.lemma_wf();
    assert(e.slot_of(a).consistent());
    let shape = transpose_shape(e.shape_of(a), e.value_of(perm));
    lemma_transpose_well_formed(e.shape_of(a), e.value_of(perm));
    lemma_owns_two(e, a, perm);
    lemma_plain_installs(e, OpKind::Transpose, seq![a, perm], shape);
    let inner = e.add(transpose_draft(e, a, perm));
    g.lemma_scoped(wanted, inner.0);
}

/// The index of the last dimension is installed wherever there is room for
/// two nodes; it has the data type of the rank.
pub proof fn lemma_last_index_installs(g: GraphView, rk: Tensor)
    requires
        g.wf(),
        g.room() >= 2,
        g.owns(rk),
    ensures
        installs(g, last_index_model(g, rk), 2),
        last_index_model(g, rk).1->Ok_0.dtype == rk.dtype,
{
    reveal(operand_model);
    lemma_scalar_installs(g, 1);
    let first = g.add(scalar_draft(1));
    let one = first.1->Ok_0;
    lemma_owns_two(first.0, rk, one);
    lemma_plain_installs(first.0, OpKind::Sub, seq![rk, one], None);
    lemma_installs_after(g, first, 1, last_index_model(g, rk), 1);
}

/// The pieces of the swapping permutation are installed and concatenated
/// wherever there is room for thirteen nodes. Their concatenation is not
/// known at build time.
pub proof fn lemma_swap_pieces_install(g: GraphView, d: i32, last: Tensor)
    requires
        g.wf(),
        g.room() >= 13,
        g.owns(last),
        last.dtype == DataType::Int32,
        d < i32::MAX,
    ensures
        installs(g, swap_pieces_model(g, d, last), 13),
        swap_pieces_model(g, d, last).0.value_of(swap_pieces_model(g, d, last).1->Ok_0) is None,
{
    let name = Seq::<char>::empty();
    let zero = OperandView::Int32(0);
    let one = OperandView::Int32(1);
    lemma_range_installs(g, zero, OperandView::Int32(d), one);
    let a = range_model(g, zero, OperandView::Int32(d), one, name);
    lemma_expand_installs(a.0, last, 0);
    let b = expand_dims_model(a.0, last, 0, name);
    lemma_installs_after(g, a, 4, b, 2);
    let next = OperandView::Int32((d + 1) as i32);
    assert(b.0.owns(last));
    lemma_range_installs(b.0, next, OperandView::Tensor(last), one);
    let c = range_model(b.0, next, OperandView::Tensor(last), one, name);
    lemma_installs_after(g, b, 6, c, 4);
    let own = OperandView::Int32s(seq![d]);
    lemma_operand_installs(c.0, own);
    let e = operand_model(c.0, own, name);
    lemma_installs_after(g, c, 10, e, 1);
    let values = seq![a.1->Ok_0, b.1->Ok_0, c.1->Ok_0, e.1->Ok_0];
    assert(homogeneous(values));
    assert(e.0.owns_all(values)) by {
        assert(b.0.owns(a.1->Ok_0));
        assert(c.0.owns(a.1->Ok_0));
        assert(c.0.owns(b.1->Ok_0));
        assert forall|i: int| 0 <= i < values.len() implies e.0.owns(#[trigger] values[i]) by {
            if i == 0 {
                assert(e.0.owns(a.1->Ok_0));
            } else if i == 1 {
                assert(e.0.owns(b.1->Ok_0));
            } else if i == 2 {
                assert(e.0.owns(c.1->Ok_0));
            }
        }
    }
    assert(!holds_nul(name));
    law_concat(e.0, values, 0, name);
    lemma_installs_after(g, e, 11, concat_model(e.0, values, 0, name), 2);
}

/// Swapping a dimension of a tensor of the graph with the last is
/// installed wherever there is room for fourteen nodes. The result has the
/// data type of the tensor, and nothing is known of its shape.
pub proof fn lemma_swap_installs(
    g: GraphView,
    t: Tensor,
    d: i32,
    is_last: bool,
    rk: Tensor,
    last: Tensor,
)
    requires
        g.wf(),
        g.room() >= 14,
        g.owns(t),
        g.owns(rk),
        g.owns(last),
        last.dtype == DataType::Int32,
        d < i32::MAX,
    ensures
        installs(g, swap_model(g, t, d, is_last, rk, last, Seq::empty()), 14),
        ({
            let (post, r) = swap_model(g, t, d, is_last, rk, last, Seq::empty());
            &&& r->Ok_0.dtype == t.dtype
            &&& post.shape_of(r->Ok_0) is None
        }),
{
    let name = Seq::<char>::empty();
    if is_last {
        let zero = OperandView::Int32(0);
        let one = OperandView::Int32(1);
        lemma_range_installs(g, zero, OperandView::Tensor(rk), one);
        let a = range_model(g, zero, OperandView::Tensor(rk), one, name);
        lemma_transpose_installs(a.0, t, a.1->Ok_0);
        lemma_installs_after(
            g,
            a,
            4,
            transpose_model(a.0, t, Some(OperandView::Tensor(a.1->Ok_0)), name),
            1,
        );
    } else {
        lemma_swap_pieces_install(g, d, last);
        let a = swap_pieces_model(g, d, last);
        lemma_transpose_installs(a.0, t, a.1->Ok_0);
        lemma_installs_after(
            g,
            a,
            13,
            transpose_model(a.0, t, Some(OperandView::Tensor(a.1->Ok_0)), name),
            1,
        );
    }
}

/// Flattening a tensor of the graph is installed wherever there is room for
/// fourteen nodes. The result has the data type of the tensor.
pub proof fn lemma_flatten_installs(g: GraphView, logits: Tensor)
    requires
        g.wf(),
        g.room() >= 14,
        g.owns(logits),
    ensures
        installs(g, flatten_model(g, logits), 14),
        flatten_model(g, logits).1->Ok_0.dtype == logits.dtype,
{
    let name = Seq::<char>::empty();
    match flat_sizes(g.shape_of(logits)) {
        Some(sizes) => {
            lemma_reshape_installs(g, logits, OperandView::Int64s(sizes));
        },
        None => {
            lemma_rank_installs(g, logits);
            let a = rank_model(g, logits, name);
            law_shape(a.0, logits, None, name);
            let b = shape_model(a.0, logits, None, name);
            reveal(GraphView::add);
            a.0.lemma_add_room(crate::ops::array_ops::shape_draft(a.0, logits, None, name));
            lemma_installs_after(g, a, 1, b, 1);
            lemma_sub_installs(b.0, a.1->Ok_0, OperandView::Int32(1));
            let c = sub_model(b.0, a.1->Ok_0, OperandView::Int32(1), name);
            lemma_installs_after(g, b, 2, c, 2);
            lemma_expand_installs(c.0, c.1->Ok_0, 0);
            let e = expand_dims_model(c.0, c.1->Ok_0, 0, name);
            lemma_installs_after(g, c, 4, e, 2);
            lemma_last_size_installs(e.0, logits, b.1->Ok_0, e.1->Ok_0);
            lemma_installs_after(g, e, 6, last_size_model(e.0, logits, b.1->Ok_0, e.1->Ok_0), 8);
        },
    }
}

/// The second half of the flattening that is computed in the graph is
/// installed wherever there is room for eight nodes.
pub proof fn lemma_last_size_installs(g: GraphView, logits: Tensor, shp: Tensor, begin: Tensor)
    requires
        g.wf(),
        g.room() >= 8,
        g.owns(logits),
        g.owns(shp),
        g.owns(begin),
        shp.dtype == DataType::Int32,
    ensures
        installs(g, last_size_model(g, logits, shp, begin), 8),
        last_size_model(g, logits, shp, begin).1->Ok_0.dtype == logits.dtype,
{
    let name = Seq::<char>::empty();
    let ones = OperandView::Int32s(seq![1i32]);
    lemma_slice_installs(g, shp, OperandView::Tensor(begin), ones);
    let a = slice_model(g, shp, OperandView::Tensor(begin), ones, name);
    let wild = OperandView::Int32s(seq![-1i32]);
    lemma_operand_installs(a.0, wild);
    let b = operand_model(a.0, wild, name);
    lemma_installs_after(g, a, 3, b, 1);
    let values = seq![b.1->Ok_0, a.1->Ok_0];
    law_concat(b.0, values, 0, name);
    let c = concat_model(b.0, values, 0, name);
    lemma_installs_after(g, b, 4, c, 2);
    lemma_reshape_installs(c.0, logits, OperandView::Tensor(c.1->Ok_0));
    let e = reshape_model(c.0, logits, OperandView::Tensor(c.1->Ok_0), name);
    lemma_installs_after(g, c, 6, e, 2);
}

/// The last steps of the composite are installed wherever there is room
/// for sixteen nodes, whatever well-formed shape is asserted at the end:
/// nothing is known of the shape of the tensor that was swapped back, so
/// the assertion cannot contradict it. The result has the data type of the
/// tensor that is restored, and exactly the shape that was asserted.
pub proof fn lemma_restore_installs(
    g: GraphView,
    out: Tensor,
    shp: Tensor,
    d: i32,
    is_last: bool,
    rk: Tensor,
    last: Tensor,
    shape: ShapeView,
)
    requires
        g.wf(),
        g.room() >= 16,
        g.owns(out),
        g.owns(shp),
        g.owns(rk),
        g.owns(last),
        last.dtype == DataType::Int32,
        d < i32::MAX,
        shape_well_formed(shape),
    ensures
        ({
            let (post, r) = restore_model(g, out, shp, d, is_last, rk, last, Seq::empty(), shape);
            &&& post.wf()
            &&& r is Ok
            &&& post.owns(r->Ok_0)
            &&& r->Ok_0.dtype == out.dtype
            &&& post.shape_of(r->Ok_0) == shape
        }),
{
    let name = Seq::<char>::empty();
    lemma_reshape_installs(g, out, OperandView::Tensor(shp));
    let a = reshape_model(g, out, OperandView::Tensor(shp), name);
    let back = a.1->Ok_0;
    lemma_swap_installs(a.0, back, d, is_last, rk, last);
    let b = swap_model(a.0, back, d, is_last, rk, last, name);
    let result = b.1->Ok_0;
    b.0.lemma_shaped(result, shape);
}

/// The middle steps of the composite are installed wherever there is room
/// for thirty-two nodes. The result has the data type of the swapped
/// tensor, and exactly the shape that is asserted at the end.
pub proof fn lemma_inner_installs(
    g: GraphView,
    swapped: Tensor,
    is_log_softmax: bool,
    d: i32,
    is_last: bool,
    rk: Tensor,
    last: Tensor,
    shape: ShapeView,
)
    requires
        g.wf(),
        g.room() >= 32,
        g.owns(swapped),
        g.owns(rk),
        g.owns(last),
        last.dtype == DataType::Int32,
        d < i32::MAX,
        shape_well_formed(shape),
    ensures
        ({
            let (post, r) = inner_model(
                g,
                swapped,
                is_log_softmax,
                d,
                is_last,
                rk,
                last,
                Seq::empty(),
                shape,
            );
            &&& post.wf()
            &&& r is Ok
            &&& post.owns(r->Ok_0)
            &&& r->Ok_0.dtype == swapped.dtype
            &&& post.shape_of(r->Ok_0) == shape
        }),
{
    let name = Seq::<char>::empty();
    law_shape(g, swapped, None, name);
    reveal(GraphView::add);
    g.lemma_add_room(crate::ops::array_ops::shape_draft(g, swapped, None, name));
    let a = shape_model(g, swapped, None, name);
    let shp = a.1->Ok_0;
    lemma_flatten_installs(a.0, swapped);
    let b = flatten_model(a.0, swapped);
    lemma_installs_after(g, a, 1, b, 14);
    let flat = b.1->Ok_0;
    let kind = primitive_kind(is_log_softmax);
    law_unary(b.0, kind, flat, name);
    b.0.lemma_add_room(unary_draft(b.0, kind, flat, name));
    let c = b.0.add(unary_draft(b.0, kind, flat, name));
    lemma_installs_after(g, b, 15, c, 1);
    let out = c.1->Ok_0;
    lemma_restore_installs(c.0, out, shp, d, is_last, rk, last, shape);
}

/// The composite is installed wherever there is room for forty-nine nodes.
/// The result has the data type of the tensor that it is computed on, and
/// exactly its shape.
pub proof fn lemma_scaffold_installs(
    g: GraphView,
    logits: Tensor,
    is_log_softmax: bool,
    d: i32,
    is_last: bool,
)
    requires
        g.wf(),
        g.room() >= 49,
        g.owns(logits),
        d < i32::MAX,
    ensures
        ({
            let (post, r) = scaffold_model(g, logits, is_log_softmax, d, is_last, Seq::empty());
            &&& post.wf()
            &&& r is Ok
            &&& post.owns(r->Ok_0)
            &&& r->Ok_0.dtype == logits.dtype
            &&& post.shape_of(r->Ok_0) == g.shape_of(logits)
        }),
{
    let name = Seq::<char>::empty();
    g.lemma_wf();
    lemma_rank_installs(g, logits);
    let a = rank_model(g, logits, name);
    let rk = a.1->Ok_0;
    lemma_last_index_installs(a.0, rk);
    let b = last_index_model(a.0, rk);
    lemma_installs_after(g, a, 1, b, 2);
    let last = b.1->Ok_0;
    lemma_swap_installs(b.0, logits, d, is_last, rk, last);
    let c = swap_model(b.0, logits, d, is_last, rk, last, name);
    lemma_installs_after(g, b, 3, c, 14);
    lemma_inner_installs(c.0, c.1->Ok_0, is_log_softmax, d, is_last, rk, last, g.shape_of(logits));
}

/// Softmax, or its logarithm, of a tensor of the graph whose rank is known
/// at build time, along a dimension that the tensor has, is installed
/// under names of the scope's choice wherever there is room for forty-nine
/// nodes. The result has the data type of the tensor, and exactly what is
/// known of the shape of the tensor is known of the shape of the result.
pub proof fn law_softmax_installs(g: GraphView, logits: Tensor, is_log_softmax: bool, dim: i32)
    requires
        g.wf(),
        g.room() >= 49,
        static_rank(g.shape_of(logits)) is Some,
        names_dimension(dim, static_rank(g.shape_of(logits))->0),
    ensures
        ({
            let (post, r) = softmax_model(g, logits, is_log_softmax, dim, Seq::empty());
            &&& post.wf()
            &&& r is Ok
            &&& post.owns(r->Ok_0)
            &&& r->Ok_0.dtype == logits.dtype
            &&& post.shape_of(r->Ok_0) == g.shape_of(logits)
        }),
{
    let name = Seq::<char>::empty();
    let n = static_rank(g.shape_of(logits))->0;
    if n == 2 && target(dim, n) == 1 {
        law_unary(g, primitive_kind(is_log_softmax), logits, name);
    } else {
        lemma_scaffold_installs(g, logits, is_log_softmax, target(dim, n), target(dim, n) == n - 1);
    }
}

} // verus!
