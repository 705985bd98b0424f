//! What holds of the library as a whole, proved from the functions that
//! state what each operation does.

use vstd::prelude::*;
use crate::attr::ValuesView;
use crate::descriptor::{
    constant_draft, lemma_constant_fault, lemma_simple_fault, making_fault, plain_draft, uniform,
    DescriptorView, DraftView, InputListView,
};
use crate::dtype::DataType;
use crate::error::Error;
use crate::graph::GraphView;
use crate::registry::NodeIdent;
use crate::infer::{
    concat_shape, gather_shape, gather_value, lemma_concat_well_formed, lemma_reshape_exact,
    lemma_squeezed_well_formed, reshape_shape, scalar_shape, shape_of_shape, squeeze_shape,
    static_rank, value_of_shape, value_of_size,
};
use crate::kind::{OpKind, OutputRule};
use crate::ops::array_ops::{
    concat_draft, concat_model, gather_model, lemma_reshape_dtype, rank_model, rank_of,
    reshape_model, scalar_draft, shape_model, shape_type, shapes_of, size_draft, squeeze_draft,
};
use crate::train::nn::{primitive_kind, softmax_model, unary_draft};
use crate::ops::{operand_model, OperandView};
use crate::shape::{
    admits, compatible, element_count, exact_shape, fully_known, known_sizes, merged, refines,
    shape_well_formed, ShapeView,
};
use crate::tensor::{homogeneous, Tensor};
use crate::text::holds_nul;

verus! {

/// A node with an input list whose members do not share one data type is
/// refused with `InputTypeMismatch`, whatever else is asked for, and the
/// graph stays as it was: no identity is issued, no name is taken, and no
/// call is written down for the backend.
pub proof fn law_mixed_list_refused(g: GraphView, draft: DraftView)
    requires
        !uniform(draft.lists),
    ensures
        g.add(draft) == (g, Err::<Tensor, Error>(Error::InputTypeMismatch)),
{
    reveal(GraphView::add);
}

/// Describing an operation with an input list whose members do not share
/// one data type fails with `InputTypeMismatch`, whatever the graph holds:
/// no description of it exists that could be installed.
pub proof fn law_mixed_description_refused(
    g: GraphView,
    kind: OpKind,
    inputs: Seq<Tensor>,
    lists: Seq<InputListView>,
    name: Seq<char>,
    declared: Option<DataType>,
)
    requires
        !uniform(lists),
    ensures
        making_fault(g, kind, inputs, lists, name, declared) == Some(Error::InputTypeMismatch),
{
}

/// An identity is installed at most once: after a description was
/// installed, every description under the same identity is refused with
/// `DuplicateIdentity`.
pub proof fn law_installed_once(g: GraphView, d: DescriptorView, again: DescriptorView)
    requires
        g.wf(),
        g.nodes.len() < usize::MAX,
        d.valid(),
        g.install_fault(d) is None,
        again.ident == d.ident,
    ensures
        g.installed(d).install_fault(again) == Some(Error::DuplicateIdentity),
        g.install(d).0.install(again) == (
            g.installed(d),
            Err::<Seq<Tensor>, Error>(Error::DuplicateIdentity),
        ),
{
}

/// An identity is bound at most once: once the backend has answered for a
/// node, its identity resolves to the backend node and does not wait for
/// an answer any more.
pub proof fn law_bound_once(g: GraphView, id: NodeIdent, node: u64)
    requires
        g.wf(),
        g.pending(id),
    ensures
        !g.bound(id, node).pending(id),
        g.bound(id, node).registry.binding(id) is Some,
        g.bound(id, node).registry.binding(id)->0.node == node,
{
    g.lemma_bound(id, node);
}

/// Concatenating tensors that do not share one data type is refused with
/// `InputTypeMismatch`, and the graph stays as it was: not even the
/// constant of the axis is installed.
pub proof fn law_concat_mixed_refused(g: GraphView, values: Seq<Tensor>, axis: i32, name: Seq<char>)
    requires
        !homogeneous(values),
    ensures
        concat_model(g, values, axis, name) == (g, Err::<Tensor, Error>(Error::InputTypeMismatch)),
{
}

/// Installing the constant of one 32-bit integer under a name of the
/// scope's choice never fails for a fault of the constant.
pub proof fn lemma_scalar_fault(g: GraphView, x: i32)
    ensures
        scalar_draft(x).fault(g) is None,
{
    let values = ValuesView::Int32(seq![x]);
    let sizes = Seq::<i64>::empty();
    lemma_constant_fault(g, values, sizes, Seq::empty());
}

/// Where the rank of a tensor is known at build time, asking for its rank
/// installs exactly one node, a constant, and the value of that constant is
/// the rank of every tensor that fits what is known of the shape: it is
/// what a node that computes the rank when the graph runs would give. The
/// scope is left as it was entered.
pub proof fn law_rank_shortcut(g: GraphView, input: Tensor, name: Seq<char>, sizes: Seq<i64>)
    requires
        g.wf(),
        g.room() >= 1,
        !holds_nul(GraphView::scope_hint(name, "Rank"@)),
        static_rank(g.shape_of(input)) is Some,
        admits(g.shape_of(input), sizes),
    ensures
        ({
            let (post, r) = rank_model(g, input, name);
            &&& post.wf()
            &&& r is Ok
            &&& post.owns(r->Ok_0)
            &&& r->Ok_0.dtype == DataType::Int32
            &&& post.shape_of(r->Ok_0) == scalar_shape()
            &&& post.value_of(r->Ok_0) == Some(seq![sizes.len() as i64])
            &&& post.nodes.len() == g.nodes.len() + 1
            &&& post.nodes.last().kind == OpKind::Const
            &&& post.prefix == g.prefix
            &&& post.control == g.control
            &&& post.frames == g.frames
        }),
{
    let wanted = GraphView::scope_hint(name, "Rank"@);
    let g1 = g.entered(wanted);
    let n = static_rank(g.shape_of(input))->0;
    let draft = scalar_draft(n);
    g.lemma_entered(wanted);
    lemma_scalar_fault(g1, n);
    g1.lemma_add_room(draft);
    let (g2, r2) = g1.add(draft);
    g2.lemma_left();
    g.lemma_entered_left(g2, wanted);
}

/// What turning integers given in place into a tensor does to a graph with
/// room for a node: the invariant holds after it, the graph grew, and on
/// success the tensor belongs to the graph. A vector of 64-bit integers is
/// known by its elements.
pub proof fn lemma_operand(g: GraphView, operand: OperandView, name: Seq<char>)
    requires
        g.wf(),
        g.room() >= 1,
    ensures
        operand_model(g, operand, name).0.wf(),
        operand_model(g, operand, name).0.grows_from(g),
        operand_model(g, operand, name).0.room() >= g.room() - 1,
        operand_model(g, operand, name).1 matches Ok(t) ==> {
            let post = operand_model(g, operand, name).0;
            &&& operand is Tensor || post.owns(t)
            &&& operand matches OperandView::Int64s(v) ==> post.value_of(t) == Some(v)
        },
{
    reveal(operand_model);
    match operand {
        OperandView::Tensor(t) => {
            g.lemma_grows_reflexive();
        },
        OperandView::Int32(x) => {
            g.lemma_add_room(constant_draft(ValuesView::Int32(seq![x]), Seq::empty(), name));
        },
        OperandView::Int64(x) => {
            g.lemma_add_room(constant_draft(ValuesView::Int64(seq![x]), Seq::empty(), name));
        },
        OperandView::Int32s(v) => {
            if v.len() <= i64::MAX {
                g.lemma_add_room(
                    constant_draft(ValuesView::Int32(v), seq![v.len() as i64], name),
                );
            } else {
                g.lemma_grows_reflexive();
            }
        },
        OperandView::Int64s(v) => {
            if v.len() <= i64::MAX {
                g.lemma_add_room(
                    constant_draft(ValuesView::Int64(v), seq![v.len() as i64], name),
                );
            } else {
                g.lemma_grows_reflexive();
            }
        },
    }
}

/// What reshaping does to a graph with room for two nodes: the invariant
/// holds after it and the graph grew. On success the result belongs to the
/// graph and has the data type of the input; where the target was given in
/// place as sizes, without a wildcard, these are the shape of the result.
pub proof fn lemma_reshape(g: GraphView, tensor: Tensor, shape: OperandView, name: Seq<char>)
    requires
        g.wf(),
        g.room() >= 2,
    ensures
        reshape_model(g, tensor, shape, name).0.wf(),
        reshape_model(g, tensor, shape, name).0.grows_from(g),
        reshape_model(g, tensor, shape, name).0.room() >= g.room() - 2,
        reshape_model(g, tensor, shape, name).1 matches Ok(t) ==> {
            let post = reshape_model(g, tensor, shape, name).0;
            &&& post.owns(t)
            &&& t.dtype == tensor.dtype
            &&& (shape matches OperandView::Int64s(v) && forall|i: int|
                0 <= i < v.len() ==> v[i] >= 0) ==> post.shape_of(t) == exact_shape(
                shape->Int64s_0,
            )
        },
{
    lemma_operand(g, shape, Seq::empty());
    lemma_reshape_dtype(g, tensor, shape, name);
    let (g1, r1) = operand_model(g, shape, Seq::empty());
    if r1 is Ok {
        let s = r1->Ok_0;
        let hint = reshape_shape(g1.shape_of(tensor), g1.value_of(s), g1.shape_of(s));
        let draft = plain_draft(OpKind::Reshape, name, seq![tensor, s], hint);
        g1.lemma_add_room(draft);
        let (g2, r2) = g1.add(draft);
        g2.lemma_grows_transitive(g1, g);
        if shape is Int64s && r2 is Ok {
            let v = shape->Int64s_0;
            if forall|i: int| 0 <= i < v.len() ==> v[i] >= 0 {
                lemma_reshape_exact(g1.shape_of(tensor), v, g1.shape_of(s));
            }
        }
    }
}

/// Reshaping a tensor whose sizes are all known to any shape, and the
/// result back to those sizes, gives a tensor of the shape and the data
/// type of the first: wherever both reshapes are installed.
pub proof fn law_reshape_round_trip(
    g: GraphView,
    x: Tensor,
    new_shape: OperandView,
    first: Seq<char>,
    second: Seq<char>,
)
    requires
        g.wf(),
        g.room() >= 4,
        g.owns(x),
        fully_known(g.shape_of(x)),
    ensures
        ({
            let (g1, r1) = reshape_model(g, x, new_shape, first);
            r1 matches Ok(y) ==> {
                let (g2, r2) = reshape_model(
                    g1,
                    y,
                    OperandView::Int64s(known_sizes(g.shape_of(x))),
                    second,
                );
                r2 matches Ok(z) ==> {
                    &&& g2.owns(z)
                    &&& g2.shape_of(z) == g.shape_of(x)
                    &&& g2.shape_of(z) == g2.shape_of(x)
                    &&& z.dtype == x.dtype
                }
            }
        }),
{
    let initial = known_sizes(g.shape_of(x));
    g.lemma_wf();
    lemma_reshape(g, x, new_shape, first);
    let (g1, r1) = reshape_model(g, x, new_shape, first);
    if r1 is Ok {
        let y = r1->Ok_0;
        lemma_reshape(g1, y, OperandView::Int64s(initial), second);
        let (g2, r2) = reshape_model(g1, y, OperandView::Int64s(initial), second);
        g2.lemma_grows_transitive(g1, g);
    }
}

/// No two nodes of a graph have the same name, nor the same identity.
/// Every operation of the library keeps the invariant of graphs, so however
/// many nodes are created, with or without names of the caller's choice,
/// their names differ.
pub proof fn law_names_distinct(g: GraphView, p: int, q: int)
    requires
        g.wf(),
        0 <= p < g.nodes.len(),
        0 <= q < g.nodes.len(),
        p != q,
    ensures
        g.nodes[p].name != g.nodes[q].name,
        g.nodes[p].ident != g.nodes[q].ident,
{
    g.lemma_wf();
}

/// A node that leaves the choice of its name to the scope is never refused
/// for its name: the name that the scope chooses is not in use, it is the
/// prefix and the default name where that is free and else the first free
/// candidate with a number, and the counter for that default name moves
/// past the number.
pub proof fn law_chosen_name_free(g: GraphView, draft: DraftView)
    requires
        g.wf(),
        g.room() >= 1,
        draft.name.len() == 0,
        draft.fault(g) is None,
    ensures
        ({
            let base = g.prefix + g.default_name(draft.kind, draft.inputs);
            let post = g.add(draft).0;
            &&& !g.used.contains(post.nodes.last().name)
            &&& post.nodes.last().name == crate::text::numbered(base, g.free_number(base))
            &&& g.free_number(base) >= g.counter(base)
            &&& post.counter(base) == g.free_number(base) + 1
            &&& post.used.contains(post.nodes.last().name)
        }),
{
    reveal(GraphView::add);
    let base = g.prefix + g.default_name(draft.kind, draft.inputs);
    g.lemma_with_free_name(base);
    g.lemma_add_room(draft);
    g.lemma_issued();
}

/// Whether the name `name` can be given to a node in the current scope of
/// `g`: it holds no NUL character and, unless it is empty and so leaves the
/// choice to the scope, it is not in use under the prefix.
pub open spec fn name_free(g: GraphView, name: Seq<char>) -> bool {
    !holds_nul(name) && (name.len() == 0 || !g.used.contains(g.prefix + name))
}

/// A node that works on each element of its one input is installed
/// whenever the input is a tensor of the graph and the name can be given.
/// The result has the data type and the shape of the input.
pub proof fn law_unary(g: GraphView, kind: OpKind, input: Tensor, name: Seq<char>)
    requires
        g.wf(),
        g.room() >= 1,
        kind.spec_arity() == 1,
        kind.spec_lists() == 0,
        kind.spec_output_rule() == OutputRule::SameAsInput(0),
    ensures
        ({
            let (post, r) = g.add(unary_draft(g, kind, input, name));
            &&& post.wf()
            &&& r is Ok <==> g.owns(input) && name_free(g, name)
            &&& r matches Ok(t) ==> {
                &&& post.owns(t)
                &&& t.dtype == input.dtype
                &&& post.shape_of(t) == g.shape_of(input)
                &&& post.nodes.len() == g.nodes.len() + 1
                &&& post.nodes.last().kind == kind
            }
            &&& r is Err ==> post == g
        }),
{
    let draft = unary_draft(g, kind, input, name);
    g.lemma_wf();
    lemma_simple_fault(g, draft);
    g.lemma_add_room(draft);
    g.lemma_add(draft);
}

/// Concatenating tensors of one data type that are all tensors of the
/// graph installs two nodes, the constant of the axis and the
/// concatenation, whenever the name can be given and is not the name that
/// the constant gets. The result has the data type of the tensors and the
/// shape that the rule for concatenation gives.
pub proof fn law_concat(g: GraphView, values: Seq<Tensor>, axis: i32, name: Seq<char>)
    requires
        g.wf(),
        g.room() >= 2,
        values.len() > 0,
        homogeneous(values),
        g.owns_all(values),
        name_free(g, name),
        name.len() == 0 || g.prefix + name != g.free_name(
            g.prefix + OpKind::Const.spec_backend_name(),
        ),
    ensures
        ({
            let (post, r) = concat_model(g, values, axis, name);
            &&& post.wf()
            &&& r is Ok
            &&& post.owns(r->Ok_0)
            &&& r->Ok_0.dtype == values[0].dtype
            &&& post.shape_of(r->Ok_0) == concat_shape(shapes_of(g, values), axis as int)
            &&& post.value_of(r->Ok_0) is None
            &&& post.room() >= g.room() - 2
            &&& post.nodes.len() == g.nodes.len() + 2
            &&& post.nodes[g.nodes.len() as int].kind == OpKind::Const
            &&& post.nodes.last().kind == OpKind::ConcatV2
            &&& post.grows_from(g)
        }),
{
    reveal(GraphView::add);
    lemma_scalar_fault(g, axis);
    g.lemma_add_room(scalar_draft(axis));
    let (g1, r1) = g.add(scalar_draft(axis));
    let at = r1->Ok_0;
    let draft = concat_draft(g, values, at, axis, name);
    g.lemma_wf();
    lemma_concat_well_formed(shapes_of(g, values), axis as int);
    g.lemma_issued();
    g1.lemma_add_room(draft);
    let (g2, r2) = g1.add(draft);
    g2.lemma_grows_transitive(g1, g);
}

/// Gathering from a tensor of the graph at indices of the graph that are
/// 32-bit or 64-bit integers installs one node whenever the name can be
/// given. The result has the data type of the tensor gathered from and the
/// shape that the rule for gathering gives; where the elements of both
/// tensors are known at build time, so are those of the result.
pub proof fn law_gather(g: GraphView, params: Tensor, indices: Tensor, name: Seq<char>)
    requires
        g.wf(),
        g.room() >= 1,
        indices.dtype.indexes(),
        g.owns(params),
        g.owns(indices),
        name_free(g, name),
    ensures
        ({
            let (post, r) = gather_model(g, params, indices, name);
            &&& post.wf()
            &&& r is Ok
            &&& post.owns(r->Ok_0)
            &&& r->Ok_0.dtype == params.dtype
            &&& post.shape_of(r->Ok_0) == gather_shape(g.shape_of(params), g.shape_of(indices))
            &&& post.value_of(r->Ok_0) == gather_value(
                g.value_of(params),
                rank_of(g.shape_of(params)),
                g.value_of(indices),
            )
            &&& post.nodes.len() == g.nodes.len() + 1
            &&& post.nodes.last().kind == OpKind::Gather
        }),
{
    let draft = crate::ops::array_ops::gather_draft(g, params, indices, name);
    g.lemma_wf();
    let p = g.slot_of(params);
    let ix = g.slot_of(indices);
    let shape = gather_shape(p.shape, ix.shape);
    assert(shape_well_formed(shape));
    lemma_simple_fault(g, draft);
    g.lemma_add_room(draft);
}

/// Taking the number of elements of a tensor of the graph installs one
/// node whenever the name can be given. The result is a 32-bit scalar;
/// where every size of the tensor is known and their product fits 32 bits,
/// the product is known as the value of the result.
pub proof fn law_size(g: GraphView, input: Tensor, name: Seq<char>)
    requires
        g.wf(),
        g.room() >= 1,
        g.owns(input),
        name_free(g, name),
    ensures
        ({
            let (post, r) = g.add(size_draft(g, input, name));
            &&& post.wf()
            &&& r is Ok
            &&& post.owns(r->Ok_0)
            &&& r->Ok_0.dtype == DataType::Int32
            &&& post.shape_of(r->Ok_0) == scalar_shape()
            &&& post.value_of(r->Ok_0) == value_of_size(g.shape_of(input))
            &&& fully_known(g.shape_of(input)) && element_count(known_sizes(g.shape_of(input)))
                <= i32::MAX ==> post.value_of(r->Ok_0) == Some(
                seq![element_count(known_sizes(g.shape_of(input))) as i64],
            )
        }),
{
    let draft = size_draft(g, input, name);
    g.lemma_wf();
    lemma_simple_fault(g, draft);
    g.lemma_add_room(draft);
}

/// Taking the shape of a tensor of the graph as 32-bit or 64-bit integers
/// installs one node whenever the name can be given. The result is a
/// vector of the type asked for, with one entry for each dimension where
/// their number is known; where every size is known and fits the type, the
/// sizes are known as the value of the result.
pub proof fn law_shape(g: GraphView, tensor: Tensor, out_type: Option<DataType>, name: Seq<char>)
    requires
        g.wf(),
        g.room() >= 1,
        g.owns(tensor),
        out_type is Some ==> out_type->0.indexes(),
        name_free(g, name),
    ensures
        ({
            let (post, r) = shape_model(g, tensor, out_type, name);
            &&& post.wf()
            &&& r is Ok
            &&& post.owns(r->Ok_0)
            &&& r->Ok_0.dtype == shape_type(out_type)
            &&& post.shape_of(r->Ok_0) == shape_of_shape(g.shape_of(tensor))
            &&& post.value_of(r->Ok_0) == value_of_shape(g.shape_of(tensor), shape_type(out_type))
        }),
{
    reveal(GraphView::add);
    reveal_strlit("out_type");
    let draft = crate::ops::array_ops::shape_draft(g, tensor, out_type, name);
    g.lemma_wf();
    let input = g.shape_of(tensor);
    let shape = shape_of_shape(input);
    let value = value_of_shape(input, shape_type(out_type));
    let none = Seq::<crate::attr::AttributeView>::empty();
    assert(crate::descriptor::attributes_fault(none) is None);
    if out_type is Some {
        assert(draft.attributes.drop_last() =~= none);
    }
    if value is Some {
        assert(known_sizes(shape) =~= seq![input->0.len() as i64]);
        assert(seq![input->0.len() as i64].drop_last() =~= Seq::<i64>::empty());
        assert(element_count(Seq::<i64>::empty()) == 1);
    }
    g.lemma_add_room(draft);
}

/// Softmax, or its logarithm, along the last dimension of a matrix is
/// exactly one node, the primitive, under the name that was asked for:
/// nothing is computed, transposed or reshaped around it. It is installed
/// whenever the name can be given, and has the data type and the shape of
/// the matrix.
pub proof fn law_softmax_direct(
    g: GraphView,
    logits: Tensor,
    is_log_softmax: bool,
    dim: i32,
    name: Seq<char>,
)
    requires
        g.wf(),
        g.room() >= 1,
        static_rank(g.shape_of(logits)) == Some(2i32),
        dim == -1 || dim == 1,
        name_free(g, name),
    ensures
        ({
            let (post, r) = softmax_model(g, logits, is_log_softmax, dim, name);
            &&& post.wf()
            &&& r is Ok
            &&& post.owns(r->Ok_0)
            &&& r->Ok_0.dtype == logits.dtype
            &&& post.shape_of(r->Ok_0) == g.shape_of(logits)
            &&& post.nodes.len() == g.nodes.len() + 1
            &&& post.nodes.last().kind == primitive_kind(is_log_softmax)
            &&& post.nodes.last().name == g.resolved_name(
                primitive_kind(is_log_softmax),
                seq![logits],
                crate::descriptor::chosen(name),
            )
        }),
{
    let kind = primitive_kind(is_log_softmax);
    law_unary(g, kind, logits, name);
    g.lemma_add(unary_draft(g, kind, logits, name));
    g.lemma_added(unary_draft(g, kind, logits, name));
}

/// Asserting a shape refines what is known and invalidates nothing: a
/// concrete shape fits the merge of what was known and what is asserted
/// exactly when it fits both.
pub proof fn law_merge_keeps_what_fits(a: ShapeView, b: ShapeView, sizes: Seq<i64>)
    requires
        compatible(a, b),
    ensures
        admits(merged(a, b), sizes) <==> admits(a, sizes) && admits(b, sizes),
{
    if a is Some && b is Some {
        let x = a->0;
        let y = b->0;
        let m = merged(a, b)->0;
        if admits(merged(a, b), sizes) {
            assert forall|i: int| 0 <= i < x.len() implies (#[trigger] x[i] matches Some(d) ==> d
                == sizes[i]) by {
                assert(m[i] == if x[i] is Some {
                    x[i]
                } else {
                    y[i]
                });
            }
            assert forall|i: int| 0 <= i < y.len() implies (#[trigger] y[i] matches Some(d) ==> d
                == sizes[i]) by {
                assert(m[i] == if x[i] is Some {
                    x[i]
                } else {
                    y[i]
                });
            }
        }
    }
}

/// A shape that knows everything that a fully known shape knows is that
/// shape: where every size of the input of a composite is known, the shape
/// of its result, which knows all that is known of the input, equals the
/// shape of the input.
pub proof fn law_refined_known_shape(a: ShapeView, b: ShapeView)
    requires
        refines(a, b),
        fully_known(b),
    ensures
        a == b,
{
}

/// Squeezing a tensor of the graph installs one node whenever the name can
/// be given. The result has the data type of the tensor and the shape that
/// the rule for squeezing gives.
pub proof fn law_squeeze(g: GraphView, tensor: Tensor, axis: Option<Seq<i64>>, name: Seq<char>)
    requires
        g.wf(),
        g.room() >= 1,
        g.owns(tensor),
        name_free(g, name),
    ensures
        ({
            let (post, r) = g.add(squeeze_draft(g, tensor, axis, name));
            &&& post.wf()
            &&& r is Ok
            &&& post.owns(r->Ok_0)
            &&& r->Ok_0.dtype == tensor.dtype
            &&& post.shape_of(r->Ok_0) == squeeze_shape(g.shape_of(tensor), axis)
        }),
{
    reveal(GraphView::add);
    reveal_strlit("squeeze_dims");
    let draft = squeeze_draft(g, tensor, axis, name);
    g.lemma_wf();
    let input = g.shape_of(tensor);
    if input is Some {
        lemma_squeezed_well_formed(input->0, axis, input->0.len());
    }
    let none = Seq::<crate::attr::AttributeView>::empty();
    assert(crate::descriptor::attributes_fault(none) is None);
    if axis is Some {
        assert(draft.attributes.drop_last() =~= none);
    }
    g.lemma_add_room(draft);
}

} // verus!
