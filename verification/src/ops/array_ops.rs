//! Array operations.

use vstd::prelude::*;
use crate::attr::{AttrValue, AttrValueView, Attribute, AttributeView, Values, ValuesView};
use crate::descriptor::{
    constant_draft, plain_draft, value_view, Draft, DraftView, InputList, InputListView,
};
use crate::dtype::DataType;
use crate::error::Error;
use crate::graph::GraphView;
use crate::infer::{
    concat_shape, expand_shape, fill_shape, gather_shape, gather_value, infer_concat,
    infer_expand, infer_fill, infer_gather_shape, infer_gather_value, infer_rank, infer_reshape,
    infer_shape_of_shape, infer_slice, infer_squeeze, infer_transpose, infer_value_of_shape,
    infer_value_of_size, reshape_shape, scalar_shape, shape_of_shape, shape_views, slice_shape,
    squeeze_shape, static_rank, transpose_shape, value_of_shape, value_of_size,
};
use crate::kind::OpKind;
use crate::ops::math_ops::{range, range_model, sub_model};
use crate::ops::{operand_model, pair, single, triple, Operand, OperandView};
use crate::scope::Scope;
use crate::shape::{ShapeHint, ShapeView};
use crate::tensor::{homogeneous, is_homogeneous, Tensor};

verus! {

/// The attribute that holds the one data type `t` under `key`.
pub open spec fn type_attribute(key: Seq<char>, t: DataType) -> AttributeView {
    AttributeView { key, list: false, value: AttrValueView::Type(seq![t]) }
}

/// Makes the attribute that holds the one data type `t` under `key`.
pub fn make_type_attribute(key: &str, t: DataType) -> (a: Attribute)
    ensures
        a@ == type_attribute(key@, t),
{
    Attribute { key: String::from_str(key), list: false, value: AttrValue::Type(single(t)) }
}

/// The shapes that the graph knows of `tensors`, in order.
pub open spec fn shapes_of(g: GraphView, tensors: Seq<Tensor>) -> Seq<ShapeView> {
    Seq::new(tensors.len(), |i: int| g.shape_of(tensors[i]))
}

/// Reads the shapes that the graph knows of `tensors`, in order.
pub fn read_shapes(scope: &Scope, tensors: &Vec<Tensor>) -> (shapes: Vec<ShapeHint>)
    ensures
        shape_views(shapes@) == shapes_of(scope@, tensors@),
{
    let mut shapes: Vec<ShapeHint> = Vec::new();
    let mut i: usize = 0;
    while i < tensors.len()
        invariant
            i <= tensors.len(),
            shapes@.len() == i,
            forall|j: int| 0 <= j < i ==> (#[trigger] shapes@[j])@ == scope@.shape_of(tensors@[j]),
        decreases tensors.len() - i,
    {
        shapes.push(scope.shape_hint(tensors[i]));
        i += 1;
    }
    shapes
}

/// The rank of a shape, where it is known.
pub open spec fn rank_of(s: ShapeView) -> Option<nat> {
    match s {
        Some(d) => Some(d.len()),
        None => None,
    }
}

/// The draft of the constant that holds the one 32-bit integer `x`, named
/// by the scope.
pub open spec fn scalar_draft(x: i32) -> DraftView {
    constant_draft(ValuesView::Int32(seq![x]), Seq::empty(), Seq::empty())
}

/// Installs the constant that holds the one 32-bit integer `x` under a name
/// of the scope's choice.
pub fn scalar(scope: &mut Scope, x: i32) -> (r: Result<Tensor, Error>)
    requires
        old(scope).wf(),
    ensures
        final(scope).wf(),
        (final(scope)@, r) == old(scope)@.add(scalar_draft(x)),
        final(scope)@.grows_from(old(scope)@),
        r matches Ok(t) ==> {
            &&& final(scope)@.knows(t, DataType::Int32, scalar_shape())
            &&& final(scope)@.value_of(t) == Some(seq![x as i64])
        },
        r is Err ==> final(scope)@ == old(scope)@,
{
    proof {
        assert(crate::shape::exact_shape(Seq::<i64>::empty())->0 =~= scalar_shape()->0);
        assert(ValuesView::Int32(seq![x]).integers()->0 =~= seq![x as i64]);
    }
    proof {
        reveal_strlit("");
        assert(""@ =~= Seq::<char>::empty());
    }
    scope.constant(Values::Int32(single(x)), Vec::new(), "")
}

/// What [`constant`] does and returns: one constant node.
pub open spec fn constant_model(g: GraphView, values: ValuesView, sizes: Seq<i64>, name: Seq<char>) -> (
    GraphView,
    Result<Tensor, Error>,
) {
    g.add(constant_draft(values, sizes, name))
}

/// Creates a constant tensor with the elements `values` and the sizes
/// `sizes`.
pub fn constant(scope: &mut Scope, values: Values, sizes: Vec<i64>, name: &str) -> (r: Result<
    Tensor,
    Error,
>)
    requires
        old(scope).wf(),
    ensures
        final(scope).wf(),
        (final(scope)@, r) == constant_model(old(scope)@, values@, sizes@, name@),
        final(scope)@.grows_from(old(scope)@),
        r matches Ok(t) ==> {
            &&& final(scope)@.knows(t, values@.dtype(), crate::shape::exact_shape(sizes@))
            &&& final(scope)@.value_of(t) == values@.integers()
        },
        r is Err ==> final(scope)@ == old(scope)@,
{
    scope.constant(values, sizes, name)
}

/// The draft of a copy of `input`: what the graph knows of `input`, it
/// knows of the copy.
pub open spec fn identity_draft(g: GraphView, input: Tensor, name: Seq<char>) -> DraftView {
    DraftView {
        value: g.value_of(input),
        ..plain_draft(OpKind::Identity, name, seq![input], g.shape_of(input))
    }
}

/// Returns a tensor with the same shape and contents as `input`.
pub fn identity(scope: &mut Scope, input: Tensor, name: &str) -> (r: Result<Tensor, Error>)
    requires
        old(scope).wf(),
    ensures
        final(scope).wf(),
        (final(scope)@, r) == old(scope)@.add(identity_draft(old(scope)@, input, name@)),
        final(scope)@.grows_from(old(scope)@),
        r matches Ok(t) ==> {
            &&& final(scope)@.knows(t, input.dtype, old(scope)@.shape_of(input))
            &&& final(scope)@.value_of(t) == old(scope)@.value_of(input)
        },
        r is Err ==> final(scope)@ == old(scope)@,
{
    let shape = scope.shape_hint(input);
    let value = scope.static_value(input);
    let draft = Draft { value, ..Draft::plain(OpKind::Identity, name, single(input), shape) };
    scope.add(draft)
}

/// The draft of a tensor of type `dtype` that is fed when the graph runs.
pub open spec fn placeholder_draft(dtype: DataType, name: Seq<char>) -> DraftView {
    DraftView {
        kind: OpKind::Placeholder,
        name,
        inputs: Seq::empty(),
        lists: Seq::empty(),
        declared: Some(dtype),
        attributes: seq![type_attribute("dtype"@, dtype)],
        shape: None,
        value: None,
    }
}

/// Inserts a placeholder for a tensor of type `dtype` that will be fed when
/// the graph runs.
pub fn placeholder(scope: &mut Scope, dtype: DataType, name: &str) -> (r: Result<Tensor, Error>)
    requires
        old(scope).wf(),
    ensures
        final(scope).wf(),
        (final(scope)@, r) == old(scope)@.add(placeholder_draft(dtype, name@)),
        final(scope)@.grows_from(old(scope)@),
        r matches Ok(t) ==> final(scope)@.knows(t, dtype, None),
        r is Err ==> final(scope)@ == old(scope)@,
{
    let draft = Draft {
        kind: OpKind::Placeholder,
        name: String::from_str(name),
        inputs: Vec::new(),
        lists: Vec::new(),
        declared: Some(dtype),
        attributes: single(make_type_attribute("dtype", dtype)),
        shape: ShapeHint::unknown(),
        value: None,
    };
    proof {
        assert(draft@.lists =~= Seq::<InputListView>::empty());
        assert(draft@.attributes =~= seq![type_attribute("dtype"@, dtype)]);
    }
    scope.add(draft)
}

/// The draft of the concatenation of `values` along `axis`, which the
/// tensor `at` holds.
pub open spec fn concat_draft(
    g: GraphView,
    values: Seq<Tensor>,
    at: Tensor,
    axis: i32,
    name: Seq<char>,
) -> DraftView {
    DraftView {
        kind: OpKind::ConcatV2,
        name,
        inputs: seq![at],
        lists: seq![InputListView { position: 0, members: values }],
        declared: None,
        attributes: Seq::empty(),
        shape: concat_shape(shapes_of(g, values), axis as int),
        value: None,
    }
}

/// What [`concat`] does and returns. Tensors of mixed data types, or none
/// at all, are refused before anything is installed. Else the axis becomes
/// a constant, and one node concatenates the tensors along it.
pub open spec fn concat_model(g: GraphView, values: Seq<Tensor>, axis: i32, name: Seq<char>) -> (
    GraphView,
    Result<Tensor, Error>,
) {
    if !homogeneous(values) {
        (g, Err(Error::InputTypeMismatch))
    } else if values.len() == 0 {
        (g, Err(Error::ArgumentCount))
    } else {
        let (g1, r1) = g.add(scalar_draft(axis));
        match r1 {
            Err(e) => (g1, Err(e)),
            Ok(at) => g1.add(concat_draft(g, values, at, axis, name)),
        }
    }
}

/// Concatenates tensors along one dimension.
///
/// The tensors must have one data type. Where their shapes are known, have
/// one rank and `axis` names a dimension of it, counting from the end where
/// it is negative, the result has the sizes of the tensors summed along
/// `axis` and their common sizes elsewhere.
pub fn concat(scope: &mut Scope, values: Vec<Tensor>, axis: i32, name: &str) -> (r: Result<
    Tensor,
    Error,
>)
    requires
        old(scope).wf(),
    ensures
        final(scope).wf(),
        (final(scope)@, r) == concat_model(old(scope)@, values@, axis, name@),
        final(scope)@.grows_from(old(scope)@),
        !homogeneous(values@) ==> r == Err::<Tensor, Error>(Error::InputTypeMismatch)
            && final(scope)@ == old(scope)@,
        r matches Ok(t) ==> final(scope)@.knows(
            t,
            values@[0].dtype,
            concat_shape(shapes_of(old(scope)@, values@), axis as int),
        ),
{
    proof {
        old(scope).lemma_wf();
        old(scope)@.lemma_grows_reflexive();
    }
    if !is_homogeneous(&values) {
        return Err(Error::InputTypeMismatch);
    }
    if values.len() == 0 {
        return Err(Error::ArgumentCount);
    }
    let shapes = read_shapes(scope, &values);
    let shape = infer_concat(&shapes, axis);
    let at = match scalar(scope, axis) {
        Ok(t) => t,
        Err(e) => {
            return Err(e);
        },
    };
    let draft = Draft {
        kind: OpKind::ConcatV2,
        name: String::from_str(name),
        inputs: single(at),
        lists: single(InputList { position: 0, members: values }),
        declared: None,
        attributes: Vec::new(),
        shape,
        value: None,
    };
    proof {
        assert(draft@.lists =~= seq![InputListView { position: 0, members: values@ }]);
        assert(draft@.attributes =~= Seq::<AttributeView>::empty());
    }
    let ghost mid = scope@;
    let r = scope.add(draft);
    proof {
        scope@.lemma_grows_transitive(mid, old(scope)@);
    }
    r
}

/// What [`expand_dims`] does and returns: the axis becomes a constant, and
/// one node inserts the dimension.
pub open spec fn expand_dims_model(g: GraphView, tensor: Tensor, axis: i32, name: Seq<char>) -> (
    GraphView,
    Result<Tensor, Error>,
) {
    let (g1, r1) = g.add(scalar_draft(axis));
    match r1 {
        Err(e) => (g1, Err(e)),
        Ok(at) => g1.add(
            plain_draft(
                OpKind::ExpandDims,
                name,
                seq![tensor, at],
                expand_shape(g.shape_of(tensor), axis as int),
            ),
        ),
    }
}

/// Inserts a dimension of size one into the shape of `tensor` at `axis`,
/// which counts from the end where it is negative.
pub fn expand_dims(scope: &mut Scope, tensor: Tensor, axis: i32, name: &str) -> (r: Result<
    Tensor,
    Error,
>)
    requires
        old(scope).wf(),
    ensures
        final(scope).wf(),
        (final(scope)@, r) == expand_dims_model(old(scope)@, tensor, axis, name@),
        final(scope)@.grows_from(old(scope)@),
        r matches Ok(t) ==> final(scope)@.knows(
            t,
            tensor.dtype,
            expand_shape(old(scope)@.shape_of(tensor), axis as int),
        ),
{
    let shape = infer_expand(&scope.shape_hint(tensor), axis);
    let at = match scalar(scope, axis) {
        Ok(t) => t,
        Err(e) => {
            return Err(e);
        },
    };
    let ghost mid = scope@;
    let r = scope.add(Draft::plain(OpKind::ExpandDims, name, pair(tensor, at), shape));
    proof {
        scope@.lemma_grows_transitive(mid, old(scope)@);
    }
    r
}

/// What [`fill`] does and returns: the value becomes a scalar constant, and
/// one node fills a tensor of the sizes that `dims` holds with it.
pub open spec fn fill_model(g: GraphView, dims: Tensor, value: ValuesView, name: Seq<char>) -> (
    GraphView,
    Result<Tensor, Error>,
) {
    let (g1, r1) = g.add(constant_draft(value, Seq::empty(), Seq::empty()));
    match r1 {
        Err(e) => (g1, Err(e)),
        Ok(v) => g1.add(
            plain_draft(
                OpKind::Fill,
                name,
                seq![dims, v],
                fill_shape(g.value_of(dims), g.shape_of(dims)),
            ),
        ),
    }
}

/// Creates a tensor of the sizes that `dims` holds, filled with the one
/// element of `value`. The result has the data type of `value`.
pub fn fill(scope: &mut Scope, dims: Tensor, value: Values, name: &str) -> (r: Result<
    Tensor,
    Error,
>)
    requires
        old(scope).wf(),
    ensures
        final(scope).wf(),
        (final(scope)@, r) == fill_model(old(scope)@, dims, value@, name@),
        final(scope)@.grows_from(old(scope)@),
        r matches Ok(t) ==> final(scope)@.knows(
            t,
            value@.dtype(),
            fill_shape(old(scope)@.value_of(dims), old(scope)@.shape_of(dims)),
        ),
{
    proof {
        reveal_strlit("");
        assert(""@ =~= Seq::<char>::empty());
    }
    let shape = infer_fill(&scope.static_value(dims), &scope.shape_hint(dims));
    let v = match scope.constant(value, Vec::new(), "") {
        Ok(t) => t,
        Err(e) => {
            return Err(e);
        },
    };
    let ghost mid = scope@;
    let r = scope.add(Draft::plain(OpKind::Fill, name, pair(dims, v), shape));
    proof {
        scope@.lemma_grows_transitive(mid, old(scope)@);
    }
    r
}

/// The draft of the slices of `params` gathered at `indices`.
pub open spec fn gather_draft(g: GraphView, params: Tensor, indices: Tensor, name: Seq<char>) -> DraftView {
    DraftView {
        value: gather_value(
            g.value_of(params),
            rank_of(g.shape_of(params)),
            g.value_of(indices),
        ),
        ..plain_draft(
            OpKind::Gather,
            name,
            seq![params, indices],
            gather_shape(g.shape_of(params), g.shape_of(indices)),
        )
    }
}

/// What [`gather`] does and returns: indices that are not 32-bit or 64-bit
/// integers are refused before anything is installed; else one node
/// gathers.
pub open spec fn gather_model(g: GraphView, params: Tensor, indices: Tensor, name: Seq<char>) -> (
    GraphView,
    Result<Tensor, Error>,
) {
    if !indices.dtype.indexes() {
        (g, Err(Error::UnsupportedType))
    } else {
        g.add(gather_draft(g, params, indices, name))
    }
}

/// Gathers slices from the first dimension of `params` according to
/// `indices`, which must be 32-bit or 64-bit integers. The result has the
/// shape of `indices` followed by the other dimensions of `params`.
pub fn gather(scope: &mut Scope, params: Tensor, indices: Tensor, name: &str) -> (r: Result<
    Tensor,
    Error,
>)
    requires
        old(scope).wf(),
    ensures
        final(scope).wf(),
        (final(scope)@, r) == gather_model(old(scope)@, params, indices, name@),
        final(scope)@.grows_from(old(scope)@),
        r matches Ok(t) ==> {
            &&& final(scope)@.knows(
                t,
                params.dtype,
                gather_shape(old(scope)@.shape_of(params), old(scope)@.shape_of(indices)),
            )
            &&& final(scope)@.value_of(t) == gather_value(
                old(scope)@.value_of(params),
                rank_of(old(scope)@.shape_of(params)),
                old(scope)@.value_of(indices),
            )
        },
        r is Err ==> final(scope)@ == old(scope)@,
{
    proof {
        old(scope).lemma_wf();
        old(scope)@.lemma_grows_reflexive();
    }
    if !indices.dtype.is_index() {
        return Err(Error::UnsupportedType);
    }
    let params_shape = scope.shape_hint(params);
    let shape = infer_gather_shape(&params_shape, &scope.shape_hint(indices));
    let value = infer_gather_value(
        &scope.static_value(params),
        params_shape.rank(),
        &scope.static_value(indices),
    );
    let draft = Draft { value, ..Draft::plain(OpKind::Gather, name, pair(params, indices), shape) };
    scope.add(draft)
}

/// What [`reshape`] does and returns: the target becomes a tensor, and one
/// node reshapes.
pub open spec fn reshape_model(g: GraphView, tensor: Tensor, shape: OperandView, name: Seq<char>) -> (
    GraphView,
    Result<Tensor, Error>,
) {
    let (g1, r1) = operand_model(g, shape, Seq::empty());
    match r1 {
        Err(e) => (g1, Err(e)),
        Ok(s) => g1.add(
            plain_draft(
                OpKind::Reshape,
                name,
                seq![tensor, s],
                reshape_shape(g1.shape_of(tensor), g1.value_of(s), g1.shape_of(s)),
            ),
        ),
    }
}

/// Reshapes `tensor` to `shape`. One entry of `shape` may be `-1`: the size
/// of that dimension is then what keeps the number of elements the same.
pub fn reshape(scope: &mut Scope, tensor: Tensor, shape: Operand, name: &str) -> (r: Result<
    Tensor,
    Error,
>)
    requires
        old(scope).wf(),
    ensures
        final(scope).wf(),
        (final(scope)@, r) == reshape_model(old(scope)@, tensor, shape@, name@),
        final(scope)@.grows_from(old(scope)@),
        r matches Ok(t) ==> {
            &&& final(scope)@.owns(t)
            &&& t.dtype == tensor.dtype
            &&& old(scope)@.owns(tensor) ==> final(scope)@.shape_of(t) == reshape_shape(
                old(scope)@.shape_of(tensor),
                crate::ops::operand_value(old(scope)@, shape@),
                crate::ops::operand_shape(old(scope)@, shape@),
            )
        },
{
    proof {
        reveal_strlit("");
        assert(""@ =~= Seq::<char>::empty());
    }
    let s = match shape.into_tensor(scope, "") {
        Ok(t) => t,
        Err(e) => {
            return Err(e);
        },
    };
    let hint = infer_reshape(
        &scope.shape_hint(tensor),
        &scope.static_value(s),
        &scope.shape_hint(s),
    );
    let ghost mid = scope@;
    let r = scope.add(Draft::plain(OpKind::Reshape, name, pair(tensor, s), hint));
    proof {
        scope@.lemma_grows_transitive(mid, old(scope)@);
    }
    r
}

/// The data type of the result of the shape operation: the one asked for,
/// or 32-bit integers where none is.
pub open spec fn shape_type(out_type: Option<DataType>) -> DataType {
    match out_type {
        Some(t) => t,
        None => DataType::Int32,
    }
}

/// The draft of the vector that holds the shape of `tensor`.
pub open spec fn shape_draft(
    g: GraphView,
    tensor: Tensor,
    out_type: Option<DataType>,
    name: Seq<char>,
) -> DraftView {
    DraftView {
        kind: OpKind::Shape,
        name,
        inputs: seq![tensor],
        lists: Seq::empty(),
        declared: Some(shape_type(out_type)),
        attributes: match out_type {
            Some(t) => seq![type_attribute("out_type"@, t)],
            None => Seq::empty(),
        },
        shape: shape_of_shape(g.shape_of(tensor)),
        value: value_of_shape(g.shape_of(tensor), shape_type(out_type)),
    }
}

/// What [`shape`] does and returns: an output type that is neither 32-bit
/// nor 64-bit integers is refused before anything is installed; else one
/// node takes the shape.
pub open spec fn shape_model(
    g: GraphView,
    tensor: Tensor,
    out_type: Option<DataType>,
    name: Seq<char>,
) -> (GraphView, Result<Tensor, Error>) {
    if out_type is Some && !out_type->0.indexes() {
        (g, Err(Error::UnsupportedType))
    } else {
        g.add(shape_draft(g, tensor, out_type, name))
    }
}

/// Returns the shape of `tensor` as a vector of integers of type
/// `out_type`, or of 32-bit integers where none is given.
pub fn shape(scope: &mut Scope, tensor: Tensor, out_type: Option<DataType>, name: &str) -> (r:
    Result<Tensor, Error>)
    requires
        old(scope).wf(),
    ensures
        final(scope).wf(),
        (final(scope)@, r) == shape_model(old(scope)@, tensor, out_type, name@),
        final(scope)@.grows_from(old(scope)@),
        r matches Ok(t) ==> {
            &&& final(scope)@.knows(
                t,
                shape_type(out_type),
                shape_of_shape(old(scope)@.shape_of(tensor)),
            )
            &&& final(scope)@.value_of(t) == value_of_shape(
                old(scope)@.shape_of(tensor),
                shape_type(out_type),
            )
        },
        r is Err ==> final(scope)@ == old(scope)@,
{
    proof {
        old(scope).lemma_wf();
        old(scope)@.lemma_grows_reflexive();
    }
    let declared = match out_type {
        Some(t) => {
            if !t.is_index() {
                return Err(Error::UnsupportedType);
            }
            t
        },
        None => DataType::Int32,
    };
    let input = scope.shape_hint(tensor);
    let attributes = match out_type {
        Some(t) => single(make_type_attribute("out_type", t)),
        None => Vec::new(),
    };
    let draft = Draft {
        kind: OpKind::Shape,
        name: String::from_str(name),
        inputs: single(tensor),
        lists: Vec::new(),
        declared: Some(declared),
        attributes,
        shape: infer_shape_of_shape(&input),
        value: infer_value_of_shape(&input, declared),
    };
    proof {
        assert(draft@.lists =~= Seq::<InputListView>::empty());
        assert(draft@.attributes =~= shape_draft(old(scope)@, tensor, out_type, name@).attributes);
    }
    scope.add(draft)
}

/// The draft of the scalar that holds the number of elements of `input`.
pub open spec fn size_draft(g: GraphView, input: Tensor, name: Seq<char>) -> DraftView {
    DraftView {
        value: value_of_size(g.shape_of(input)),
        ..plain_draft(OpKind::Size, name, seq![input], scalar_shape())
    }
}

/// Returns the number of elements of `input` as a 32-bit scalar.
pub fn size(scope: &mut Scope, input: Tensor, name: &str) -> (r: Result<Tensor, Error>)
    requires
        old(scope).wf(),
    ensures
        final(scope).wf(),
        (final(scope)@, r) == old(scope)@.add(size_draft(old(scope)@, input, name@)),
        final(scope)@.grows_from(old(scope)@),
        r matches Ok(t) ==> {
            &&& final(scope)@.knows(t, DataType::Int32, scalar_shape())
            &&& final(scope)@.value_of(t) == value_of_size(old(scope)@.shape_of(input))
        },
        r is Err ==> final(scope)@ == old(scope)@,
{
    let value = infer_value_of_size(&scope.shape_hint(input));
    let shape = ShapeHint { dims: Some(Vec::new()) };
    let draft = Draft { value, ..Draft::plain(OpKind::Size, name, single(input), shape) };
    scope.add(draft)
}

/// The draft of `tensor` without the dimensions of size one that `axis`
/// lists, or without any of them where `axis` is absent.
pub open spec fn squeeze_draft(
    g: GraphView,
    tensor: Tensor,
    axis: Option<Seq<i64>>,
    name: Seq<char>,
) -> DraftView {
    DraftView {
        attributes: match axis {
            Some(a) => seq![
                AttributeView { key: "squeeze_dims"@, list: true, value: AttrValueView::Int(a) },
            ],
            None => Seq::empty(),
        },
        ..plain_draft(OpKind::Squeeze, name, seq![tensor], squeeze_shape(g.shape_of(tensor), axis))
    }
}

/// Removes dimensions of size one from the shape of `tensor`: those that
/// `axis` lists, or all of them where `axis` is absent.
pub fn squeeze(scope: &mut Scope, tensor: Tensor, axis: Option<Vec<i64>>, name: &str) -> (r: Result<
    Tensor,
    Error,
>)
    requires
        old(scope).wf(),
    ensures
        final(scope).wf(),
        (final(scope)@, r) == old(scope)@.add(
            squeeze_draft(old(scope)@, tensor, value_view(axis), name@),
        ),
        final(scope)@.grows_from(old(scope)@),
        r matches Ok(t) ==> final(scope)@.knows(
            t,
            tensor.dtype,
            squeeze_shape(old(scope)@.shape_of(tensor), value_view(axis)),
        ),
        r is Err ==> final(scope)@ == old(scope)@,
{
    let ghost wanted = value_view(axis);
    let shape = infer_squeeze(&scope.shape_hint(tensor), &axis);
    let attributes = match axis {
        Some(a) => single(
            Attribute {
                key: String::from_str("squeeze_dims"),
                list: true,
                value: AttrValue::Int(a),
            },
        ),
        None => Vec::new(),
    };
    let draft = Draft { attributes, ..Draft::plain(OpKind::Squeeze, name, single(tensor), shape) };
    proof {
        assert(draft@.attributes =~= squeeze_draft(
            old(scope)@,
            tensor,
            wanted,
            name@,
        ).attributes);
    }
    scope.add(draft)
}

/// What [`slice`] does and returns: the start and the size become tensors,
/// in this order, and one node slices.
pub open spec fn slice_model(
    g: GraphView,
    input: Tensor,
    begin: OperandView,
    size: OperandView,
    name: Seq<char>,
) -> (GraphView, Result<Tensor, Error>) {
    let (g1, r1) = operand_model(g, begin, Seq::empty());
    match r1 {
        Err(e) => (g1, Err(e)),
        Ok(b) => {
            let (g2, r2) = operand_model(g1, size, Seq::empty());
            match r2 {
                Err(e) => (g2, Err(e)),
                Ok(s) => g2.add(
                    plain_draft(
                        OpKind::Slice,
                        name,
                        seq![input, b, s],
                        slice_shape(g2.shape_of(input), g2.value_of(b), g2.value_of(s)),
                    ),
                ),
            }
        },
    }
}

/// Extracts the slice of `input` that starts at `begin` and has the sizes
/// `size`. An entry of `size` may be `-1`: the slice then takes what is left
/// of that dimension.
pub fn slice(scope: &mut Scope, input: Tensor, begin: Operand, size: Operand, name: &str) -> (r:
    Result<Tensor, Error>)
    requires
        old(scope).wf(),
    ensures
        final(scope).wf(),
        (final(scope)@, r) == slice_model(old(scope)@, input, begin@, size@, name@),
        final(scope)@.grows_from(old(scope)@),
        r matches Ok(t) ==> {
            &&& final(scope)@.owns(t)
            &&& t.dtype == input.dtype
            &&& (old(scope)@.owns(input) && (begin@ matches OperandView::Tensor(b)
                ==> old(scope)@.owns(b)) && (size@ matches OperandView::Tensor(s)
                ==> old(scope)@.owns(s))) ==> final(scope)@.shape_of(t) == slice_shape(
                old(scope)@.shape_of(input),
                crate::ops::operand_value(old(scope)@, begin@),
                crate::ops::operand_value(old(scope)@, size@),
            )
        },
{
    proof {
        reveal_strlit("");
        assert(""@ =~= Seq::<char>::empty());
    }
    let b = match begin.into_tensor(scope, "") {
        Ok(t) => t,
        Err(e) => {
            return Err(e);
        },
    };
    let ghost first = scope@;
    let s = match size.into_tensor(scope, "") {
        Ok(t) => t,
        Err(e) => {
            return Err(e);
        },
    };
    let ghost second = scope@;
    proof {
        second.lemma_grows_transitive(first, old(scope)@);
        if old(scope)@.owns(input) && (begin@ matches OperandView::Tensor(t) ==> old(scope)@.owns(
            t,
        )) {
            assert(first.owns(b));
            assert(second.owns(b));
            assert(second.owns(input));
        }
    }
    let shape = infer_slice(
        &scope.shape_hint(input),
        &scope.static_value(b),
        &scope.static_value(s),
    );
    let r = scope.add(Draft::plain(OpKind::Slice, name, triple(input, b, s), shape));
    proof {
        scope@.lemma_grows_transitive(second, old(scope)@);
    }
    r
}

/// The shape of the coordinates of the true elements of a tensor of the
/// shape `cond`: one row for each of them, their number unknown, and one
/// column for each dimension of `cond`.
pub open spec fn where_shape(cond: ShapeView) -> ShapeView {
    match cond {
        Some(d) => if d.len() <= i64::MAX {
            Some(seq![None, Some(d.len() as i64)])
        } else {
            Some(seq![None, None])
        },
        None => Some(seq![None, None]),
    }
}

/// What [`where_cond`] does and returns: a condition that is not boolean is
/// refused, then one of `x` and `y` without the other, then both together,
/// all before anything is installed; else one node finds the coordinates.
pub open spec fn where_model(
    g: GraphView,
    cond: Tensor,
    x: Option<Tensor>,
    y: Option<Tensor>,
    name: Seq<char>,
) -> (GraphView, Result<Tensor, Error>) {
    if cond.dtype != DataType::Bool {
        (g, Err(Error::UnsupportedType))
    } else if x.is_some() != y.is_some() {
        (g, Err(Error::ArgumentCount))
    } else if x.is_some() {
        (g, Err(Error::Unimplemented))
    } else {
        g.add(plain_draft(OpKind::Where, name, seq![cond], where_shape(g.shape_of(cond))))
    }
}

/// Returns the coordinates of the true elements of `cond`, which must be
/// boolean, as 64-bit integers. Choosing between the elements of `x` and
/// `y` has no graph form yet.
pub fn where_cond(
    scope: &mut Scope,
    cond: Tensor,
    x: Option<Tensor>,
    y: Option<Tensor>,
    name: &str,
) -> (r: Result<Tensor, Error>)
    requires
        old(scope).wf(),
    ensures
        final(scope).wf(),
        (final(scope)@, r) == where_model(old(scope)@, cond, x, y, name@),
        final(scope)@.grows_from(old(scope)@),
        r matches Ok(t) ==> final(scope)@.knows(
            t,
            DataType::Int64,
            where_shape(old(scope)@.shape_of(cond)),
        ),
        r is Err ==> final(scope)@ == old(scope)@,
{
    proof {
        old(scope).lemma_wf();
        old(scope)@.lemma_grows_reflexive();
    }
    if cond.dtype != DataType::Bool {
        return Err(Error::UnsupportedType);
    }
    if x.is_some() != y.is_some() {
        return Err(Error::ArgumentCount);
    }
    if x.is_some() {
        return Err(Error::Unimplemented);
    }
    let mut dims: Vec<Option<i64>> = Vec::new();
    dims.push(None);
    match scope.shape_hint(cond).rank() {
        Some(n) => {
            if (n as u64) <= (i64::MAX as u64) {
                dims.push(Some(n as i64));
            } else {
                dims.push(None);
            }
        },
        None => {
            dims.push(None);
        },
    }
    let shape = ShapeHint { dims: Some(dims) };
    assert(shape@->0 =~= where_shape(old(scope)@.shape_of(cond))->0);
    scope.add(Draft::plain(OpKind::Where, name, single(cond), shape))
}

/// The zero of the data type `t` as the one element of a constant, where
/// tensors of zeros of that type can be made.
pub open spec fn zero_of(t: DataType) -> Option<ValuesView> {
    match t {
        DataType::Bool => Some(ValuesView::Bool(seq![false])),
        DataType::Int32 => Some(ValuesView::Int32(seq![0i32])),
        DataType::Int64 => Some(ValuesView::Int64(seq![0i64])),
        DataType::String => Some(ValuesView::Text(seq![Seq::<char>::empty()])),
        DataType::Double
        | DataType::Float
        | DataType::UInt8
        | DataType::Int16
        | DataType::Int8
        | DataType::QUInt8
        | DataType::QInt16
        | DataType::QUInt16
        | DataType::QInt32
        | DataType::BFloat16 => Some(ValuesView::Raw(t, seq![0u64])),
        DataType::Complex64 | DataType::Complex128 => Some(ValuesView::Raw(t, seq![0u64, 0u64])),
        _ => None,
    }
}

/// Makes the zero of the data type `t` as the one element of a constant.
pub fn make_zero(t: DataType) -> (r: Option<Values>)
    ensures
        r is Some <==> zero_of(t) is Some,
        r matches Some(v) ==> Some(v@) == zero_of(t),
{
    match t {
        DataType::Bool => Some(Values::Bool(single(false))),
        DataType::Int32 => Some(Values::Int32(single(0i32))),
        DataType::Int64 => Some(Values::Int64(single(0i64))),
        DataType::String => {
            let v = Values::Text(single(String::new()));
            assert(v@->Text_0 =~= seq![Seq::<char>::empty()]);
            Some(v)
        },
        DataType::Double
        | DataType::Float
        | DataType::UInt8
        | DataType::Int16
        | DataType::Int8
        | DataType::QUInt8
        | DataType::QInt16
        | DataType::QUInt16
        | DataType::QInt32
        | DataType::BFloat16 => Some(Values::Raw(t, single(0u64))),
        DataType::Complex64 | DataType::Complex128 => Some(Values::Raw(t, pair(0u64, 0u64))),
        _ => None,
    }
}

/// What [`zeros`] does and returns: a data type of which no zeros can be
/// made is refused before anything is installed; else the tensor is filled
/// with the zero of the type.
pub open spec fn zeros_model(g: GraphView, shape: Tensor, dtype: DataType, name: Seq<char>) -> (
    GraphView,
    Result<Tensor, Error>,
) {
    match zero_of(dtype) {
        None => (g, Err(Error::UnsupportedType)),
        Some(zero) => fill_model(g, shape, zero, name),
    }
}

/// Creates a tensor of type `dtype` and of the sizes that `shape` holds
/// with all elements set to zero.
pub fn zeros(scope: &mut Scope, shape: Tensor, dtype: DataType, name: &str) -> (r: Result<
    Tensor,
    Error,
>)
    requires
        old(scope).wf(),
    ensures
        final(scope).wf(),
        (final(scope)@, r) == zeros_model(old(scope)@, shape, dtype, name@),
        final(scope)@.grows_from(old(scope)@),
        r matches Ok(t) ==> final(scope)@.knows(
            t,
            dtype,
            fill_shape(old(scope)@.value_of(shape), old(scope)@.shape_of(shape)),
        ),
{
    proof {
        old(scope).lemma_wf();
        old(scope)@.lemma_grows_reflexive();
    }
    match make_zero(dtype) {
        None => Err(Error::UnsupportedType),
        Some(zero) => fill(scope, shape, zero, name),
    }
}

/// What [`rank`] does and returns. A scope named after `name`, or `Rank`,
/// is entered. Where the rank is known at build time and fits 32 bits, it
/// is installed there as a constant, and no node computes it when the graph
/// runs. Else the scope is left and one node of the enclosing scope
/// computes the rank.
pub open spec fn rank_model(g: GraphView, input: Tensor, name: Seq<char>) -> (
    GraphView,
    Result<Tensor, Error>,
) {
    let (g1, r1) = g.enter(name, "Rank"@);
    match r1 {
        Err(e) => (g1, Err(e)),
        Ok(_) => match static_rank(g.shape_of(input)) {
            Some(n) => {
                let (g2, r2) = g1.add(scalar_draft(n));
                (g2.left(), r2)
            },
            None => g1.left().add(
                plain_draft(OpKind::Rank, Seq::empty(), seq![input], scalar_shape()),
            ),
        },
    }
}

/// Returns the rank of `input` as a 32-bit scalar.
pub fn rank(scope: &mut Scope, input: Tensor, name: &str) -> (r: Result<Tensor, Error>)
    requires
        old(scope).wf(),
    ensures
        final(scope).wf(),
        (final(scope)@, r) == rank_model(old(scope)@, input, name@),
        final(scope)@.grows_from(old(scope)@),
        r matches Ok(t) ==> {
            &&& final(scope)@.knows(t, DataType::Int32, scalar_shape())
            &&& final(scope)@.value_of(t) == match static_rank(old(scope)@.shape_of(input)) {
                Some(n) => Some(seq![n as i64]),
                None => None,
            }
        },
{
    proof {
        reveal_strlit("");
        assert(""@ =~= Seq::<char>::empty());
        old(scope).lemma_wf();
        old(scope)@.lemma_grows_reflexive();
    }
    let ghost wanted = GraphView::scope_hint(name@, "Rank"@);
    let known = infer_rank(&scope.shape_hint(input));
    match scope.child(name, "Rank") {
        Ok(()) => {},
        Err(e) => {
            return Err(e);
        },
    }
    let ghost entered = scope@;
    proof {
        scope.lemma_wf();
        entered.lemma_grows_reflexive();
    }
    match known {
        Some(n) => {
            let r = scalar(scope, n);
            proof {
                scope.lemma_wf();
                old(scope)@.lemma_scoped(wanted, scope@);
            }
            scope.exit();
            r
        },
        None => {
            proof {
                old(scope)@.lemma_scoped(wanted, entered);
            }
            scope.exit();
            let ghost outer = scope@;
            let shape = ShapeHint { dims: Some(Vec::new()) };
            let r = scope.add(Draft::plain(OpKind::Rank, "", single(input), shape));
            proof {
                scope@.lemma_grows_transitive(outer, old(scope)@);
            }
            r
        },
    }
}

/// The draft of `a` with its dimensions permuted as the tensor `perm` says,
/// named by the scope.
pub open spec fn transpose_draft(g: GraphView, a: Tensor, perm: Tensor) -> DraftView {
    plain_draft(
        OpKind::Transpose,
        Seq::empty(),
        seq![a, perm],
        transpose_shape(g.shape_of(a), g.value_of(perm)),
    )
}

/// What [`transpose`] does inside its scope where the permutation is given:
/// the permutation becomes a tensor, and one node transposes.
pub open spec fn permuted_model(g: GraphView, a: Tensor, perm: OperandView) -> (
    GraphView,
    Result<Tensor, Error>,
) {
    let (g1, r1) = operand_model(g, perm, Seq::empty());
    match r1 {
        Err(e) => (g1, Err(e)),
        Ok(p) => g1.add(transpose_draft(g1, a, p)),
    }
}

/// What [`transpose`] does inside its scope where no permutation is given:
/// the permutation that reverses the dimensions is computed in the graph, as
/// the rank less one less each of the numbers from zero up to the rank, and
/// one node transposes by it.
pub open spec fn reversed_model(g: GraphView, a: Tensor) -> (GraphView, Result<Tensor, Error>) {
    let (g1, r1) = rank_model(g, a, Seq::empty());
    match r1 {
        Err(e) => (g1, Err(e)),
        Ok(rk) => {
            let (g2, r2) = g1.add(scalar_draft(1));
            match r2 {
                Err(e) => (g2, Err(e)),
                Ok(one) => {
                    let (g3, r3) = sub_model(g2, rk, OperandView::Tensor(one), Seq::empty());
                    match r3 {
                        Err(e) => (g3, Err(e)),
                        Ok(last) => {
                            let (g4, r4) = range_model(
                                g3,
                                OperandView::Int32(0),
                                OperandView::Tensor(rk),
                                OperandView::Int32(1),
                                Seq::empty(),
                            );
                            match r4 {
                                Err(e) => (g4, Err(e)),
                                Ok(up) => {
                                    let (g5, r5) = sub_model(
                                        g4,
                                        last,
                                        OperandView::Tensor(up),
                                        Seq::empty(),
                                    );
                                    match r5 {
                                        Err(e) => (g5, Err(e)),
                                        Ok(perm) => g5.add(transpose_draft(g5, a, perm)),
                                    }
                                },
                            }
                        },
                    }
                },
            }
        },
    }
}

/// What [`transpose`] does and returns: a scope named after `name`, or
/// `transpose`, is entered; the nodes are installed in it; the scope is
/// left, whether they were installed or not.
pub open spec fn transpose_model(
    g: GraphView,
    a: Tensor,
    perm: Option<OperandView>,
    name: Seq<char>,
) -> (GraphView, Result<Tensor, Error>) {
    let (g1, r1) = g.enter(name, "transpose"@);
    match r1 {
        Err(e) => (g1, Err(e)),
        Ok(_) => {
            let (g2, r2) = match perm {
                Some(p) => permuted_model(g1, a, p),
                None => reversed_model(g1, a),
            };
            (g2.left(), r2)
        },
    }
}

/// Installs the nodes of a transposition by a given permutation.
fn permuted(scope: &mut Scope, a: Tensor, perm: Operand) -> (r: Result<Tensor, Error>)
    requires
        old(scope).wf(),
    ensures
        final(scope).wf(),
        (final(scope)@, r) == permuted_model(old(scope)@, a, perm@),
        final(scope)@.grows_from(old(scope)@),
        r matches Ok(t) ==> {
            &&& final(scope)@.owns(t)
            &&& t.dtype == a.dtype
            &&& (old(scope)@.owns(a) && (perm@ matches OperandView::Tensor(p)
                ==> old(scope)@.owns(p))) ==> final(scope)@.shape_of(t) == transpose_shape(
                old(scope)@.shape_of(a),
                crate::ops::operand_value(old(scope)@, perm@),
            )
        },
{
    proof {
        reveal_strlit("");
        assert(""@ =~= Seq::<char>::empty());
    }
    let p = match perm.into_tensor(scope, "") {
        Ok(t) => t,
        Err(e) => {
            return Err(e);
        },
    };
    let shape = infer_transpose(&scope.shape_hint(a), &scope.static_value(p));
    let ghost mid = scope@;
    let r = scope.add(Draft::plain(OpKind::Transpose, "", pair(a, p), shape));
    proof {
        scope@.lemma_grows_transitive(mid, old(scope)@);
    }
    r
}

/// Installs the nodes of the transposition that reverses the dimensions.
fn reversed(scope: &mut Scope, a: Tensor) -> (r: Result<Tensor, Error>)
    requires
        old(scope).wf(),
    ensures
        final(scope).wf(),
        (final(scope)@, r) == reversed_model(old(scope)@, a),
        final(scope)@.grows_from(old(scope)@),
        r matches Ok(t) ==> final(scope)@.knows(t, a.dtype, None),
{
    proof {
        reveal_strlit("");
        assert(""@ =~= Seq::<char>::empty());
    }
    let rk = match rank(scope, a, "") {
        Ok(t) => t,
        Err(e) => {
            return Err(e);
        },
    };
    let ghost g1 = scope@;
    let one = match scalar(scope, 1) {
        Ok(t) => t,
        Err(e) => {
            return Err(e);
        },
    };
    let ghost g2 = scope@;
    proof {
        g2.lemma_grows_transitive(g1, old(scope)@);
    }
    let last = match crate::ops::math_ops::sub(scope, rk, Operand::Tensor(one), "") {
        Ok(t) => t,
        Err(e) => {
            proof {
                scope@.lemma_grows_transitive(g2, old(scope)@);
            }
            return Err(e);
        },
    };
    let ghost g3 = scope@;
    proof {
        g3.lemma_grows_transitive(g2, old(scope)@);
    }
    let up = match range(scope, Operand::Int32(0), Operand::Tensor(rk), Operand::Int32(1), "") {
        Ok(t) => t,
        Err(e) => {
            proof {
                scope@.lemma_grows_transitive(g3, old(scope)@);
            }
            return Err(e);
        },
    };
    let ghost g4 = scope@;
    proof {
        g4.lemma_grows_transitive(g3, old(scope)@);
    }
    let perm = match crate::ops::math_ops::sub(scope, last, Operand::Tensor(up), "") {
        Ok(t) => t,
        Err(e) => {
            proof {
                scope@.lemma_grows_transitive(g4, old(scope)@);
            }
            return Err(e);
        },
    };
    let ghost g5 = scope@;
    proof {
        g5.lemma_grows_transitive(g4, old(scope)@);
    }
    let shape = infer_transpose(&scope.shape_hint(a), &scope.static_value(perm));
    let r = scope.add(Draft::plain(OpKind::Transpose, "", pair(a, perm), shape));
    proof {
        scope@.lemma_grows_transitive(g5, old(scope)@);
    }
    r
}

/// Transposes `a`: dimension `i` of the result is dimension `perm[i]` of
/// `a`. Where no permutation is given, the dimensions are reversed.
pub fn transpose(scope: &mut Scope, a: Tensor, perm: Option<Operand>, name: &str) -> (r: Result<
    Tensor,
    Error,
>)
    requires
        old(scope).wf(),
    ensures
        final(scope).wf(),
        (final(scope)@, r) == transpose_model(
            old(scope)@,
            a,
            match perm {
                Some(p) => Some(p@),
                None => None,
            },
            name@,
        ),
        final(scope)@.grows_from(old(scope)@),
        r matches Ok(t) ==> {
            &&& final(scope)@.owns(t)
            &&& t.dtype == a.dtype
            &&& match perm {
                Some(p) => (old(scope)@.owns(a) && (p@ matches OperandView::Tensor(q)
                    ==> old(scope)@.owns(q))) ==> final(scope)@.shape_of(t) == transpose_shape(
                    old(scope)@.shape_of(a),
                    crate::ops::operand_value(old(scope)@, p@),
                ),
                None => final(scope)@.shape_of(t) is None,
            }
        },
{
    proof {
        old(scope).lemma_wf();
        old(scope)@.lemma_grows_reflexive();
    }
    let ghost wanted = GraphView::scope_hint(name@, "transpose"@);
    match scope.child(name, "transpose") {
        Ok(()) => {},
        Err(e) => {
            return Err(e);
        },
    }
    let ghost entered = scope@;
    proof {
        old(scope)@.lemma_entered(wanted);
    }
    let r = match perm {
        Some(p) => permuted(scope, a, p),
        None => reversed(scope, a),
    };
    proof {
        scope.lemma_wf();
        old(scope)@.lemma_scoped(wanted, scope@);
    }
    scope.exit();
    r
}

/// Reshaping keeps the data type.
pub proof fn lemma_reshape_dtype(g: GraphView, tensor: Tensor, shape: OperandView, name: Seq<char>)
    ensures
        reshape_model(g, tensor, shape, name).1 matches Ok(t) ==> t.dtype == tensor.dtype,
{
    let (g1, r1) = operand_model(g, shape, Seq::empty());
    if r1 is Ok {
        let s = r1->Ok_0;
        g1.lemma_add(
            plain_draft(
                OpKind::Reshape,
                name,
                seq![tensor, s],
                reshape_shape(g1.shape_of(tensor), g1.value_of(s), g1.shape_of(s)),
            ),
        );
    }
}

/// Transposing keeps the data type.
pub proof fn lemma_transpose_dtype(
    g: GraphView,
    a: Tensor,
    perm: Option<OperandView>,
    name: Seq<char>,
)
    ensures
        transpose_model(g, a, perm, name).1 matches Ok(t) ==> t.dtype == a.dtype,
{
    let (g1, r1) = g.enter(name, "transpose"@);
    if r1 is Ok {
        match perm {
            Some(p) => {
                let (h1, s1) = operand_model(g1, p, Seq::empty());
                if s1 is Ok {
                    h1.lemma_add(transpose_draft(h1, a, s1->Ok_0));
                }
            },
            None => {
                let (h1, s1) = rank_model(g1, a, Seq::empty());
                if s1 is Ok {
                    let (h2, s2) = h1.add(scalar_draft(1));
                    if s2 is Ok {
                        let (h3, s3) = sub_model(
                            h2,
                            s1->Ok_0,
                            OperandView::Tensor(s2->Ok_0),
                            Seq::empty(),
                        );
                        if s3 is Ok {
                            let (h4, s4) = range_model(
                                h3,
                                OperandView::Int32(0),
                                OperandView::Tensor(s1->Ok_0),
                                OperandView::Int32(1),
                                Seq::empty(),
                            );
                            if s4 is Ok {
                                let (h5, s5) = sub_model(
                                    h4,
                                    s3->Ok_0,
                                    OperandView::Tensor(s4->Ok_0),
                                    Seq::empty(),
                                );
                                if s5 is Ok {
                                    h5.lemma_add(transpose_draft(h5, a, s5->Ok_0));
                                }
                            }
                        }
                    }
                }
            },
        }
    }
}

} // verus!
