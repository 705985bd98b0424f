//! Neural network support.

use vstd::prelude::*;
use crate::attr::{AttrValue, AttrValueView, Attribute, AttributeView};
use crate::descriptor::{plain_draft, Draft, DraftView};
use crate::error::{Error, Stage};
use crate::graph::GraphView;
use crate::infer::{infer_rank, static_rank};
use crate::kind::OpKind;
use crate::ops::array_ops::{
    concat, concat_model, expand_dims, expand_dims_model, lemma_reshape_dtype,
    lemma_transpose_dtype, rank, rank_model, reshape, reshape_model, scalar, scalar_draft, shape,
    shape_model, slice, slice_model, transpose, transpose_model,
};
use crate::ops::math_ops::{range, range_model, sub_model};
use crate::ops::{operand_model, pair, single, Operand, OperandView};
use crate::scope::Scope;
use crate::shape::{
    count_elements, element_count, fully_known, known_sizes, lemma_merged_refines, refines,
    shape_well_formed, ShapeHint, ShapeView,
};
use crate::tensor::Tensor;

verus! {

/// Whether `format` is a data format that convolutional operations know:
/// `NHWC` or `NCHW`.
pub open spec fn known_format(format: Seq<char>) -> bool {
    format == "NHWC"@ || format == "NCHW"@
}

/// Tells whether `format` is a data format that convolutional operations
/// know.
pub fn validate_convnet_data_format(format: &str) -> (r: Result<(), Error>)
    ensures
        r == if known_format(format@) {
            Ok::<(), Error>(())
        } else {
            Err::<(), Error>(Error::UnsupportedFormat)
        },
{
    let given = String::from_str(format);
    if given == String::from_str("NHWC") || given == String::from_str("NCHW") {
        Ok(())
    } else {
        Err(Error::UnsupportedFormat)
    }
}

/// The draft of `value` with `bias` added along its last dimension.
pub open spec fn bias_add_draft(
    g: GraphView,
    value: Tensor,
    bias: Tensor,
    data_format: Option<Seq<char>>,
    name: Seq<char>,
) -> DraftView {
    DraftView {
        attributes: match data_format {
            Some(f) => seq![
                AttributeView {
                    key: "data_format"@,
                    list: false,
                    value: AttrValueView::Text(seq![f]),
                },
            ],
            None => Seq::empty(),
        },
        ..plain_draft(OpKind::BiasAdd, name, seq![value, bias], g.shape_of(value))
    }
}

/// What [`bias_add`] does and returns: a data format that is not known is
/// refused before anything is installed; else one node adds the bias.
pub open spec fn bias_add_model(
    g: GraphView,
    value: Tensor,
    bias: Tensor,
    data_format: Option<Seq<char>>,
    name: Seq<char>,
) -> (GraphView, Result<Tensor, Error>) {
    if data_format is Some && !known_format(data_format->0) {
        (g, Err(Error::UnsupportedFormat))
    } else {
        g.add(bias_add_draft(g, value, bias, data_format, name))
    }
}

/// The characters of `text`, where there is one.
pub open spec fn text_view(text: Option<&str>) -> Option<Seq<char>> {
    match text {
        Some(t) => Some(t@),
        None => None,
    }
}

/// Adds `bias` to `value` along its last dimension. The result has the
/// shape of `value`. The data format, where one is given, is `NHWC` or
/// `NCHW`.
pub fn bias_add(
    scope: &mut Scope,
    value: Tensor,
    bias: Tensor,
    data_format: Option<&str>,
    name: &str,
) -> (r: Result<Tensor, Error>)
    requires
        old(scope).wf(),
    ensures
        final(scope).wf(),
        (final(scope)@, r) == bias_add_model(
            old(scope)@,
            value,
            bias,
            text_view(data_format),
            name@,
        ),
        final(scope)@.grows_from(old(scope)@),
        r matches Ok(t) ==> final(scope)@.knows(t, value.dtype, old(scope)@.shape_of(value)),
        r is Err ==> final(scope)@ == old(scope)@,
{
    proof {
        old(scope).lemma_wf();
        old(scope)@.lemma_grows_reflexive();
    }
    let attributes = match data_format {
        Some(f) => {
            match validate_convnet_data_format(f) {
                Ok(()) => {},
                Err(e) => {
                    return Err(e);
                },
            }
            let texts = single(String::from_str(f));
            let a = Attribute {
                key: String::from_str("data_format"),
                list: false,
                value: AttrValue::Text(texts),
            };
            assert(a@.value->Text_0 =~= seq![f@]);
            single(a)
        },
        None => Vec::new(),
    };
    let draft = Draft {
        attributes,
        ..Draft::plain(OpKind::BiasAdd, name, pair(value, bias), scope.shape_hint(value))
    };
    proof {
        assert(draft@.attributes =~= bias_add_draft(
            old(scope)@,
            value,
            bias,
            text_view(data_format),
            name@,
        ).attributes);
    }
    scope.add(draft)
}

/// The draft of a node that works on each element of `input` and keeps its
/// shape.
pub open spec fn unary_draft(g: GraphView, kind: OpKind, input: Tensor, name: Seq<char>) -> DraftView {
    plain_draft(kind, name, seq![input], g.shape_of(input))
}

/// Installs a node that works on each element of `input` and keeps its
/// shape.
fn unary(scope: &mut Scope, kind: OpKind, input: Tensor, name: &str) -> (r: Result<Tensor, Error>)
    requires
        old(scope).wf(),
    ensures
        final(scope).wf(),
        (final(scope)@, r) == old(scope)@.add(unary_draft(old(scope)@, kind, input, name@)),
        final(scope)@.grows_from(old(scope)@),
        kind.spec_output_rule() == crate::kind::OutputRule::SameAsInput(0) ==> (r matches Ok(t)
            ==> final(scope)@.knows(t, input.dtype, old(scope)@.shape_of(input))),
        r is Err ==> final(scope)@ == old(scope)@,
{
    let shape = scope.shape_hint(input);
    scope.add(Draft::plain(kind, name, single(input), shape))
}

/// Computes rectified linear: the larger of each element of `features` and
/// zero. The result has the type and the shape of `features`.
pub fn relu(scope: &mut Scope, features: Tensor, name: &str) -> (r: Result<Tensor, Error>)
    requires
        old(scope).wf(),
    ensures
        final(scope).wf(),
        (final(scope)@, r) == old(scope)@.add(
            unary_draft(old(scope)@, OpKind::Relu, features, name@),
        ),
        final(scope)@.grows_from(old(scope)@),
        r matches Ok(t) ==> final(scope)@.knows(
            t,
            features.dtype,
            old(scope)@.shape_of(features),
        ),
        r is Err ==> final(scope)@ == old(scope)@,
{
    unary(scope, OpKind::Relu, features, name)
}

/// The kind of the primitive that computes softmax on the last dimension of
/// a matrix, or its logarithm.
pub open spec fn primitive_kind(is_log_softmax: bool) -> OpKind {
    if is_log_softmax {
        OpKind::LogSoftmax
    } else {
        OpKind::Softmax
    }
}

/// The sizes of a tensor of the shape `s` with all dimensions but the last
/// flattened into one, where every size is known, there is at least one
/// dimension, and the product of the leading sizes fits 64 signed bits.
pub open spec fn flat_sizes(s: ShapeView) -> Option<Seq<i64>> {
    if fully_known(s) && shape_well_formed(s) && s->0.len() >= 1 && element_count(
        known_sizes(s).drop_last(),
    ) <= i64::MAX {
        Some(seq![element_count(known_sizes(s).drop_last()) as i64, known_sizes(s).last()])
    } else {
        None
    }
}

/// The sizes of a flattened tensor are two, and neither is negative.
pub proof fn lemma_flat_sizes(s: ShapeView)
    requires
        flat_sizes(s) is Some,
    ensures
        flat_sizes(s)->0.len() == 2,
        forall|i: int| 0 <= i < 2 ==> flat_sizes(s)->0[i] >= 0,
{
    let sizes = known_sizes(s);
    assert forall|i: int| 0 <= i < sizes.len() implies sizes[i] >= 0 by {
        assert(s->0[i] == Some(sizes[i]));
    }
    crate::shape::lemma_element_count_sign(sizes.drop_last());
}

/// Tells the sizes of a tensor of the shape `s` with all dimensions but the
/// last flattened into one.
pub fn flatten_sizes(s: &ShapeHint) -> (r: Option<Vec<i64>>)
    ensures
        crate::descriptor::value_view(r) == flat_sizes(s@),
{
    if !s.is_well_formed() {
        return None;
    }
    match s.sizes() {
        None => None,
        Some(mut sizes) => {
            match sizes.pop() {
                None => None,
                Some(last) => {
                    match count_elements(&sizes) {
                        None => None,
                        Some(product) => Some(pair(product, last)),
                    }
                },
            }
        },
    }
}

/// What flattening does where the sizes are not all known: the size of the
/// last dimension is cut out of the shape in the graph, and the tensor is
/// reshaped to a wildcard followed by that size.
pub open spec fn dynamic_flatten_model(g: GraphView, logits: Tensor) -> (
    GraphView,
    Result<Tensor, Error>,
) {
    let (g1, r1) = rank_model(g, logits, Seq::empty());
    match r1 {
        Err(e) => (g1, Err(e)),
        Ok(rk) => {
            let (g2, r2) = shape_model(g1, logits, None, Seq::empty());
            match r2 {
                Err(e) => (g2, Err(e)),
                Ok(shp) => {
                    let (g3, r3) = sub_model(g2, rk, OperandView::Int32(1), Seq::empty());
                    match r3 {
                        Err(e) => (g3, Err(e)),
                        Ok(last) => {
                            let (g4, r4) = expand_dims_model(g3, last, 0, Seq::empty());
                            match r4 {
                                Err(e) => (g4, Err(e)),
                                Ok(begin) => last_size_model(g4, logits, shp, begin),
                            }
                        },
                    }
                },
            }
        },
    }
}

/// The second half of [`dynamic_flatten_model`]: the size of the last
/// dimension is the slice of the shape `shp` of length one at `begin`.
pub open spec fn last_size_model(g: GraphView, logits: Tensor, shp: Tensor, begin: Tensor) -> (
    GraphView,
    Result<Tensor, Error>,
) {
    let (g1, r1) = slice_model(
        g,
        shp,
        OperandView::Tensor(begin),
        OperandView::Int32s(seq![1i32]),
        Seq::empty(),
    );
    match r1 {
        Err(e) => (g1, Err(e)),
        Ok(size) => {
            let (g2, r2) = operand_model(g1, OperandView::Int32s(seq![-1i32]), Seq::empty());
            match r2 {
                Err(e) => (g2, Err(e)),
                Ok(wild) => {
                    let (g3, r3) = concat_model(g2, seq![wild, size], 0, Seq::empty());
                    match r3 {
                        Err(e) => (g3, Err(e)),
                        Ok(target) => reshape_model(
                            g3,
                            logits,
                            OperandView::Tensor(target),
                            Seq::empty(),
                        ),
                    }
                },
            }
        },
    }
}

/// What [`flatten_outer_dims`] does and returns: where every size of
/// `logits` is known, one reshape to the product of the leading sizes and
/// the last size; else the reshape that is computed in the graph.
pub open spec fn flatten_model(g: GraphView, logits: Tensor) -> (GraphView, Result<Tensor, Error>) {
    match flat_sizes(g.shape_of(logits)) {
        Some(sizes) => reshape_model(g, logits, OperandView::Int64s(sizes), Seq::empty()),
        None => dynamic_flatten_model(g, logits),
    }
}

/// Installs the second half of the flattening that is computed in the
/// graph.
fn last_size(scope: &mut Scope, logits: Tensor, shp: Tensor, begin: Tensor) -> (r: Result<
    Tensor,
    Error,
>)
    requires
        old(scope).wf(),
    ensures
        final(scope).wf(),
        (final(scope)@, r) == last_size_model(old(scope)@, logits, shp, begin),
        r matches Ok(t) ==> final(scope)@.owns(t),
{
    proof {
        reveal_strlit("");
        assert(""@ =~= Seq::<char>::empty());
    }
    let size = match slice(scope, shp, Operand::Tensor(begin), Operand::Int32s(single(1i32)), "") {
        Ok(t) => t,
        Err(e) => {
            return Err(e);
        },
    };
    let wild = match Operand::Int32s(single(-1i32)).into_tensor(scope, "") {
        Ok(t) => t,
        Err(e) => {
            return Err(e);
        },
    };
    let target = match concat(scope, pair(wild, size), 0, "") {
        Ok(t) => t,
        Err(e) => {
            return Err(e);
        },
    };
    reshape(scope, logits, Operand::Tensor(target), "")
}

/// Installs the flattening that is computed in the graph.
fn dynamic_flatten(scope: &mut Scope, logits: Tensor) -> (r: Result<Tensor, Error>)
    requires
        old(scope).wf(),
    ensures
        final(scope).wf(),
        (final(scope)@, r) == dynamic_flatten_model(old(scope)@, logits),
        r matches Ok(t) ==> final(scope)@.owns(t),
{
    proof {
        reveal_strlit("");
        assert(""@ =~= Seq::<char>::empty());
    }
    let rk = match rank(scope, logits, "") {
        Ok(t) => t,
        Err(e) => {
            return Err(e);
        },
    };
    let shp = match shape(scope, logits, None, "") {
        Ok(t) => t,
        Err(e) => {
            return Err(e);
        },
    };
    let last = match crate::ops::math_ops::sub(scope, rk, Operand::Int32(1), "") {
        Ok(t) => t,
        Err(e) => {
            return Err(e);
        },
    };
    let begin = match expand_dims(scope, last, 0, "") {
        Ok(t) => t,
        Err(e) => {
            return Err(e);
        },
    };
    last_size(scope, logits, shp, begin)
}

/// Flattens all dimensions of `logits` but the last into one.
pub fn flatten_outer_dims(scope: &mut Scope, logits: Tensor) -> (r: Result<Tensor, Error>)
    requires
        old(scope).wf(),
    ensures
        final(scope).wf(),
        (final(scope)@, r) == flatten_model(old(scope)@, logits),
        r matches Ok(t) ==> {
            &&& final(scope)@.owns(t)
            &&& t.dtype == logits.dtype
            &&& (old(scope)@.owns(logits) && flat_sizes(old(scope)@.shape_of(logits)) is Some)
                ==> final(scope)@.shape_of(t) == crate::shape::exact_shape(
                flat_sizes(old(scope)@.shape_of(logits))->0,
            )
        },
{
    let ghost g = old(scope)@;
    proof {
        lemma_flatten_dtype(g, logits);
        if flat_sizes(g.shape_of(logits)) is Some {
            let v = flat_sizes(g.shape_of(logits))->0;
            lemma_flat_sizes(g.shape_of(logits));
            crate::infer::lemma_reshape_exact(
                g.shape_of(logits),
                v,
                crate::ops::operand_shape(g, OperandView::Int64s(v)),
            );
        }
    }
    proof {
        reveal_strlit("");
        assert(""@ =~= Seq::<char>::empty());
    }
    match flatten_sizes(&scope.shape_hint(logits)) {
        Some(sizes) => reshape(scope, logits, Operand::Int64s(sizes), ""),
        None => dynamic_flatten(scope, logits),
    }
}

/// Flattening keeps the data type.
pub proof fn lemma_flatten_dtype(g: GraphView, logits: Tensor)
    ensures
        flatten_model(g, logits).1 matches Ok(t) ==> t.dtype == logits.dtype,
{
    match flat_sizes(g.shape_of(logits)) {
        Some(sizes) => {
            lemma_reshape_dtype(g, logits, OperandView::Int64s(sizes), Seq::empty());
        },
        None => {
            let (g1, r1) = rank_model(g, logits, Seq::empty());
            if r1 is Ok {
                let (g2, r2) = shape_model(g1, logits, None, Seq::empty());
                if r2 is Ok {
                    let (g3, r3) = sub_model(g2, r1->Ok_0, OperandView::Int32(1), Seq::empty());
                    if r3 is Ok {
                        let (g4, r4) = expand_dims_model(g3, r3->Ok_0, 0, Seq::empty());
                        if r4 is Ok {
                            let (h1, s1) = slice_model(
                                g4,
                                r2->Ok_0,
                                OperandView::Tensor(r4->Ok_0),
                                OperandView::Int32s(seq![1i32]),
                                Seq::empty(),
                            );
                            if s1 is Ok {
                                let (h2, s2) = operand_model(
                                    h1,
                                    OperandView::Int32s(seq![-1i32]),
                                    Seq::empty(),
                                );
                                if s2 is Ok {
                                    let (h3, s3) = concat_model(
                                        h2,
                                        seq![s2->Ok_0, s1->Ok_0],
                                        0,
                                        Seq::empty(),
                                    );
                                    if s3 is Ok {
                                        lemma_reshape_dtype(
                                            h3,
                                            logits,
                                            OperandView::Tensor(s3->Ok_0),
                                            Seq::empty(),
                                        );
                                    }
                                }
                            }
                        }
                    }
                }
            }
        },
    }
}

/// The failure `r` marked as having arisen in the stage `stage`; a success
/// as it is.
pub open spec fn staged(stage: Stage, r: Result<Tensor, Error>) -> Result<Tensor, Error> {
    match r {
        Ok(t) => Ok(t),
        Err(e) => Err(Error::During(stage, Box::new(e))),
    }
}

/// What computing the index of the last dimension does and returns: the
/// rank that the tensor `rk` holds, less one.
pub open spec fn last_index_model(g: GraphView, rk: Tensor) -> (GraphView, Result<Tensor, Error>) {
    let (g1, r1) = g.add(scalar_draft(1));
    match r1 {
        Err(e) => (g1, Err(e)),
        Ok(one) => sub_model(g1, rk, OperandView::Tensor(one), Seq::empty()),
    }
}

/// What computing the pieces of the swapping permutation around the last
/// index does and returns: the numbers below `d`, the last index as a
/// vector, and the numbers between `d` and the last index, concatenated
/// with `d` itself.
pub open spec fn swap_pieces_model(g: GraphView, d: i32, last: Tensor) -> (
    GraphView,
    Result<Tensor, Error>,
) {
    let (g1, r1) = range_model(
        g,
        OperandView::Int32(0),
        OperandView::Int32(d),
        OperandView::Int32(1),
        Seq::empty(),
    );
    match r1 {
        Err(e) => (g1, Err(e)),
        Ok(before) => {
            let (g2, r2) = expand_dims_model(g1, last, 0, Seq::empty());
            match r2 {
                Err(e) => (g2, Err(e)),
                Ok(end) => {
                    let (g3, r3) = range_model(
                        g2,
                        OperandView::Int32((d + 1) as i32),
                        OperandView::Tensor(last),
                        OperandView::Int32(1),
                        Seq::empty(),
                    );
                    match r3 {
                        Err(e) => (g3, Err(e)),
                        Ok(between) => {
                            let (g4, r4) = operand_model(
                                g3,
                                OperandView::Int32s(seq![d]),
                                Seq::empty(),
                            );
                            match r4 {
                                Err(e) => (g4, Err(e)),
                                Ok(own) => concat_model(
                                    g4,
                                    seq![before, end, between, own],
                                    0,
                                    Seq::empty(),
                                ),
                            }
                        },
                    }
                },
            }
        },
    }
}

/// What swapping dimension `d` of `t` with its last dimension does and
/// returns. The permutation is computed in the graph: where `d` is the last
/// dimension, the numbers from zero up to the rank; else the numbers with
/// `d` and the last index exchanged. One transposition applies it.
pub open spec fn swap_model(
    g: GraphView,
    t: Tensor,
    d: i32,
    is_last: bool,
    rk: Tensor,
    last: Tensor,
    name: Seq<char>,
) -> (GraphView, Result<Tensor, Error>) {
    let (g1, r1) = if is_last {
        range_model(
            g,
            OperandView::Int32(0),
            OperandView::Tensor(rk),
            OperandView::Int32(1),
            Seq::empty(),
        )
    } else {
        swap_pieces_model(g, d, last)
    };
    match r1 {
        Err(e) => (g1, Err(e)),
        Ok(perm) => transpose_model(g1, t, Some(OperandView::Tensor(perm)), name),
    }
}

/// Swapping keeps the data type.
pub proof fn lemma_swap_dtype(
    g: GraphView,
    t: Tensor,
    d: i32,
    is_last: bool,
    rk: Tensor,
    last: Tensor,
    name: Seq<char>,
)
    ensures
        swap_model(g, t, d, is_last, rk, last, name).1 matches Ok(u) ==> u.dtype == t.dtype,
{
    let (g1, r1) = if is_last {
        range_model(
            g,
            OperandView::Int32(0),
            OperandView::Tensor(rk),
            OperandView::Int32(1),
            Seq::empty(),
        )
    } else {
        swap_pieces_model(g, d, last)
    };
    if r1 is Ok {
        lemma_transpose_dtype(g1, t, Some(OperandView::Tensor(r1->Ok_0)), name);
    }
}

/// What the last steps of the composite do and return: the result of the
/// primitive is reshaped to the shape that the tensor `shp` holds,
/// dimension `d` is swapped back, and `shape` is asserted of the result.
pub open spec fn restore_model(
    g: GraphView,
    out: Tensor,
    shp: Tensor,
    d: i32,
    is_last: bool,
    rk: Tensor,
    last: Tensor,
    name: Seq<char>,
    shape: ShapeView,
) -> (GraphView, Result<Tensor, Error>) {
    let (g1, r1) = reshape_model(g, out, OperandView::Tensor(shp), Seq::empty());
    match r1 {
        Err(e) => (g1, staged(Stage::Restore, r1)),
        Ok(back) => {
            let (g2, r2) = swap_model(g1, back, d, is_last, rk, last, name);
            match r2 {
                Err(e) => (g2, staged(Stage::Restore, r2)),
                Ok(result) => {
                    let (g3, r3) = g2.assert_shape(result, shape);
                    match r3 {
                        Err(e) => (g3, Err(Error::During(Stage::ShapeAssertion, Box::new(e)))),
                        Ok(_) => (g3, Ok(result)),
                    }
                },
            }
        },
    }
}

/// What the middle steps of the composite do and return: the shape of the
/// swapped tensor is recorded, its leading dimensions are flattened, the
/// primitive is installed under the name `name`, and the result is
/// restored.
pub open spec fn inner_model(
    g: GraphView,
    swapped: Tensor,
    is_log_softmax: bool,
    d: i32,
    is_last: bool,
    rk: Tensor,
    last: Tensor,
    name: Seq<char>,
    shape: ShapeView,
) -> (GraphView, Result<Tensor, Error>) {
    let (g1, r1) = shape_model(g, swapped, None, Seq::empty());
    match r1 {
        Err(e) => (g1, staged(Stage::ShapeQuery, r1)),
        Ok(shp) => {
            let (g2, r2) = flatten_model(g1, swapped);
            match r2 {
                Err(e) => (g2, staged(Stage::Flatten, r2)),
                Ok(flat) => {
                    let (g3, r3) = g2.add(
                        unary_draft(g2, primitive_kind(is_log_softmax), flat, name),
                    );
                    match r3 {
                        Err(e) => (g3, staged(Stage::Primitive, r3)),
                        Ok(out) => restore_model(g3, out, shp, d, is_last, rk, last, name, shape),
                    }
                },
            }
        },
    }
}

/// What the composite does and returns where the primitive cannot be applied
/// directly. In order: the rank is computed; the index of the last
/// dimension is computed; dimension `d` is swapped with the last; then the
/// middle and the last steps follow. A failure comes back marked with the
/// stage in which it arose.
pub open spec fn scaffold_model(
    g: GraphView,
    logits: Tensor,
    is_log_softmax: bool,
    d: i32,
    is_last: bool,
    name: Seq<char>,
) -> (GraphView, Result<Tensor, Error>) {
    let (g1, r1) = rank_model(g, logits, Seq::empty());
    match r1 {
        Err(e) => (g1, staged(Stage::RankComputation, r1)),
        Ok(rk) => {
            let (g2, r2) = last_index_model(g1, rk);
            match r2 {
                Err(e) => (g2, staged(Stage::AxisSwap, r2)),
                Ok(last) => {
                    let (g3, r3) = swap_model(g2, logits, d, is_last, rk, last, Seq::empty());
                    match r3 {
                        Err(e) => (g3, staged(Stage::AxisSwap, r3)),
                        Ok(swapped) => inner_model(
                            g3,
                            swapped,
                            is_log_softmax,
                            d,
                            is_last,
                            rk,
                            last,
                            name,
                            g.shape_of(logits),
                        ),
                    }
                },
            }
        },
    }
}

/// Whether `dim` names a dimension of a tensor of rank `rank`: one of its
/// dimensions by position, or the last one as `-1`.
pub open spec fn names_dimension(dim: i32, rank: i32) -> bool {
    rank >= 1 && (dim == -1 || 0 <= dim < rank)
}

/// The position of the dimension that `dim` names in a tensor of rank
/// `rank`.
pub open spec fn target(dim: i32, rank: i32) -> i32 {
    if dim == -1 {
        (rank - 1) as i32
    } else {
        dim
    }
}

/// What [`softmax_helper`] does and returns. The rank of `logits` must be
/// known at build time, and `dim` must name one of its dimensions; else
/// nothing is installed. Where `logits` is a matrix and `dim` names its
/// last dimension, the primitive is installed directly, under the name
/// `name`. Else the composite is installed.
pub open spec fn softmax_model(
    g: GraphView,
    logits: Tensor,
    is_log_softmax: bool,
    dim: i32,
    name: Seq<char>,
) -> (GraphView, Result<Tensor, Error>) {
    match static_rank(g.shape_of(logits)) {
        None => (g, Err(Error::UnknownRank)),
        Some(n) => if !names_dimension(dim, n) {
            (g, Err(Error::AxisOutOfRange))
        } else if n == 2 && target(dim, n) == 1 {
            g.add(unary_draft(g, primitive_kind(is_log_softmax), logits, name))
        } else {
            scaffold_model(
                g,
                logits,
                is_log_softmax,
                target(dim, n),
                target(dim, n) == n - 1,
                name,
            )
        },
    }
}

/// Installs the computation of the index of the last dimension.
fn last_index(scope: &mut Scope, rk: Tensor) -> (r: Result<Tensor, Error>)
    requires
        old(scope).wf(),
    ensures
        final(scope).wf(),
        (final(scope)@, r) == last_index_model(old(scope)@, rk),
{
    proof {
        reveal_strlit("");
        assert(""@ =~= Seq::<char>::empty());
    }
    let one = match scalar(scope, 1) {
        Ok(t) => t,
        Err(e) => {
            return Err(e);
        },
    };
    crate::ops::math_ops::sub(scope, rk, Operand::Tensor(one), "")
}

/// Installs the pieces of the swapping permutation and concatenates them.
fn swap_pieces(scope: &mut Scope, d: i32, last: Tensor) -> (r: Result<Tensor, Error>)
    requires
        old(scope).wf(),
        d < i32::MAX,
    ensures
        final(scope).wf(),
        (final(scope)@, r) == swap_pieces_model(old(scope)@, d, last),
{
    proof {
        reveal_strlit("");
        assert(""@ =~= Seq::<char>::empty());
    }
    let before = match range(scope, Operand::Int32(0), Operand::Int32(d), Operand::Int32(1), "") {
        Ok(t) => t,
        Err(e) => {
            return Err(e);
        },
    };
    let end = match expand_dims(scope, last, 0, "") {
        Ok(t) => t,
        Err(e) => {
            return Err(e);
        },
    };
    let between = match range(
        scope,
        Operand::Int32(d + 1),
        Operand::Tensor(last),
        Operand::Int32(1),
        "",
    ) {
        Ok(t) => t,
        Err(e) => {
            return Err(e);
        },
    };
    let own = match Operand::Int32s(single(d)).into_tensor(scope, "") {
        Ok(t) => t,
        Err(e) => {
            return Err(e);
        },
    };
    let mut pieces: Vec<Tensor> = Vec::new();
    pieces.push(before);
    pieces.push(end);
    pieces.push(between);
    pieces.push(own);
    assert(pieces@ =~= seq![before, end, between, own]);
    concat(scope, pieces, 0, "")
}

/// Swaps dimension `d` of `t` with its last dimension.
fn swap_axis(
    scope: &mut Scope,
    t: Tensor,
    d: i32,
    is_last: bool,
    rk: Tensor,
    last: Tensor,
    name: &str,
) -> (r: Result<Tensor, Error>)
    requires
        old(scope).wf(),
        d < i32::MAX,
    ensures
        final(scope).wf(),
        (final(scope)@, r) == swap_model(old(scope)@, t, d, is_last, rk, last, name@),
{
    proof {
        reveal_strlit("");
        assert(""@ =~= Seq::<char>::empty());
    }
    let computed = if is_last {
        range(scope, Operand::Int32(0), Operand::Tensor(rk), Operand::Int32(1), "")
    } else {
        swap_pieces(scope, d, last)
    };
    let perm = match computed {
        Ok(t) => t,
        Err(e) => {
            return Err(e);
        },
    };
    transpose(scope, t, Some(Operand::Tensor(perm)), name)
}

/// Installs the last steps of the composite.
fn restore(
    scope: &mut Scope,
    out: Tensor,
    shp: Tensor,
    d: i32,
    is_last: bool,
    rk: Tensor,
    last: Tensor,
    name: &str,
    known: &ShapeHint,
) -> (r: Result<Tensor, Error>)
    requires
        old(scope).wf(),
        d < i32::MAX,
    ensures
        final(scope).wf(),
        (final(scope)@, r) == restore_model(
            old(scope)@,
            out,
            shp,
            d,
            is_last,
            rk,
            last,
            name@,
            known@,
        ),
        r matches Ok(t) ==> {
            &&& final(scope)@.owns(t)
            &&& t.dtype == out.dtype
            &&& refines(final(scope)@.shape_of(t), known@)
        },
{
    proof {
        reveal_strlit("");
        assert(""@ =~= Seq::<char>::empty());
    }
    let ghost g0 = scope@;
    let back = match reshape(scope, out, Operand::Tensor(shp), "") {
        Ok(t) => t,
        Err(e) => {
            return Err(Error::During(Stage::Restore, Box::new(e)));
        },
    };
    let ghost g1 = scope@;
    let result = match swap_axis(scope, back, d, is_last, rk, last, name) {
        Ok(t) => t,
        Err(e) => {
            return Err(Error::During(Stage::Restore, Box::new(e)));
        },
    };
    let ghost g2 = scope@;
    proof {
        lemma_reshape_dtype(g0, out, OperandView::Tensor(shp), Seq::empty());
        lemma_swap_dtype(g1, back, d, is_last, rk, last, name@);
        scope.lemma_wf();
    }
    match scope.assert_shape(result, known) {
        Ok(()) => {
            proof {
                g2.lemma_shaped(result, known@);
                lemma_merged_refines(g2.shape_of(result), known@);
            }
            Ok(result)
        },
        Err(e) => Err(Error::During(Stage::ShapeAssertion, Box::new(e))),
    }
}

/// Installs the middle steps of the composite.
fn inner(
    scope: &mut Scope,
    swapped: Tensor,
    is_log_softmax: bool,
    d: i32,
    is_last: bool,
    rk: Tensor,
    last: Tensor,
    name: &str,
    known: &ShapeHint,
) -> (r: Result<Tensor, Error>)
    requires
        old(scope).wf(),
        d < i32::MAX,
    ensures
        final(scope).wf(),
        (final(scope)@, r) == inner_model(
            old(scope)@,
            swapped,
            is_log_softmax,
            d,
            is_last,
            rk,
            last,
            name@,
            known@,
        ),
        r matches Ok(t) ==> {
            &&& final(scope)@.owns(t)
            &&& t.dtype == swapped.dtype
            &&& refines(final(scope)@.shape_of(t), known@)
        },
{
    proof {
        reveal_strlit("");
        assert(""@ =~= Seq::<char>::empty());
    }
    let shp = match shape(scope, swapped, None, "") {
        Ok(t) => t,
        Err(e) => {
            return Err(Error::During(Stage::ShapeQuery, Box::new(e)));
        },
    };
    let ghost g1 = scope@;
    let flat = match flatten_outer_dims(scope, swapped) {
        Ok(t) => t,
        Err(e) => {
            return Err(Error::During(Stage::Flatten, Box::new(e)));
        },
    };
    let ghost g2 = scope@;
    let kind = if is_log_softmax {
        OpKind::LogSoftmax
    } else {
        OpKind::Softmax
    };
    let out = match unary(scope, kind, flat, name) {
        Ok(t) => t,
        Err(e) => {
            return Err(Error::During(Stage::Primitive, Box::new(e)));
        },
    };
    proof {
        lemma_flatten_dtype(g1, swapped);
        g2.lemma_add(unary_draft(g2, kind, flat, name@));
    }
    restore(scope, out, shp, d, is_last, rk, last, name, known)
}

/// Installs the composite.
fn scaffold(
    scope: &mut Scope,
    logits: Tensor,
    is_log_softmax: bool,
    d: i32,
    is_last: bool,
    name: &str,
) -> (r: Result<Tensor, Error>)
    requires
        old(scope).wf(),
        d < i32::MAX,
    ensures
        final(scope).wf(),
        (final(scope)@, r) == scaffold_model(old(scope)@, logits, is_log_softmax, d, is_last, name@),
        r matches Ok(t) ==> {
            &&& final(scope)@.owns(t)
            &&& t.dtype == logits.dtype
            &&& refines(final(scope)@.shape_of(t), old(scope)@.shape_of(logits))
        },
{
    proof {
        reveal_strlit("");
    }
    let known = scope.shape_hint(logits);
    let rk = match rank(scope, logits, "") {
        Ok(t) => t,
        Err(e) => {
            return Err(Error::During(Stage::RankComputation, Box::new(e)));
        },
    };
    let last = match last_index(scope, rk) {
        Ok(t) => t,
        Err(e) => {
            return Err(Error::During(Stage::AxisSwap, Box::new(e)));
        },
    };
    let ghost g2 = scope@;
    let swapped = match swap_axis(scope, logits, d, is_last, rk, last, "") {
        Ok(t) => t,
        Err(e) => {
            return Err(Error::During(Stage::AxisSwap, Box::new(e)));
        },
    };
    proof {
        lemma_swap_dtype(g2, logits, d, is_last, rk, last, Seq::empty());
    }
    inner(scope, swapped, is_log_softmax, d, is_last, rk, last, name, &known)
}

/// Computes softmax, or its logarithm, of `logits` along dimension `dim`,
/// which may be given as `-1` for the last.
///
/// The primitive works on the last dimension of a matrix. Where `logits` is
/// a matrix and `dim` names its last dimension, it is installed directly.
/// Else `logits` is transposed so that `dim` comes last and flattened to a
/// matrix, the primitive is applied, and the result is brought back to the
/// layout of `logits`; since reshaping and transposing lose what was known
/// of the shape, the shape of `logits` is asserted of the result at the
/// end.
///
/// The result has the data type of `logits`, and everything that is known
/// of the shape of `logits` is known of the shape of the result.
pub fn softmax_helper(
    scope: &mut Scope,
    logits: Tensor,
    is_log_softmax: bool,
    dim: i32,
    name: &str,
) -> (r: Result<Tensor, Error>)
    requires
        old(scope).wf(),
    ensures
        final(scope).wf(),
        (final(scope)@, r) == softmax_model(old(scope)@, logits, is_log_softmax, dim, name@),
        r matches Ok(t) ==> {
            &&& final(scope)@.owns(t)
            &&& t.dtype == logits.dtype
            &&& refines(final(scope)@.shape_of(t), old(scope)@.shape_of(logits))
        },
{
    let n = match infer_rank(&scope.shape_hint(logits)) {
        None => {
            return Err(Error::UnknownRank);
        },
        Some(n) => n,
    };
    if !(n >= 1 && (dim == -1 || (0 <= dim && dim < n))) {
        return Err(Error::AxisOutOfRange);
    }
    let d = if dim == -1 {
        n - 1
    } else {
        dim
    };
    if n == 2 && d == 1 {
        let kind = if is_log_softmax {
            OpKind::LogSoftmax
        } else {
            OpKind::Softmax
        };
        let ghost g = scope@;
        let r = unary(scope, kind, logits, name);
        proof {
            let draft = unary_draft(g, kind, logits, name@);
            g.lemma_add(draft);
            if r is Ok {
                old(scope).lemma_wf();
                scope.lemma_wf();
                g.lemma_added_fitting(draft);
            }
        }
        return r;
    }
    scaffold(scope, logits, is_log_softmax, d, d == n - 1, name)
}

/// Computes log softmax activations of `logits` along dimension `dim`: the
/// logits less the logarithm of the sum of their exponentials.
pub fn log_softmax(scope: &mut Scope, logits: Tensor, dim: i32, name: &str) -> (r: Result<
    Tensor,
    Error,
>)
    requires
        old(scope).wf(),
    ensures
        final(scope).wf(),
        (final(scope)@, r) == softmax_model(old(scope)@, logits, true, dim, name@),
        r matches Ok(t) ==> {
            &&& final(scope)@.owns(t)
            &&& t.dtype == logits.dtype
            &&& refines(final(scope)@.shape_of(t), old(scope)@.shape_of(logits))
        },
{
    softmax_helper(scope, logits, true, dim, name)
}

/// Computes softmax activations of `logits` along dimension `dim`: the
/// exponentials of the logits divided by their sum.
pub fn softmax(scope: &mut Scope, logits: Tensor, dim: i32, name: &str) -> (r: Result<
    Tensor,
    Error,
>)
    requires
        old(scope).wf(),
    ensures
        final(scope).wf(),
        (final(scope)@, r) == softmax_model(old(scope)@, logits, false, dim, name@),
        r matches Ok(t) ==> {
            &&& final(scope)@.owns(t)
            &&& t.dtype == logits.dtype
            &&& refines(final(scope)@.shape_of(t), old(scope)@.shape_of(logits))
        },
{
    softmax_helper(scope, logits, false, dim, name)
}

} // verus!
