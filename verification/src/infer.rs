//! What is known at build time of the results of operations: the rules by
//! which a shape or a value follows from the shapes and values of the
//! inputs.
//!
//! Every rule is cautious. Where the inputs leave a size open, the result
//! leaves it open; where they leave the rank open, or do not fit the
//! operation, nothing is claimed of the result.

use vstd::prelude::*;
use crate::dtype::DataType;
use crate::shape::{
    copied, count_elements, element_count, exact_shape, fully_known, known_sizes,
    lemma_element_count_sign, shape_well_formed, ShapeHint, ShapeView,
};

verus! {

/// The position that `axis` names among `rank` dimensions, counting from the
/// end where it is negative; `None` where it names none.
pub open spec fn normalized(axis: int, rank: int) -> Option<int> {
    if 0 <= axis < rank {
        Some(axis)
    } else if -rank <= axis < 0 {
        Some(axis + rank)
    } else {
        None
    }
}

/// Tells the position that `axis` names among `rank` dimensions.
pub fn normalize(axis: i64, rank: usize) -> (r: Option<usize>)
    ensures
        r is Some <==> normalized(axis as int, rank as int) is Some,
        r matches Some(p) ==> normalized(axis as int, rank as int) == Some(p as int),
{
    if axis >= 0 {
        if (axis as u64) < (rank as u64) {
            Some(axis as usize)
        } else {
            None
        }
    } else {
        let back = (-(axis + 1)) as u64 + 1;
        if back <= rank as u64 {
            Some((rank as u64 - back) as usize)
        } else {
            None
        }
    }
}

/// What is known of a size that two inputs must share: what either knows,
/// and nothing where they disagree.
pub open spec fn shared_size(a: Option<i64>, b: Option<i64>) -> Option<i64> {
    if a is None {
        b
    } else if b is None {
        a
    } else if a == b {
        a
    } else {
        None
    }
}

/// What is known of the sum of two sizes: the sum where both are known and
/// it fits, else nothing.
pub open spec fn summed_size(a: Option<i64>, b: Option<i64>) -> Option<i64> {
    if a is Some && b is Some && a->0 + b->0 <= i64::MAX && a->0 + b->0 >= i64::MIN {
        Some((a->0 + b->0) as i64)
    } else {
        None
    }
}

/// The sizes of two inputs joined along `axis`: summed there, shared
/// elsewhere.
pub open spec fn joined_sizes(a: Seq<Option<i64>>, b: Seq<Option<i64>>, axis: int) -> Seq<
    Option<i64>,
> {
    Seq::new(
        a.len(),
        |d: int|
            if d == axis {
                summed_size(a[d], b[d])
            } else {
                shared_size(a[d], b[d])
            },
    )
}

/// Whether every shape has the rank `rank`.
pub open spec fn all_of_rank(shapes: Seq<ShapeView>, rank: nat) -> bool {
    forall|i: int| 0 <= i < shapes.len() ==> (#[trigger] shapes[i]) is Some && shapes[i]->0.len() == rank
}

/// The sizes of all of `shapes` joined along `axis`, one after the other.
pub open spec fn concat_sizes(shapes: Seq<ShapeView>, axis: int) -> Seq<Option<i64>>
    recommends
        shapes.len() > 0,
    decreases shapes.len(),
{
    if shapes.len() <= 1 {
        shapes[0]->0
    } else {
        joined_sizes(concat_sizes(shapes.drop_last(), axis), shapes.last()->0, axis)
    }
}

/// The shape of tensors of the shapes `shapes` concatenated along `axis`:
/// known where there is at least one tensor, they all have one known rank
/// and `axis` names a dimension of it.
pub open spec fn concat_shape(shapes: Seq<ShapeView>, axis: int) -> ShapeView {
    if shapes.len() > 0 && shapes[0] is Some && all_of_rank(shapes, shapes[0]->0.len())
        && normalized(axis, shapes[0]->0.len() as int) is Some {
        Some(concat_sizes(shapes, normalized(axis, shapes[0]->0.len() as int)->0))
    } else {
        None
    }
}

/// The sizes joined along an axis have the rank of the first shape.
pub proof fn lemma_concat_sizes_len(shapes: Seq<ShapeView>, axis: int, rank: nat)
    requires
        shapes.len() > 0,
        all_of_rank(shapes, rank),
    ensures
        concat_sizes(shapes, axis).len() == rank,
    decreases shapes.len(),
{
    if shapes.len() > 1 {
        let front = shapes.drop_last();
        lemma_concat_sizes_len(front, axis, rank);
    }
}

/// Concatenating well-formed shapes gives a well-formed shape.
pub proof fn lemma_concat_well_formed(shapes: Seq<ShapeView>, axis: int)
    requires
        forall|i: int| 0 <= i < shapes.len() ==> shape_well_formed(#[trigger] shapes[i]),
    ensures
        shape_well_formed(concat_shape(shapes, axis)),
{
    if concat_shape(shapes, axis) is Some {
        let rank = shapes[0]->0.len();
        let a = normalized(axis, rank as int)->0;
        lemma_concat_sizes_nonneg(shapes, a, rank);
    }
}

/// No size joined from well-formed shapes is negative.
pub proof fn lemma_concat_sizes_nonneg(shapes: Seq<ShapeView>, axis: int, rank: nat)
    requires
        shapes.len() > 0,
        all_of_rank(shapes, rank),
        forall|i: int| 0 <= i < shapes.len() ==> shape_well_formed(#[trigger] shapes[i]),
    ensures
        concat_sizes(shapes, axis).len() == rank,
        forall|d: int|
            0 <= d < rank ==> ((#[trigger] concat_sizes(shapes, axis)[d]) matches Some(v) ==> v
                >= 0),
    decreases shapes.len(),
{
    lemma_concat_sizes_len(shapes, axis, rank);
    if shapes.len() > 1 {
        let front = shapes.drop_last();
        lemma_concat_sizes_nonneg(front, axis, rank);
    }
}

/// The views of `shapes`, in order.
pub open spec fn shape_views(shapes: Seq<ShapeHint>) -> Seq<ShapeView> {
    Seq::new(shapes.len(), |i: int| shapes[i]@)
}

/// Tells the shape of tensors of the shapes `shapes` concatenated along
/// `axis`.
pub fn infer_concat(shapes: &Vec<ShapeHint>, axis: i32) -> (r: ShapeHint)
    ensures
        r@ == concat_shape(shape_views(shapes@), axis as int),
{
    let ghost sv = shape_views(shapes@);
    if shapes.len() == 0 {
        return ShapeHint::unknown();
    }
    let rank = match shapes[0].rank() {
        None => {
            return ShapeHint::unknown();
        },
        Some(r) => r,
    };
    let mut i: usize = 0;
    while i < shapes.len()
        invariant
            i <= shapes.len(),
            sv == shape_views(shapes@),
            sv[0] is Some && sv[0]->0.len() == rank,
            forall|j: int| 0 <= j < i ==> (#[trigger] sv[j]) is Some && sv[j]->0.len() == rank,
        decreases shapes.len() - i,
    {
        match shapes[i].rank() {
            Some(r) => {
                if r != rank {
                    assert(sv[i as int]->0.len() != rank);
                    return ShapeHint::unknown();
                }
            },
            None => {
                return ShapeHint::unknown();
            },
        }
        i += 1;
    }
    let at = match normalize(axis as i64, rank) {
        None => {
            return ShapeHint::unknown();
        },
        Some(a) => a,
    };
    let mut acc: Vec<Option<i64>> = match &shapes[0].dims {
        Some(v) => crate::shape::copied(v),
        None => Vec::new(),
    };
    let mut k: usize = 1;
    while k < shapes.len()
        invariant
            1 <= k <= shapes.len(),
            sv == shape_views(shapes@),
            all_of_rank(sv, rank as nat),
            acc@.len() == rank,
            at < rank,
            acc@ == concat_sizes(sv.take(k as int), at as int),
        decreases shapes.len() - k,
    {
        let next = match &shapes[k].dims {
            Some(v) => v,
            None => {
                assert(sv[k as int] is Some);
                assert(false);
                return ShapeHint::unknown();
            },
        };
        let mut joined: Vec<Option<i64>> = Vec::new();
        let mut d: usize = 0;
        while d < rank
            invariant
                d <= rank,
                acc@.len() == rank,
                next@.len() == rank,
                joined@.len() == d,
                forall|e: int| 0 <= e < d ==> joined@[e] == joined_sizes(acc@, next@, at as int)[e],
            decreases rank - d,
        {
            let a = acc[d];
            let b = next[d];
            let v = if d == at {
                match (a, b) {
                    (Some(x), Some(y)) => x.checked_add(y),
                    _ => None,
                }
            } else {
                match (a, b) {
                    (None, _) => b,
                    (_, None) => a,
                    (Some(x), Some(y)) => if x == y {
                        a
                    } else {
                        None
                    },
                }
            };
            joined.push(v);
            d += 1;
        }
        proof {
            assert(sv.take(k + 1).drop_last() =~= sv.take(k as int));
        }
        acc = joined;
        k += 1;
    }
    assert(sv.take(k as int) =~= sv);
    ShapeHint { dims: Some(acc) }
}

/// The size that one entry of a reshape target asks for: the entry itself
/// where it is a size; for the wildcard `-1`, the number of elements of the
/// input divided by the product of the other entries, where both are known
/// and it divides evenly; else nothing.
pub open spec fn reshaped_size(entry: i64, input: Option<int>, others: Option<int>) -> Option<i64> {
    if entry >= 0 {
        Some(entry)
    } else if entry == -1 && input is Some && others is Some && others->0 > 0 && input->0
        % others->0 == 0 {
        Some((input->0 / others->0) as i64)
    } else {
        None
    }
}

/// The number of entries of `target` that are not sizes.
pub open spec fn open_entries(target: Seq<i64>) -> nat
    decreases target.len(),
{
    if target.len() == 0 {
        0
    } else {
        open_entries(target.drop_last()) + if target.last() < 0 {
            1nat
        } else {
            0nat
        }
    }
}

/// The entries of `target` with each entry that is not a size replaced by
/// one.
pub open spec fn closed_sizes(target: Seq<i64>) -> Seq<i64> {
    Seq::new(
        target.len(),
        |i: int|
            if target[i] < 0 {
                1i64
            } else {
                target[i]
            },
    )
}

/// The product of the entries of `target` that are sizes, where the target
/// has exactly one entry that is not a size and the product fits 64 signed
/// bits.
pub open spec fn others_product(target: Seq<i64>) -> Option<int> {
    if open_entries(target) == 1 && element_count(closed_sizes(target)) <= i64::MAX {
        Some(element_count(closed_sizes(target)))
    } else {
        None
    }
}

/// The number of elements of a tensor of the shape `s`, where it is fully
/// known, no size is negative, and the number fits 64 signed bits.
pub open spec fn static_count(s: ShapeView) -> Option<int> {
    if fully_known(s) && shape_well_formed(s) && element_count(known_sizes(s)) <= i64::MAX {
        Some(element_count(known_sizes(s)))
    } else {
        None
    }
}

/// The shape of a tensor of the shape `input` reshaped to `target`: each
/// entry that is a size, the size that a single wildcard stands for where
/// it can be computed, and nothing for the other entries. Where the target
/// is not known, the result has as many dimensions as the target has
/// entries, if that is known and a shape of that rank fits in memory, and
/// nothing is known of their sizes.
pub open spec fn reshape_shape(input: ShapeView, target: Option<Seq<i64>>, entries: ShapeView) -> ShapeView {
    match target {
        Some(t) => Some(
            Seq::new(
                t.len(),
                |i: int| reshaped_size(t[i], static_count(input), others_product(t)),
            ),
        ),
        None => if entries is Some && entries->0.len() == 1 && entries->0[0] is Some && 0
            <= entries->0[0]->0 <= usize::MAX {
            Some(Seq::new(entries->0[0]->0 as nat, |i: int| None::<i64>))
        } else {
            None
        },
    }
}

/// A reshape target without a wildcard is the shape of the result.
pub proof fn lemma_reshape_exact(input: ShapeView, target: Seq<i64>, entries: ShapeView)
    requires
        forall|i: int| 0 <= i < target.len() ==> target[i] >= 0,
    ensures
        reshape_shape(input, Some(target), entries) == exact_shape(target),
{
}

/// The shape of a reshaped tensor is well-formed.
pub proof fn lemma_reshape_well_formed(input: ShapeView, target: Option<Seq<i64>>, entries: ShapeView)
    ensures
        shape_well_formed(reshape_shape(input, target, entries)),
{
    match target {
        Some(t) => {
            let r = reshape_shape(input, target, entries)->0;
            assert forall|i: int| 0 <= i < r.len() implies (#[trigger] r[i] matches Some(d) ==> d
                >= 0) by {
                if t[i] < 0 && r[i] is Some {
                    let c = static_count(input)->0;
                    let o = others_product(t)->0;
                    lemma_static_count(input);
                    lemma_quotient(c, o);
                }
            }
        },
        None => {},
    }
}

/// A static count is the count of non-negative sizes, so it is not
/// negative.
pub proof fn lemma_static_count(s: ShapeView)
    requires
        static_count(s) is Some,
    ensures
        0 <= static_count(s)->0 <= i64::MAX,
{
    let sizes = known_sizes(s);
    lemma_element_count_sign(sizes);
}

/// A non-negative number divided by a positive one lies between zero and
/// the number.
pub proof fn lemma_quotient(c: int, o: int)
    by (nonlinear_arith)
    requires
        c >= 0,
        o > 0,
    ensures
        0 <= c / o <= c,
{
}

/// The number of elements of a tensor of the shape `s`, where it is fully
/// known, no size is negative, and the number fits 64 signed bits.
pub fn count_static(s: &ShapeHint) -> (r: Option<i64>)
    ensures
        r is Some <==> static_count(s@) is Some,
        r matches Some(c) ==> static_count(s@) == Some(c as int),
{
    match s.sizes() {
        None => None,
        Some(sizes) => {
            proof {
                if forall|i: int| 0 <= i < sizes.len() ==> sizes@[i] >= 0 {
                    assert forall|i: int| 0 <= i < s@->0.len() implies (#[trigger] s@->0[i] matches Some(
                        d,
                    ) ==> d >= 0) by {
                        assert(s@->0[i] == Some(sizes@[i]));
                    }
                }
            }
            count_elements(&sizes)
        },
    }
}

/// Tells the shape of a tensor of the shape `input` reshaped to `target`.
pub fn infer_reshape(input: &ShapeHint, target: &Option<Vec<i64>>, entries: &ShapeHint) -> (r:
    ShapeHint)
    ensures
        r@ == reshape_shape(input@, crate::descriptor::value_view(*target), entries@),
{
    match target {
        None => {
            match &entries.dims {
                Some(v) => {
                    if v.len() == 1 {
                        match v[0] {
                            Some(n) => {
                                if n >= 0 && (n as u64) <= (usize::MAX as u64) {
                                    ShapeHint::of_rank(n as usize)
                                } else {
                                    ShapeHint::unknown()
                                }
                            },
                            None => ShapeHint::unknown(),
                        }
                    } else {
                        ShapeHint::unknown()
                    }
                },
                None => ShapeHint::unknown(),
            }
        },
        Some(t) => {
            let mut open: usize = 0;
            let mut closed: Vec<i64> = Vec::new();
            let mut i: usize = 0;
            while i < t.len()
                invariant
                    i <= t.len(),
                    open <= i,
                    open == open_entries(t@.take(i as int)),
                    closed@ == closed_sizes(t@.take(i as int)),
                decreases t.len() - i,
            {
                proof {
                    assert(t@.take(i + 1).drop_last() =~= t@.take(i as int));
                }
                if t[i] < 0 {
                    open += 1;
                    closed.push(1);
                } else {
                    closed.push(t[i]);
                }
                i += 1;
            }
            assert(t@.take(i as int) =~= t@);
            let others: Option<i64> = if open == 1 {
                count_elements(&closed)
            } else {
                None
            };
            let count = count_static(input);
            let mut dims: Vec<Option<i64>> = Vec::new();
            let mut k: usize = 0;
            while k < t.len()
                invariant
                    k <= t.len(),
                    dims@.len() == k,
                    match others {
                        Some(o) => others_product(t@) == Some(o as int),
                        None => others_product(t@) is None,
                    },
                    match count {
                        Some(c) => static_count(input@) == Some(c as int),
                        None => static_count(input@) is None,
                    },
                    forall|j: int|
                        0 <= j < k ==> dims@[j] == reshaped_size(
                            t@[j],
                            static_count(input@),
                            others_product(t@),
                        ),
                decreases t.len() - k,
            {
                let e = t[k];
                let size = if e >= 0 {
                    Some(e)
                } else if e == -1 {
                    match (count, others) {
                        (Some(c), Some(o)) => {
                            proof {
                                lemma_static_count(input@);
                                if o > 0 {
                                    lemma_quotient(c as int, o as int);
                                }
                            }
                            if o > 0 && c % o == 0 {
                                Some(c / o)
                            } else {
                                None
                            }
                        },
                        _ => None,
                    }
                } else {
                    None
                };
                dims.push(size);
                k += 1;
            }
            ShapeHint { dims: Some(dims) }
        },
    }
}

/// The shape of a scalar.
pub open spec fn scalar_shape() -> ShapeView {
    Some(Seq::empty())
}

/// The shape of the vector that holds the shape of a tensor of the shape
/// `input`: one entry for each dimension, where their number is known.
pub open spec fn shape_of_shape(input: ShapeView) -> ShapeView {
    match input {
        Some(d) => if d.len() <= i64::MAX {
            Some(seq![Some(d.len() as i64)])
        } else {
            Some(seq![None])
        },
        None => Some(seq![None]),
    }
}

/// Whether every one of `sizes` fits the integer type `t`.
pub open spec fn sizes_fit(sizes: Seq<i64>, t: DataType) -> bool {
    t == DataType::Int64 || (t == DataType::Int32 && forall|i: int|
        0 <= i < sizes.len() ==> (#[trigger] sizes[i]) <= i32::MAX)
}

/// The elements of the vector that holds the shape of a tensor of the shape
/// `input`, as integers of type `t`: the sizes, where each is known, none is
/// negative and each fits `t`.
pub open spec fn value_of_shape(input: ShapeView, t: DataType) -> Option<Seq<i64>> {
    if fully_known(input) && shape_well_formed(input) && input->0.len() <= i64::MAX && sizes_fit(
        known_sizes(input),
        t,
    ) {
        Some(known_sizes(input))
    } else {
        None
    }
}

/// The number of elements of a tensor of the shape `input` as the one
/// element of a 32-bit scalar, where it is known and fits.
pub open spec fn value_of_size(input: ShapeView) -> Option<Seq<i64>> {
    if static_count(input) is Some && static_count(input)->0 <= i32::MAX {
        Some(seq![static_count(input)->0 as i64])
    } else {
        None
    }
}

/// The rank of a tensor of the shape `input` as a 32-bit integer, where it
/// is known and fits.
pub open spec fn static_rank(input: ShapeView) -> Option<i32> {
    match input {
        Some(d) => if d.len() <= i32::MAX {
            Some(d.len() as i32)
        } else {
            None
        },
        None => None,
    }
}

/// The shape of the slices of a tensor of the shape `params` gathered along
/// its first dimension at indices of the shape `indices`: the shape of the
/// indices followed by the other dimensions of `params`.
pub open spec fn gather_shape(params: ShapeView, indices: ShapeView) -> ShapeView {
    if params is Some && indices is Some && params->0.len() >= 1 {
        Some(indices->0 + params->0.skip(1))
    } else {
        None
    }
}

/// The elements gathered from the vector `params` at `indices`, where both
/// are known and every index lies in the vector.
pub open spec fn gather_value(
    params: Option<Seq<i64>>,
    rank: Option<nat>,
    indices: Option<Seq<i64>>,
) -> Option<Seq<i64>> {
    if params is Some && rank == Some(1nat) && indices is Some && forall|i: int|
        0 <= i < indices->0.len() ==> 0 <= (#[trigger] indices->0[i]) < params->0.len() {
        Some(Seq::new(indices->0.len(), |i: int| params->0[indices->0[i] as int]))
    } else {
        None
    }
}

/// The shape of a tensor of the shape `input` with a dimension of size one
/// inserted at `axis`, which counts from the end where it is negative.
pub open spec fn expand_shape(input: ShapeView, axis: int) -> ShapeView {
    match input {
        Some(d) => if 0 <= axis <= d.len() {
            Some(d.insert(axis, Some(1i64)))
        } else if -1 - d.len() <= axis < 0 {
            Some(d.insert(axis + d.len() + 1, Some(1i64)))
        } else {
            None
        },
        None => None,
    }
}

/// The shape of a tensor filled to the sizes `sizes`: exactly these, where
/// they are known and none is negative; as many dimensions as the vector of
/// sizes has entries, where only that is known.
pub open spec fn fill_shape(sizes: Option<Seq<i64>>, entries: ShapeView) -> ShapeView {
    match sizes {
        Some(v) => if forall|i: int| 0 <= i < v.len() ==> (#[trigger] v[i]) >= 0 {
            exact_shape(v)
        } else {
            None
        },
        None => reshape_shape(None, None, entries),
    }
}

/// Whether `perm` names each of `rank` dimensions within range.
pub open spec fn within_rank(perm: Seq<i64>, rank: nat) -> bool {
    perm.len() == rank && forall|i: int| 0 <= i < perm.len() ==> 0 <= (#[trigger] perm[i]) < rank
}

/// The shape of a tensor of the shape `input` with its dimensions permuted
/// by `perm`: dimension `i` of the result is dimension `perm[i]` of the
/// input.
pub open spec fn transpose_shape(input: ShapeView, perm: Option<Seq<i64>>) -> ShapeView {
    if input is Some && perm is Some && within_rank(perm->0, input->0.len()) {
        Some(Seq::new(input->0.len(), |i: int| input->0[perm->0[i] as int]))
    } else {
        None
    }
}

/// Tells the shape of the vector that holds the shape of a tensor of the
/// shape `input`.
pub fn infer_shape_of_shape(input: &ShapeHint) -> (r: ShapeHint)
    ensures
        r@ == shape_of_shape(input@),
{
    let mut dims: Vec<Option<i64>> = Vec::new();
    match input.rank() {
        Some(n) => {
            if (n as u64) <= (i64::MAX as u64) {
                dims.push(Some(n as i64));
            } else {
                dims.push(None);
            }
        },
        None => {
            dims.push(None);
        },
    }
    let r = ShapeHint { dims: Some(dims) };
    r
}

/// Tells the elements of the vector that holds the shape of a tensor of the
/// shape `input`, as integers of type `t`.
pub fn infer_value_of_shape(input: &ShapeHint, t: DataType) -> (r: Option<Vec<i64>>)
    ensures
        crate::descriptor::value_view(r) == value_of_shape(input@, t),
{
    if t != DataType::Int64 && t != DataType::Int32 {
        return None;
    }
    if !input.is_well_formed() {
        return None;
    }
    match input.sizes() {
        None => None,
        Some(sizes) => {
            if (sizes.len() as u64) > (i64::MAX as u64) {
                return None;
            }
            if t == DataType::Int32 {
                let mut i: usize = 0;
                while i < sizes.len()
                    invariant
                        i <= sizes.len(),
                        sizes@ == known_sizes(input@),
                        t == DataType::Int32,
                        forall|j: int| 0 <= j < i ==> (#[trigger] sizes@[j]) <= i32::MAX,
                    decreases sizes.len() - i,
                {
                    if sizes[i] > i32::MAX as i64 {
                        return None;
                    }
                    i += 1;
                }
            }
            Some(sizes)
        },
    }
}

/// Tells the number of elements of a tensor of the shape `input` as the one
/// element of a 32-bit scalar.
pub fn infer_value_of_size(input: &ShapeHint) -> (r: Option<Vec<i64>>)
    ensures
        crate::descriptor::value_view(r) == value_of_size(input@),
{
    match count_static(input) {
        Some(c) => {
            if c <= i32::MAX as i64 {
                let mut v: Vec<i64> = Vec::new();
                v.push(c);
                Some(v)
            } else {
                None
            }
        },
        None => None,
    }
}

/// Tells the rank of a tensor of the shape `input` as a 32-bit integer.
pub fn infer_rank(input: &ShapeHint) -> (r: Option<i32>)
    ensures
        r == static_rank(input@),
{
    match input.rank() {
        Some(n) => {
            if (n as u64) <= (i32::MAX as u64) {
                Some(n as i32)
            } else {
                None
            }
        },
        None => None,
    }
}

/// Tells the shape of the slices of a tensor of the shape `params` gathered
/// along its first dimension at indices of the shape `indices`.
pub fn infer_gather_shape(params: &ShapeHint, indices: &ShapeHint) -> (r: ShapeHint)
    ensures
        r@ == gather_shape(params@, indices@),
{
    match (&params.dims, &indices.dims) {
        (Some(p), Some(ix)) => {
            if p.len() == 0 {
                return ShapeHint::unknown();
            }
            let mut dims = copied(ix);
            let mut i: usize = 1;
            while i < p.len()
                invariant
                    1 <= i <= p.len(),
                    dims@ == ix@ + p@.subrange(1, i as int),
                decreases p.len() - i,
            {
                dims.push(p[i]);
                i += 1;
            }
            ShapeHint { dims: Some(dims) }
        },
        _ => ShapeHint::unknown(),
    }
}

/// Tells the elements gathered from the vector `params` at `indices`.
pub fn infer_gather_value(
    params: &Option<Vec<i64>>,
    rank: Option<usize>,
    indices: &Option<Vec<i64>>,
) -> (r: Option<Vec<i64>>)
    ensures
        crate::descriptor::value_view(r) == gather_value(
            crate::descriptor::value_view(*params),
            match rank {
                Some(n) => Some(n as nat),
                None => None,
            },
            crate::descriptor::value_view(*indices),
        ),
{
    match (params, rank, indices) {
        (Some(p), Some(1), Some(ix)) => {
            let mut out: Vec<i64> = Vec::new();
            let mut i: usize = 0;
            while i < ix.len()
                invariant
                    i <= ix.len(),
                    out@.len() == i,
                    crate::descriptor::value_view(*indices) == Some(ix@),
                    crate::descriptor::value_view(*params) == Some(p@),
                    rank == Some(1usize),
                    forall|j: int| 0 <= j < i ==> 0 <= (#[trigger] ix@[j]) < p@.len(),
                    forall|j: int| 0 <= j < i ==> out@[j] == p@[ix@[j] as int],
                decreases ix.len() - i,
            {
                let at = ix[i];
                if at < 0 || (at as u64) >= (p.len() as u64) {
                    return None;
                }
                out.push(p[at as usize]);
                i += 1;
            }
            Some(out)
        },
        _ => None,
    }
}

/// Tells the shape of a tensor of the shape `input` with a dimension of
/// size one inserted at `axis`.
pub fn infer_expand(input: &ShapeHint, axis: i32) -> (r: ShapeHint)
    ensures
        r@ == expand_shape(input@, axis as int),
{
    match &input.dims {
        None => ShapeHint::unknown(),
        Some(d) => {
            let rank = d.len();
            let axis = axis as i64;
            let at: usize = if axis >= 0 {
                if (axis as u64) <= (rank as u64) {
                    axis as usize
                } else {
                    return ShapeHint::unknown();
                }
            } else {
                let back = (-(axis + 1)) as u64;
                if back <= rank as u64 {
                    (rank as u64 - back) as usize
                } else {
                    return ShapeHint::unknown();
                }
            };
            let mut dims = copied(d);
            dims.insert(at, Some(1));
            ShapeHint { dims: Some(dims) }
        },
    }
}

/// Tells the shape of a tensor filled to the sizes `sizes`.
pub fn infer_fill(sizes: &Option<Vec<i64>>, entries: &ShapeHint) -> (r: ShapeHint)
    ensures
        r@ == fill_shape(crate::descriptor::value_view(*sizes), entries@),
{
    match sizes {
        Some(v) => {
            if crate::attr::any_negative(v) {
                ShapeHint::unknown()
            } else {
                ShapeHint::exact(v)
            }
        },
        None => infer_reshape(&ShapeHint::unknown(), &None, entries),
    }
}

/// Tells the shape of a tensor of the shape `input` with its dimensions
/// permuted by `perm`.
pub fn infer_transpose(input: &ShapeHint, perm: &Option<Vec<i64>>) -> (r: ShapeHint)
    ensures
        r@ == transpose_shape(input@, crate::descriptor::value_view(*perm)),
{
    match (&input.dims, perm) {
        (Some(d), Some(p)) => {
            if p.len() != d.len() {
                return ShapeHint::unknown();
            }
            let mut dims: Vec<Option<i64>> = Vec::new();
            let mut i: usize = 0;
            while i < p.len()
                invariant
                    i <= p.len(),
                    p.len() == d.len(),
                    dims@.len() == i,
                    input@ == Some(d@),
                    crate::descriptor::value_view(*perm) == Some(p@),
                    forall|j: int| 0 <= j < i ==> 0 <= (#[trigger] p@[j]) < d@.len(),
                    forall|j: int| 0 <= j < i ==> dims@[j] == d@[p@[j] as int],
                decreases p.len() - i,
            {
                let at = p[i];
                if at < 0 || (at as u64) >= (d.len() as u64) {
                    return ShapeHint::unknown();
                }
                dims.push(d[at as usize]);
                i += 1;
            }
            ShapeHint { dims: Some(dims) }
        },
        _ => ShapeHint::unknown(),
    }
}

/// Whether one of `axes` names dimension `i` of `rank` dimensions.
pub open spec fn names_axis(axes: Seq<i64>, rank: int, i: int) -> bool {
    exists|j: int| 0 <= j < axes.len() && normalized((#[trigger] axes[j]) as int, rank) == Some(i)
}

/// Whether every one of `axes` names a dimension of `rank` dimensions.
pub open spec fn axes_valid(axes: Seq<i64>, rank: int) -> bool {
    forall|j: int| 0 <= j < axes.len() ==> normalized((#[trigger] axes[j]) as int, rank) is Some
}

/// Whether dimension `i` of `dims` is squeezed: it is named by one of the
/// axes, where axes are given, and is known to have size one, where none
/// are.
pub open spec fn squeezes(dims: Seq<Option<i64>>, axes: Option<Seq<i64>>, i: int) -> bool {
    match axes {
        Some(a) => names_axis(a, dims.len() as int, i),
        None => dims[i] == Some(1i64),
    }
}

/// The first `n` dimensions of `dims` without those that are squeezed.
pub open spec fn squeezed(dims: Seq<Option<i64>>, axes: Option<Seq<i64>>, n: nat) -> Seq<Option<i64>>
    decreases n,
{
    if n == 0 {
        Seq::empty()
    } else if squeezes(dims, axes, n - 1) {
        squeezed(dims, axes, (n - 1) as nat)
    } else {
        squeezed(dims, axes, (n - 1) as nat).push(dims[n - 1])
    }
}

/// The shape of a tensor of the shape `input` without the dimensions that
/// `axes` name, where the rank is known and every axis names a dimension;
/// or, where no axes are given, without the dimensions of size one, where
/// every size is known.
pub open spec fn squeeze_shape(input: ShapeView, axes: Option<Seq<i64>>) -> ShapeView {
    match input {
        None => None,
        Some(dims) => if match axes {
            Some(a) => axes_valid(a, dims.len() as int),
            None => fully_known(input),
        } {
            Some(squeezed(dims, axes, dims.len()))
        } else {
            None
        },
    }
}

/// Squeezing never states a negative size.
pub proof fn lemma_squeezed_well_formed(dims: Seq<Option<i64>>, axes: Option<Seq<i64>>, n: nat)
    requires
        n <= dims.len(),
        shape_well_formed(Some(dims)),
    ensures
        shape_well_formed(Some(squeezed(dims, axes, n))),
        squeezed(dims, axes, n).len() <= n,
    decreases n,
{
    if n > 0 {
        lemma_squeezed_well_formed(dims, axes, (n - 1) as nat);
    }
}

/// Tells whether one of `axes` names dimension `i` of `rank` dimensions.
pub fn is_named(axes: &Vec<i64>, rank: usize, i: usize) -> (yes: bool)
    ensures
        yes == names_axis(axes@, rank as int, i as int),
{
    let mut j: usize = 0;
    while j < axes.len()
        invariant
            j <= axes.len(),
            forall|k: int|
                0 <= k < j ==> normalized((#[trigger] axes@[k]) as int, rank as int) != Some(
                    i as int,
                ),
        decreases axes.len() - j,
    {
        match normalize(axes[j], rank) {
            Some(p) => {
                if p == i {
                    return true;
                }
            },
            None => {},
        }
        j += 1;
    }
    false
}

/// Tells the shape of a tensor of the shape `input` without the dimensions
/// that are squeezed.
pub fn infer_squeeze(input: &ShapeHint, axes: &Option<Vec<i64>>) -> (r: ShapeHint)
    ensures
        r@ == squeeze_shape(input@, crate::descriptor::value_view(*axes)),
{
    let dims = match &input.dims {
        None => {
            return ShapeHint::unknown();
        },
        Some(d) => d,
    };
    let ghost wanted = crate::descriptor::value_view(*axes);
    match axes {
        Some(a) => {
            let mut j: usize = 0;
            while j < a.len()
                invariant
                    j <= a.len(),
                    input@ == Some(dims@),
                    wanted == Some(a@),
                    wanted == crate::descriptor::value_view(*axes),
                    forall|k: int|
                        0 <= k < j ==> normalized((#[trigger] a@[k]) as int, dims@.len() as int) is Some,
                decreases a.len() - j,
            {
                if normalize(a[j], dims.len()).is_none() {
                    return ShapeHint::unknown();
                }
                j += 1;
            }
        },
        None => {
            if input.sizes().is_none() {
                return ShapeHint::unknown();
            }
        },
    }
    let mut out: Vec<Option<i64>> = Vec::new();
    let mut i: usize = 0;
    while i < dims.len()
        invariant
            i <= dims.len(),
            wanted == crate::descriptor::value_view(*axes),
            out@ == squeezed(dims@, wanted, i as nat),
        decreases dims.len() - i,
    {
        let drop = match axes {
            Some(a) => is_named(a, dims.len(), i),
            None => match dims[i] {
                Some(v) => v == 1,
                None => false,
            },
        };
        if !drop {
            out.push(dims[i]);
        }
        i += 1;
    }
    ShapeHint { dims: Some(out) }
}

/// The size of one dimension of a slice: the size asked for, where it is a
/// size; for `-1`, what is left of the dimension from where the slice
/// begins, where both are known; else nothing.
pub open spec fn sliced_size(wanted: i64, whole: Option<i64>, begin: Option<i64>) -> Option<i64> {
    if wanted >= 0 {
        Some(wanted)
    } else if wanted == -1 && whole is Some && begin is Some && 0 <= begin->0 <= whole->0 {
        Some((whole->0 - begin->0) as i64)
    } else {
        None
    }
}

/// The shape of a slice of a tensor of the shape `input` that begins at
/// `begin` and has the sizes `size`: one dimension for each entry of
/// `size`, where `size` is known at build time; else as many dimensions as
/// the tensor has, of unknown sizes.
pub open spec fn slice_shape(
    input: ShapeView,
    begin: Option<Seq<i64>>,
    size: Option<Seq<i64>>,
) -> ShapeView {
    match size {
        Some(sz) => Some(
            Seq::new(
                sz.len(),
                |i: int|
                    sliced_size(
                        sz[i],
                        if input is Some && input->0.len() == sz.len() {
                            input->0[i]
                        } else {
                            None
                        },
                        if begin is Some && begin->0.len() == sz.len() {
                            Some(begin->0[i])
                        } else {
                            None
                        },
                    ),
            ),
        ),
        None => match input {
            Some(d) => Some(Seq::new(d.len(), |i: int| None::<i64>)),
            None => None,
        },
    }
}

/// Slicing never states a negative size.
pub proof fn lemma_slice_well_formed(input: ShapeView, begin: Option<Seq<i64>>, size: Option<Seq<i64>>)
    ensures
        shape_well_formed(slice_shape(input, begin, size)),
{
}

/// Tells the shape of a slice of a tensor of the shape `input`.
pub fn infer_slice(input: &ShapeHint, begin: &Option<Vec<i64>>, size: &Option<Vec<i64>>) -> (r:
    ShapeHint)
    ensures
        r@ == slice_shape(
            input@,
            crate::descriptor::value_view(*begin),
            crate::descriptor::value_view(*size),
        ),
{
    match size {
        None => match input.rank() {
            Some(n) => ShapeHint::of_rank(n),
            None => ShapeHint::unknown(),
        },
        Some(sz) => {
            let mut out: Vec<Option<i64>> = Vec::new();
            let mut i: usize = 0;
            while i < sz.len()
                invariant
                    i <= sz.len(),
                    out@.len() == i,
                    forall|j: int|
                        0 <= j < i ==> out@[j] == slice_shape(
                            input@,
                            crate::descriptor::value_view(*begin),
                            Some(sz@),
                        )->0[j],
                decreases sz.len() - i,
            {
                let wanted = sz[i];
                let whole = match &input.dims {
                    Some(d) => if d.len() == sz.len() {
                        d[i]
                    } else {
                        None
                    },
                    None => None,
                };
                let from = match begin {
                    Some(b) => if b.len() == sz.len() {
                        Some(b[i])
                    } else {
                        None
                    },
                    None => None,
                };
                let size = if wanted >= 0 {
                    Some(wanted)
                } else if wanted == -1 {
                    match (whole, from) {
                        (Some(w), Some(b)) => if 0 <= b && b <= w {
                            Some(w - b)
                        } else {
                            None
                        },
                        _ => None,
                    }
                } else {
                    None
                };
                out.push(size);
                i += 1;
            }
            let r = ShapeHint { dims: Some(out) };
            r
        },
    }
}

} // verus!
