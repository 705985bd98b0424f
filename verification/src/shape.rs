//! Partially known tensor shapes.
//!
//! A shape is either of unknown rank, or a sequence of dimensions each of
//! which is a known size or unknown. Unknown is a value of its own: it is
//! never read as zero, and it survives every operation that cannot resolve it.

use vstd::prelude::*;
use vstd::arithmetic::mul::lemma_mul_nonnegative;

verus! {

/// What a [`ShapeHint`] stands for: `None` where the rank is unknown, else
/// one entry per dimension, `None` where that size is unknown.
pub type ShapeView = Option<Seq<Option<i64>>>;

/// The best static knowledge of a tensor's shape.
#[derive(Debug, PartialEq, Eq)]
pub struct ShapeHint {
    pub dims: Option<Vec<Option<i64>>>,
}

impl View for ShapeHint {
    type V = ShapeView;

    open spec fn view(&self) -> ShapeView {
        match self.dims {
            None => None,
            Some(v) => Some(v@),
        }
    }
}

/// No known size is negative.
pub open spec fn shape_well_formed(s: ShapeView) -> bool {
    s matches Some(dims) ==> forall|i: int|
        0 <= i < dims.len() ==> (#[trigger] dims[i] matches Some(d) ==> d >= 0)
}

/// The rank is known and so is every size.
pub open spec fn fully_known(s: ShapeView) -> bool {
    s matches Some(dims) && forall|i: int| 0 <= i < dims.len() ==> (#[trigger] dims[i]) is Some
}

/// The shape whose sizes are exactly `sizes`.
pub open spec fn exact_shape(sizes: Seq<i64>) -> ShapeView {
    Some(Seq::new(sizes.len(), |i: int| Some(sizes[i])))
}

/// The sizes of a fully known shape.
pub open spec fn known_sizes(s: ShapeView) -> Seq<i64>
    recommends
        fully_known(s),
{
    Seq::new(s->0.len(), |i: int| s->0[i]->0)
}

/// The product of `sizes`: the number of elements of a tensor of that shape,
/// `1` for a scalar.
pub open spec fn element_count(sizes: Seq<i64>) -> int
    decreases sizes.len(),
{
    if sizes.len() == 0 {
        1
    } else {
        element_count(sizes.drop_last()) * sizes.last()
    }
}

/// Whether a tensor of the concrete shape `sizes` fits what `s` says.
pub open spec fn admits(s: ShapeView, sizes: Seq<i64>) -> bool {
    s matches Some(dims) ==> {
        &&& dims.len() == sizes.len()
        &&& forall|i: int|
            0 <= i < dims.len() ==> (#[trigger] dims[i] matches Some(d) ==> d == sizes[i])
    }
}

/// Whether some concrete shape could fit both `a` and `b`: the ranks agree
/// where both are known, and so does each size known on both sides.
pub open spec fn compatible(a: ShapeView, b: ShapeView) -> bool {
    (a is Some && b is Some) ==> {
        &&& a->0.len() == b->0.len()
        &&& forall|i: int|
            0 <= i < a->0.len() ==> ((#[trigger] a->0[i]) is Some && (#[trigger] b->0[i]) is Some)
                ==> a->0[i]->0 == b->0[i]->0
    }
}

/// What is known once `a` and `b` are both known to hold: each size that
/// either side knows.
pub open spec fn merged(a: ShapeView, b: ShapeView) -> ShapeView {
    match (a, b) {
        (None, _) => b,
        (_, None) => a,
        (Some(x), Some(y)) => Some(
            Seq::new(
                x.len(),
                |i: int|
                    if x[i] is Some {
                        x[i]
                    } else {
                        y[i]
                    },
            ),
        ),
    }
}

/// Whether `a` knows everything that `b` knows: the rank, where `b` knows
/// it, and each size that `b` knows.
pub open spec fn refines(a: ShapeView, b: ShapeView) -> bool {
    b is Some ==> {
        &&& a is Some
        &&& a->0.len() == b->0.len()
        &&& forall|i: int| 0 <= i < b->0.len() ==> ((#[trigger] b->0[i]) is Some ==> a->0[i] == b->0[i])
    }
}

/// The merge of two compatible hints knows everything that either knows.
pub proof fn lemma_merged_refines(a: ShapeView, b: ShapeView)
    requires
        compatible(a, b),
    ensures
        refines(merged(a, b), a),
        refines(merged(a, b), b),
{
    if a is Some && b is Some {
        let m = merged(a, b)->0;
        assert forall|i: int| 0 <= i < b->0.len() && (#[trigger] b->0[i]) is Some implies m[i]
            == b->0[i] by {
            assert(a->0[i] is Some && b->0[i] is Some ==> a->0[i]->0 == b->0[i]->0);
        }
    }
}

/// Merging keeps well-formedness.
pub proof fn lemma_merged_well_formed(a: ShapeView, b: ShapeView)
    requires
        shape_well_formed(a),
        shape_well_formed(b),
        compatible(a, b),
    ensures
        shape_well_formed(merged(a, b)),
{
    if a is Some && b is Some {
        let x = a->0;
        let y = b->0;
        let m = merged(a, b)->0;
        assert forall|i: int| 0 <= i < m.len() implies (#[trigger] m[i] matches Some(d) ==> d
            >= 0) by {
            assert(x[i] is Some ==> x[i]->0 >= 0);
            assert(y[i] is Some ==> y[i]->0 >= 0);
        }
    }
}

/// The element count of non-negative sizes is non-negative, and zero exactly
/// when one of the sizes is zero.
pub proof fn lemma_element_count_sign(sizes: Seq<i64>)
    requires
        forall|i: int| 0 <= i < sizes.len() ==> sizes[i] >= 0,
    ensures
        element_count(sizes) >= 0,
        element_count(sizes) == 0 <==> exists|i: int| 0 <= i < sizes.len() && sizes[i] == 0,
    decreases sizes.len(),
{
    if sizes.len() > 0 {
        let front = sizes.drop_last();
        lemma_element_count_sign(front);
        let p = element_count(front);
        let d = sizes.last() as int;
        lemma_mul_nonnegative(p, d);
        assert(p * d == 0 <==> (p == 0 || d == 0)) by (nonlinear_arith);
        if exists|i: int| 0 <= i < sizes.len() && sizes[i] == 0 {
            let i = choose|i: int| 0 <= i < sizes.len() && sizes[i] == 0;
            if i < front.len() {
                assert(front[i] == 0);
            }
        }
        if p == 0 {
            let i = choose|i: int| 0 <= i < front.len() && front[i] == 0;
            assert(sizes[i] == 0);
        }
        if d == 0 {
            assert(sizes[sizes.len() - 1] == 0);
        }
    }
}

/// Appending a size multiplies the element count by it.
pub proof fn lemma_element_count_push(sizes: Seq<i64>, d: i64)
    ensures
        element_count(sizes.push(d)) == element_count(sizes) * d,
{
    assert(sizes.push(d).drop_last() =~= sizes);
}

/// With positive sizes only, the count of a prefix never exceeds the count of
/// the whole.
pub proof fn lemma_element_count_prefix(sizes: Seq<i64>, n: int)
    requires
        0 <= n <= sizes.len(),
        forall|i: int| 0 <= i < sizes.len() ==> sizes[i] >= 1,
    ensures
        1 <= element_count(sizes.take(n)) <= element_count(sizes),
    decreases sizes.len() - n,
{
    lemma_element_count_sign(sizes.take(n));
    if n == sizes.len() {
        assert(sizes.take(n) =~= sizes);
    } else {
        lemma_element_count_prefix(sizes, n + 1);
        assert(sizes.take(n + 1) =~= sizes.take(n).push(sizes[n]));
        lemma_element_count_push(sizes.take(n), sizes[n]);
        let p = element_count(sizes.take(n));
        let d = sizes[n] as int;
        assert(p * d >= p) by (nonlinear_arith)
            requires
                p >= 0,
                d >= 1,
        ;
    }
    assert(element_count(sizes.take(n)) != 0) by {
        if element_count(sizes.take(n)) == 0 {
            let i = choose|i: int| 0 <= i < sizes.take(n).len() && sizes.take(n)[i] == 0;
            assert(sizes[i] == 0);
        }
    }
}

/// A copy of `v`.
pub fn copied<T: Copy>(v: &Vec<T>) -> (r: Vec<T>)
    ensures
        r@ == v@,
{
    let mut r: Vec<T> = Vec::new();
    let mut i: usize = 0;
    while i < v.len()
        invariant
            i <= v.len(),
            r@ == v@.take(i as int),
        decreases v.len() - i,
    {
        r.push(v[i]);
        i += 1;
    }
    r
}

impl ShapeHint {
    /// The shape of which nothing is known.
    pub fn unknown() -> (s: ShapeHint)
        ensures
            s@ is None,
    {
        ShapeHint { dims: None }
    }

    /// The shape with exactly the sizes `sizes`.
    pub fn exact(sizes: &Vec<i64>) -> (s: ShapeHint)
        ensures
            s@ == exact_shape(sizes@),
    {
        let mut dims: Vec<Option<i64>> = Vec::new();
        let mut i: usize = 0;
        while i < sizes.len()
            invariant
                i <= sizes.len(),
                dims@.len() == i,
                forall|j: int| 0 <= j < i ==> dims@[j] == Some(sizes@[j]),
            decreases sizes.len() - i,
        {
            dims.push(Some(sizes[i]));
            i += 1;
        }
        ShapeHint { dims: Some(dims) }
    }

    /// The shape of rank `rank` with every size unknown.
    pub fn of_rank(rank: usize) -> (s: ShapeHint)
        ensures
            s@ == Some(Seq::new(rank as nat, |i: int| None::<i64>)),
    {
        let mut dims: Vec<Option<i64>> = Vec::new();
        let mut i: usize = 0;
        while i < rank
            invariant
                i <= rank,
                dims@.len() == i,
                forall|j: int| 0 <= j < i ==> dims@[j] == None::<i64>,
            decreases rank - i,
        {
            dims.push(None);
            i += 1;
        }
        ShapeHint { dims: Some(dims) }
    }

    /// A copy of this hint.
    pub fn copy(&self) -> (s: ShapeHint)
        ensures
            s@ == self@,
    {
        match &self.dims {
            None => ShapeHint { dims: None },
            Some(v) => ShapeHint { dims: Some(copied(v)) },
        }
    }

    /// The number of dimensions, where it is known.
    pub fn rank(&self) -> (r: Option<usize>)
        ensures
            r is Some <==> self@ is Some,
            r matches Some(n) ==> n == self@->0.len(),
    {
        match &self.dims {
            None => None,
            Some(v) => Some(v.len()),
        }
    }

    /// Tells whether no known size is negative.
    pub fn is_well_formed(&self) -> (ok: bool)
        ensures
            ok == shape_well_formed(self@),
    {
        match &self.dims {
            None => true,
            Some(v) => {
                let mut i: usize = 0;
                while i < v.len()
                    invariant
                        i <= v.len(),
                        self@ == Some(v@),
                        forall|j: int|
                            0 <= j < i ==> (#[trigger] v@[j] matches Some(d) ==> d >= 0),
                    decreases v.len() - i,
                {
                    match v[i] {
                        Some(d) => {
                            if d < 0 {
                                return false;
                            }
                        },
                        None => {},
                    }
                    i += 1;
                }
                true
            },
        }
    }

    /// The sizes, where the rank and every size are known.
    pub fn sizes(&self) -> (r: Option<Vec<i64>>)
        ensures
            r is Some <==> fully_known(self@),
            r matches Some(v) ==> v@ == known_sizes(self@),
    {
        match &self.dims {
            None => None,
            Some(v) => {
                let mut out: Vec<i64> = Vec::new();
                let mut i: usize = 0;
                while i < v.len()
                    invariant
                        i <= v.len(),
                        self@ == Some(v@),
                        out@.len() == i,
                        forall|j: int| 0 <= j < i ==> (#[trigger] v@[j]) == Some(out@[j]),
                    decreases v.len() - i,
                {
                    match v[i] {
                        Some(d) => {
                            out.push(d);
                        },
                        None => {
                            return None;
                        },
                    }
                    i += 1;
                }
                Some(out)
            },
        }
    }

    /// Tells whether this hint and `other` can hold of one tensor.
    pub fn is_compatible(&self, other: &ShapeHint) -> (ok: bool)
        ensures
            ok == compatible(self@, other@),
    {
        match (&self.dims, &other.dims) {
            (Some(x), Some(y)) => {
                if x.len() != y.len() {
                    return false;
                }
                let mut i: usize = 0;
                while i < x.len()
                    invariant
                        i <= x.len(),
                        x.len() == y.len(),
                        self@ == Some(x@),
                        other@ == Some(y@),
                        forall|j: int|
                            0 <= j < i ==> ((#[trigger] x@[j]) is Some && (#[trigger] y@[j]) is Some)
                                ==> x@[j]->0 == y@[j]->0,
                    decreases x.len() - i,
                {
                    match (x[i], y[i]) {
                        (Some(p), Some(q)) => {
                            if p != q {
                                return false;
                            }
                        },
                        _ => {},
                    }
                    i += 1;
                }
                true
            },
            _ => true,
        }
    }

    /// Combines this hint with `other`, which must be compatible with it:
    /// the result knows each size that either of them knows.
    pub fn merge(&self, other: &ShapeHint) -> (s: ShapeHint)
        requires
            compatible(self@, other@),
        ensures
            s@ == merged(self@, other@),
    {
        match (&self.dims, &other.dims) {
            (None, _) => other.copy(),
            (_, None) => self.copy(),
            (Some(x), Some(y)) => {
                let mut dims: Vec<Option<i64>> = Vec::new();
                let mut i: usize = 0;
                while i < x.len()
                    invariant
                        i <= x.len(),
                        x.len() == y.len(),
                        dims@.len() == i,
                        forall|j: int|
                            0 <= j < i ==> dims@[j] == if x@[j] is Some {
                                x@[j]
                            } else {
                                y@[j]
                            },
                    decreases x.len() - i,
                {
                    match x[i] {
                        Some(p) => dims.push(Some(p)),
                        None => dims.push(y[i]),
                    }
                    i += 1;
                }
                ShapeHint { dims: Some(dims) }
            },
        }
    }

    /// Tells whether this hint and `other` say the same.
    pub fn same(&self, other: &ShapeHint) -> (eq: bool)
        ensures
            eq == (self@ == other@),
    {
        match (&self.dims, &other.dims) {
            (None, None) => true,
            (Some(x), Some(y)) => {
                if x.len() != y.len() {
                    return false;
                }
                let mut i: usize = 0;
                while i < x.len()
                    invariant
                        i <= x.len(),
                        x.len() == y.len(),
                        self@ == Some(x@),
                        other@ == Some(y@),
                        forall|j: int| 0 <= j < i ==> x@[j] == y@[j],
                    decreases x.len() - i,
                {
                    let same = match (x[i], y[i]) {
                        (Some(p), Some(q)) => p == q,
                        (None, None) => true,
                        _ => false,
                    };
                    if !same {
                        return false;
                    }
                    i += 1;
                }
                assert(x@ =~= y@);
                true
            },
            _ => false,
        }
    }
}

/// The number of elements of a tensor with the sizes `sizes`, where none of
/// them is negative and the number fits 64 signed bits.
pub fn count_elements(sizes: &Vec<i64>) -> (r: Option<i64>)
    ensures
        r is Some <==> (forall|i: int| 0 <= i < sizes.len() ==> sizes@[i] >= 0) && element_count(
            sizes@,
        ) <= i64::MAX,
        r matches Some(n) ==> n == element_count(sizes@),
{
    let mut i: usize = 0;
    let mut has_zero = false;
    while i < sizes.len()
        invariant
            i <= sizes.len(),
            forall|j: int| 0 <= j < i ==> sizes@[j] >= 0,
            has_zero <==> exists|j: int| 0 <= j < i && sizes@[j] == 0,
        decreases sizes.len() - i,
    {
        if sizes[i] < 0 {
            return None;
        }
        if sizes[i] == 0 {
            has_zero = true;
        }
        i += 1;
    }
    proof {
        lemma_element_count_sign(sizes@);
    }
    if has_zero {
        return Some(0);
    }
    let mut product: i64 = 1;
    let mut k: usize = 0;
    while k < sizes.len()
        invariant
            k <= sizes.len(),
            forall|j: int| 0 <= j < sizes.len() ==> sizes@[j] >= 1,
            product == element_count(sizes@.take(k as int)),
            product >= 1,
        decreases sizes.len() - k,
    {
        let d = sizes[k];
        proof {
            assert(sizes@.take(k + 1) =~= sizes@.take(k as int).push(d));
            lemma_element_count_push(sizes@.take(k as int), d);
            lemma_element_count_prefix(sizes@, k + 1);
        }
        if product > i64::MAX / d {
            assert(product * d > i64::MAX) by (nonlinear_arith)
                requires
                    product > i64::MAX / d,
                    d >= 1,
            ;
            return None;
        }
        assert(product * d <= i64::MAX) by (nonlinear_arith)
            requires
                product <= i64::MAX / d,
                d >= 1,
                product >= 1,
        ;
        product = product * d;
        k += 1;
    }
    assert(sizes@.take(sizes.len() as int) =~= sizes@);
    Some(product)
}

} // verus!
