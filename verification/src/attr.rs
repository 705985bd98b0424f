//! Constant contents and the attributes of a node.

use vstd::prelude::*;
use crate::dtype::DataType;
use crate::error::Error;
use crate::shape::{
    copied, count_elements, element_count, lemma_element_count_sign, shape_well_formed, ShapeHint,
    ShapeView,
};
use crate::text::{has_nul, holds_nul, views};

verus! {

/// The elements of a constant tensor, in row-major order.
#[derive(Debug, PartialEq, Eq)]
pub enum Values {
    /// Booleans.
    Bool(Vec<bool>),
    /// 32-bit signed integers.
    Int32(Vec<i32>),
    /// 64-bit signed integers.
    Int64(Vec<i64>),
    /// Strings.
    Text(Vec<String>),
    /// Elements of another type, each lane as its bit pattern in the low
    /// bits of a word. A complex element takes two lanes, real part first;
    /// every other element takes one.
    Raw(DataType, Vec<u64>),
}

/// What a [`Values`] stands for.
pub enum ValuesView {
    Bool(Seq<bool>),
    Int32(Seq<i32>),
    Int64(Seq<i64>),
    Text(Seq<Seq<char>>),
    Raw(DataType, Seq<u64>),
}

impl View for Values {
    type V = ValuesView;

    open spec fn view(&self) -> ValuesView {
        match self {
            Values::Bool(v) => ValuesView::Bool(v@),
            Values::Int32(v) => ValuesView::Int32(v@),
            Values::Int64(v) => ValuesView::Int64(v@),
            Values::Text(v) => ValuesView::Text(views(v@)),
            Values::Raw(t, v) => ValuesView::Raw(*t, v@),
        }
    }
}

/// The number of bits in one lane of a raw element of type `t`, or zero
/// where elements of `t` are not given as raw words.
pub open spec fn lane_bits(t: DataType) -> nat {
    match t {
        DataType::UInt8 | DataType::Int8 | DataType::QInt8 | DataType::QUInt8 => 8,
        DataType::Int16
        | DataType::UInt16
        | DataType::QInt16
        | DataType::QUInt16
        | DataType::BFloat16
        | DataType::Half => 16,
        DataType::Float | DataType::QInt32 | DataType::UInt32 | DataType::Complex64 => 32,
        DataType::Double | DataType::UInt64 | DataType::Complex128 => 64,
        _ => 0,
    }
}

/// The number of lanes that one raw element of type `t` takes.
pub open spec fn lanes(t: DataType) -> nat {
    match t {
        DataType::Complex64 | DataType::Complex128 => 2,
        _ => 1,
    }
}

/// The largest word that fits a lane of `bits` bits.
pub open spec fn lane_max(bits: nat) -> u64 {
    if bits == 8 {
        0xff
    } else if bits == 16 {
        0xffff
    } else if bits == 32 {
        0xffff_ffff
    } else {
        0xffff_ffff_ffff_ffff
    }
}

impl ValuesView {
    /// The data type of the elements.
    pub open spec fn dtype(self) -> DataType {
        match self {
            ValuesView::Bool(_) => DataType::Bool,
            ValuesView::Int32(_) => DataType::Int32,
            ValuesView::Int64(_) => DataType::Int64,
            ValuesView::Text(_) => DataType::String,
            ValuesView::Raw(t, _) => t,
        }
    }

    /// The number of stored items: elements, or lanes for raw words.
    pub open spec fn stored(self) -> nat {
        match self {
            ValuesView::Bool(v) => v.len(),
            ValuesView::Int32(v) => v.len(),
            ValuesView::Int64(v) => v.len(),
            ValuesView::Text(v) => v.len(),
            ValuesView::Raw(_, v) => v.len(),
        }
    }

    /// Whether the data type can be given in this form, and every raw word
    /// fits its lane.
    pub open spec fn representable(self) -> bool {
        match self {
            ValuesView::Raw(t, v) => {
                &&& lane_bits(t) > 0
                &&& forall|i: int| 0 <= i < v.len() ==> (#[trigger] v[i]) <= lane_max(lane_bits(t))
            },
            _ => true,
        }
    }

    /// Whether a string element holds a NUL character.
    pub open spec fn nul_in_text(self) -> bool {
        match self {
            ValuesView::Text(v) => exists|i: int| 0 <= i < v.len() && holds_nul(#[trigger] v[i]),
            _ => false,
        }
    }

    /// Whether the stored items are exactly the elements of a tensor with
    /// the sizes `sizes`, whose number fits 64 signed bits.
    pub open spec fn fills(self, sizes: Seq<i64>) -> bool {
        &&& element_count(sizes) <= i64::MAX
        &&& self.stored() == element_count(sizes) * lanes(self.dtype())
    }

    /// The elements as integers, where they are 32-bit or 64-bit integers.
    pub open spec fn integers(self) -> Option<Seq<i64>> {
        match self {
            ValuesView::Int32(v) => Some(Seq::new(v.len(), |i: int| v[i] as i64)),
            ValuesView::Int64(v) => Some(v),
            _ => None,
        }
    }
}

/// The value of an attribute.
#[derive(Debug, PartialEq, Eq)]
pub enum AttrValue {
    /// Integers: one for the scalar form, any number for the list form.
    Int(Vec<i64>),
    /// A 32-bit float, as its bit pattern.
    Float(u32),
    /// Strings: one for the scalar form, any number for the list form.
    Text(Vec<String>),
    /// Data types: one for the scalar form, any number for the list form.
    Type(Vec<DataType>),
    /// A constant tensor: its elements and its sizes.
    Tensor(Values, Vec<i64>),
    /// A shape.
    Shape(ShapeHint),
}

/// What an [`AttrValue`] stands for.
pub enum AttrValueView {
    Int(Seq<i64>),
    Float(u32),
    Text(Seq<Seq<char>>),
    Type(Seq<DataType>),
    Tensor(ValuesView, Seq<i64>),
    Shape(ShapeView),
}

impl View for AttrValue {
    type V = AttrValueView;

    open spec fn view(&self) -> AttrValueView {
        match self {
            AttrValue::Int(v) => AttrValueView::Int(v@),
            AttrValue::Float(b) => AttrValueView::Float(*b),
            AttrValue::Text(v) => AttrValueView::Text(views(v@)),
            AttrValue::Type(v) => AttrValueView::Type(v@),
            AttrValue::Tensor(c, s) => AttrValueView::Tensor(c@, s@),
            AttrValue::Shape(s) => AttrValueView::Shape(s@),
        }
    }
}

/// A keyed attribute of a node.
#[derive(Debug, PartialEq, Eq)]
pub struct Attribute {
    /// The key under which the backend knows the attribute.
    pub key: String,
    /// Whether the backend expects the list form.
    pub list: bool,
    /// The value.
    pub value: AttrValue,
}

/// What an [`Attribute`] stands for.
pub struct AttributeView {
    pub key: Seq<char>,
    pub list: bool,
    pub value: AttrValueView,
}

impl View for Attribute {
    type V = AttributeView;

    open spec fn view(&self) -> AttributeView {
        AttributeView { key: self.key@, list: self.list, value: self.value@ }
    }
}

/// The views of `attrs`, in order.
pub open spec fn attribute_views(attrs: Seq<Attribute>) -> Seq<AttributeView> {
    Seq::new(attrs.len(), |i: int| attrs[i]@)
}

impl AttributeView {
    /// Whether the key or a string value holds a NUL character.
    pub open spec fn has_nul(self) -> bool {
        ||| holds_nul(self.key)
        ||| match self.value {
            AttrValueView::Text(v) => exists|i: int| 0 <= i < v.len() && holds_nul(#[trigger] v[i]),
            AttrValueView::Tensor(c, _) => c.nul_in_text(),
            _ => false,
        }
    }

    /// Whether the number of values is what the form takes: the list form
    /// exists for integers, strings and types only, and the scalar form of
    /// these holds exactly one value.
    pub open spec fn counted(self) -> bool {
        match self.value {
            AttrValueView::Int(v) => self.list || v.len() == 1,
            AttrValueView::Text(v) => self.list || v.len() == 1,
            AttrValueView::Type(v) => self.list || v.len() == 1,
            _ => !self.list,
        }
    }

    /// Whether a shape in the value has a negative size.
    pub open spec fn malformed(self) -> bool {
        match self.value {
            AttrValueView::Tensor(_, sizes) => exists|i: int|
                0 <= i < sizes.len() && (#[trigger] sizes[i]) < 0,
            AttrValueView::Shape(s) => !shape_well_formed(s),
            _ => false,
        }
    }

    /// Whether a constant in the value does not fit its type and sizes.
    pub open spec fn mistyped(self) -> bool {
        match self.value {
            AttrValueView::Tensor(c, sizes) => !c.representable() || !c.fills(sizes),
            _ => false,
        }
    }

    /// Whether the attribute can be handed to the backend as it is.
    pub open spec fn valid(self) -> bool {
        !self.has_nul() && self.counted() && !self.malformed() && !self.mistyped()
    }

    /// The failure that the attribute gives rise to, if any: a NUL character
    /// first, then a wrong number of values, then a negative size, then a
    /// constant that does not fit.
    pub open spec fn fault(self) -> Option<Error> {
        if self.has_nul() {
            Some(Error::NulError)
        } else if !self.counted() {
            Some(Error::ArgumentCount)
        } else if self.malformed() {
            Some(Error::MalformedShape)
        } else if self.mistyped() {
            Some(Error::TypeMismatch)
        } else {
            None
        }
    }
}

/// Tells whether one of `texts` holds a NUL character.
pub fn any_nul(texts: &Vec<String>) -> (found: bool)
    ensures
        found == exists|i: int| 0 <= i < texts.len() && holds_nul(#[trigger] views(texts@)[i]),
{
    let mut i: usize = 0;
    while i < texts.len()
        invariant
            i <= texts.len(),
            forall|j: int| 0 <= j < i ==> !holds_nul(#[trigger] views(texts@)[j]),
        decreases texts.len() - i,
    {
        if has_nul(texts[i].as_str()) {
            assert(holds_nul(views(texts@)[i as int]));
            return true;
        }
        i += 1;
    }
    false
}

/// Tells whether one of `sizes` is negative.
pub fn any_negative(sizes: &Vec<i64>) -> (found: bool)
    ensures
        found == exists|i: int| 0 <= i < sizes.len() && (#[trigger] sizes@[i]) < 0,
{
    let mut i: usize = 0;
    while i < sizes.len()
        invariant
            i <= sizes.len(),
            forall|j: int| 0 <= j < i ==> sizes@[j] >= 0,
        decreases sizes.len() - i,
    {
        if sizes[i] < 0 {
            return true;
        }
        i += 1;
    }
    false
}

/// The number of bits in one lane of a raw element of type `t`, or zero
/// where elements of `t` are not given as raw words.
pub fn lane_width(t: DataType) -> (bits: u32)
    ensures
        bits == lane_bits(t),
{
    match t {
        DataType::UInt8 | DataType::Int8 | DataType::QInt8 | DataType::QUInt8 => 8,
        DataType::Int16
        | DataType::UInt16
        | DataType::QInt16
        | DataType::QUInt16
        | DataType::BFloat16
        | DataType::Half => 16,
        DataType::Float | DataType::QInt32 | DataType::UInt32 | DataType::Complex64 => 32,
        DataType::Double | DataType::UInt64 | DataType::Complex128 => 64,
        _ => 0,
    }
}

impl Values {
    /// The data type of the elements.
    pub fn dtype(&self) -> (t: DataType)
        ensures
            t == self@.dtype(),
    {
        match self {
            Values::Bool(_) => DataType::Bool,
            Values::Int32(_) => DataType::Int32,
            Values::Int64(_) => DataType::Int64,
            Values::Text(_) => DataType::String,
            Values::Raw(t, _) => *t,
        }
    }

    /// The number of stored items.
    pub fn stored(&self) -> (n: usize)
        ensures
            n == self@.stored(),
    {
        match self {
            Values::Bool(v) => v.len(),
            Values::Int32(v) => v.len(),
            Values::Int64(v) => v.len(),
            Values::Text(v) => v.len(),
            Values::Raw(_, v) => v.len(),
        }
    }

    /// Tells whether the data type can be given in this form, and every raw
    /// word fits its lane.
    pub fn is_representable(&self) -> (ok: bool)
        ensures
            ok == self@.representable(),
    {
        match self {
            Values::Raw(t, v) => {
                let bits = lane_width(*t);
                if bits == 0 {
                    return false;
                }
                let max: u64 = if bits == 8 {
                    0xff
                } else if bits == 16 {
                    0xffff
                } else if bits == 32 {
                    0xffff_ffff
                } else {
                    0xffff_ffff_ffff_ffff
                };
                let mut i: usize = 0;
                while i < v.len()
                    invariant
                        i <= v.len(),
                        self@ == ValuesView::Raw(*t, v@),
                        max == lane_max(lane_bits(*t)),
                        forall|j: int| 0 <= j < i ==> (#[trigger] v@[j]) <= max,
                    decreases v.len() - i,
                {
                    if v[i] > max {
                        assert(self@->Raw_1[i as int] > lane_max(lane_bits(*t)));
                        return false;
                    }
                    i += 1;
                }
                true
            },
            _ => true,
        }
    }

    /// Tells whether a string element holds a NUL character.
    pub fn has_nul(&self) -> (found: bool)
        ensures
            found == self@.nul_in_text(),
    {
        match self {
            Values::Text(v) => {
                any_nul(v)
            },
            _ => false,
        }
    }

    /// Tells whether the stored items are exactly the elements of a tensor
    /// with the sizes `sizes`, none of which is negative.
    pub fn fills(&self, sizes: &Vec<i64>) -> (ok: bool)
        requires
            forall|i: int| 0 <= i < sizes.len() ==> sizes@[i] >= 0,
        ensures
            ok == self@.fills(sizes@),
    {
        let complex = match self {
            Values::Raw(DataType::Complex64, _) => true,
            Values::Raw(DataType::Complex128, _) => true,
            _ => false,
        };
        let n = self.stored();
        proof {
            lemma_element_count_sign(sizes@);
        }
        match count_elements(sizes) {
            None => false,
            Some(count) => {
                if complex {
                    n % 2 == 0 && (n / 2) as u64 == count as u64
                } else {
                    n as u64 == count as u64
                }
            },
        }
    }

    /// The elements as integers, where they are 32-bit or 64-bit integers.
    pub fn integers(&self) -> (r: Option<Vec<i64>>)
        ensures
            r is Some <==> self@.integers() is Some,
            r matches Some(v) ==> Some(v@) == self@.integers(),
    {
        match self {
            Values::Int32(v) => {
                let mut out: Vec<i64> = Vec::new();
                let mut i: usize = 0;
                while i < v.len()
                    invariant
                        i <= v.len(),
                        out@.len() == i,
                        forall|j: int| 0 <= j < i ==> out@[j] == v@[j] as i64,
                    decreases v.len() - i,
                {
                    out.push(v[i] as i64);
                    i += 1;
                }
                Some(out)
            },
            Values::Int64(v) => Some(copied(v)),
            _ => None,
        }
    }
}

impl Attribute {
    /// The failure that the attribute gives rise to, if any.
    pub fn check(&self) -> (r: Option<Error>)
        ensures
            r == self@.fault(),
    {
        let nul = has_nul(self.key.as_str()) || match &self.value {
            AttrValue::Text(v) => {
                assert(self@.value->Text_0 == views(v@));
                any_nul(v)
            },
            AttrValue::Tensor(c, _) => c.has_nul(),
            _ => false,
        };
        if nul {
            return Some(Error::NulError);
        }
        let counted = match &self.value {
            AttrValue::Int(v) => self.list || v.len() == 1,
            AttrValue::Text(v) => self.list || v.len() == 1,
            AttrValue::Type(v) => self.list || v.len() == 1,
            _ => !self.list,
        };
        if !counted {
            return Some(Error::ArgumentCount);
        }
        match &self.value {
            AttrValue::Tensor(c, sizes) => {
                if any_negative(sizes) {
                    return Some(Error::MalformedShape);
                }
                if !c.is_representable() || !c.fills(sizes) {
                    return Some(Error::TypeMismatch);
                }
            },
            AttrValue::Shape(s) => {
                if !s.is_well_formed() {
                    return Some(Error::MalformedShape);
                }
            },
            _ => {},
        }
        None
    }
}

} // verus!
