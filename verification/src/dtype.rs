//! Element types of tensors.

use vstd::prelude::*;

verus! {

/// The type of a single tensor element, as the backend knows it.
#[derive(Clone, Copy, Debug, PartialEq, Eq, Structural, Hash)]
pub enum DataType {
    /// 32-bit floating point.
    Float,
    /// 64-bit floating point.
    Double,
    /// 32-bit signed integer.
    Int32,
    /// 8-bit unsigned integer.
    UInt8,
    /// 16-bit signed integer.
    Int16,
    /// 8-bit signed integer.
    Int8,
    /// String.
    String,
    /// Complex number made of two 32-bit floats.
    Complex64,
    /// 64-bit signed integer.
    Int64,
    /// Boolean.
    Bool,
    /// Quantized 8-bit signed integer.
    QInt8,
    /// Quantized 8-bit unsigned integer.
    QUInt8,
    /// Quantized 32-bit signed integer.
    QInt32,
    /// 32-bit float truncated to 16 bits.
    BFloat16,
    /// Quantized 16-bit signed integer.
    QInt16,
    /// Quantized 16-bit unsigned integer.
    QUInt16,
    /// 16-bit unsigned integer.
    UInt16,
    /// Complex number made of two 64-bit floats.
    Complex128,
    /// 16-bit floating point.
    Half,
    /// A handle to a backend resource.
    Resource,
    /// A dynamically typed value.
    Variant,
    /// 32-bit unsigned integer.
    UInt32,
    /// 64-bit unsigned integer.
    UInt64,
}

impl DataType {
    /// Whether tensors of this type can index into another tensor.
    pub open spec fn indexes(self) -> bool {
        self == DataType::Int32 || self == DataType::Int64
    }

    /// Tells whether tensors of this type can index into another tensor.
    pub fn is_index(self) -> (yes: bool)
        ensures
            yes == self.indexes(),
    {
        self == DataType::Int32 || self == DataType::Int64
    }
}

} // verus!
