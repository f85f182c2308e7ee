//! Runtime values.

use vstd::prelude::*;

verus! {

/// A runtime value: one of four numeric variants, never coerced into another.
///
/// The two floating-point variants hold the IEEE 754 bit pattern of the
/// number, so that a value is copied and compared bit for bit.
#[derive(Clone, Copy, Debug, PartialEq, Eq, Structural)]
pub enum Value {
    I32(i32),
    I64(i64),
    F32(u32),
    F64(u64),
}

impl Value {
    /// The 32-bit integer this value holds, if it is one.
    pub fn as_i32(&self) -> (r: Option<i32>)
        ensures
            r == (match *self {
                Value::I32(i) => Some(i),
                _ => None,
            }),
    {
        match *self {
            Value::I32(i) => Some(i),
            _ => None,
        }
    }

    /// The 64-bit integer this value holds, if it is one.
    pub fn as_i64(&self) -> (r: Option<i64>)
        ensures
            r == (match *self {
                Value::I64(i) => Some(i),
                _ => None,
            }),
    {
        match *self {
            Value::I64(i) => Some(i),
            _ => None,
        }
    }

    /// The bit pattern of the 32-bit float this value holds, if it is one.
    pub fn as_f32_bits(&self) -> (r: Option<u32>)
        ensures
            r == (match *self {
                Value::F32(bits) => Some(bits),
                _ => None,
            }),
    {
        match *self {
            Value::F32(bits) => Some(bits),
            _ => None,
        }
    }

    /// The bit pattern of the 64-bit float this value holds, if it is one.
    pub fn as_f64_bits(&self) -> (r: Option<u64>)
        ensures
            r == (match *self {
                Value::F64(bits) => Some(bits),
                _ => None,
            }),
    {
        match *self {
            Value::F64(bits) => Some(bits),
            _ => None,
        }
    }
}

} // verus!
