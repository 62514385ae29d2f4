//! The values an interpreter frame holds: integers, floating point bit patterns and
//! references into the heap.
use crate::numeric::{Floating, FloatingType, Integral, IntegralType};
use vstd::prelude::*;

verus! {

/// The two computational categories of JVMS §2.11.1: category 2 values take two
/// operand stack slots in the specification's accounting.
#[derive(Debug, Clone, Copy, PartialEq, Eq, Structural)]
pub enum ComputationalType {
    Category1,
    Category2,
}

/// A value on the operand stack or in a local variable. A reference is the index of
/// an object in the heap, or `None` for `null`.
#[derive(Debug, Clone, Copy, PartialEq, Eq, Structural)]
pub enum RuntimeValue {
    Object(Option<usize>),
    Integral(Integral),
    Floating(Floating),
}

impl RuntimeValue {
    /// The category of a value as the interpreter classifies it: an `int` and a
    /// `double` are category 1, a `long` and a `float` category 2, a reference
    /// category 1.
    pub open spec fn category(self) -> ComputationalType {
        match self {
            RuntimeValue::Integral(i) => match i.ty {
                IntegralType::Int => ComputationalType::Category1,
                IntegralType::Long => ComputationalType::Category2,
            },
            RuntimeValue::Floating(f) => match f.ty {
                FloatingType::Double => ComputationalType::Category1,
                FloatingType::Float => ComputationalType::Category2,
            },
            RuntimeValue::Object(_) => ComputationalType::Category1,
        }
    }

    /// Whether the value is an `int`.
    pub open spec fn is_int(self) -> bool {
        self matches RuntimeValue::Integral(i) && i.ty == IntegralType::Int
    }

    /// Whether the value is a `long`.
    pub open spec fn is_long(self) -> bool {
        self matches RuntimeValue::Integral(i) && i.ty == IntegralType::Long
    }

    /// The integer held by an integral value.
    pub open spec fn integral_value(self) -> i64 {
        match self {
            RuntimeValue::Integral(i) => i.value,
            _ => 0,
        }
    }

    /// The `null` reference.
    pub fn null_ref() -> (r: Self)
        ensures
            r == RuntimeValue::Object(None),
    {
        RuntimeValue::Object(None)
    }

    /// Whether the value is the `null` reference.
    pub fn is_null(&self) -> (r: bool)
        ensures
            r == (*self == RuntimeValue::Object(None)),
    {
        match self {
            RuntimeValue::Object(None) => true,
            _ => false,
        }
    }

    /// The computational category of the value.
    pub fn computational_type(&self) -> (r: ComputationalType)
        ensures
            r == self.category(),
    {
        match self {
            RuntimeValue::Integral(integral) => match integral.ty {
                IntegralType::Int => ComputationalType::Category1,
                IntegralType::Long => ComputationalType::Category2,
            },
            RuntimeValue::Floating(float) => match float.ty {
                FloatingType::Double => ComputationalType::Category1,
                FloatingType::Float => ComputationalType::Category2,
            },
            RuntimeValue::Object(_) => ComputationalType::Category1,
        }
    }

    /// An `int` value.
    pub fn from_int(value: i32) -> (r: Self)
        ensures
            r == RuntimeValue::Integral(Integral { value: value as i64, ty: IntegralType::Int }),
    {
        RuntimeValue::Integral(Integral { value: value as i64, ty: IntegralType::Int })
    }

    /// A `long` value.
    pub fn from_long(value: i64) -> (r: Self)
        ensures
            r == RuntimeValue::Integral(Integral { value, ty: IntegralType::Long }),
    {
        RuntimeValue::Integral(Integral { value, ty: IntegralType::Long })
    }
}

} // verus!
