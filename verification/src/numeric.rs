//! The numeric values of the JVM: `int` and `long` held as `i64`, `float` and `double`
//! held as their bit patterns (arithmetic on them is left to the host).
use vstd::prelude::*;

verus! {

/// Whether an integral value is an `int` or a `long`.
#[derive(Debug, Clone, Copy, PartialEq, Eq, Structural)]
pub enum IntegralType {
    Int,
    Long,
}

/// Whether a floating value is a `double` or a `float`.
#[derive(Debug, Clone, Copy, PartialEq, Eq, Structural)]
pub enum FloatingType {
    Double,
    Float,
}

/// An `int` or a `long`. An `int` holds an `i32` value widened to `i64`.
#[derive(Debug, Clone, Copy, PartialEq, Eq, Structural)]
pub struct Integral {
    pub value: i64,
    pub ty: IntegralType,
}

/// A `float` or a `double`, held as its bit pattern: a `double` as the bits of an `f64`,
/// a `float` as the bits of an `f32` in the low half.
#[derive(Debug, Clone, Copy, PartialEq, Eq, Structural)]
pub struct Floating {
    pub bits: u64,
    pub ty: FloatingType,
}

impl Integral {
    /// An `int` that holds `value`.
    pub fn new_int(value: i64) -> (r: Self)
        ensures
            r == (Integral { value, ty: IntegralType::Int }),
    {
        Integral { value, ty: IntegralType::Int }
    }

    /// A `long` that holds `value`.
    pub fn long(value: i64) -> (r: Self)
        ensures
            r == (Integral { value, ty: IntegralType::Long }),
    {
        Integral { value, ty: IntegralType::Long }
    }

    /// The sum of the two values; it must fit in an `i64`.
    pub fn add(self, rhs: Self) -> (r: i64)
        requires
            i64::MIN <= self.value + rhs.value <= i64::MAX,
        ensures
            r == self.value + rhs.value,
    {
        self.value + rhs.value
    }

    /// The difference of the two values; it must fit in an `i64`.
    pub fn sub(self, rhs: Self) -> (r: i64)
        requires
            i64::MIN <= self.value - rhs.value <= i64::MAX,
        ensures
            r == self.value - rhs.value,
    {
        self.value - rhs.value
    }

    /// The product of the two values; it must fit in an `i64`.
    pub fn mul(self, rhs: Self) -> (r: i64)
        requires
            i64::MIN <= self.value * rhs.value <= i64::MAX,
        ensures
            r == self.value * rhs.value,
    {
        self.value * rhs.value
    }

    /// The quotient of the two values, rounded toward zero; the divisor must not be zero
    /// and the quotient must fit in an `i64`.
    pub fn div(self, rhs: Self) -> (r: i64)
        requires
            rhs.value != 0,
            !(self.value == i64::MIN && rhs.value == -1),
        ensures
            r == trunc_div(self.value as int, rhs.value as int),
    {
        proof {
            lemma_trunc_div_bounds(self.value as int, rhs.value as int);
        }
        match self.value.checked_div(rhs.value) {
            Some(q) => q,
            None => 0,
        }
    }

    /// The bitwise or of the two values.
    pub fn bitor(self, rhs: Self) -> (r: i64)
        ensures
            r == self.value | rhs.value,
    {
        self.value | rhs.value
    }

    /// The bitwise and of the two values.
    pub fn bitand(self, rhs: Self) -> (r: i64)
        ensures
            r == self.value & rhs.value,
    {
        self.value & rhs.value
    }
}

/// Division rounded toward zero, as Rust and the JVM divide (in specifications `/` is
/// Euclidean division).
pub open spec fn trunc_div(a: int, b: int) -> int {
    if a == 0 || b == 0 {
        0
    } else if a > 0 && b > 0 {
        a / b
    } else if a < 0 && b < 0 {
        (-a) / (-b)
    } else if a < 0 {
        -((-a) / b)
    } else {
        -(a / (-b))
    }
}

/// A quotient rounded toward zero is no larger in magnitude than its dividend.
proof fn lemma_trunc_div_bounds(a: int, b: int)
    requires
        b != 0,
    ensures
        a >= 0 ==> 0 <= trunc_div(a, b) <= a || (b < 0 && -a <= trunc_div(a, b) <= 0),
        a < 0 ==> (b > 0 && a <= trunc_div(a, b) <= 0) || (b < 0 && 0 <= trunc_div(a, b) <= -a),
        a < 0 && b < -1 ==> 2 * trunc_div(a, b) <= -a,
        trunc_div(a, b) == (if a == 0 {
            0
        } else if a > 0 && b > 0 {
            a / b
        } else if a < 0 && b < 0 {
            (a * -1) / (b * -1)
        } else if a < 0 {
            ((a * -1) / b) * -1
        } else {
            (a / (b * -1)) * -1
        }),
{
    if a > 0 && b > 0 {
        assert(0 <= a / b <= a) by (nonlinear_arith)
            requires
                a > 0,
                b > 0,
        ;
    } else if a < 0 && b < 0 {
        assert(0 <= (-a) / (-b) <= -a) by (nonlinear_arith)
            requires
                a < 0,
                b < 0,
        ;
        if b < -1 {
            assert(2 * ((-a) / (-b)) <= -a) by (nonlinear_arith)
                requires
                    a < 0,
                    b < -1,
            ;
        }
    } else if a < 0 && b > 0 {
        assert(0 <= (-a) / b <= -a) by (nonlinear_arith)
            requires
                a < 0,
                b > 0,
        ;
    } else if a > 0 {
        assert(0 <= a / (-b) <= a) by (nonlinear_arith)
            requires
                a > 0,
                b < 0,
        ;
    }
}

/// The remainder that goes with `trunc_div`: it has the sign of `a`.
pub open spec fn trunc_rem(a: int, b: int) -> int {
    a - b * trunc_div(a, b)
}

impl vstd::std_specs::convert::FromSpecImpl<i32> for Integral {
    open spec fn obeys_from_spec() -> bool {
        true
    }

    open spec fn from_spec(v: i32) -> Integral {
        Integral { value: v as i64, ty: IntegralType::Int }
    }
}

impl From<i32> for Integral {
    /// An `int`.
    fn from(v: i32) -> (r: Integral) {
        Integral { value: v as i64, ty: IntegralType::Int }
    }
}

impl vstd::std_specs::convert::FromSpecImpl<i64> for Integral {
    open spec fn obeys_from_spec() -> bool {
        true
    }

    open spec fn from_spec(v: i64) -> Integral {
        Integral { value: v, ty: IntegralType::Long }
    }
}

impl From<i64> for Integral {
    /// A `long`.
    fn from(v: i64) -> (r: Integral) {
        Integral { value: v, ty: IntegralType::Long }
    }
}

impl Floating {
    /// A `double` with the given bit pattern.
    pub fn double(bits: u64) -> (r: Self)
        ensures
            r == (Floating { bits, ty: FloatingType::Double }),
    {
        Floating { bits, ty: FloatingType::Double }
    }

    /// A `float` with the given bit pattern.
    pub fn float(bits: u64) -> (r: Self)
        ensures
            r == (Floating { bits, ty: FloatingType::Float }),
    {
        Floating { bits, ty: FloatingType::Float }
    }
}

/// The element type of an array of primitives.
#[derive(Debug, Clone, Copy, PartialEq, Eq, Structural)]
pub enum ArrayPrimitive {
    Bool,
    Char,
    Float,
    Double,
    Byte,
    Short,
    Int,
    Long,
}

impl ArrayPrimitive {
    /// Whether `tag` is an operand of `newarray` (JVMS table 6.5.newarray-A).
    pub open spec fn is_tag(tag: u8) -> bool {
        4 <= tag <= 11
    }

    /// The element type named by the operand of `newarray`.
    pub open spec fn spec_from_tag(tag: u8) -> ArrayPrimitive {
        if tag == 4 {
            ArrayPrimitive::Bool
        } else if tag == 5 {
            ArrayPrimitive::Char
        } else if tag == 6 {
            ArrayPrimitive::Float
        } else if tag == 7 {
            ArrayPrimitive::Double
        } else if tag == 8 {
            ArrayPrimitive::Byte
        } else if tag == 9 {
            ArrayPrimitive::Short
        } else if tag == 10 {
            ArrayPrimitive::Int
        } else {
            ArrayPrimitive::Long
        }
    }

    /// The element type named by a `newarray` operand; any other byte is refused.
    pub fn from_tag(tag: u8) -> (r: Result<Self, crate::error::ExecError>)
        ensures
            Self::is_tag(tag) ==> r == Ok::<Self, crate::error::ExecError>(Self::spec_from_tag(tag)),
            !Self::is_tag(tag) ==> r == Err::<Self, crate::error::ExecError>(crate::error::ExecError::BadArrayType(tag)),
    {
        match tag {
            4 => Ok(Self::Bool),
            5 => Ok(Self::Char),
            6 => Ok(Self::Float),
            7 => Ok(Self::Double),
            8 => Ok(Self::Byte),
            9 => Ok(Self::Short),
            10 => Ok(Self::Int),
            11 => Ok(Self::Long),
            _ => Err(crate::error::ExecError::BadArrayType(tag)),
        }
    }
}

/// The kind of a class.
#[derive(Debug, Clone, Copy, PartialEq, Eq, Structural)]
pub enum ClassType {
    Class,
    Interface,
    Array,
    Primitive,
}

} // verus!
