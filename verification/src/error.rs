//! The errors the virtual machine raises as Java exceptions, the faults that stop the
//! interpreter, and where an exception was thrown.
use crate::value::RuntimeValue;
use vstd::prelude::*;
use vstd::string::*;

verus! {

/// An exception that the virtual machine itself throws.
#[derive(Debug, Clone, PartialEq, Eq)]
pub enum VMError {
    ArrayIndexOutOfBounds { at: i64 },
    NullPointerException { ctx: String },
    StackOverflowError {},
    ClassCastException { from: String, to: String },
}

/// The decimal digits of a natural number, most significant first.
pub open spec fn decimal(n: nat) -> Seq<char>
    decreases n,
{
    if n < 10 {
        seq![digit_char(n)]
    } else {
        decimal(n / 10).push(digit_char(n % 10))
    }
}

/// The character of a decimal digit.
pub open spec fn digit_char(d: nat) -> char {
    if d == 0 {
        '0'
    } else if d == 1 {
        '1'
    } else if d == 2 {
        '2'
    } else if d == 3 {
        '3'
    } else if d == 4 {
        '4'
    } else if d == 5 {
        '5'
    } else if d == 6 {
        '6'
    } else if d == 7 {
        '7'
    } else if d == 8 {
        '8'
    } else {
        '9'
    }
}

/// An integer written in decimal, with a leading `-` when it is negative.
pub open spec fn signed_decimal(n: int) -> Seq<char> {
    if n < 0 {
        seq!['-'] + decimal((-n) as nat)
    } else {
        decimal(n as nat)
    }
}

/// The string literal of one decimal digit.
fn digit_str(d: u64) -> (r: &'static str)
    requires
        d < 10,
    ensures
        r@ == seq![digit_char(d as nat)],
{
    proof {
        reveal_strlit("0");
        reveal_strlit("1");
        reveal_strlit("2");
        reveal_strlit("3");
        reveal_strlit("4");
        reveal_strlit("5");
        reveal_strlit("6");
        reveal_strlit("7");
        reveal_strlit("8");
        reveal_strlit("9");
    }
    if d == 0 {
        "0"
    } else if d == 1 {
        "1"
    } else if d == 2 {
        "2"
    } else if d == 3 {
        "3"
    } else if d == 4 {
        "4"
    } else if d == 5 {
        "5"
    } else if d == 6 {
        "6"
    } else if d == 7 {
        "7"
    } else if d == 8 {
        "8"
    } else {
        "9"
    }
}

/// Appends the decimal digits of `n` to `out`.
fn push_decimal(out: &mut String, n: u64)
    ensures
        final(out)@ == old(out)@ + decimal(n as nat),
    decreases n,
{
    if n < 10 {
        out.append(digit_str(n));
        assert(decimal(n as nat) == seq![digit_char(n as nat)]);
    } else {
        push_decimal(out, n / 10);
        out.append(digit_str(n % 10));
        assert(old(out)@ + decimal((n / 10) as nat) + seq![digit_char((n % 10) as nat)] =~= old(
            out,
        )@ + decimal(n as nat));
    }
}

/// Appends `n` in decimal, with a leading `-` when it is negative, to `out`.
fn push_signed_decimal(out: &mut String, n: i64)
    ensures
        final(out)@ == old(out)@ + signed_decimal(n as int),
{
    if n < 0 {
        proof {
            reveal_strlit("-");
        }
        out.append("-");
        let magnitude: u64 = (0i128 - (n as i128)) as u64;
        push_decimal(out, magnitude);
        assert(old(out)@ + seq!['-'] + decimal(magnitude as nat) =~= old(out)@ + signed_decimal(
            n as int,
        ));
    } else {
        push_decimal(out, n as u64);
    }
}

impl VMError {
    /// The binary name of the exception class.
    pub open spec fn spec_class_name(&self) -> Seq<char> {
        match self {
            VMError::ArrayIndexOutOfBounds { .. } => "java/lang/ArrayIndexOutOfBoundsException"@,
            VMError::NullPointerException { .. } => "java/lang/NullPointerException"@,
            VMError::StackOverflowError { .. } => "java/lang/StackOverflowError"@,
            VMError::ClassCastException { .. } => "java/lang/ClassCastException"@,
        }
    }

    /// The detail of the exception, after the class name.
    pub open spec fn spec_detail(&self) -> Seq<char> {
        match self {
            VMError::ArrayIndexOutOfBounds { at } => "OOB @ "@ + signed_decimal(*at as int),
            VMError::NullPointerException { ctx } => "NPE ("@ + ctx@ + ")"@,
            VMError::StackOverflowError { .. } => "thread main has overflowed its stack"@,
            VMError::ClassCastException { from, to } => "invalid cast from "@ + from@ + " to "@
                + to@,
        }
    }

    /// The binary name of the class of the exception.
    pub fn class_name(&self) -> (r: &'static str)
        ensures
            r@ == self.spec_class_name(),
    {
        match self {
            VMError::ArrayIndexOutOfBounds { .. } => "java/lang/ArrayIndexOutOfBoundsException",
            VMError::NullPointerException { .. } => "java/lang/NullPointerException",
            VMError::StackOverflowError { .. } => "java/lang/StackOverflowError",
            VMError::ClassCastException { .. } => "java/lang/ClassCastException",
        }
    }

    /// The message of the exception: its class name, `": "` and the detail.
    pub fn message(&self) -> (r: String)
        ensures
            r@ == self.spec_class_name() + ": "@ + self.spec_detail(),
    {
        let mut out = String::from_str(self.class_name());
        out.append(": ");
        match self {
            VMError::ArrayIndexOutOfBounds { at } => {
                out.append("OOB @ ");
                push_signed_decimal(&mut out, *at);
            },
            VMError::NullPointerException { ctx } => {
                out.append("NPE (");
                out.append(ctx.as_str());
                out.append(")");
            },
            VMError::StackOverflowError { .. } => {
                out.append("thread main has overflowed its stack");
            },
            VMError::ClassCastException { from, to } => {
                out.append("invalid cast from ");
                out.append(from.as_str());
                out.append(" to ");
                out.append(to.as_str());
            },
        }
        out
    }
}

/// A method on the call stack, for the trace of an exception.
#[derive(Debug, Clone)]
pub struct Frame {
    pub method_name: String,
    pub class_name: String,
}

/// Where the interpreter stood when an exception left a method: its program counter
/// and its local variables.
#[derive(Debug, Clone)]
pub struct ThrownState {
    pub pc: i32,
    pub locals: Vec<RuntimeValue>,
}

/// A fault that stops the interpreter: the code does not do what the instruction needs.
#[derive(Debug, Clone, Copy, PartialEq, Eq, Structural)]
pub enum ExecError {
    /// An instruction popped more values than the operand stack held.
    StackUnderflow,
    /// An operand that had to be an `int` was not.
    NotInt,
    /// An operand that had to be a `long` was not.
    NotLong,
    /// An operand that had to be a reference was not.
    NotObject,
    /// A reference does not name an array in the heap.
    NotArray,
    /// An array store of a value that the array cannot hold.
    ArrayStore,
    /// The local variable at this index does not exist.
    NoLocal(usize),
    /// The local variable is not an `int`.
    LocalNotInt(usize),
    /// An integer division or remainder by zero, or one that overflows.
    Arithmetic,
    /// A shift by more than the width of the value.
    ShiftTooFar,
    /// An array size that is not an `int` from 0 to `i32::MAX`.
    BadArraySize,
    /// The constant pool has no loadable entry at this index.
    BadConstant(u16),
    /// A `newarray` operand that names no primitive type.
    BadArrayType(u8),
    /// An opcode the interpreter does not run.
    Unsupported(u8),
    /// Code that ends inside an instruction.
    Truncated,
    /// A jump outside the code.
    BadJump,
    /// A reference that does not name an instance of a class.
    NotInstance,
    /// A field reference that names no field of the object or class.
    NoSuchField,
    /// A method reference that names no method of the class or its superclasses.
    NoSuchMethod,
    /// A method descriptor that is not valid.
    BadDescriptor,
    /// A method without code that is not native.
    NoCode,
    /// A class that the interpreter cannot make an instance of.
    BadClass,
    /// An `Unsafe` offset that numbers no field slot or element of the object.
    BadOffset,
    /// An `invokestatic` of an instance or class initialiser (`<init>`, `<clinit>`).
    InitialiserCall,
}

} // verus!
