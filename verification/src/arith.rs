//! Integer arithmetic on the operand stack: `int` operations wrap at 32 bits, `long`
//! operations at 64 bits, as in the JVM.
use crate::error::ExecError;
use crate::frame::{ProgressionValue, below, performs, popped, with_operands, Context, FrameState, Progression};
use crate::numeric::{Integral, IntegralType};
use crate::value::RuntimeValue;
use vstd::prelude::*;

verus! {

/// A binary integer operation.
#[derive(Debug, Clone, Copy, PartialEq, Eq, Structural)]
pub enum ArithOp {
    Iadd,
    Isub,
    Imul,
    Idiv,
    Irem,
    Ishl,
    Ishr,
    Iushr,
    Iand,
    Ior,
    Ixor,
    Ladd,
    Lsub,
    Lmul,
    Ldiv,
    Lrem,
    Land,
    Lor,
    Lxor,
    Lshl,
    Lshr,
    Lushr,
    Lcompare,
}

/// The `int` value `v`.
pub open spec fn int_value(v: i32) -> RuntimeValue {
    RuntimeValue::Integral(Integral { value: v as i64, ty: IntegralType::Int })
}

/// The `long` value `v`.
pub open spec fn long_value(v: i64) -> RuntimeValue {
    RuntimeValue::Integral(Integral { value: v, ty: IntegralType::Long })
}

impl ArithOp {
    /// Whether the left-hand operand is a `long` (else an `int`).
    pub open spec fn long_lhs(self) -> bool {
        match self {
            ArithOp::Ladd | ArithOp::Lsub | ArithOp::Lmul | ArithOp::Ldiv | ArithOp::Lrem
            | ArithOp::Land | ArithOp::Lor | ArithOp::Lxor | ArithOp::Lshl | ArithOp::Lshr
            | ArithOp::Lushr | ArithOp::Lcompare => true,
            _ => false,
        }
    }

    /// Whether the right-hand operand is a `long` (else an `int`): the shift distance
    /// of a `long` shift is an `int`.
    pub open spec fn long_rhs(self) -> bool {
        self.long_lhs() && !(self == ArithOp::Lshl || self == ArithOp::Lshr || self == ArithOp::Lushr)
    }

    /// The result of the operation on the values of the operands `a` (left) and `b`.
    /// `int` operations take the low 32 bits of their operands; a division or remainder
    /// by zero, a remainder of the least value by -1 and a logical shift by the width
    /// or more are faults.
    pub open spec fn result(self, a: i64, b: i64) -> Result<RuntimeValue, ExecError> {
        let x = a as i32;
        let y = b as i32;
        match self {
            ArithOp::Iadd => Ok(int_value(x.wrapping_add(y))),
            ArithOp::Isub => Ok(int_value(x.wrapping_sub(y))),
            ArithOp::Imul => Ok(int_value(x.wrapping_mul(y))),
            ArithOp::Idiv => if y == 0 {
                Err(ExecError::Arithmetic)
            } else {
                Ok(int_value(match x.checked_div(y) { Some(q) => q, None => i32::MIN }))
            },
            ArithOp::Irem => match x.checked_rem(y) {
                Some(m) => Ok(int_value(m)),
                None => Err(ExecError::Arithmetic),
            },
            ArithOp::Ishl => Ok(int_value(x.wrapping_shl(b as u32))),
            ArithOp::Ishr => Ok(int_value(x.wrapping_shr(b as u32))),
            ArithOp::Iushr => if (b as u32) >= 32 {
                Err(ExecError::ShiftTooFar)
            } else {
                Ok(int_value(((a as u32) >> (b as u32)) as i32))
            },
            ArithOp::Iand => Ok(int_value(x & y)),
            ArithOp::Ior => Ok(int_value(x | y)),
            ArithOp::Ixor => Ok(int_value(x ^ y)),
            ArithOp::Ladd => Ok(long_value(a.wrapping_add(b))),
            ArithOp::Lsub => Ok(long_value(a.wrapping_sub(b))),
            ArithOp::Lmul => Ok(long_value(a.wrapping_mul(b))),
            ArithOp::Ldiv => if b == 0 {
                Err(ExecError::Arithmetic)
            } else {
                Ok(long_value(match a.checked_div(b) { Some(q) => q, None => i64::MIN }))
            },
            ArithOp::Lrem => match a.checked_rem(b) {
                Some(m) => Ok(long_value(m)),
                None => Err(ExecError::Arithmetic),
            },
            ArithOp::Land => Ok(long_value(a & b)),
            ArithOp::Lor => Ok(long_value(a | b)),
            ArithOp::Lxor => Ok(long_value(a ^ b)),
            ArithOp::Lshl => Ok(long_value(a.wrapping_shl(b as u32))),
            ArithOp::Lshr => Ok(long_value(a.wrapping_shr(b as u32))),
            ArithOp::Lushr => if (b as u64) >= 64 {
                Err(ExecError::ShiftTooFar)
            } else {
                Ok(long_value(((a as u64) >> (b as u64)) as i64))
            },
            ArithOp::Lcompare => Ok(int_value(if a > b { 1i32 } else if a == b { 0i32 } else { -1i32 })),
        }
    }

    /// Computes the result of the operation.
    pub fn compute(self, a: i64, b: i64) -> (r: Result<RuntimeValue, ExecError>)
        ensures
            r == self.result(a, b),
    {
        let x = a as i32;
        let y = b as i32;
        match self {
            ArithOp::Iadd => Ok(RuntimeValue::from_int(x.wrapping_add(y))),
            ArithOp::Isub => Ok(RuntimeValue::from_int(x.wrapping_sub(y))),
            ArithOp::Imul => Ok(RuntimeValue::from_int(x.wrapping_mul(y))),
            ArithOp::Idiv => if y == 0 {
                Err(ExecError::Arithmetic)
            } else {
                Ok(RuntimeValue::from_int(match x.checked_div(y) { Some(q) => q, None => i32::MIN }))
            },
            ArithOp::Irem => match x.checked_rem(y) {
                Some(m) => Ok(RuntimeValue::from_int(m)),
                None => Err(ExecError::Arithmetic),
            },
            ArithOp::Ishl => Ok(RuntimeValue::from_int(x.wrapping_shl(b as u32))),
            ArithOp::Ishr => Ok(RuntimeValue::from_int(x.wrapping_shr(b as u32))),
            ArithOp::Iushr => if (b as u32) >= 32 {
                Err(ExecError::ShiftTooFar)
            } else {
                Ok(RuntimeValue::from_int(((a as u32) >> (b as u32)) as i32))
            },
            ArithOp::Iand => Ok(RuntimeValue::from_int(x & y)),
            ArithOp::Ior => Ok(RuntimeValue::from_int(x | y)),
            ArithOp::Ixor => Ok(RuntimeValue::from_int(x ^ y)),
            ArithOp::Ladd => Ok(RuntimeValue::from_long(a.wrapping_add(b))),
            ArithOp::Lsub => Ok(RuntimeValue::from_long(a.wrapping_sub(b))),
            ArithOp::Lmul => Ok(RuntimeValue::from_long(a.wrapping_mul(b))),
            ArithOp::Ldiv => if b == 0 {
                Err(ExecError::Arithmetic)
            } else {
                Ok(RuntimeValue::from_long(match a.checked_div(b) { Some(q) => q, None => i64::MIN }))
            },
            ArithOp::Lrem => match a.checked_rem(b) {
                Some(m) => Ok(RuntimeValue::from_long(m)),
                None => Err(ExecError::Arithmetic),
            },
            ArithOp::Land => Ok(RuntimeValue::from_long(a & b)),
            ArithOp::Lor => Ok(RuntimeValue::from_long(a | b)),
            ArithOp::Lxor => Ok(RuntimeValue::from_long(a ^ b)),
            ArithOp::Lshl => Ok(RuntimeValue::from_long(a.wrapping_shl(b as u32))),
            ArithOp::Lshr => Ok(RuntimeValue::from_long(a.wrapping_shr(b as u32))),
            ArithOp::Lushr => if (b as u64) >= 64 {
                Err(ExecError::ShiftTooFar)
            } else {
                Ok(RuntimeValue::from_long(((a as u64) >> (b as u64)) as i64))
            },
            ArithOp::Lcompare => Ok(RuntimeValue::from_int(if a > b { 1 } else if a == b { 0 } else { -1 })),
        }
    }
}

/// Whether `v` is an integral value of the kind an operand needs.
pub open spec fn has_kind(v: RuntimeValue, long: bool) -> bool {
    if long {
        v.is_long()
    } else {
        v.is_int()
    }
}

/// The fault for an operand of the wrong kind.
pub open spec fn kind_error(long: bool) -> ExecError {
    if long {
        ExecError::NotLong
    } else {
        ExecError::NotInt
    }
}

fn operand_of_kind(v: RuntimeValue, long: bool) -> (r: Result<i64, ExecError>)
    ensures
        has_kind(v, long) ==> r == Ok::<i64, ExecError>(v.integral_value()),
        !has_kind(v, long) ==> r == Err::<i64, ExecError>(kind_error(long)),
{
    match v {
        RuntimeValue::Integral(i) => {
            let ok = if long {
                i.ty == IntegralType::Long
            } else {
                i.ty == IntegralType::Int
            };
            if ok {
                Ok(i.value)
            } else if long {
                Err(ExecError::NotLong)
            } else {
                Err(ExecError::NotInt)
            }
        },
        _ => if long {
            Err(ExecError::NotLong)
        } else {
            Err(ExecError::NotInt)
        },
    }
}

/// Pops the right-hand and then the left-hand operand and pushes the result.
#[derive(Debug, Clone, Copy)]
pub struct IntArith {
    pub op: ArithOp,
}

impl IntArith {
    pub open spec fn effect(&self, f: FrameState) -> Result<(FrameState, ProgressionValue), ExecError> {
        let s = f.operands;
        if s.len() < 1 {
            Err(ExecError::StackUnderflow)
        } else if !has_kind(below(s, 0), self.op.long_rhs()) {
            Err(kind_error(self.op.long_rhs()))
        } else if s.len() < 2 {
            Err(ExecError::StackUnderflow)
        } else if !has_kind(below(s, 1), self.op.long_lhs()) {
            Err(kind_error(self.op.long_lhs()))
        } else {
            match self.op.result(below(s, 1).integral_value(), below(s, 0).integral_value()) {
                Ok(v) => Ok((with_operands(f, popped(s, 2).push(v)), ProgressionValue::Next)),
                Err(e) => Err(e),
            }
        }
    }

    pub fn handle(&self, ctx: &mut Context) -> (r: Result<Progression, ExecError>)
        ensures
            performs(r, old(ctx)@, final(ctx)@, self.effect(old(ctx)@)),
    {
        let n = ctx.operands.len();
        if n < 1 {
            return Err(ExecError::StackUnderflow);
        }
        let long_lhs = match self.op {
            ArithOp::Ladd | ArithOp::Lsub | ArithOp::Lmul | ArithOp::Ldiv | ArithOp::Lrem
            | ArithOp::Land | ArithOp::Lor | ArithOp::Lxor | ArithOp::Lshl | ArithOp::Lshr
            | ArithOp::Lushr | ArithOp::Lcompare => true,
            _ => false,
        };
        let long_rhs = long_lhs && !matches!(self.op, ArithOp::Lshl | ArithOp::Lshr | ArithOp::Lushr);
        let b = operand_of_kind(ctx.operands[n - 1], long_rhs)?;
        if n < 2 {
            return Err(ExecError::StackUnderflow);
        }
        let a = operand_of_kind(ctx.operands[n - 2], long_lhs)?;
        let v = self.op.compute(a, b)?;
        ctx.operands.pop();
        ctx.operands.pop();
        ctx.operands.push(v);
        Ok(Progression::Next)
    }
}

/// A unary integer operation.
#[derive(Debug, Clone, Copy, PartialEq, Eq, Structural)]
pub enum UnaryOp {
    Ineg,
    Lneg,
    I2l,
    L2i,
    I2b,
    I2c,
    I2s,
}

impl UnaryOp {
    /// Whether the operand is a `long` (else an `int`).
    pub open spec fn long_operand(self) -> bool {
        self == UnaryOp::Lneg || self == UnaryOp::L2i
    }

    /// The values pushed for an operand with value `a`: `lneg` pushes its result twice,
    /// and `i2c` narrows to a signed 16-bit value, as `i2s` does.
    pub open spec fn results(self, a: i64) -> Seq<RuntimeValue> {
        match self {
            UnaryOp::Ineg => seq![int_value(0i32.wrapping_sub(a as i32))],
            UnaryOp::Lneg => seq![long_value(0i64.wrapping_sub(a)), long_value(0i64.wrapping_sub(a))],
            UnaryOp::I2l => seq![long_value((a as i32) as i64)],
            UnaryOp::L2i => seq![int_value(a as i32)],
            UnaryOp::I2b => seq![int_value((a as i8) as i32)],
            UnaryOp::I2c => seq![int_value((a as i16) as i32)],
            UnaryOp::I2s => seq![int_value((a as i16) as i32)],
        }
    }
}

/// Pops an operand and pushes the result of a unary operation on it.
#[derive(Debug, Clone, Copy)]
pub struct IntUnary {
    pub op: UnaryOp,
}

impl IntUnary {
    pub open spec fn effect(&self, f: FrameState) -> Result<(FrameState, ProgressionValue), ExecError> {
        let s = f.operands;
        if s.len() < 1 {
            Err(ExecError::StackUnderflow)
        } else if !has_kind(below(s, 0), self.op.long_operand()) {
            Err(kind_error(self.op.long_operand()))
        } else {
            Ok((
                with_operands(f, s.drop_last() + self.op.results(below(s, 0).integral_value())),
                ProgressionValue::Next,
            ))
        }
    }

    pub fn handle(&self, ctx: &mut Context) -> (r: Result<Progression, ExecError>)
        ensures
            performs(r, old(ctx)@, final(ctx)@, self.effect(old(ctx)@)),
    {
        let n = ctx.operands.len();
        if n < 1 {
            return Err(ExecError::StackUnderflow);
        }
        let long = matches!(self.op, UnaryOp::Lneg | UnaryOp::L2i);
        let a = operand_of_kind(ctx.operands[n - 1], long)?;
        ctx.operands.pop();
        match self.op {
            UnaryOp::Ineg => ctx.operands.push(RuntimeValue::from_int(0i32.wrapping_sub(a as i32))),
            UnaryOp::Lneg => {
                ctx.operands.push(RuntimeValue::from_long(0i64.wrapping_sub(a)));
                ctx.operands.push(RuntimeValue::from_long(0i64.wrapping_sub(a)));
            },
            UnaryOp::I2l => ctx.operands.push(RuntimeValue::from_long((a as i32) as i64)),
            UnaryOp::L2i => ctx.operands.push(RuntimeValue::from_int(a as i32)),
            UnaryOp::I2b => ctx.operands.push(RuntimeValue::from_int((a as i8) as i32)),
            UnaryOp::I2c => ctx.operands.push(RuntimeValue::from_int((a as i16) as i32)),
            UnaryOp::I2s => ctx.operands.push(RuntimeValue::from_int((a as i16) as i32)),
        }
        Ok(Progression::Next)
    }
}

} // verus!
