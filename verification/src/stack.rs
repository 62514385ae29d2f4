//! Instructions that work on the operand stack and the local variables alone: constants,
//! loads and stores, stack shuffles, returns and monitors.
use crate::error::ExecError;
use crate::frame::{ProgressionValue, below, performs, popped, same_frame, with_operands, Context, FrameState, Progression};
use crate::numeric::{Integral, IntegralType};
use crate::value::{ComputationalType, RuntimeValue};
use vstd::prelude::*;

verus! {

/// Does nothing.
#[derive(Debug, Clone, Copy)]
pub struct Nop;

impl Nop {
    pub open spec fn effect(&self, f: FrameState) -> Result<(FrameState, ProgressionValue), ExecError> {
        Ok((f, ProgressionValue::Next))
    }

    pub fn handle(&self, ctx: &mut Context) -> (r: Result<Progression, ExecError>)
        ensures
            performs(r, old(ctx)@, final(ctx)@, self.effect(old(ctx)@)),
    {
        Ok(Progression::Next)
    }
}

/// Pushes a constant.
#[derive(Debug, Clone, Copy)]
pub struct PushConst {
    pub value: RuntimeValue,
}

impl PushConst {
    pub open spec fn effect(&self, f: FrameState) -> Result<(FrameState, ProgressionValue), ExecError> {
        Ok((with_operands(f, f.operands.push(self.value)), ProgressionValue::Next))
    }

    pub fn handle(&self, ctx: &mut Context) -> (r: Result<Progression, ExecError>)
        ensures
            performs(r, old(ctx)@, final(ctx)@, self.effect(old(ctx)@)),
    {
        ctx.operands.push(self.value);
        Ok(Progression::Next)
    }
}

/// Pushes a local variable.
#[derive(Debug, Clone, Copy)]
pub struct LoadLocal {
    pub index: usize,
}

impl LoadLocal {
    pub open spec fn effect(&self, f: FrameState) -> Result<(FrameState, ProgressionValue), ExecError> {
        if self.index < f.locals.len() {
            Ok((with_operands(f, f.operands.push(f.locals[self.index as int])), ProgressionValue::Next))
        } else {
            Err(ExecError::NoLocal(self.index))
        }
    }

    pub fn handle(&self, ctx: &mut Context) -> (r: Result<Progression, ExecError>)
        ensures
            performs(r, old(ctx)@, final(ctx)@, self.effect(old(ctx)@)),
    {
        if self.index < ctx.locals.len() {
            let local = ctx.locals[self.index];
            ctx.operands.push(local);
            Ok(Progression::Next)
        } else {
            Err(ExecError::NoLocal(self.index))
        }
    }
}

/// The local variables after a store of `v` at `index`, and at `index + 1` too when
/// `store_next` is set. Slots up to the highest one written are first filled with
/// `null`.
pub open spec fn stored_locals(
    locals: Seq<RuntimeValue>,
    index: int,
    store_next: bool,
    v: RuntimeValue,
) -> Seq<RuntimeValue> {
    let target = if store_next { index + 1 } else { index };
    let filled = if locals.len() <= target {
        locals + Seq::new((target + 1 - locals.len()) as nat, |i: int| RuntimeValue::Object(None))
    } else {
        locals
    };
    let first = filled.update(index, v);
    if store_next {
        first.update(index + 1, v)
    } else {
        first
    }
}

/// Pops a value into a local variable; a `long` or `double` store also writes the
/// slot after it.
#[derive(Debug, Clone, Copy)]
pub struct StoreLocal {
    pub index: usize,
    pub store_next: bool,
}

impl StoreLocal {
    pub open spec fn effect(&self, f: FrameState) -> Result<(FrameState, ProgressionValue), ExecError> {
        if f.operands.len() == 0 {
            Err(ExecError::StackUnderflow)
        } else {
            Ok((
                FrameState {
                    pc: f.pc,
                    operands: f.operands.drop_last(),
                    locals: stored_locals(f.locals, self.index as int, self.store_next, f.operands.last()),
                },
                ProgressionValue::Next,
            ))
        }
    }

    pub fn handle(&self, ctx: &mut Context) -> (r: Result<Progression, ExecError>)
        requires
            self.index < usize::MAX,
        ensures
            performs(r, old(ctx)@, final(ctx)@, self.effect(old(ctx)@)),
    {
        let target_index = if self.store_next {
            self.index + 1
        } else {
            self.index
        };
        let value = match ctx.operands.pop() {
            Some(v) => v,
            None => return Err(ExecError::StackUnderflow),
        };
        let ghost start = ctx.locals@;
        let ghost fill_len: nat = if start.len() <= target_index {
            (target_index + 1 - start.len()) as nat
        } else {
            0
        };
        let ghost nulls = Seq::new(fill_len, |i: int| RuntimeValue::Object(None));
        while ctx.locals.len() <= target_index
            invariant
                start.len() <= ctx.locals.len(),
                ctx.operands@ == old(ctx).operands@.drop_last(),
                old(ctx).operands@.len() > 0,
                value == old(ctx).operands@.last(),
                ctx.pc == old(ctx).pc,
                start == old(ctx).locals@,
                target_index == (if self.store_next { self.index + 1 } else { self.index as int }),
                ctx.locals.len() <= target_index + 1 || ctx.locals.len() == start.len(),
                ctx.locals@ =~= start + nulls.take(ctx.locals.len() - start.len()),
                nulls == Seq::new(fill_len, |i: int| RuntimeValue::Object(None)),
                fill_len == (if start.len() <= target_index {
                    (target_index + 1 - start.len()) as nat
                } else {
                    0nat
                }),
            decreases target_index + 1 - ctx.locals.len(),
        {
            ctx.locals.push(RuntimeValue::Object(None));
        }
        assert(ctx.locals@ =~= (if start.len() <= target_index {
            start + nulls
        } else {
            start
        }));
        ctx.locals.set(self.index, value);
        if self.store_next {
            ctx.locals.set(self.index + 1, value);
        }
        assert(ctx.locals@ =~= stored_locals(start, self.index as int, self.store_next, value));
        Ok(Progression::Next)
    }
}

/// Duplicates the top value.
#[derive(Debug, Clone, Copy)]
pub struct Dup;

impl Dup {
    pub open spec fn effect(&self, f: FrameState) -> Result<(FrameState, ProgressionValue), ExecError> {
        if f.operands.len() < 1 {
            Err(ExecError::StackUnderflow)
        } else {
            Ok((with_operands(f, f.operands.push(f.operands.last())), ProgressionValue::Next))
        }
    }

    pub fn handle(&self, ctx: &mut Context) -> (r: Result<Progression, ExecError>)
        ensures
            performs(r, old(ctx)@, final(ctx)@, self.effect(old(ctx)@)),
    {
        let n = ctx.operands.len();
        if n < 1 {
            return Err(ExecError::StackUnderflow);
        }
        let value = ctx.operands[n - 1];
        ctx.operands.push(value);
        Ok(Progression::Next)
    }
}

/// Duplicates the top value below the second: `v2, v1` becomes `v1, v2, v1`.
#[derive(Debug, Clone, Copy)]
pub struct DupX1;

impl DupX1 {
    pub open spec fn effect(&self, f: FrameState) -> Result<(FrameState, ProgressionValue), ExecError> {
        let s = f.operands;
        if s.len() < 2 {
            Err(ExecError::StackUnderflow)
        } else {
            Ok((
                with_operands(f, popped(s, 2).push(below(s, 0)).push(below(s, 1)).push(below(s, 0))),
                ProgressionValue::Next,
            ))
        }
    }

    pub fn handle(&self, ctx: &mut Context) -> (r: Result<Progression, ExecError>)
        ensures
            performs(r, old(ctx)@, final(ctx)@, self.effect(old(ctx)@)),
    {
        if ctx.operands.len() < 2 {
            return Err(ExecError::StackUnderflow);
        }
        let value1 = ctx.operands.pop().unwrap();
        let value2 = ctx.operands.pop().unwrap();
        ctx.operands.push(value1);
        ctx.operands.push(value2);
        ctx.operands.push(value1);
        Ok(Progression::Next)
    }
}

/// Duplicates the top value below the values under it. Form 1, `v3, v2, v1` becoming
/// `v1, v3, v2, v1`, is for three category 1 values; form 2, `v2, v1` becoming
/// `v1, v2, v1`, is for a value `v2` of category 2 under the top (a top value of
/// category 2 takes form 2 as well).
#[derive(Debug, Clone, Copy)]
pub struct DupX2;

impl DupX2 {
    pub open spec fn effect(&self, f: FrameState) -> Result<(FrameState, ProgressionValue), ExecError> {
        let s = f.operands;
        if s.len() < 2 {
            Err(ExecError::StackUnderflow)
        } else if below(s, 0).category() == ComputationalType::Category2 || below(s, 1).category()
            == ComputationalType::Category2 {
            Ok((
                with_operands(f, popped(s, 2).push(below(s, 0)).push(below(s, 1)).push(below(s, 0))),
                ProgressionValue::Next,
            ))
        } else if s.len() < 3 {
            Err(ExecError::StackUnderflow)
        } else {
            Ok((
                with_operands(
                    f,
                    popped(s, 3).push(below(s, 0)).push(below(s, 2)).push(below(s, 1)).push(below(s, 0)),
                ),
                ProgressionValue::Next,
            ))
        }
    }

    pub fn handle(&self, ctx: &mut Context) -> (r: Result<Progression, ExecError>)
        ensures
            performs(r, old(ctx)@, final(ctx)@, self.effect(old(ctx)@)),
    {
        let n = ctx.operands.len();
        if n < 2 {
            return Err(ExecError::StackUnderflow);
        }
        let form_two = match (ctx.operands[n - 1].computational_type(), ctx.operands[n - 2].computational_type()) {
            (ComputationalType::Category1, ComputationalType::Category1) => false,
            _ => true,
        };
        if form_two {
            let value1 = ctx.operands.pop().unwrap();
            let value2 = ctx.operands.pop().unwrap();
            ctx.operands.push(value1);
            ctx.operands.push(value2);
            ctx.operands.push(value1);
        } else {
            if n < 3 {
                return Err(ExecError::StackUnderflow);
            }
            let value1 = ctx.operands.pop().unwrap();
            let value2 = ctx.operands.pop().unwrap();
            let value3 = ctx.operands.pop().unwrap();
            ctx.operands.push(value1);
            ctx.operands.push(value3);
            ctx.operands.push(value2);
            ctx.operands.push(value1);
        }
        Ok(Progression::Next)
    }
}

/// Duplicates the top two values (category 1) or the top value (category 2), by the
/// category of the top value.
#[derive(Debug, Clone, Copy)]
pub struct Dup2;

impl Dup2 {
    pub open spec fn effect(&self, f: FrameState) -> Result<(FrameState, ProgressionValue), ExecError> {
        let s = f.operands;
        if s.len() < 1 {
            Err(ExecError::StackUnderflow)
        } else if below(s, 0).category() == ComputationalType::Category1 {
            if s.len() < 2 {
                Err(ExecError::StackUnderflow)
            } else {
                Ok((with_operands(f, s.push(below(s, 1)).push(below(s, 0))), ProgressionValue::Next))
            }
        } else {
            Ok((with_operands(f, s.push(below(s, 0))), ProgressionValue::Next))
        }
    }

    pub fn handle(&self, ctx: &mut Context) -> (r: Result<Progression, ExecError>)
        ensures
            performs(r, old(ctx)@, final(ctx)@, self.effect(old(ctx)@)),
    {
        let n = ctx.operands.len();
        if n < 1 {
            return Err(ExecError::StackUnderflow);
        }
        match ctx.operands[n - 1].computational_type() {
            ComputationalType::Category1 => {
                if n < 2 {
                    return Err(ExecError::StackUnderflow);
                }
                let value1 = ctx.operands[n - 1];
                let value2 = ctx.operands[n - 2];
                ctx.operands.push(value2);
                ctx.operands.push(value1);
            },
            ComputationalType::Category2 => {
                let value = ctx.operands[n - 1];
                ctx.operands.push(value);
            },
        }
        Ok(Progression::Next)
    }
}

/// Pops `amount` values.
#[derive(Debug, Clone, Copy)]
pub struct Pop {
    pub amount: u8,
}

impl Pop {
    pub open spec fn effect(&self, f: FrameState) -> Result<(FrameState, ProgressionValue), ExecError> {
        if f.operands.len() < self.amount {
            Err(ExecError::StackUnderflow)
        } else {
            Ok((with_operands(f, popped(f.operands, self.amount as int)), ProgressionValue::Next))
        }
    }

    pub fn handle(&self, ctx: &mut Context) -> (r: Result<Progression, ExecError>)
        ensures
            performs(r, old(ctx)@, final(ctx)@, self.effect(old(ctx)@)),
    {
        if ctx.operands.len() < self.amount as usize {
            return Err(ExecError::StackUnderflow);
        }
        let ghost start = ctx.operands@;
        let mut k: u8 = 0;
        while k < self.amount
            invariant
                k <= self.amount,
                start.len() >= self.amount,
                ctx.operands@ =~= popped(start, k as int),
                ctx.pc == old(ctx).pc,
                ctx.locals@ == old(ctx).locals@,
                start == old(ctx).operands@,
            decreases self.amount - k,
        {
            ctx.operands.pop();
            k = k + 1;
        }
        Ok(Progression::Next)
    }
}

/// Adds a signed byte to a local variable that holds an integral value.
#[derive(Debug, Clone, Copy)]
pub struct Iinc {
    pub index: u8,
    pub constant: i8,
}

impl Iinc {
    /// The local must exist and be an `int` or a `long`; the constant is added to its
    /// value without wrapping, and a sum beyond `i64` is a fault.
    pub open spec fn effect(&self, f: FrameState) -> Result<(FrameState, ProgressionValue), ExecError> {
        let i = self.index as int;
        if i >= f.locals.len() {
            Err(ExecError::NoLocal(self.index as usize))
        } else {
            match f.locals[i] {
                RuntimeValue::Integral(v) => {
                    let sum = v.value + self.constant;
                    if sum < i64::MIN || sum > i64::MAX {
                        Err(ExecError::Arithmetic)
                    } else {
                        Ok((
                            FrameState {
                                pc: f.pc,
                                operands: f.operands,
                                locals: f.locals.update(
                                    i,
                                    RuntimeValue::Integral(Integral { value: sum as i64, ty: v.ty }),
                                ),
                            },
                            ProgressionValue::Next,
                        ))
                    }
                },
                _ => Err(ExecError::LocalNotInt(self.index as usize)),
            }
        }
    }

    pub fn handle(&self, ctx: &mut Context) -> (r: Result<Progression, ExecError>)
        ensures
            performs(r, old(ctx)@, final(ctx)@, self.effect(old(ctx)@)),
    {
        let i = self.index as usize;
        if i >= ctx.locals.len() {
            return Err(ExecError::NoLocal(i));
        }
        match ctx.locals[i] {
            RuntimeValue::Integral(v) => {
                let c = self.constant as i64;
                if (c > 0 && v.value > i64::MAX - c) || (c < 0 && v.value < i64::MIN - c) {
                    return Err(ExecError::Arithmetic);
                }
                ctx.locals.set(i, RuntimeValue::Integral(Integral { value: v.value + c, ty: v.ty }));
                Ok(Progression::Next)
            },
            _ => Err(ExecError::LocalNotInt(i)),
        }
    }
}

/// Leaves the method without a value.
#[derive(Debug, Clone, Copy)]
pub struct VoidReturn;

impl VoidReturn {
    pub open spec fn effect(&self, f: FrameState) -> Result<(FrameState, ProgressionValue), ExecError> {
        Ok((f, ProgressionValue::Return(None)))
    }

    pub fn handle(&self, ctx: &mut Context) -> (r: Result<Progression, ExecError>)
        ensures
            performs(r, old(ctx)@, final(ctx)@, self.effect(old(ctx)@)),
    {
        Ok(Progression::Return(None))
    }
}

/// Leaves the method with the value popped from the operand stack.
#[derive(Debug, Clone, Copy)]
pub struct ValueReturn;

impl ValueReturn {
    pub open spec fn effect(&self, f: FrameState) -> Result<(FrameState, ProgressionValue), ExecError> {
        if f.operands.len() < 1 {
            Err(ExecError::StackUnderflow)
        } else {
            Ok((with_operands(f, f.operands.drop_last()), ProgressionValue::Return(Some(f.operands.last()))))
        }
    }

    pub fn handle(&self, ctx: &mut Context) -> (r: Result<Progression, ExecError>)
        ensures
            performs(r, old(ctx)@, final(ctx)@, self.effect(old(ctx)@)),
    {
        match ctx.operands.pop() {
            Some(v) => Ok(Progression::Return(Some(v))),
            None => Err(ExecError::StackUnderflow),
        }
    }
}

/// Enters the monitor of an object; with one thread it only pops the reference.
#[derive(Debug, Clone, Copy)]
pub struct MonitorEnter;

impl MonitorEnter {
    pub open spec fn effect(&self, f: FrameState) -> Result<(FrameState, ProgressionValue), ExecError> {
        if f.operands.len() < 1 {
            Err(ExecError::StackUnderflow)
        } else {
            Ok((with_operands(f, f.operands.drop_last()), ProgressionValue::Next))
        }
    }

    pub fn handle(&self, ctx: &mut Context) -> (r: Result<Progression, ExecError>)
        ensures
            performs(r, old(ctx)@, final(ctx)@, self.effect(old(ctx)@)),
    {
        match ctx.operands.pop() {
            Some(_) => Ok(Progression::Next),
            None => Err(ExecError::StackUnderflow),
        }
    }
}

/// Leaves the monitor of an object; with one thread it only pops the reference.
#[derive(Debug, Clone, Copy)]
pub struct MonitorExit;

impl MonitorExit {
    pub open spec fn effect(&self, f: FrameState) -> Result<(FrameState, ProgressionValue), ExecError> {
        if f.operands.len() < 1 {
            Err(ExecError::StackUnderflow)
        } else {
            Ok((with_operands(f, f.operands.drop_last()), ProgressionValue::Next))
        }
    }

    pub fn handle(&self, ctx: &mut Context) -> (r: Result<Progression, ExecError>)
        ensures
            performs(r, old(ctx)@, final(ctx)@, self.effect(old(ctx)@)),
    {
        match ctx.operands.pop() {
            Some(_) => Ok(Progression::Next),
            None => Err(ExecError::StackUnderflow),
        }
    }
}

} // verus!
