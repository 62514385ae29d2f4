//! Instructions that choose where execution goes: jumps, conditional branches and
//! switches.
use crate::error::ExecError;
use crate::frame::{ProgressionValue, below, performs, popped, with_operands, Context, FrameState, Progression};
use crate::numeric::IntegralType;
use crate::value::RuntimeValue;
use vstd::prelude::*;

verus! {

/// How two integers are compared by a conditional branch.
#[derive(Debug, Clone, Copy, PartialEq, Eq, Structural)]
pub enum Comparison {
    Eq,
    Ne,
    Lt,
    Ge,
    Gt,
    Le,
}

impl Comparison {
    /// Whether `a` and `b` stand in this relation.
    pub open spec fn holds(self, a: int, b: int) -> bool {
        match self {
            Comparison::Eq => a == b,
            Comparison::Ne => a != b,
            Comparison::Lt => a < b,
            Comparison::Ge => a >= b,
            Comparison::Gt => a > b,
            Comparison::Le => a <= b,
        }
    }

    /// Compares `a` with `b`.
    pub fn test(self, a: i64, b: i64) -> (r: bool)
        ensures
            r == self.holds(a as int, b as int),
    {
        match self {
            Comparison::Eq => a == b,
            Comparison::Ne => a != b,
            Comparison::Lt => a < b,
            Comparison::Ge => a >= b,
            Comparison::Gt => a > b,
            Comparison::Le => a <= b,
        }
    }
}

/// The progression of a branch: to `jump_to` bytes from the instruction when taken.
pub open spec fn branch(taken: bool, jump_to: i16) -> ProgressionValue {
    if taken {
        ProgressionValue::JumpRel(jump_to as i32)
    } else {
        ProgressionValue::Next
    }
}

/// Jumps by a signed offset.
#[derive(Debug, Clone, Copy)]
pub struct Goto {
    pub jump_to: i16,
}

impl Goto {
    pub open spec fn effect(&self, f: FrameState) -> Result<(FrameState, ProgressionValue), ExecError> {
        Ok((f, ProgressionValue::JumpRel(self.jump_to as i32)))
    }

    pub fn handle(&self, ctx: &mut Context) -> (r: Result<Progression, ExecError>)
        ensures
            performs(r, old(ctx)@, final(ctx)@, self.effect(old(ctx)@)),
    {
        Ok(Progression::JumpRel(self.jump_to as i32))
    }
}

/// The model of `ifnull` (`on_null`) and `ifnonnull` (not `on_null`): the popped
/// value must be a reference.
pub open spec fn null_branch(
    f: FrameState,
    on_null: bool,
    jump_to: i16,
) -> Result<(FrameState, ProgressionValue), ExecError> {
    let s = f.operands;
    if s.len() < 1 {
        Err(ExecError::StackUnderflow)
    } else {
        match below(s, 0) {
            RuntimeValue::Object(r) => Ok((
                with_operands(f, s.drop_last()),
                branch((r is None) == on_null, jump_to),
            )),
            _ => Err(ExecError::NotObject),
        }
    }
}

fn handle_null_branch(ctx: &mut Context, on_null: bool, jump_to: i16) -> (r: Result<
    Progression,
    ExecError,
>)
    ensures
        performs(r, old(ctx)@, final(ctx)@, null_branch(old(ctx)@, on_null, jump_to)),
{
    let n = ctx.operands.len();
    if n < 1 {
        return Err(ExecError::StackUnderflow);
    }
    match ctx.operands[n - 1] {
        RuntimeValue::Object(r) => {
            ctx.operands.pop();
            if r.is_none() == on_null {
                Ok(Progression::JumpRel(jump_to as i32))
            } else {
                Ok(Progression::Next)
            }
        },
        _ => Err(ExecError::NotObject),
    }
}

/// Jumps when the popped reference is `null`.
#[derive(Debug, Clone, Copy)]
pub struct IfNull {
    pub jump_to: i16,
}

impl IfNull {
    pub open spec fn effect(&self, f: FrameState) -> Result<(FrameState, ProgressionValue), ExecError> {
        null_branch(f, true, self.jump_to)
    }

    pub fn handle(&self, ctx: &mut Context) -> (r: Result<Progression, ExecError>)
        ensures
            performs(r, old(ctx)@, final(ctx)@, self.effect(old(ctx)@)),
    {
        handle_null_branch(ctx, true, self.jump_to)
    }
}

/// Jumps when the popped reference is not `null`.
#[derive(Debug, Clone, Copy)]
pub struct IfNotNull {
    pub jump_to: i16,
}

impl IfNotNull {
    pub open spec fn effect(&self, f: FrameState) -> Result<(FrameState, ProgressionValue), ExecError> {
        null_branch(f, false, self.jump_to)
    }

    pub fn handle(&self, ctx: &mut Context) -> (r: Result<Progression, ExecError>)
        ensures
            performs(r, old(ctx)@, final(ctx)@, self.effect(old(ctx)@)),
    {
        handle_null_branch(ctx, false, self.jump_to)
    }
}

/// Jumps when the popped `int` stands in the relation to zero (`ifeq` to `ifle`).
#[derive(Debug, Clone, Copy)]
pub struct IfZero {
    pub cond: Comparison,
    pub jump_to: i16,
}

impl IfZero {
    pub open spec fn effect(&self, f: FrameState) -> Result<(FrameState, ProgressionValue), ExecError> {
        let s = f.operands;
        if s.len() < 1 {
            Err(ExecError::StackUnderflow)
        } else if !below(s, 0).is_int() {
            Err(ExecError::NotInt)
        } else {
            Ok((
                with_operands(f, s.drop_last()),
                branch(self.cond.holds(below(s, 0).integral_value() as int, 0), self.jump_to),
            ))
        }
    }

    pub fn handle(&self, ctx: &mut Context) -> (r: Result<Progression, ExecError>)
        ensures
            performs(r, old(ctx)@, final(ctx)@, self.effect(old(ctx)@)),
    {
        let n = ctx.operands.len();
        if n < 1 {
            return Err(ExecError::StackUnderflow);
        }
        match ctx.operands[n - 1] {
            RuntimeValue::Integral(v) => {
                if v.ty != IntegralType::Int {
                    return Err(ExecError::NotInt);
                }
                ctx.operands.pop();
                if self.cond.test(v.value, 0) {
                    Ok(Progression::JumpRel(self.jump_to as i32))
                } else {
                    Ok(Progression::Next)
                }
            },
            _ => Err(ExecError::NotInt),
        }
    }
}

/// Jumps when the two popped `int`s stand in the relation (`if_icmpeq` to
/// `if_icmple`); the second popped is the left-hand side.
#[derive(Debug, Clone, Copy)]
pub struct IfIntCompare {
    pub cond: Comparison,
    pub jump_to: i16,
}

impl IfIntCompare {
    pub open spec fn effect(&self, f: FrameState) -> Result<(FrameState, ProgressionValue), ExecError> {
        let s = f.operands;
        if s.len() < 1 {
            Err(ExecError::StackUnderflow)
        } else if !below(s, 0).is_int() {
            Err(ExecError::NotInt)
        } else if s.len() < 2 {
            Err(ExecError::StackUnderflow)
        } else if !below(s, 1).is_int() {
            Err(ExecError::NotInt)
        } else {
            Ok((
                with_operands(f, popped(s, 2)),
                branch(
                    self.cond.holds(
                        below(s, 1).integral_value() as int,
                        below(s, 0).integral_value() as int,
                    ),
                    self.jump_to,
                ),
            ))
        }
    }

    pub fn handle(&self, ctx: &mut Context) -> (r: Result<Progression, ExecError>)
        ensures
            performs(r, old(ctx)@, final(ctx)@, self.effect(old(ctx)@)),
    {
        let n = ctx.operands.len();
        if n < 1 {
            return Err(ExecError::StackUnderflow);
        }
        let rhs = match ctx.operands[n - 1] {
            RuntimeValue::Integral(v) => {
                if v.ty != IntegralType::Int {
                    return Err(ExecError::NotInt);
                }
                v.value
            },
            _ => return Err(ExecError::NotInt),
        };
        if n < 2 {
            return Err(ExecError::StackUnderflow);
        }
        let lhs = match ctx.operands[n - 2] {
            RuntimeValue::Integral(v) => {
                if v.ty != IntegralType::Int {
                    return Err(ExecError::NotInt);
                }
                v.value
            },
            _ => return Err(ExecError::NotInt),
        };
        ctx.operands.pop();
        ctx.operands.pop();
        if self.cond.test(lhs, rhs) {
            Ok(Progression::JumpRel(self.jump_to as i32))
        } else {
            Ok(Progression::Next)
        }
    }
}

/// Jumps when the two popped references are the same (`if_acmpeq`, `equal` set) or
/// differ (`if_acmpne`).
#[derive(Debug, Clone, Copy)]
pub struct IfRefCompare {
    pub equal: bool,
    pub jump_to: i16,
}

impl IfRefCompare {
    pub open spec fn effect(&self, f: FrameState) -> Result<(FrameState, ProgressionValue), ExecError> {
        let s = f.operands;
        if s.len() < 2 {
            Err(ExecError::StackUnderflow)
        } else {
            match (below(s, 1), below(s, 0)) {
                (RuntimeValue::Object(a), RuntimeValue::Object(b)) => Ok((
                    with_operands(f, popped(s, 2)),
                    branch((a == b) == self.equal, self.jump_to),
                )),
                _ => Err(ExecError::NotObject),
            }
        }
    }

    pub fn handle(&self, ctx: &mut Context) -> (r: Result<Progression, ExecError>)
        ensures
            performs(r, old(ctx)@, final(ctx)@, self.effect(old(ctx)@)),
    {
        let n = ctx.operands.len();
        if n < 2 {
            return Err(ExecError::StackUnderflow);
        }
        match (ctx.operands[n - 2], ctx.operands[n - 1]) {
            (RuntimeValue::Object(a), RuntimeValue::Object(b)) => {
                ctx.operands.pop();
                ctx.operands.pop();
                if (a == b) == self.equal {
                    Ok(Progression::JumpRel(self.jump_to as i32))
                } else {
                    Ok(Progression::Next)
                }
            },
            _ => Err(ExecError::NotObject),
        }
    }
}

/// The jump to `pc + offset`, a fault when that leaves the `i32` range.
pub open spec fn jump_from(pc: i32, offset: i32) -> Result<ProgressionValue, ExecError> {
    if i32::MIN <= pc + offset <= i32::MAX {
        Ok(ProgressionValue::JumpAbs((pc + offset) as i32))
    } else {
        Err(ExecError::BadJump)
    }
}

fn exec_jump_from(pc: i32, offset: i32) -> (r: Result<Progression, ExecError>)
    ensures
        match jump_from(pc, offset) {
            Ok(p) => r matches Ok(q) && q@ == p,
            Err(e) => r == Err::<Progression, ExecError>(e),
        },
{
    let target = pc as i64 + offset as i64;
    if target < i32::MIN as i64 || target > i32::MAX as i64 {
        Err(ExecError::BadJump)
    } else {
        Ok(Progression::JumpAbs(target as i32))
    }
}

/// Jumps through a table indexed by the popped `int`: keys from `low` to `high` take
/// the offset at `key - low`, other keys the default; offsets count from the
/// instruction.
#[derive(Debug, Clone)]
pub struct TableSwitch {
    pub default: i32,
    pub low: i32,
    pub high: i32,
    pub table: Vec<i32>,
}

impl TableSwitch {
    /// The offset for a key, `None` where the table is too short for it.
    pub open spec fn offset_for(&self, key: i32) -> Option<i32> {
        if key > self.high || key < self.low {
            Some(self.default)
        } else if key - self.low < self.table@.len() && key - self.low <= i32::MAX {
            Some(self.table@[key - self.low])
        } else {
            None
        }
    }

    pub open spec fn effect(&self, f: FrameState) -> Result<(FrameState, ProgressionValue), ExecError> {
        let s = f.operands;
        if s.len() < 1 {
            Err(ExecError::StackUnderflow)
        } else if !below(s, 0).is_int() {
            Err(ExecError::NotInt)
        } else {
            match self.offset_for(below(s, 0).integral_value() as i32) {
                None => Err(ExecError::BadJump),
                Some(o) => match jump_from(f.pc, o) {
                    Ok(p) => Ok((with_operands(f, s.drop_last()), p)),
                    Err(e) => Err(e),
                },
            }
        }
    }

    pub fn handle(&self, ctx: &mut Context) -> (r: Result<Progression, ExecError>)
        ensures
            performs(r, old(ctx)@, final(ctx)@, self.effect(old(ctx)@)),
    {
        let n = ctx.operands.len();
        if n < 1 {
            return Err(ExecError::StackUnderflow);
        }
        let index: i32 = match ctx.operands[n - 1] {
            RuntimeValue::Integral(v) => {
                if v.ty != IntegralType::Int {
                    return Err(ExecError::NotInt);
                }
                v.value as i32
            },
            _ => return Err(ExecError::NotInt),
        };
        let offset = if index > self.high || index < self.low {
            self.default
        } else {
            let table_index: i64 = index as i64 - self.low as i64;
            if table_index > i32::MAX as i64 || table_index as usize >= self.table.len() {
                return Err(ExecError::BadJump);
            }
            self.table[table_index as usize]
        };
        let p = exec_jump_from(ctx.pc, offset)?;
        ctx.operands.pop();
        Ok(p)
    }
}

/// The offset paired with `key` in the first pair that has it.
pub open spec fn lookup(pairs: Seq<(i32, i32)>, key: i32) -> Option<i32>
    decreases pairs.len(),
{
    if pairs.len() == 0 {
        None
    } else if pairs[0].0 == key {
        Some(pairs[0].1)
    } else {
        lookup(pairs.skip(1), key)
    }
}

/// Jumps to the offset paired with the popped `int`, or to the default when no pair
/// has it; offsets count from the instruction.
#[derive(Debug, Clone)]
pub struct LookupSwitch {
    pub default: i32,
    pub pairs: Vec<(i32, i32)>,
}

impl LookupSwitch {
    pub open spec fn effect(&self, f: FrameState) -> Result<(FrameState, ProgressionValue), ExecError> {
        let s = f.operands;
        if s.len() < 1 {
            Err(ExecError::StackUnderflow)
        } else if !below(s, 0).is_int() {
            Err(ExecError::NotInt)
        } else {
            let o = match lookup(self.pairs@, below(s, 0).integral_value() as i32) {
                Some(o) => o,
                None => self.default,
            };
            match jump_from(f.pc, o) {
                Ok(p) => Ok((with_operands(f, s.drop_last()), p)),
                Err(e) => Err(e),
            }
        }
    }

    pub fn handle(&self, ctx: &mut Context) -> (r: Result<Progression, ExecError>)
        ensures
            performs(r, old(ctx)@, final(ctx)@, self.effect(old(ctx)@)),
    {
        let n = ctx.operands.len();
        if n < 1 {
            return Err(ExecError::StackUnderflow);
        }
        let key: i32 = match ctx.operands[n - 1] {
            RuntimeValue::Integral(v) => {
                if v.ty != IntegralType::Int {
                    return Err(ExecError::NotInt);
                }
                v.value as i32
            },
            _ => return Err(ExecError::NotInt),
        };
        let mut offset = self.default;
        let mut found = false;
        let mut i: usize = 0;
        assert(self.pairs@.skip(0) =~= self.pairs@);
        while i < self.pairs.len() && !found
            invariant
                i <= self.pairs@.len(),
                !found ==> lookup(self.pairs@, key) == lookup(self.pairs@.skip(i as int), key)
                    && offset == self.default,
                found ==> lookup(self.pairs@, key) == Some(offset),
            decreases self.pairs@.len() - i + (if found { 0int } else { 1int }),
        {
            let (k, o) = self.pairs[i];
            assert(self.pairs@.skip(i as int)[0] == self.pairs@[i as int]);
            if k == key {
                offset = o;
                found = true;
            } else {
                assert(self.pairs@.skip(i as int).skip(1) =~= self.pairs@.skip(i + 1));
                i = i + 1;
            }
        }
        proof {
            if !found {
                assert(self.pairs@.skip(i as int).len() == 0);
            }
        }
        let p = exec_jump_from(ctx.pc, offset)?;
        ctx.operands.pop();
        Ok(p)
    }
}

} // verus!
