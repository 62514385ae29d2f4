//! The frame of a method that runs: its program counter, operand stack and local
//! variables, and what an instruction tells the interpreter to do next.
use crate::error::{ExecError, VMError};
use crate::value::RuntimeValue;
use vstd::prelude::*;

verus! {

/// The state of one method invocation.
#[derive(Debug, Clone)]
pub struct Context {
    pub pc: i32,
    pub operands: Vec<RuntimeValue>,
    pub locals: Vec<RuntimeValue>,
}

/// A frame as a mathematical value.
pub struct FrameState {
    pub pc: i32,
    pub operands: Seq<RuntimeValue>,
    pub locals: Seq<RuntimeValue>,
}

impl View for Context {
    type V = FrameState;

    open spec fn view(&self) -> FrameState {
        FrameState { pc: self.pc, operands: self.operands@, locals: self.locals@ }
    }
}

/// What an exception that leaves an instruction is: one the virtual machine raises, or
/// an object of the program, named by its heap reference.
#[derive(Debug, Clone, PartialEq, Eq)]
pub enum Throwable {
    Error(VMError),
    Object(usize),
}

/// Where execution goes after an instruction.
#[derive(Debug, Clone, PartialEq, Eq)]
pub enum Progression {
    /// To this address.
    JumpAbs(i32),
    /// By this many bytes from the instruction.
    JumpRel(i32),
    /// To the next instruction.
    Next,
    /// Out of the method, with or without a value.
    Return(Option<RuntimeValue>),
    /// Out of the instruction with an exception.
    Throw(Throwable),
}

/// An exception the virtual machine raises, as a mathematical value.
pub enum VMErrorValue {
    ArrayIndexOutOfBounds { at: i64 },
    NullPointerException { ctx: Seq<char> },
    StackOverflowError,
    ClassCastException { from: Seq<char>, to: Seq<char> },
}

impl View for VMError {
    type V = VMErrorValue;

    open spec fn view(&self) -> VMErrorValue {
        match self {
            VMError::ArrayIndexOutOfBounds { at } => VMErrorValue::ArrayIndexOutOfBounds { at: *at },
            VMError::NullPointerException { ctx } => VMErrorValue::NullPointerException { ctx: ctx@ },
            VMError::StackOverflowError { .. } => VMErrorValue::StackOverflowError,
            VMError::ClassCastException { from, to } => VMErrorValue::ClassCastException {
                from: from@,
                to: to@,
            },
        }
    }
}

/// An exception as a mathematical value.
pub enum ThrowableValue {
    Error(VMErrorValue),
    Object(usize),
}

impl View for Throwable {
    type V = ThrowableValue;

    open spec fn view(&self) -> ThrowableValue {
        match self {
            Throwable::Error(e) => ThrowableValue::Error(e@),
            Throwable::Object(r) => ThrowableValue::Object(*r),
        }
    }
}

/// Where execution goes, as a mathematical value.
pub enum ProgressionValue {
    JumpAbs(i32),
    JumpRel(i32),
    Next,
    Return(Option<RuntimeValue>),
    Throw(ThrowableValue),
}

impl View for Progression {
    type V = ProgressionValue;

    open spec fn view(&self) -> ProgressionValue {
        match self {
            Progression::JumpAbs(a) => ProgressionValue::JumpAbs(*a),
            Progression::JumpRel(o) => ProgressionValue::JumpRel(*o),
            Progression::Next => ProgressionValue::Next,
            Progression::Return(v) => ProgressionValue::Return(*v),
            Progression::Throw(t) => ProgressionValue::Throw(t@),
        }
    }
}

/// Two frames are the same: same program counter, operands and locals.
pub open spec fn same_frame(a: FrameState, b: FrameState) -> bool {
    &&& a.pc == b.pc
    &&& a.operands =~= b.operands
    &&& a.locals =~= b.locals
}

/// A frame with other operands.
pub open spec fn with_operands(f: FrameState, operands: Seq<RuntimeValue>) -> FrameState {
    FrameState { pc: f.pc, operands, locals: f.locals }
}

/// An instruction did what its model says: on success the frame became the model's
/// frame and the progression is the model's; on a fault the frame is unchanged.
pub open spec fn performs(
    r: Result<Progression, ExecError>,
    before: FrameState,
    after: FrameState,
    model: Result<(FrameState, ProgressionValue), ExecError>,
) -> bool {
    match model {
        Ok((f, p)) => (r matches Ok(q) && q@ == p) && same_frame(after, f),
        Err(e) => r == Err::<Progression, ExecError>(e) && same_frame(after, before),
    }
}

/// The operand stack without its top `n` values.
pub open spec fn popped(s: Seq<RuntimeValue>, n: int) -> Seq<RuntimeValue> {
    s.subrange(0, s.len() - n)
}

/// The value `depth` places below the top of the operand stack (0 is the top).
pub open spec fn below(s: Seq<RuntimeValue>, depth: int) -> RuntimeValue {
    s[s.len() - 1 - depth]
}

} // verus!
