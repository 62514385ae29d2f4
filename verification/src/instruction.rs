//! The instructions the interpreter runs, and their decoding from code bytes.
use crate::arith::{ArithOp, IntArith, IntUnary, UnaryOp};
use crate::array::{ANewArray, ArrayLength, ArrayLoad, ArrayStore, NewArray};
use crate::branch::{Comparison, Goto, IfIntCompare, IfNotNull, IfNull, IfRefCompare, IfZero, TableSwitch};
use crate::error::ExecError;
use crate::numeric::{Floating, FloatingType, Integral, IntegralType};
use crate::opcode::{spec_decode, Opcode, OpcodeValue};
use crate::reader::{bytes_view, is_suffix, Outcome};
use crate::result::ParseError;
use crate::stack::{
    Dup, Dup2, DupX1, DupX2, Iinc, LoadLocal, MonitorEnter, MonitorExit, Nop, Pop, PushConst, StoreLocal,
    ValueReturn, VoidReturn,
};
use crate::value::RuntimeValue;
use bytes::Bytes;
use vstd::prelude::*;

verus! {

/// Pushes the `int`, `float` or string constant at a constant pool index.
#[derive(Debug, Clone, Copy)]
pub struct Ldc {
    pub index: u16,
}

/// Pushes the `long` or `double` constant at a constant pool index.
#[derive(Debug, Clone, Copy)]
pub struct Ldc2W {
    pub index: u16,
}

/// Pushes a field of the popped object.
#[derive(Debug, Clone, Copy)]
pub struct GetField {
    pub index: u16,
}

/// Pops a value and an object and sets a field of the object.
#[derive(Debug, Clone, Copy)]
pub struct PutField {
    pub index: u16,
}

/// Pushes a static field of a class.
#[derive(Debug, Clone, Copy)]
pub struct GetStatic {
    pub index: u16,
}

/// Pops a value into a static field of a class.
#[derive(Debug, Clone, Copy)]
pub struct PutStatic {
    pub index: u16,
}

/// Calls an instance method, selected by the class of the receiver.
#[derive(Debug, Clone, Copy)]
pub struct InvokeVirtual {
    pub index: u16,
}

/// Calls an instance method of a given class: a constructor, a private method or a
/// method of the superclass.
#[derive(Debug, Clone, Copy)]
pub struct InvokeSpecial {
    pub index: u16,
}

/// Calls a static method.
#[derive(Debug, Clone, Copy)]
pub struct InvokeStatic {
    pub index: u16,
}

/// Calls an interface method, selected by the class of the receiver.
#[derive(Debug, Clone, Copy)]
pub struct InvokeInterface {
    pub index: u16,
    pub count: u8,
    pub zero: u8,
}

/// Pushes a reference to a new instance of a class.
#[derive(Debug, Clone, Copy)]
pub struct New {
    pub index: u16,
}

/// Throws the popped object.
#[derive(Debug, Clone, Copy)]
pub struct Athrow;

/// Pushes whether the popped reference is an instance of a class.
#[derive(Debug, Clone, Copy)]
pub struct InstanceOf {
    pub type_index: u16,
}

/// Checks that the reference on top of the stack is an instance of a class.
#[derive(Debug, Clone, Copy)]
pub struct CheckCast {
    pub type_index: u16,
}

/// A floating point operation: arithmetic, conversion or comparison.
#[derive(Debug, Clone, Copy, PartialEq, Eq, Structural)]
pub enum FloatKind {
    Fadd,
    Dadd,
    Fsub,
    Dsub,
    Fmul,
    Dmul,
    Fdiv,
    Ddiv,
    Frem,
    Drem,
    Fneg,
    Dneg,
    I2f,
    I2d,
    L2f,
    L2d,
    F2i,
    F2l,
    F2d,
    D2i,
    D2l,
    D2f,
    FcompareLess,
    FcompareGreater,
    DcompareLess,
    DcompareGreater,
}

impl FloatKind {
    /// How many operands the operation pops.
    pub open spec fn arity(self) -> nat {
        match self {
            FloatKind::Fneg | FloatKind::Dneg | FloatKind::I2f | FloatKind::I2d | FloatKind::L2f
            | FloatKind::L2d | FloatKind::F2i | FloatKind::F2l | FloatKind::F2d | FloatKind::D2i
            | FloatKind::D2l | FloatKind::D2f => 1,
            _ => 2,
        }
    }

    /// How many operands the operation pops.
    pub fn operand_count(self) -> (r: usize)
        ensures
            r == self.arity(),
    {
        match self {
            FloatKind::Fneg | FloatKind::Dneg | FloatKind::I2f | FloatKind::I2d | FloatKind::L2f
            | FloatKind::L2d | FloatKind::F2i | FloatKind::F2l | FloatKind::F2d | FloatKind::D2i
            | FloatKind::D2l | FloatKind::D2f => 1,
            _ => 2,
        }
    }
}

/// A floating point instruction; the host computes it.
#[derive(Debug, Clone, Copy)]
pub struct FloatOp {
    pub op: FloatKind,
}

/// An instruction the interpreter runs.
#[derive(Debug, Clone)]
pub enum Instruction {
    Nop(Nop),
    PushConst(PushConst),
    Ldc(Ldc),
    Ldc2W(Ldc2W),
    LoadLocal(LoadLocal),
    StoreLocal(StoreLocal),
    ArrayLoad(ArrayLoad),
    ArrayStore(ArrayStore),
    Pop(Pop),
    Dup(Dup),
    DupX1(DupX1),
    DupX2(DupX2),
    Dup2(Dup2),
    IntArith(IntArith),
    IntUnary(IntUnary),
    FloatOp(FloatOp),
    Iinc(Iinc),
    IfZero(IfZero),
    IfIntCompare(IfIntCompare),
    IfRefCompare(IfRefCompare),
    Goto(Goto),
    TableSwitch(TableSwitch),
    ValueReturn(ValueReturn),
    VoidReturn(VoidReturn),
    GetStatic(GetStatic),
    PutStatic(PutStatic),
    GetField(GetField),
    PutField(PutField),
    InvokeVirtual(InvokeVirtual),
    InvokeSpecial(InvokeSpecial),
    InvokeStatic(InvokeStatic),
    InvokeInterface(InvokeInterface),
    New(New),
    NewArray(NewArray),
    ANewArray(ANewArray),
    ArrayLength(ArrayLength),
    Athrow(Athrow),
    CheckCast(CheckCast),
    InstanceOf(InstanceOf),
    MonitorEnter(MonitorEnter),
    MonitorExit(MonitorExit),
    IfNull(IfNull),
    IfNotNull(IfNotNull),
}

/// The instruction the interpreter runs for an opcode other than `tableswitch`, or
/// `None` for the opcodes it does not run. As the JVM specifies them, `ldc_w` takes a
/// two-byte constant pool index, and `lconst_0` and `lconst_1` push a `long`.
pub open spec fn plain_instruction(op: Opcode) -> Option<Instruction> {
    match op {
        Opcode::NOP => Some(Instruction::Nop(Nop)),
        Opcode::ACONST_NULL => Some(Instruction::PushConst(PushConst { value: RuntimeValue::Object(None) })),
        Opcode::ICONST_M1 => Some(Instruction::PushConst(PushConst { value: RuntimeValue::Integral(Integral { value: -1i64, ty: IntegralType::Int }) })),
        Opcode::ICONST_0 => Some(Instruction::PushConst(PushConst { value: RuntimeValue::Integral(Integral { value: 0, ty: IntegralType::Int }) })),
        Opcode::ICONST_1 => Some(Instruction::PushConst(PushConst { value: RuntimeValue::Integral(Integral { value: 1, ty: IntegralType::Int }) })),
        Opcode::ICONST_2 => Some(Instruction::PushConst(PushConst { value: RuntimeValue::Integral(Integral { value: 2, ty: IntegralType::Int }) })),
        Opcode::ICONST_3 => Some(Instruction::PushConst(PushConst { value: RuntimeValue::Integral(Integral { value: 3, ty: IntegralType::Int }) })),
        Opcode::ICONST_4 => Some(Instruction::PushConst(PushConst { value: RuntimeValue::Integral(Integral { value: 4, ty: IntegralType::Int }) })),
        Opcode::ICONST_5 => Some(Instruction::PushConst(PushConst { value: RuntimeValue::Integral(Integral { value: 5, ty: IntegralType::Int }) })),
        Opcode::LCONST_0 => Some(Instruction::PushConst(PushConst { value: RuntimeValue::Integral(Integral { value: 0, ty: IntegralType::Long }) })),
        Opcode::LCONST_1 => Some(Instruction::PushConst(PushConst { value: RuntimeValue::Integral(Integral { value: 1, ty: IntegralType::Long }) })),
        Opcode::FCONST_0 => Some(Instruction::PushConst(PushConst { value: RuntimeValue::Floating(Floating { bits: 0, ty: FloatingType::Float }) })),
        Opcode::FCONST_1 => Some(Instruction::PushConst(PushConst { value: RuntimeValue::Floating(Floating { bits: 0x3f80_0000, ty: FloatingType::Float }) })),
        Opcode::FCONST_2 => Some(Instruction::PushConst(PushConst { value: RuntimeValue::Floating(Floating { bits: 0x4000_0000, ty: FloatingType::Float }) })),
        Opcode::DCONST_0 => Some(Instruction::PushConst(PushConst { value: RuntimeValue::Floating(Floating { bits: 0, ty: FloatingType::Double }) })),
        Opcode::DCONST_1 => Some(Instruction::PushConst(PushConst { value: RuntimeValue::Floating(Floating { bits: 0x3ff0_0000_0000_0000, ty: FloatingType::Double }) })),
        Opcode::BIPUSH(a) => Some(Instruction::PushConst(PushConst { value: RuntimeValue::Integral(Integral { value: a as i64, ty: IntegralType::Int }) })),
        Opcode::SIPUSH(a) => Some(Instruction::PushConst(PushConst { value: RuntimeValue::Integral(Integral { value: a as i64, ty: IntegralType::Int }) })),
        Opcode::LDC(a) => Some(Instruction::Ldc(Ldc { index: a as u16 })),
        Opcode::LDC_W(a) => Some(Instruction::Ldc(Ldc { index: a })),
        Opcode::LDC2_W(a) => Some(Instruction::Ldc2W(Ldc2W { index: a })),
        Opcode::ILOAD(a) => Some(Instruction::LoadLocal(LoadLocal { index: a as usize })),
        Opcode::LLOAD(a) => Some(Instruction::LoadLocal(LoadLocal { index: a as usize })),
        Opcode::FLOAD(a) => Some(Instruction::LoadLocal(LoadLocal { index: a as usize })),
        Opcode::DLOAD => None,
        Opcode::ALOAD(a) => Some(Instruction::LoadLocal(LoadLocal { index: a as usize })),
        Opcode::ILOAD_0 => Some(Instruction::LoadLocal(LoadLocal { index: 0 })),
        Opcode::ILOAD_1 => Some(Instruction::LoadLocal(LoadLocal { index: 1 })),
        Opcode::ILOAD_2 => Some(Instruction::LoadLocal(LoadLocal { index: 2 })),
        Opcode::ILOAD_3 => Some(Instruction::LoadLocal(LoadLocal { index: 3 })),
        Opcode::LLOAD_0 => Some(Instruction::LoadLocal(LoadLocal { index: 0 })),
        Opcode::LLOAD_1 => Some(Instruction::LoadLocal(LoadLocal { index: 1 })),
        Opcode::LLOAD_2 => Some(Instruction::LoadLocal(LoadLocal { index: 2 })),
        Opcode::LLOAD_3 => Some(Instruction::LoadLocal(LoadLocal { index: 3 })),
        Opcode::FLOAD_0 => Some(Instruction::LoadLocal(LoadLocal { index: 0 })),
        Opcode::FLOAD_1 => Some(Instruction::LoadLocal(LoadLocal { index: 1 })),
        Opcode::FLOAD_2 => Some(Instruction::LoadLocal(LoadLocal { index: 2 })),
        Opcode::FLOAD_3 => Some(Instruction::LoadLocal(LoadLocal { index: 3 })),
        Opcode::DLOAD_0 => Some(Instruction::LoadLocal(LoadLocal { index: 0 })),
        Opcode::DLOAD_1 => Some(Instruction::LoadLocal(LoadLocal { index: 1 })),
        Opcode::DLOAD_2 => Some(Instruction::LoadLocal(LoadLocal { index: 2 })),
        Opcode::DLOAD_3 => Some(Instruction::LoadLocal(LoadLocal { index: 3 })),
        Opcode::ALOAD_0 => Some(Instruction::LoadLocal(LoadLocal { index: 0 })),
        Opcode::ALOAD_1 => Some(Instruction::LoadLocal(LoadLocal { index: 1 })),
        Opcode::ALOAD_2 => Some(Instruction::LoadLocal(LoadLocal { index: 2 })),
        Opcode::ALOAD_3 => Some(Instruction::LoadLocal(LoadLocal { index: 3 })),
        Opcode::IALOAD => Some(Instruction::ArrayLoad(ArrayLoad)),
        Opcode::LALOAD => Some(Instruction::ArrayLoad(ArrayLoad)),
        Opcode::FALOAD => Some(Instruction::ArrayLoad(ArrayLoad)),
        Opcode::DALOAD => Some(Instruction::ArrayLoad(ArrayLoad)),
        Opcode::AALOAD => Some(Instruction::ArrayLoad(ArrayLoad)),
        Opcode::BALOAD => Some(Instruction::ArrayLoad(ArrayLoad)),
        Opcode::CALOAD => Some(Instruction::ArrayLoad(ArrayLoad)),
        Opcode::SALOAD => Some(Instruction::ArrayLoad(ArrayLoad)),
        Opcode::ISTORE(a) => Some(Instruction::StoreLocal(StoreLocal { index: a as usize, store_next: false })),
        Opcode::LSTORE(a) => Some(Instruction::StoreLocal(StoreLocal { index: a as usize, store_next: true })),
        Opcode::FSTORE(a) => Some(Instruction::StoreLocal(StoreLocal { index: a as usize, store_next: false })),
        Opcode::DSTORE => None,
        Opcode::ASTORE(a) => Some(Instruction::StoreLocal(StoreLocal { index: a as usize, store_next: false })),
        Opcode::ISTORE_0 => Some(Instruction::StoreLocal(StoreLocal { index: 0, store_next: false })),
        Opcode::ISTORE_1 => Some(Instruction::StoreLocal(StoreLocal { index: 1, store_next: false })),
        Opcode::ISTORE_2 => Some(Instruction::StoreLocal(StoreLocal { index: 2, store_next: false })),
        Opcode::ISTORE_3 => Some(Instruction::StoreLocal(StoreLocal { index: 3, store_next: false })),
        Opcode::LSTORE_0 => Some(Instruction::StoreLocal(StoreLocal { index: 0, store_next: true })),
        Opcode::LSTORE_1 => Some(Instruction::StoreLocal(StoreLocal { index: 1, store_next: true })),
        Opcode::LSTORE_2 => Some(Instruction::StoreLocal(StoreLocal { index: 2, store_next: true })),
        Opcode::LSTORE_3 => Some(Instruction::StoreLocal(StoreLocal { index: 3, store_next: true })),
        Opcode::FSTORE_0 => Some(Instruction::StoreLocal(StoreLocal { index: 0, store_next: false })),
        Opcode::FSTORE_1 => Some(Instruction::StoreLocal(StoreLocal { index: 1, store_next: false })),
        Opcode::FSTORE_2 => Some(Instruction::StoreLocal(StoreLocal { index: 2, store_next: false })),
        Opcode::FSTORE_3 => Some(Instruction::StoreLocal(StoreLocal { index: 3, store_next: false })),
        Opcode::DSTORE_0 => Some(Instruction::StoreLocal(StoreLocal { index: 0, store_next: false })),
        Opcode::DSTORE_1 => Some(Instruction::StoreLocal(StoreLocal { index: 1, store_next: false })),
        Opcode::DSTORE_2 => Some(Instruction::StoreLocal(StoreLocal { index: 2, store_next: false })),
        Opcode::DSTORE_3 => Some(Instruction::StoreLocal(StoreLocal { index: 3, store_next: true })),
        Opcode::ASTORE_0 => Some(Instruction::StoreLocal(StoreLocal { index: 0, store_next: false })),
        Opcode::ASTORE_1 => Some(Instruction::StoreLocal(StoreLocal { index: 1, store_next: false })),
        Opcode::ASTORE_2 => Some(Instruction::StoreLocal(StoreLocal { index: 2, store_next: false })),
        Opcode::ASTORE_3 => Some(Instruction::StoreLocal(StoreLocal { index: 3, store_next: false })),
        Opcode::IASTORE => Some(Instruction::ArrayStore(ArrayStore)),
        Opcode::LASTORE => Some(Instruction::ArrayStore(ArrayStore)),
        Opcode::FASTORE => Some(Instruction::ArrayStore(ArrayStore)),
        Opcode::DASTORE => Some(Instruction::ArrayStore(ArrayStore)),
        Opcode::AASTORE => Some(Instruction::ArrayStore(ArrayStore)),
        Opcode::BASTORE => Some(Instruction::ArrayStore(ArrayStore)),
        Opcode::CASTORE => Some(Instruction::ArrayStore(ArrayStore)),
        Opcode::SASTORE => Some(Instruction::ArrayStore(ArrayStore)),
        Opcode::POP => Some(Instruction::Pop(Pop { amount: 1 })),
        Opcode::POP2 => Some(Instruction::Pop(Pop { amount: 2 })),
        Opcode::DUP => Some(Instruction::Dup(Dup)),
        Opcode::DUP_X1 => Some(Instruction::DupX1(DupX1)),
        Opcode::DUP_X2 => Some(Instruction::DupX2(DupX2)),
        Opcode::DUP2 => Some(Instruction::Dup2(Dup2)),
        Opcode::DUP2_X1 => None,
        Opcode::DUP2_X2 => None,
        Opcode::SWAP => None,
        Opcode::IADD => Some(Instruction::IntArith(IntArith { op: ArithOp::Iadd })),
        Opcode::LADD => Some(Instruction::IntArith(IntArith { op: ArithOp::Ladd })),
        Opcode::FADD => Some(Instruction::FloatOp(FloatOp { op: FloatKind::Fadd })),
        Opcode::DADD => Some(Instruction::FloatOp(FloatOp { op: FloatKind::Dadd })),
        Opcode::ISUB => Some(Instruction::IntArith(IntArith { op: ArithOp::Isub })),
        Opcode::LSUB => Some(Instruction::IntArith(IntArith { op: ArithOp::Lsub })),
        Opcode::FSUB => Some(Instruction::FloatOp(FloatOp { op: FloatKind::Fsub })),
        Opcode::DSUB => Some(Instruction::FloatOp(FloatOp { op: FloatKind::Dsub })),
        Opcode::IMUL => Some(Instruction::IntArith(IntArith { op: ArithOp::Imul })),
        Opcode::LMUL => Some(Instruction::IntArith(IntArith { op: ArithOp::Lmul })),
        Opcode::FMUL => Some(Instruction::FloatOp(FloatOp { op: FloatKind::Fmul })),
        Opcode::DMUL => Some(Instruction::FloatOp(FloatOp { op: FloatKind::Dmul })),
        Opcode::IDIV => Some(Instruction::IntArith(IntArith { op: ArithOp::Idiv })),
        Opcode::LDIV => Some(Instruction::IntArith(IntArith { op: ArithOp::Ldiv })),
        Opcode::FDIV => Some(Instruction::FloatOp(FloatOp { op: FloatKind::Fdiv })),
        Opcode::DDIV => Some(Instruction::FloatOp(FloatOp { op: FloatKind::Ddiv })),
        Opcode::IREM => Some(Instruction::IntArith(IntArith { op: ArithOp::Irem })),
        Opcode::LREM => Some(Instruction::IntArith(IntArith { op: ArithOp::Lrem })),
        Opcode::FREM => Some(Instruction::FloatOp(FloatOp { op: FloatKind::Frem })),
        Opcode::DREM => Some(Instruction::FloatOp(FloatOp { op: FloatKind::Drem })),
        Opcode::INEG => Some(Instruction::IntUnary(IntUnary { op: UnaryOp::Ineg })),
        Opcode::LNEG => Some(Instruction::IntUnary(IntUnary { op: UnaryOp::Lneg })),
        Opcode::FNEG => Some(Instruction::FloatOp(FloatOp { op: FloatKind::Fneg })),
        Opcode::DNEG => Some(Instruction::FloatOp(FloatOp { op: FloatKind::Dneg })),
        Opcode::ISHL => Some(Instruction::IntArith(IntArith { op: ArithOp::Ishl })),
        Opcode::LSHL => Some(Instruction::IntArith(IntArith { op: ArithOp::Lshl })),
        Opcode::ISHR => Some(Instruction::IntArith(IntArith { op: ArithOp::Ishr })),
        Opcode::LSHR => Some(Instruction::IntArith(IntArith { op: ArithOp::Lshr })),
        Opcode::IUSHR => Some(Instruction::IntArith(IntArith { op: ArithOp::Iushr })),
        Opcode::LUSHR => Some(Instruction::IntArith(IntArith { op: ArithOp::Lushr })),
        Opcode::IAND => Some(Instruction::IntArith(IntArith { op: ArithOp::Iand })),
        Opcode::LAND => Some(Instruction::IntArith(IntArith { op: ArithOp::Land })),
        Opcode::IOR => Some(Instruction::IntArith(IntArith { op: ArithOp::Ior })),
        Opcode::LOR => Some(Instruction::IntArith(IntArith { op: ArithOp::Lor })),
        Opcode::IXOR => Some(Instruction::IntArith(IntArith { op: ArithOp::Ixor })),
        Opcode::LXOR => Some(Instruction::IntArith(IntArith { op: ArithOp::Lxor })),
        Opcode::IINC(a, b) => Some(Instruction::Iinc(Iinc { index: a, constant: b })),
        Opcode::I2L => Some(Instruction::IntUnary(IntUnary { op: UnaryOp::I2l })),
        Opcode::I2F => Some(Instruction::FloatOp(FloatOp { op: FloatKind::I2f })),
        Opcode::I2D => Some(Instruction::FloatOp(FloatOp { op: FloatKind::I2d })),
        Opcode::L2I => Some(Instruction::IntUnary(IntUnary { op: UnaryOp::L2i })),
        Opcode::L2F => Some(Instruction::FloatOp(FloatOp { op: FloatKind::L2f })),
        Opcode::L2D => Some(Instruction::FloatOp(FloatOp { op: FloatKind::L2d })),
        Opcode::F2I => Some(Instruction::FloatOp(FloatOp { op: FloatKind::F2i })),
        Opcode::F2L => Some(Instruction::FloatOp(FloatOp { op: FloatKind::F2l })),
        Opcode::F2D => Some(Instruction::FloatOp(FloatOp { op: FloatKind::F2d })),
        Opcode::D2I => Some(Instruction::FloatOp(FloatOp { op: FloatKind::D2i })),
        Opcode::D2L => Some(Instruction::FloatOp(FloatOp { op: FloatKind::D2l })),
        Opcode::D2F => Some(Instruction::FloatOp(FloatOp { op: FloatKind::D2f })),
        Opcode::I2B => Some(Instruction::IntUnary(IntUnary { op: UnaryOp::I2b })),
        Opcode::I2C => Some(Instruction::IntUnary(IntUnary { op: UnaryOp::I2c })),
        Opcode::I2S => Some(Instruction::IntUnary(IntUnary { op: UnaryOp::I2s })),
        Opcode::LCMP => Some(Instruction::IntArith(IntArith { op: ArithOp::Lcompare })),
        Opcode::FCMPL => Some(Instruction::FloatOp(FloatOp { op: FloatKind::FcompareLess })),
        Opcode::FCMPG => Some(Instruction::FloatOp(FloatOp { op: FloatKind::FcompareGreater })),
        Opcode::DCMPL => Some(Instruction::FloatOp(FloatOp { op: FloatKind::DcompareLess })),
        Opcode::DCMPG => Some(Instruction::FloatOp(FloatOp { op: FloatKind::DcompareGreater })),
        Opcode::IFEQ(a) => Some(Instruction::IfZero(IfZero { cond: Comparison::Eq, jump_to: a })),
        Opcode::IFNE(a) => Some(Instruction::IfZero(IfZero { cond: Comparison::Ne, jump_to: a })),
        Opcode::IFLT(a) => Some(Instruction::IfZero(IfZero { cond: Comparison::Lt, jump_to: a })),
        Opcode::IFGE(a) => Some(Instruction::IfZero(IfZero { cond: Comparison::Ge, jump_to: a })),
        Opcode::IFGT(a) => Some(Instruction::IfZero(IfZero { cond: Comparison::Gt, jump_to: a })),
        Opcode::IFLE(a) => Some(Instruction::IfZero(IfZero { cond: Comparison::Le, jump_to: a })),
        Opcode::IF_ICMPEQ(a) => Some(Instruction::IfIntCompare(IfIntCompare { cond: Comparison::Eq, jump_to: a })),
        Opcode::IF_ICMPNE(a) => Some(Instruction::IfIntCompare(IfIntCompare { cond: Comparison::Ne, jump_to: a })),
        Opcode::IF_ICMPLT(a) => Some(Instruction::IfIntCompare(IfIntCompare { cond: Comparison::Lt, jump_to: a })),
        Opcode::IF_ICMPGE(a) => Some(Instruction::IfIntCompare(IfIntCompare { cond: Comparison::Ge, jump_to: a })),
        Opcode::IF_ICMPGT(a) => Some(Instruction::IfIntCompare(IfIntCompare { cond: Comparison::Gt, jump_to: a })),
        Opcode::IF_ICMPLE(a) => Some(Instruction::IfIntCompare(IfIntCompare { cond: Comparison::Le, jump_to: a })),
        Opcode::IF_ACMPEQ(a) => Some(Instruction::IfRefCompare(IfRefCompare { equal: true, jump_to: a })),
        Opcode::IF_ACMPNE(a) => Some(Instruction::IfRefCompare(IfRefCompare { equal: false, jump_to: a })),
        Opcode::GOTO(a) => Some(Instruction::Goto(Goto { jump_to: a })),
        Opcode::JSR => None,
        Opcode::RET => None,
        Opcode::LOOKUPSWITCH => None,
        Opcode::IRETURN => Some(Instruction::ValueReturn(ValueReturn)),
        Opcode::LRETURN => Some(Instruction::ValueReturn(ValueReturn)),
        Opcode::FRETURN => Some(Instruction::ValueReturn(ValueReturn)),
        Opcode::DRETURN => Some(Instruction::ValueReturn(ValueReturn)),
        Opcode::ARETURN => Some(Instruction::ValueReturn(ValueReturn)),
        Opcode::RETURN => Some(Instruction::VoidReturn(VoidReturn)),
        Opcode::GETSTATIC(a) => Some(Instruction::GetStatic(GetStatic { index: a })),
        Opcode::PUTSTATIC(a) => Some(Instruction::PutStatic(PutStatic { index: a })),
        Opcode::GETFIELD(a) => Some(Instruction::GetField(GetField { index: a })),
        Opcode::PUTFIELD(a) => Some(Instruction::PutField(PutField { index: a })),
        Opcode::INVOKEVIRTUAL(a) => Some(Instruction::InvokeVirtual(InvokeVirtual { index: a })),
        Opcode::INVOKESPECIAL(a) => Some(Instruction::InvokeSpecial(InvokeSpecial { index: a })),
        Opcode::INVOKESTATIC(a) => Some(Instruction::InvokeStatic(InvokeStatic { index: a })),
        Opcode::INVOKEINTERFACE(a, b, c) => Some(Instruction::InvokeInterface(InvokeInterface { index: a, count: b, zero: c })),
        Opcode::INVOKEDYNAMIC => None,
        Opcode::NEW(a) => Some(Instruction::New(New { index: a })),
        Opcode::NEWARRAY(a) => Some(Instruction::NewArray(NewArray { type_tag: a })),
        Opcode::ANEWARRAY(a) => Some(Instruction::ANewArray(ANewArray { type_index: a })),
        Opcode::ARRAYLENGTH => Some(Instruction::ArrayLength(ArrayLength)),
        Opcode::ATHROW => Some(Instruction::Athrow(Athrow)),
        Opcode::CHECKCAST(a) => Some(Instruction::CheckCast(CheckCast { type_index: a })),
        Opcode::INSTANCEOF(a) => Some(Instruction::InstanceOf(InstanceOf { type_index: a })),
        Opcode::MONITORENTER => Some(Instruction::MonitorEnter(MonitorEnter)),
        Opcode::MONITOREXIT => Some(Instruction::MonitorExit(MonitorExit)),
        Opcode::WIDE => None,
        Opcode::MULTIANEWARRAY => None,
        Opcode::IFNULL(a) => Some(Instruction::IfNull(IfNull { jump_to: a })),
        Opcode::IFNONNULL(a) => Some(Instruction::IfNotNull(IfNotNull { jump_to: a })),
        Opcode::GOTO_W => None,
        Opcode::JSR_W => None,
        Opcode::BREAKPOINT => Some(Instruction::Nop(Nop)),
        Opcode::IMPDEP1 => Some(Instruction::Nop(Nop)),
        Opcode::IMPDEP2 => Some(Instruction::Nop(Nop)),
        Opcode::TABLESWITCH(..) => None,
    }
}

/// Whether `ins` is the instruction decoded from the opcode value `v`: a `tableswitch`
/// keeps its default, bounds and offsets as signed values.
pub open spec fn decodes_to(v: OpcodeValue, ins: Instruction) -> bool {
    match v {
        OpcodeValue::TableSwitch { default, low, high, pairs } => ins matches Instruction::TableSwitch(t)
            && t.default == default as i32 && t.low == low as i32 && t.high == high as i32
            && t.table@ == pairs.map_values(|p: (u32, u32)| p.1 as i32),
        OpcodeValue::Plain(o) => plain_instruction(o) == Some(ins),
    }
}

/// Whether the interpreter runs the instruction decoded as `v`.
pub open spec fn is_supported(v: OpcodeValue) -> bool {
    match v {
        OpcodeValue::TableSwitch { .. } => true,
        OpcodeValue::Plain(o) => plain_instruction(o) is Some,
    }
}

/// Puts a value in a box.
pub fn b<T>(v: T) -> (r: Box<T>)
    ensures
        *r == v,
{
    Box::new(v)
}

fn instruction_for(op: Opcode) -> (r: Option<Instruction>)
    requires
        !(op is TABLESWITCH),
    ensures
        r == plain_instruction(op),
{
    match op {
        Opcode::NOP => Some(Instruction::Nop(Nop)),
        Opcode::ACONST_NULL => Some(Instruction::PushConst(PushConst { value: RuntimeValue::Object(None) })),
        Opcode::ICONST_M1 => Some(Instruction::PushConst(PushConst { value: RuntimeValue::Integral(Integral { value: -1i64, ty: IntegralType::Int }) })),
        Opcode::ICONST_0 => Some(Instruction::PushConst(PushConst { value: RuntimeValue::Integral(Integral { value: 0, ty: IntegralType::Int }) })),
        Opcode::ICONST_1 => Some(Instruction::PushConst(PushConst { value: RuntimeValue::Integral(Integral { value: 1, ty: IntegralType::Int }) })),
        Opcode::ICONST_2 => Some(Instruction::PushConst(PushConst { value: RuntimeValue::Integral(Integral { value: 2, ty: IntegralType::Int }) })),
        Opcode::ICONST_3 => Some(Instruction::PushConst(PushConst { value: RuntimeValue::Integral(Integral { value: 3, ty: IntegralType::Int }) })),
        Opcode::ICONST_4 => Some(Instruction::PushConst(PushConst { value: RuntimeValue::Integral(Integral { value: 4, ty: IntegralType::Int }) })),
        Opcode::ICONST_5 => Some(Instruction::PushConst(PushConst { value: RuntimeValue::Integral(Integral { value: 5, ty: IntegralType::Int }) })),
        Opcode::LCONST_0 => Some(Instruction::PushConst(PushConst { value: RuntimeValue::Integral(Integral { value: 0, ty: IntegralType::Long }) })),
        Opcode::LCONST_1 => Some(Instruction::PushConst(PushConst { value: RuntimeValue::Integral(Integral { value: 1, ty: IntegralType::Long }) })),
        Opcode::FCONST_0 => Some(Instruction::PushConst(PushConst { value: RuntimeValue::Floating(Floating { bits: 0, ty: FloatingType::Float }) })),
        Opcode::FCONST_1 => Some(Instruction::PushConst(PushConst { value: RuntimeValue::Floating(Floating { bits: 0x3f80_0000, ty: FloatingType::Float }) })),
        Opcode::FCONST_2 => Some(Instruction::PushConst(PushConst { value: RuntimeValue::Floating(Floating { bits: 0x4000_0000, ty: FloatingType::Float }) })),
        Opcode::DCONST_0 => Some(Instruction::PushConst(PushConst { value: RuntimeValue::Floating(Floating { bits: 0, ty: FloatingType::Double }) })),
        Opcode::DCONST_1 => Some(Instruction::PushConst(PushConst { value: RuntimeValue::Floating(Floating { bits: 0x3ff0_0000_0000_0000, ty: FloatingType::Double }) })),
        Opcode::BIPUSH(a) => Some(Instruction::PushConst(PushConst { value: RuntimeValue::Integral(Integral { value: a as i64, ty: IntegralType::Int }) })),
        Opcode::SIPUSH(a) => Some(Instruction::PushConst(PushConst { value: RuntimeValue::Integral(Integral { value: a as i64, ty: IntegralType::Int }) })),
        Opcode::LDC(a) => Some(Instruction::Ldc(Ldc { index: a as u16 })),
        Opcode::LDC_W(a) => Some(Instruction::Ldc(Ldc { index: a })),
        Opcode::LDC2_W(a) => Some(Instruction::Ldc2W(Ldc2W { index: a })),
        Opcode::ILOAD(a) => Some(Instruction::LoadLocal(LoadLocal { index: a as usize })),
        Opcode::LLOAD(a) => Some(Instruction::LoadLocal(LoadLocal { index: a as usize })),
        Opcode::FLOAD(a) => Some(Instruction::LoadLocal(LoadLocal { index: a as usize })),
        Opcode::DLOAD => None,
        Opcode::ALOAD(a) => Some(Instruction::LoadLocal(LoadLocal { index: a as usize })),
        Opcode::ILOAD_0 => Some(Instruction::LoadLocal(LoadLocal { index: 0 })),
        Opcode::ILOAD_1 => Some(Instruction::LoadLocal(LoadLocal { index: 1 })),
        Opcode::ILOAD_2 => Some(Instruction::LoadLocal(LoadLocal { index: 2 })),
        Opcode::ILOAD_3 => Some(Instruction::LoadLocal(LoadLocal { index: 3 })),
        Opcode::LLOAD_0 => Some(Instruction::LoadLocal(LoadLocal { index: 0 })),
        Opcode::LLOAD_1 => Some(Instruction::LoadLocal(LoadLocal { index: 1 })),
        Opcode::LLOAD_2 => Some(Instruction::LoadLocal(LoadLocal { index: 2 })),
        Opcode::LLOAD_3 => Some(Instruction::LoadLocal(LoadLocal { index: 3 })),
        Opcode::FLOAD_0 => Some(Instruction::LoadLocal(LoadLocal { index: 0 })),
        Opcode::FLOAD_1 => Some(Instruction::LoadLocal(LoadLocal { index: 1 })),
        Opcode::FLOAD_2 => Some(Instruction::LoadLocal(LoadLocal { index: 2 })),
        Opcode::FLOAD_3 => Some(Instruction::LoadLocal(LoadLocal { index: 3 })),
        Opcode::DLOAD_0 => Some(Instruction::LoadLocal(LoadLocal { index: 0 })),
        Opcode::DLOAD_1 => Some(Instruction::LoadLocal(LoadLocal { index: 1 })),
        Opcode::DLOAD_2 => Some(Instruction::LoadLocal(LoadLocal { index: 2 })),
        Opcode::DLOAD_3 => Some(Instruction::LoadLocal(LoadLocal { index: 3 })),
        Opcode::ALOAD_0 => Some(Instruction::LoadLocal(LoadLocal { index: 0 })),
        Opcode::ALOAD_1 => Some(Instruction::LoadLocal(LoadLocal { index: 1 })),
        Opcode::ALOAD_2 => Some(Instruction::LoadLocal(LoadLocal { index: 2 })),
        Opcode::ALOAD_3 => Some(Instruction::LoadLocal(LoadLocal { index: 3 })),
        Opcode::IALOAD => Some(Instruction::ArrayLoad(ArrayLoad)),
        Opcode::LALOAD => Some(Instruction::ArrayLoad(ArrayLoad)),
        Opcode::FALOAD => Some(Instruction::ArrayLoad(ArrayLoad)),
        Opcode::DALOAD => Some(Instruction::ArrayLoad(ArrayLoad)),
        Opcode::AALOAD => Some(Instruction::ArrayLoad(ArrayLoad)),
        Opcode::BALOAD => Some(Instruction::ArrayLoad(ArrayLoad)),
        Opcode::CALOAD => Some(Instruction::ArrayLoad(ArrayLoad)),
        Opcode::SALOAD => Some(Instruction::ArrayLoad(ArrayLoad)),
        Opcode::ISTORE(a) => Some(Instruction::StoreLocal(StoreLocal { index: a as usize, store_next: false })),
        Opcode::LSTORE(a) => Some(Instruction::StoreLocal(StoreLocal { index: a as usize, store_next: true })),
        Opcode::FSTORE(a) => Some(Instruction::StoreLocal(StoreLocal { index: a as usize, store_next: false })),
        Opcode::DSTORE => None,
        Opcode::ASTORE(a) => Some(Instruction::StoreLocal(StoreLocal { index: a as usize, store_next: false })),
        Opcode::ISTORE_0 => Some(Instruction::StoreLocal(StoreLocal { index: 0, store_next: false })),
        Opcode::ISTORE_1 => Some(Instruction::StoreLocal(StoreLocal { index: 1, store_next: false })),
        Opcode::ISTORE_2 => Some(Instruction::StoreLocal(StoreLocal { index: 2, store_next: false })),
        Opcode::ISTORE_3 => Some(Instruction::StoreLocal(StoreLocal { index: 3, store_next: false })),
        Opcode::LSTORE_0 => Some(Instruction::StoreLocal(StoreLocal { index: 0, store_next: true })),
        Opcode::LSTORE_1 => Some(Instruction::StoreLocal(StoreLocal { index: 1, store_next: true })),
        Opcode::LSTORE_2 => Some(Instruction::StoreLocal(StoreLocal { index: 2, store_next: true })),
        Opcode::LSTORE_3 => Some(Instruction::StoreLocal(StoreLocal { index: 3, store_next: true })),
        Opcode::FSTORE_0 => Some(Instruction::StoreLocal(StoreLocal { index: 0, store_next: false })),
        Opcode::FSTORE_1 => Some(Instruction::StoreLocal(StoreLocal { index: 1, store_next: false })),
        Opcode::FSTORE_2 => Some(Instruction::StoreLocal(StoreLocal { index: 2, store_next: false })),
        Opcode::FSTORE_3 => Some(Instruction::StoreLocal(StoreLocal { index: 3, store_next: false })),
        Opcode::DSTORE_0 => Some(Instruction::StoreLocal(StoreLocal { index: 0, store_next: false })),
        Opcode::DSTORE_1 => Some(Instruction::StoreLocal(StoreLocal { index: 1, store_next: false })),
        Opcode::DSTORE_2 => Some(Instruction::StoreLocal(StoreLocal { index: 2, store_next: false })),
        Opcode::DSTORE_3 => Some(Instruction::StoreLocal(StoreLocal { index: 3, store_next: true })),
        Opcode::ASTORE_0 => Some(Instruction::StoreLocal(StoreLocal { index: 0, store_next: false })),
        Opcode::ASTORE_1 => Some(Instruction::StoreLocal(StoreLocal { index: 1, store_next: false })),
        Opcode::ASTORE_2 => Some(Instruction::StoreLocal(StoreLocal { index: 2, store_next: false })),
        Opcode::ASTORE_3 => Some(Instruction::StoreLocal(StoreLocal { index: 3, store_next: false })),
        Opcode::IASTORE => Some(Instruction::ArrayStore(ArrayStore)),
        Opcode::LASTORE => Some(Instruction::ArrayStore(ArrayStore)),
        Opcode::FASTORE => Some(Instruction::ArrayStore(ArrayStore)),
        Opcode::DASTORE => Some(Instruction::ArrayStore(ArrayStore)),
        Opcode::AASTORE => Some(Instruction::ArrayStore(ArrayStore)),
        Opcode::BASTORE => Some(Instruction::ArrayStore(ArrayStore)),
        Opcode::CASTORE => Some(Instruction::ArrayStore(ArrayStore)),
        Opcode::SASTORE => Some(Instruction::ArrayStore(ArrayStore)),
        Opcode::POP => Some(Instruction::Pop(Pop { amount: 1 })),
        Opcode::POP2 => Some(Instruction::Pop(Pop { amount: 2 })),
        Opcode::DUP => Some(Instruction::Dup(Dup)),
        Opcode::DUP_X1 => Some(Instruction::DupX1(DupX1)),
        Opcode::DUP_X2 => Some(Instruction::DupX2(DupX2)),
        Opcode::DUP2 => Some(Instruction::Dup2(Dup2)),
        Opcode::DUP2_X1 => None,
        Opcode::DUP2_X2 => None,
        Opcode::SWAP => None,
        Opcode::IADD => Some(Instruction::IntArith(IntArith { op: ArithOp::Iadd })),
        Opcode::LADD => Some(Instruction::IntArith(IntArith { op: ArithOp::Ladd })),
        Opcode::FADD => Some(Instruction::FloatOp(FloatOp { op: FloatKind::Fadd })),
        Opcode::DADD => Some(Instruction::FloatOp(FloatOp { op: FloatKind::Dadd })),
        Opcode::ISUB => Some(Instruction::IntArith(IntArith { op: ArithOp::Isub })),
        Opcode::LSUB => Some(Instruction::IntArith(IntArith { op: ArithOp::Lsub })),
        Opcode::FSUB => Some(Instruction::FloatOp(FloatOp { op: FloatKind::Fsub })),
        Opcode::DSUB => Some(Instruction::FloatOp(FloatOp { op: FloatKind::Dsub })),
        Opcode::IMUL => Some(Instruction::IntArith(IntArith { op: ArithOp::Imul })),
        Opcode::LMUL => Some(Instruction::IntArith(IntArith { op: ArithOp::Lmul })),
        Opcode::FMUL => Some(Instruction::FloatOp(FloatOp { op: FloatKind::Fmul })),
        Opcode::DMUL => Some(Instruction::FloatOp(FloatOp { op: FloatKind::Dmul })),
        Opcode::IDIV => Some(Instruction::IntArith(IntArith { op: ArithOp::Idiv })),
        Opcode::LDIV => Some(Instruction::IntArith(IntArith { op: ArithOp::Ldiv })),
        Opcode::FDIV => Some(Instruction::FloatOp(FloatOp { op: FloatKind::Fdiv })),
        Opcode::DDIV => Some(Instruction::FloatOp(FloatOp { op: FloatKind::Ddiv })),
        Opcode::IREM => Some(Instruction::IntArith(IntArith { op: ArithOp::Irem })),
        Opcode::LREM => Some(Instruction::IntArith(IntArith { op: ArithOp::Lrem })),
        Opcode::FREM => Some(Instruction::FloatOp(FloatOp { op: FloatKind::Frem })),
        Opcode::DREM => Some(Instruction::FloatOp(FloatOp { op: FloatKind::Drem })),
        Opcode::INEG => Some(Instruction::IntUnary(IntUnary { op: UnaryOp::Ineg })),
        Opcode::LNEG => Some(Instruction::IntUnary(IntUnary { op: UnaryOp::Lneg })),
        Opcode::FNEG => Some(Instruction::FloatOp(FloatOp { op: FloatKind::Fneg })),
        Opcode::DNEG => Some(Instruction::FloatOp(FloatOp { op: FloatKind::Dneg })),
        Opcode::ISHL => Some(Instruction::IntArith(IntArith { op: ArithOp::Ishl })),
        Opcode::LSHL => Some(Instruction::IntArith(IntArith { op: ArithOp::Lshl })),
        Opcode::ISHR => Some(Instruction::IntArith(IntArith { op: ArithOp::Ishr })),
        Opcode::LSHR => Some(Instruction::IntArith(IntArith { op: ArithOp::Lshr })),
        Opcode::IUSHR => Some(Instruction::IntArith(IntArith { op: ArithOp::Iushr })),
        Opcode::LUSHR => Some(Instruction::IntArith(IntArith { op: ArithOp::Lushr })),
        Opcode::IAND => Some(Instruction::IntArith(IntArith { op: ArithOp::Iand })),
        Opcode::LAND => Some(Instruction::IntArith(IntArith { op: ArithOp::Land })),
        Opcode::IOR => Some(Instruction::IntArith(IntArith { op: ArithOp::Ior })),
        Opcode::LOR => Some(Instruction::IntArith(IntArith { op: ArithOp::Lor })),
        Opcode::IXOR => Some(Instruction::IntArith(IntArith { op: ArithOp::Ixor })),
        Opcode::LXOR => Some(Instruction::IntArith(IntArith { op: ArithOp::Lxor })),
        Opcode::IINC(a, b) => Some(Instruction::Iinc(Iinc { index: a, constant: b })),
        Opcode::I2L => Some(Instruction::IntUnary(IntUnary { op: UnaryOp::I2l })),
        Opcode::I2F => Some(Instruction::FloatOp(FloatOp { op: FloatKind::I2f })),
        Opcode::I2D => Some(Instruction::FloatOp(FloatOp { op: FloatKind::I2d })),
        Opcode::L2I => Some(Instruction::IntUnary(IntUnary { op: UnaryOp::L2i })),
        Opcode::L2F => Some(Instruction::FloatOp(FloatOp { op: FloatKind::L2f })),
        Opcode::L2D => Some(Instruction::FloatOp(FloatOp { op: FloatKind::L2d })),
        Opcode::F2I => Some(Instruction::FloatOp(FloatOp { op: FloatKind::F2i })),
        Opcode::F2L => Some(Instruction::FloatOp(FloatOp { op: FloatKind::F2l })),
        Opcode::F2D => Some(Instruction::FloatOp(FloatOp { op: FloatKind::F2d })),
        Opcode::D2I => Some(Instruction::FloatOp(FloatOp { op: FloatKind::D2i })),
        Opcode::D2L => Some(Instruction::FloatOp(FloatOp { op: FloatKind::D2l })),
        Opcode::D2F => Some(Instruction::FloatOp(FloatOp { op: FloatKind::D2f })),
        Opcode::I2B => Some(Instruction::IntUnary(IntUnary { op: UnaryOp::I2b })),
        Opcode::I2C => Some(Instruction::IntUnary(IntUnary { op: UnaryOp::I2c })),
        Opcode::I2S => Some(Instruction::IntUnary(IntUnary { op: UnaryOp::I2s })),
        Opcode::LCMP => Some(Instruction::IntArith(IntArith { op: ArithOp::Lcompare })),
        Opcode::FCMPL => Some(Instruction::FloatOp(FloatOp { op: FloatKind::FcompareLess })),
        Opcode::FCMPG => Some(Instruction::FloatOp(FloatOp { op: FloatKind::FcompareGreater })),
        Opcode::DCMPL => Some(Instruction::FloatOp(FloatOp { op: FloatKind::DcompareLess })),
        Opcode::DCMPG => Some(Instruction::FloatOp(FloatOp { op: FloatKind::DcompareGreater })),
        Opcode::IFEQ(a) => Some(Instruction::IfZero(IfZero { cond: Comparison::Eq, jump_to: a })),
        Opcode::IFNE(a) => Some(Instruction::IfZero(IfZero { cond: Comparison::Ne, jump_to: a })),
        Opcode::IFLT(a) => Some(Instruction::IfZero(IfZero { cond: Comparison::Lt, jump_to: a })),
        Opcode::IFGE(a) => Some(Instruction::IfZero(IfZero { cond: Comparison::Ge, jump_to: a })),
        Opcode::IFGT(a) => Some(Instruction::IfZero(IfZero { cond: Comparison::Gt, jump_to: a })),
        Opcode::IFLE(a) => Some(Instruction::IfZero(IfZero { cond: Comparison::Le, jump_to: a })),
        Opcode::IF_ICMPEQ(a) => Some(Instruction::IfIntCompare(IfIntCompare { cond: Comparison::Eq, jump_to: a })),
        Opcode::IF_ICMPNE(a) => Some(Instruction::IfIntCompare(IfIntCompare { cond: Comparison::Ne, jump_to: a })),
        Opcode::IF_ICMPLT(a) => Some(Instruction::IfIntCompare(IfIntCompare { cond: Comparison::Lt, jump_to: a })),
        Opcode::IF_ICMPGE(a) => Some(Instruction::IfIntCompare(IfIntCompare { cond: Comparison::Ge, jump_to: a })),
        Opcode::IF_ICMPGT(a) => Some(Instruction::IfIntCompare(IfIntCompare { cond: Comparison::Gt, jump_to: a })),
        Opcode::IF_ICMPLE(a) => Some(Instruction::IfIntCompare(IfIntCompare { cond: Comparison::Le, jump_to: a })),
        Opcode::IF_ACMPEQ(a) => Some(Instruction::IfRefCompare(IfRefCompare { equal: true, jump_to: a })),
        Opcode::IF_ACMPNE(a) => Some(Instruction::IfRefCompare(IfRefCompare { equal: false, jump_to: a })),
        Opcode::GOTO(a) => Some(Instruction::Goto(Goto { jump_to: a })),
        Opcode::JSR => None,
        Opcode::RET => None,
        Opcode::LOOKUPSWITCH => None,
        Opcode::IRETURN => Some(Instruction::ValueReturn(ValueReturn)),
        Opcode::LRETURN => Some(Instruction::ValueReturn(ValueReturn)),
        Opcode::FRETURN => Some(Instruction::ValueReturn(ValueReturn)),
        Opcode::DRETURN => Some(Instruction::ValueReturn(ValueReturn)),
        Opcode::ARETURN => Some(Instruction::ValueReturn(ValueReturn)),
        Opcode::RETURN => Some(Instruction::VoidReturn(VoidReturn)),
        Opcode::GETSTATIC(a) => Some(Instruction::GetStatic(GetStatic { index: a })),
        Opcode::PUTSTATIC(a) => Some(Instruction::PutStatic(PutStatic { index: a })),
        Opcode::GETFIELD(a) => Some(Instruction::GetField(GetField { index: a })),
        Opcode::PUTFIELD(a) => Some(Instruction::PutField(PutField { index: a })),
        Opcode::INVOKEVIRTUAL(a) => Some(Instruction::InvokeVirtual(InvokeVirtual { index: a })),
        Opcode::INVOKESPECIAL(a) => Some(Instruction::InvokeSpecial(InvokeSpecial { index: a })),
        Opcode::INVOKESTATIC(a) => Some(Instruction::InvokeStatic(InvokeStatic { index: a })),
        Opcode::INVOKEINTERFACE(a, b, c) => Some(Instruction::InvokeInterface(InvokeInterface { index: a, count: b, zero: c })),
        Opcode::INVOKEDYNAMIC => None,
        Opcode::NEW(a) => Some(Instruction::New(New { index: a })),
        Opcode::NEWARRAY(a) => Some(Instruction::NewArray(NewArray { type_tag: a })),
        Opcode::ANEWARRAY(a) => Some(Instruction::ANewArray(ANewArray { type_index: a })),
        Opcode::ARRAYLENGTH => Some(Instruction::ArrayLength(ArrayLength)),
        Opcode::ATHROW => Some(Instruction::Athrow(Athrow)),
        Opcode::CHECKCAST(a) => Some(Instruction::CheckCast(CheckCast { type_index: a })),
        Opcode::INSTANCEOF(a) => Some(Instruction::InstanceOf(InstanceOf { type_index: a })),
        Opcode::MONITORENTER => Some(Instruction::MonitorEnter(MonitorEnter)),
        Opcode::MONITOREXIT => Some(Instruction::MonitorExit(MonitorExit)),
        Opcode::WIDE => None,
        Opcode::MULTIANEWARRAY => None,
        Opcode::IFNULL(a) => Some(Instruction::IfNull(IfNull { jump_to: a })),
        Opcode::IFNONNULL(a) => Some(Instruction::IfNotNull(IfNotNull { jump_to: a })),
        Opcode::GOTO_W => None,
        Opcode::JSR_W => None,
        Opcode::BREAKPOINT => Some(Instruction::Nop(Nop)),
        Opcode::IMPDEP1 => Some(Instruction::Nop(Nop)),
        Opcode::IMPDEP2 => Some(Instruction::Nop(Nop)),
        Opcode::TABLESWITCH(_) => None,
    }
}

fn table_instruction(t: crate::opcode::TableSwitch) -> (r: Instruction)
    ensures
        decodes_to(OpcodeValue::TableSwitch { default: t.default, low: t.low, high: t.high, pairs: t.pairs@ }, r),
{
    let mut table: Vec<i32> = Vec::new();
    let mut k: usize = 0;
    while k < t.pairs.len()
        invariant
            k <= t.pairs@.len(),
            table@ =~= t.pairs@.take(k as int).map_values(|p: (u32, u32)| p.1 as i32),
        decreases t.pairs@.len() - k,
    {
        table.push(t.pairs[k].1 as i32);
        assert(t.pairs@.take(k + 1) =~= t.pairs@.take(k as int).push(t.pairs@[k as int]));
        k = k + 1;
    }
    assert(t.pairs@.take(t.pairs@.len() as int) =~= t.pairs@);
    Instruction::TableSwitch(TableSwitch { default: t.default as i32, low: t.low as i32, high: t.high as i32, table })
}

/// Reads one instruction at `pc` from the front of `bytes` as the machine's run loop
/// reads it: the opcode and its operands are decoded (`Opcode::decode`) and turned into
/// the instruction the machine runs. Code that ends inside the instruction is
/// `Truncated`; an opcode the machine does not run is `Unsupported` with its byte.
pub fn read_instruction(bytes: &mut Bytes, pc: i32) -> (r: Result<Box<Instruction>, ExecError>)
    ensures
        spec_decode(bytes_view(*old(bytes)), pc) matches Outcome::Done(v, rest) ==> {
            &&& is_supported(v) ==> (r matches Ok(ins) && decodes_to(v, *ins) && bytes_view(*final(bytes)) == rest)
            &&& !is_supported(v) ==> r == Err::<Box<Instruction>, ExecError>(ExecError::Unsupported(bytes_view(*old(bytes))[0]))
        },
        !(spec_decode(bytes_view(*old(bytes)), pc) is Done) ==> r == Err::<Box<Instruction>, ExecError>(ExecError::Truncated),
        is_suffix(bytes_view(*final(bytes)), bytes_view(*old(bytes))),
{
    let ghost s0 = bytes_view(*bytes);
    let first = match crate::reader::bytes_first(bytes) {
        Some(f) => f,
        None => 0,
    };
    let op = match Opcode::decode(bytes, pc) {
        Ok(op) => op,
        Err(_) => return Err(ExecError::Truncated),
    };
    match op {
        Opcode::TABLESWITCH(t) => Ok(b(table_instruction(t))),
        other => match instruction_for(other) {
            Some(ins) => Ok(b(ins)),
            None => {
                proof {
                    crate::opcode::lemma_decode_nonempty(s0, pc);
                }
                Err(ExecError::Unsupported(first))
            },
        },
    }
}

/// The opcodes that `decode_instruction` has no instruction for: the stack shuffles
/// past `dup`, the bitwise operations, `iinc`, the conversions but `i2l`, the
/// comparisons of longs and floating values, `if_acmp*`, the subroutines and switches,
/// `invokeinterface`, `invokedynamic`, the casts and type tests, the monitors, `wide`,
/// `multianewarray`, the wide jumps, and every byte past `breakpoint` but the two
/// reserved ones.
pub open spec fn refused_opcode(op: u8) -> bool {
    ||| 0x5a <= op <= 0x5f
    ||| 0x7e <= op <= 0x84
    ||| 0x86 <= op <= 0x98
    ||| op == 0xa5 || op == 0xa6
    ||| 0xa8 <= op <= 0xab
    ||| op == 0xb9 || op == 0xba
    ||| 0xc0 <= op <= 0xc5
    ||| op == 0xc8 || op == 0xc9
    ||| 0xcb <= op <= 0xfd
}

/// The opcodes that `decode_instruction` reads with a one-byte index: `ldc_w`, `dload`
/// and `dstore`.
pub open spec fn byte_indexed(op: u8) -> bool {
    op == 0x13 || op == 0x18 || op == 0x39
}

/// The instruction of a byte-indexed opcode (`byte_indexed`) with index `index`:
/// `ldc_w` loads constant `index`, `dload` loads local `index`, and `dstore` stores
/// into local `index` and the one after it.
pub open spec fn byte_indexed_instruction(op: u8, index: u8) -> Instruction {
    if op == 0x13 {
        Instruction::Ldc(Ldc { index: index as u16 })
    } else if op == 0x18 {
        Instruction::LoadLocal(LoadLocal { index: index as usize })
    } else {
        Instruction::StoreLocal(StoreLocal { index: index as usize, store_next: true })
    }
}

fn is_refused(op: u8) -> (r: bool)
    ensures
        r == refused_opcode(op),
{
    (0x5a <= op && op <= 0x5f) || (0x7e <= op && op <= 0x84) || (0x86 <= op && op <= 0x98) || op == 0xa5 || op == 0xa6 || (
    0xa8 <= op && op <= 0xab) || op == 0xb9 || op == 0xba || (0xc0 <= op && op <= 0xc5) || op == 0xc8 || op == 0xc9 || (0xcb
        <= op && op <= 0xfd)
}

/// Decodes one instruction from the front of `bytes`, as the bytecode module of the
/// interpreter does it: an opcode it has no instruction for (`refused_opcode`) is
/// `Unsupported` with its byte; `ldc_w`, `dload` and `dstore` take a one-byte index
/// (`byte_indexed_instruction`); every other opcode is read as `read_instruction` reads
/// it. An empty buffer, or one that ends inside the instruction, is `Truncated`.
pub fn decode_instruction(bytes: &mut Bytes, pc: i32) -> (r: Result<Box<Instruction>, ExecError>)
    ensures
        ({
            let s = bytes_view(*old(bytes));
            &&& s.len() == 0 ==> r == Err::<Box<Instruction>, ExecError>(ExecError::Truncated)
            &&& s.len() > 0 && refused_opcode(s[0]) ==> r == Err::<Box<Instruction>, ExecError>(ExecError::Unsupported(s[0]))
            &&& s.len() > 0 && byte_indexed(s[0]) ==> if s.len() < 2 {
                r == Err::<Box<Instruction>, ExecError>(ExecError::Truncated)
            } else {
                (r matches Ok(ins) && *ins == byte_indexed_instruction(s[0], s[1])) && bytes_view(*final(bytes)) == s.skip(2)
            }
            &&& s.len() > 0 && !refused_opcode(s[0]) && !byte_indexed(s[0]) ==> {
                &&& spec_decode(s, pc) matches Outcome::Done(v, rest) ==> {
                    &&& is_supported(v) ==> (r matches Ok(ins) && decodes_to(v, *ins) && bytes_view(*final(bytes)) == rest)
                    &&& !is_supported(v) ==> r == Err::<Box<Instruction>, ExecError>(ExecError::Unsupported(s[0]))
                }
                &&& !(spec_decode(s, pc) is Done) ==> r == Err::<Box<Instruction>, ExecError>(ExecError::Truncated)
            }
        }),
        is_suffix(bytes_view(*final(bytes)), bytes_view(*old(bytes))),
{
    let ghost s0 = bytes_view(*bytes);
    proof {
        crate::reader::lemma_suffix(s0, s0, s0, 0);
    }
    let first = match crate::reader::bytes_first(bytes) {
        Some(f) => f,
        None => return Err(ExecError::Truncated),
    };
    if is_refused(first) {
        return Err(ExecError::Unsupported(first));
    }
    if first == 0x13 || first == 0x18 || first == 0x39 {
        if crate::reader::bytes_len(bytes) < 2 {
            return Err(ExecError::Truncated);
        }
        crate::reader::bytes_advance(bytes, 1);
        let index = match crate::reader::try_get_u8(bytes) {
            Some(i) => i,
            None => return Err(ExecError::Truncated),
        };
        proof {
            assert(s0.skip(1).skip(1) =~= s0.skip(2));
            crate::reader::lemma_suffix(s0, s0, s0, 2);
        }
        let ins = if first == 0x13 {
            Instruction::Ldc(Ldc { index: index as u16 })
        } else if first == 0x18 {
            Instruction::LoadLocal(LoadLocal { index: index as usize })
        } else {
            Instruction::StoreLocal(StoreLocal { index: index as usize, store_next: true })
        };
        return Ok(b(ins));
    }
    read_instruction(bytes, pc)
}

} // verus!
