//! The virtual machine: loaded classes, the heap, the call stack, and the loop that runs
//! instructions. What the machine cannot do itself (reading a class file, floating point
//! arithmetic, native methods) it hands to its host as a request and resumes after.
use crate::attributes::{check_names_from, last_named, CodeAttribute, ExceptionEntry, KnownAttribute};
use crate::classes::{
    add_class, class_added, class_index, class_index_from, method_index_from, resolve_method, slot_index_from, slots_from, find_class, find_method, find_slot, is_subclass_of, resolve_class_method,
    resolve_static, resolve_static_field, subclass_of, table_wf, LoadError, LoadedClass, field_slots,
};
use crate::array::HeapEffect;
use crate::constants::{interned, Interner};
use crate::descriptor::{parameter_count, parameter_count_of};
use crate::error::{ExecError, ThrownState, VMError};
use crate::frame::{with_operands, Context, FrameState, Progression, ProgressionValue, Throwable, ThrowableValue, VMErrorValue};
use crate::opcode::spec_decode;
use crate::reader::Outcome as Parsed;
use crate::heap::{instance_fields, is_instance, null_pointer, with_field, FieldSlot, FieldSlotValue, Heap, HeapObject, Instance, ObjectValue};
use crate::instruction::{read_instruction, decodes_to, is_supported, FloatKind, Instruction};
use crate::pool::{Check, ConstantPool, EntryValue};
use crate::reader::{bytes_advance, bytes_from_slice, bytes_len, bytes_view};
use crate::resolve::{class_name, class_name_at, member_at, member_ref, MemberKind, MemberRef, MemberRefValue};
use crate::classfile::ClassFile;
use crate::value::RuntimeValue;
use crate::natives::{builtin_native, NativeResult};
use crate::layout::{base_layout, basic_layout, object_base, reference_layout, spec_basic_layout, StaticInfo, StaticInfoValue, StaticInit, StaticInitValue};
use crate::numeric::{FloatingType, Integral, IntegralType};
use vstd::prelude::*;
use vstd::string::*;

verus! {

/// Options the machine starts with: how deep the call stack may grow.
#[derive(Debug, Clone, Copy)]
pub struct BootOptions {
    pub max_stack: u64,
}

/// One method invocation on the call stack: the class and code of the method, its
/// exception table, its frame, where it resumes after a call it made returns, and the
/// local variables it started with.
#[derive(Debug)]
pub struct Activation {
    pub class: usize,
    pub method_name: String,
    pub code: Vec<u8>,
    pub handlers: Vec<ExceptionEntry>,
    pub ctx: Context,
    pub resume_pc: i32,
    /// The local variables the invocation started with; a handler of the method starts
    /// with them again.
    pub args: Vec<RuntimeValue>,
}

/// Work the machine hands to its host.
#[derive(Debug)]
pub enum Request {
    /// Load the class of this name (add its class file) and run again.
    LoadClass(String),
    /// Compute the floating point operation on the operands, push the results with
    /// `complete` and run again.
    Float { op: FloatKind, operands: Vec<RuntimeValue> },
    /// Run the native method with the arguments, push its result with `complete` and run
    /// again.
    Native { class_name: String, name: String, descriptor: String, args: Vec<RuntimeValue> },
}

/// How a run of the machine ended.
#[derive(Debug)]
pub enum Outcome {
    /// The outermost method returned.
    Returned(Option<RuntimeValue>),
    /// The host must do this before the machine can go on.
    Request(Request),
    /// An instruction could not run.
    Fault(ExecError, ThrownState),
    /// An exception left the outermost method, with where that method stood.
    Uncaught(Throwable, ThrownState),
    /// The run used up its steps.
    OutOfFuel,
}


/// The effect of an instruction that works on the frame alone (`None` for one that also
/// works on the heap, the classes or the call stack).
pub open spec fn frame_effect(ins: Instruction, f: FrameState) -> Option<Result<(FrameState, ProgressionValue), ExecError>> {
    match ins {
        Instruction::Nop(i) => Some(i.effect(f)),
        Instruction::PushConst(i) => Some(i.effect(f)),
        Instruction::LoadLocal(i) => Some(i.effect(f)),
        Instruction::StoreLocal(i) => if i.index == usize::MAX {
            Some(Err(ExecError::NoLocal(i.index)))
        } else {
            Some(i.effect(f))
        },
        Instruction::Pop(i) => Some(i.effect(f)),
        Instruction::Dup(i) => Some(i.effect(f)),
        Instruction::DupX1(i) => Some(i.effect(f)),
        Instruction::DupX2(i) => Some(i.effect(f)),
        Instruction::Dup2(i) => Some(i.effect(f)),
        Instruction::IntArith(i) => Some(i.effect(f)),
        Instruction::IntUnary(i) => Some(i.effect(f)),
        Instruction::Iinc(i) => Some(i.effect(f)),
        Instruction::IfZero(i) => Some(i.effect(f)),
        Instruction::IfIntCompare(i) => Some(i.effect(f)),
        Instruction::IfRefCompare(i) => Some(i.effect(f)),
        Instruction::Goto(i) => Some(i.effect(f)),
        Instruction::TableSwitch(i) => Some(i.effect(f)),
        Instruction::MonitorEnter(i) => Some(i.effect(f)),
        Instruction::MonitorExit(i) => Some(i.effect(f)),
        Instruction::IfNull(i) => Some(i.effect(f)),
        Instruction::IfNotNull(i) => Some(i.effect(f)),
        _ => None,
    }
}

/// A frame effect with the heap left as `h`.
pub open spec fn lifted(m: Result<(FrameState, ProgressionValue), ExecError>, h: Seq<ObjectValue>) -> HeapEffect {
    match m {
        Ok((f, p)) => Ok((f, h, p)),
        Err(e) => Err(e),
    }
}

/// The effect of an instruction on the frame and the heap, given the classes, the
/// interned strings and the constant pool of the class of its method. `None` for the
/// calls (`invoke_plan`) and floating-point operations (`float_request`), and for `new`
/// and the static field instructions while their class is not ready.
pub open spec fn heap_effect(
    classes: Seq<LoadedClass>,
    ins: Instruction,
    f: FrameState,
    h: Seq<ObjectValue>,
    strings: Seq<(Seq<char>, usize)>,
    pool: Seq<EntryValue>,
) -> Option<HeapEffect> {
    match ins {
        Instruction::Ldc(i) => Some(i.effect(f, h, strings, pool)),
        Instruction::Ldc2W(i) => Some(lifted(i.effect(f, pool), h)),
        Instruction::ArrayLoad(i) => Some(i.effect(f, h)),
        Instruction::ArrayStore(i) => Some(i.effect(f, h)),
        Instruction::NewArray(i) => Some(i.effect(f, h)),
        Instruction::ANewArray(i) => Some(i.effect(f, h, pool)),
        Instruction::ArrayLength(i) => Some(i.effect(f, h)),
        Instruction::GetField(i) => Some(i.effect(f, h, pool)),
        Instruction::PutField(i) => Some(i.effect(f, h, pool)),
        Instruction::ValueReturn(i) => Some(lifted(i.effect(f), h)),
        Instruction::VoidReturn(i) => Some(lifted(i.effect(f), h)),
        Instruction::Athrow(_) => Some(lifted(athrow_effect(f), h)),
        Instruction::New(i) => new_effect(classes, h, pool, i.index, f),
        Instruction::InvokeInterface(i) => if i.zero != 0 || i.count == 0 {
            Some(Err(ExecError::BadDescriptor))
        } else {
            None
        },
        Instruction::GetStatic(i) => match static_effect(classes, pool, i.index, false, f) {
            Some(m) => Some(lifted(m, h)),
            None => None,
        },
        Instruction::PutStatic(i) => match static_effect(classes, pool, i.index, true, f) {
            Some(m) => Some(lifted(m, h)),
            None => None,
        },
        Instruction::CheckCast(i) => Some(lifted(type_check_effect(classes, h, pool, i.type_index, false, f), h)),
        Instruction::InstanceOf(i) => Some(lifted(type_check_effect(classes, h, pool, i.type_index, true, f), h)),
        _ => match frame_effect(ins, f) {
            Some(m) => Some(lifted(m, h)),
            None => None,
        },
    }
}

/// `athrow`: the popped reference is raised; `null` raises a `NullPointerException`.
pub open spec fn athrow_effect(f: FrameState) -> Result<(FrameState, ProgressionValue), ExecError> {
    if f.operands.len() < 1 {
        Err(ExecError::StackUnderflow)
    } else {
        let g = with_operands(f, f.operands.drop_last());
        match f.operands.last() {
            RuntimeValue::Object(Some(x)) => Ok((g, ProgressionValue::Throw(ThrowableValue::Object(x)))),
            RuntimeValue::Object(None) => Ok((g, null_pointer("athrow"@))),
            _ => Err(ExecError::NotObject),
        }
    }
}

/// A floating-point operation `op` of `len` bytes in invocation `a`, on top of the
/// invocations `below`, handed to the host, leaving the call stack `after` and the
/// outcome `r`: the request carries the operation's operands, deepest first, and the
/// invocation waits without them to go on after the instruction. Too few operands, or
/// an instruction that ends past the largest program counter, is a fault, with the
/// invocation back on the call stack as it was.
pub open spec fn float_request(
    op: FloatKind,
    a: Activation,
    len: int,
    below: Seq<Activation>,
    after: Seq<Activation>,
    r: Option<Outcome>,
) -> bool {
    let s = a.ctx.operands@;
    let n = op.arity() as int;
    if s.len() < n {
        (r matches Some(Outcome::Fault(e, _)) && e == ExecError::StackUnderflow) && resumed(after, below, a, a.ctx@, a.ctx.pc as int)
    } else if a.ctx.pc + len > i32::MAX {
        (r matches Some(Outcome::Fault(e, _)) && e == ExecError::BadJump) && resumed(after, below, a, a.ctx@, a.ctx.pc as int)
    } else {
        &&& r matches Some(Outcome::Request(Request::Float { op: o, operands })) && o == op && operands@ == s.skip(s.len() - n)
        &&& after.len() == below.len() + 1
        &&& after.drop_last() == below
        &&& after.last().class == a.class
        &&& after.last().code == a.code
        &&& after.last().handlers == a.handlers
        &&& after.last().ctx.pc == a.ctx.pc
        &&& after.last().ctx.locals@ == a.ctx.locals@
        &&& after.last().ctx.operands@ == s.take(s.len() - n)
        &&& after.last().resume_pc == a.ctx.pc + len
    }
}

/// Whether the object `r` of `heap` is an instance of the class named `name`: an
/// instance when its class is or extends that class, any other object only of
/// `java/lang/Object`.
pub open spec fn is_instance_of(classes: Seq<LoadedClass>, heap: Seq<ObjectValue>, r: usize, name: Seq<char>) -> bool {
    match object_class(heap, r) {
        Some(cn) => match class_index(classes, cn) {
            Some(oc) => is_subclass_of(classes, oc, name),
            None => false,
        },
        None => name == "java/lang/Object"@,
    }
}

/// `instanceof` (`test` set) and `checkcast` of the class named by entry `index`:
/// `instanceof` replaces the reference by 1 or 0; `checkcast` leaves it, or pops it
/// and raises a `ClassCastException` from the object's class (`java/lang/Object` for
/// one that is no instance) to the named class. `null` passes either (`instanceof`
/// gives 0).
pub open spec fn type_check_effect(
    classes: Seq<LoadedClass>,
    heap: Seq<ObjectValue>,
    pool: Seq<EntryValue>,
    index: u16,
    test: bool,
    f: FrameState,
) -> Result<(FrameState, ProgressionValue), ExecError> {
    match class_name_at(pool, index) {
        None => Err(ExecError::BadConstant(index)),
        Some(name) => if f.operands.len() < 1 {
            Err(ExecError::StackUnderflow)
        } else {
            let rest = f.operands.drop_last();
            let int_of = |b: bool| RuntimeValue::Integral(crate::numeric::Integral { value: if b { 1 } else { 0 }, ty: IntegralType::Int });
            match f.operands.last() {
                RuntimeValue::Object(None) => if test {
                    Ok((with_operands(f, rest.push(int_of(false))), ProgressionValue::Next))
                } else {
                    Ok((f, ProgressionValue::Next))
                },
                RuntimeValue::Object(Some(r)) => {
                    let is = is_instance_of(classes, heap, r, name);
                    if test {
                        Ok((with_operands(f, rest.push(int_of(is))), ProgressionValue::Next))
                    } else if is {
                        Ok((f, ProgressionValue::Next))
                    } else {
                        let from = match object_class(heap, r) {
                            Some(cn) => cn,
                            None => "java/lang/Object"@,
                        };
                        Ok((
                            with_operands(f, rest),
                            ProgressionValue::Throw(ThrowableValue::Error(VMErrorValue::ClassCastException { from, to: name })),
                        ))
                    }
                },
                _ => Err(ExecError::NotObject),
            }
        },
    }
}

/// The call stack `after` is `below` with the invocation `a` on top, resumed at `pc`
/// with the operands and local variables of frame `f`.
pub open spec fn resumed(after: Seq<Activation>, below: Seq<Activation>, a: Activation, f: FrameState, pc: int) -> bool {
    &&& after.len() == below.len() + 1
    &&& after.subrange(0, below.len() as int) == below
    &&& after.last().class == a.class
    &&& after.last().code == a.code
    &&& after.last().ctx.operands@ == f.operands
    &&& after.last().ctx.locals@ == f.locals
    &&& after.last().ctx.pc == pc
}

/// The call stack `below` was left by a return with value `v`, leaving `after` and the
/// outcome `r`: with no invocation left the run has returned `v`; otherwise the caller
/// goes on at its resume point with `v`, if any, pushed on its operands.
pub open spec fn returned_to(below: Seq<Activation>, after: Seq<Activation>, v: Option<RuntimeValue>, r: Option<Outcome>) -> bool {
    if below.len() == 0 {
        (r matches Some(Outcome::Returned(w)) && w == v) && after == below
    } else {
        let c = below.last();
        &&& r is None
        &&& after.len() == below.len()
        &&& after.drop_last() == below.drop_last()
        &&& after.last().class == c.class
        &&& after.last().code == c.code
        &&& after.last().handlers == c.handlers
        &&& after.last().ctx.locals@ == c.ctx.locals@
        &&& after.last().ctx.operands@ == match v {
            Some(x) => c.ctx.operands@.push(x),
            None => c.ctx.operands@,
        }
        &&& after.last().ctx.pc == c.resume_pc
    }
}

/// The class of the instance `r` names, if it names one.
pub open spec fn object_class(heap: Seq<ObjectValue>, r: usize) -> Option<Seq<char>> {
    if r < heap.len() {
        match heap[r as int] {
            ObjectValue::Instance { class_name, .. } => Some(class_name),
            _ => None,
        }
    } else {
        None
    }
}

/// The loaded class of the object `r`, if it is an instance of one.
pub open spec fn thrown_class(classes: Seq<LoadedClass>, heap: Seq<ObjectValue>, r: usize) -> Option<int> {
    match object_class(heap, r) {
        Some(n) => class_index(classes, n),
        None => None,
    }
}

/// Where an object of class `thrown`, raised at `pc` in an invocation of class `class`
/// with exception table `handlers` on top of the invocations `below`, is caught: the
/// number of invocations below the one whose handler catches it, and that handler. The
/// invocation that raised it is searched first, then each caller at the instruction
/// that made the call.
pub open spec fn catcher(
    classes: Seq<LoadedClass>,
    thrown: Option<int>,
    below: Seq<Activation>,
    class: usize,
    handlers: Seq<ExceptionEntry>,
    pc: i32,
) -> Option<(int, u16)>
    decreases below.len(),
{
    let here = match thrown {
        Some(c) => handler_from(classes, classes[class as int].file.constant_pool@, handlers, pc, c, 0),
        None => None,
    };
    match here {
        Some(h) => Some((below.len() as int, h)),
        None => if below.len() == 0 {
            None
        } else {
            let n = below.last();
            catcher(classes, thrown, below.drop_last(), n.class, n.handlers@, n.ctx.pc)
        },
    }
}

/// The class of an exception the machine raises itself, by its binary name.
pub open spec fn error_class(e: VMErrorValue) -> Seq<char> {
    match e {
        VMErrorValue::ArrayIndexOutOfBounds { .. } => "java/lang/ArrayIndexOutOfBoundsException"@,
        VMErrorValue::NullPointerException { .. } => "java/lang/NullPointerException"@,
        VMErrorValue::StackOverflowError => "java/lang/StackOverflowError"@,
        VMErrorValue::ClassCastException { .. } => "java/lang/ClassCastException"@,
    }
}

/// The loaded class of an exception: the class of the object thrown, or the class an
/// exception of the machine is named after.
pub open spec fn thrown_of(classes: Seq<LoadedClass>, heap: Seq<ObjectValue>, t: ThrowableValue) -> Option<int> {
    match t {
        ThrowableValue::Error(e) => class_index(classes, error_class(e)),
        ThrowableValue::Object(x) => thrown_class(classes, heap, x),
    }
}

/// What a handler of exception `t` starts with as its only operand: the object thrown,
/// or `null` for an exception of the machine.
pub open spec fn handler_operand(t: ThrowableValue) -> RuntimeValue {
    match t {
        ThrowableValue::Error(_) => RuntimeValue::Object(None),
        ThrowableValue::Object(x) => RuntimeValue::Object(Some(x)),
    }
}

/// The exception `t` raised in invocation `a`, whose frame is now `f`, on top of the
/// invocations `below`, left the call stack `after` and the outcome `r`: it is caught
/// where `catcher` says, by the class of the exception (`thrown_of`), and that
/// invocation goes on at the handler with the local variables it started with and the
/// exception (`handler_operand`) as its only operand; an exception nothing catches ends
/// the run with every invocation gone, and with the program counter and local
/// variables of the outermost invocation.
pub open spec fn raised(
    classes: Seq<LoadedClass>,
    heap: Seq<ObjectValue>,
    below: Seq<Activation>,
    a: Activation,
    f: FrameState,
    t: ThrowableValue,
    after: Seq<Activation>,
    r: Option<Outcome>,
) -> bool {
    match catcher(classes, thrown_of(classes, heap, t), below, a.class, a.handlers@, f.pc) {
        Some((k, h)) => {
            &&& r is None
            &&& after.len() == k + 1
            &&& after.subrange(0, k) == below.subrange(0, k)
            &&& after.last().ctx.pc == h as i32
            &&& after.last().ctx.operands@ == seq![handler_operand(t)]
            &&& k == below.len() ==> after.last().class == a.class && after.last().code == a.code
                && after.last().handlers == a.handlers && after.last().args == a.args && after.last().ctx.locals@
                == a.args@
            &&& k < below.len() ==> after.last().class == below[k].class && after.last().code == below[k].code
                && after.last().handlers == below[k].handlers && after.last().args == below[k].args
                && after.last().ctx.locals@ == below[k].args@
        },
        None => {
            &&& r matches Some(Outcome::Uncaught(u, s)) && u@ == t && if below.len() == 0 {
                s.pc == f.pc && s.locals@ == f.locals
            } else {
                s.pc == below[0].ctx.pc && s.locals@ == below[0].ctx.locals@
            }
            &&& after.len() == 0
        },
    }
}

/// What the machine does after an instruction of `len` bytes with effect `m` in
/// invocation `a`, on top of the invocations `below`, leaving the call stack `after`,
/// the heap `heap_after` and the outcome `r`: the invocation goes on at the next
/// instruction, or at the jump target, with the effect's frame and heap; a fault ends
/// the run with the effect's error, the heap as it was and the invocation back on the
/// call stack unchanged.
pub open spec fn machine_step(
    classes: Seq<LoadedClass>,
    m: HeapEffect,
    a: Activation,
    len: int,
    below: Seq<Activation>,
    after: Seq<Activation>,
    heap_before: Seq<ObjectValue>,
    heap_after: Seq<ObjectValue>,
    r: Option<Outcome>,
) -> bool {
    match m {
        Ok((f, h, p)) => match p {
            ProgressionValue::Next => f.pc + len <= i32::MAX ==> r is None && resumed(after, below, a, f, f.pc + len)
                && heap_after == h,
            ProgressionValue::JumpRel(o) => (i32::MIN <= f.pc + o <= i32::MAX ==> r is None && resumed(
                after,
                below,
                a,
                f,
                f.pc + o,
            ) && heap_after == h),
            ProgressionValue::JumpAbs(t) => r is None && resumed(after, below, a, f, t as int) && heap_after == h,
            ProgressionValue::Return(v) => returned_to(below, after, v, r) && heap_after == h,
            ProgressionValue::Throw(t) => raised(classes, h, below, a, f, t, after, r) && heap_after == h,
        },
        Err(e) => (r matches Some(Outcome::Fault(e2, _)) && e2 == e) && heap_after == heap_before && resumed(
            after,
            below,
            a,
            a.ctx@,
            a.ctx.pc as int,
        ),
    }
}

/// The method reference and the kind of call of an invoke instruction (an
/// `invokeinterface` with bad operand bytes makes no call).
pub open spec fn invoke_of(ins: Instruction) -> Option<(u16, InvokeKind)> {
    match ins {
        Instruction::InvokeVirtual(i) => Some((i.index, InvokeKind::Virtual)),
        Instruction::InvokeSpecial(i) => Some((i.index, InvokeKind::Special)),
        Instruction::InvokeStatic(i) => Some((i.index, InvokeKind::Static)),
        Instruction::InvokeInterface(i) => if i.zero != 0 || i.count == 0 {
            None
        } else {
            Some((i.index, InvokeKind::Interface))
        },
        _ => None,
    }
}

/// The class an instruction needs loaded before it can run, by its name in the constant
/// pool.
pub open spec fn loaded_class(ins: Instruction, pool: Seq<EntryValue>) -> Option<Seq<char>> {
    match invoke_of(ins) {
        Some((index, kind)) => if kind == InvokeKind::Static && names_initialiser(pool, index) {
            None
        } else {
            method_class(pool, index)
        },
        None => initialised_class(ins, pool),
    }
}

/// The class an instruction needs loaded and initialised before it can run, by its
/// name in the constant pool.
pub open spec fn initialised_class(ins: Instruction, pool: Seq<EntryValue>) -> Option<Seq<char>> {
    match ins {
        Instruction::New(i) => class_name_at(pool, i.index),
        Instruction::GetStatic(i) => field_class(pool, i.index),
        Instruction::PutStatic(i) => field_class(pool, i.index),
        Instruction::InvokeStatic(i) => if names_initialiser(pool, i.index) {
            None
        } else {
            method_class(pool, i.index)
        },
        _ => None,
    }
}

/// The class named by the field reference at entry `index`.
pub open spec fn field_class(pool: Seq<EntryValue>, index: u16) -> Option<Seq<char>> {
    match member_at(pool, index, MemberKind::Field) {
        Some(m) => Some(m.class_name),
        None => None,
    }
}

/// Instruction `ins`, `len` bytes long, run in invocation `a` on top of the call stack
/// `below`, with room for `max` more invocations, with the classes, heap and interned
/// strings before and after it, and the outcome `r`: what its effect says
/// (`heap_effect`, `machine_step`), the static field a `putstatic` stores
/// (`static_written`), a floating-point operation handed to the host
/// (`float_request`), a call (`invoke_plan`, `invoke_step`), and the class it needs
/// loaded (`loads_first`) and initialised (`initialises_first`) first.
pub open spec fn instruction_step(
    classes: Seq<LoadedClass>,
    heap: Seq<ObjectValue>,
    strings: Seq<(Seq<char>, usize)>,
    classes_after: Seq<LoadedClass>,
    heap_after: Seq<ObjectValue>,
    max: u64,
    a: Activation,
    ins: Instruction,
    len: int,
    below: Seq<Activation>,
    after: Seq<Activation>,
    r: Option<Outcome>,
) -> bool {
    let pool = classes[a.class as int].file.constant_pool@;
    &&& match heap_effect(classes, ins, a.ctx@, heap, strings, pool) {
        Some(m) => machine_step(classes, m, a, len, below, after, heap, heap_after, r),
        None => true,
    }
    &&& match ins {
        Instruction::FloatOp(i) => float_request(i.op, a, len, below, after, r) && heap_after == heap,
        _ => true,
    }
    &&& match ins {
        Instruction::PutStatic(i) => match static_store(classes, pool, i.index, a.ctx@) {
            Some((k, j, v)) => static_written(classes, classes_after, k, j, v),
            None => true,
        },
        _ => true,
    }
    &&& heap_effect(classes, ins, a.ctx@, heap, strings, pool) is Some && !(match ins {
        Instruction::PutStatic(i) => static_store(classes, pool, i.index, a.ctx@) is Some,
        _ => false,
    }) ==> classes_after == classes
    &&& match invoke_of(ins) {
        Some((index, kind)) => match invoke_plan(classes, heap, pool, index, kind, a.ctx@, len) {
            Some(p) => invoke_step(classes, heap, p, a, len, max, below, after, classes_after, heap_after, r),
            None => true,
        },
        None => true,
    }
    &&& loads_first(loaded_class(ins, pool), classes, a, below, after, r)
    &&& initialises_first(initialised_class(ins, pool), classes, classes_after, max, a, below, after)
}

/// The machines of `trace` follow one another by steps (`steps`) that hand nothing out.
pub open spec fn quiet_steps(trace: Seq<Vm>) -> bool {
    forall|k: int| 0 <= k && k + 1 < trace.len() ==> #[trigger] steps(trace[k], trace[k + 1], None)
}

/// One step of the machine `before` left `after` and the outcome `r`: with no
/// invocation the run has returned; a program counter before the code is a fault; one
/// past its end returns from the method without a value (`returned_to`); otherwise the
/// instruction at the program counter is decoded: code that ends inside it is
/// `Truncated`, an opcode the interpreter does not run is `Unsupported`, and any other
/// runs as `instruction_step` says.
pub open spec fn steps(before: Vm, after: Vm, r: Option<Outcome>) -> bool {
    if before.frames@.len() == 0 {
        (r matches Some(Outcome::Returned(v)) && v is None) && after.frames@ == before.frames@ && after.heap@ == before.heap@
    } else {
        let a = before.frames@.last();
        let below = before.frames@.drop_last();
        let pc = a.ctx.pc as int;
        if pc < 0 {
            (r matches Some(Outcome::Fault(e, _)) && e == ExecError::BadJump) && after.frames@ == before.frames@
                && after.heap@ == before.heap@
        } else if pc >= a.code@.len() {
            returned_to(below, after.frames@, None, r) && after.heap@ == before.heap@
        } else {
            match spec_decode(a.code@.skip(pc), a.ctx.pc) {
                Parsed::Done(v, rest) => if is_supported(v) {
                    exists|ins: Instruction|
                        #[trigger] decodes_to(v, ins) && instruction_step(
                            before.classes@,
                            before.heap@,
                            interned(before.strings.entries@),
                            after.classes@,
                            after.heap@,
                            before.options.max_stack,
                            a,
                            ins,
                            a.code@.len() - pc - rest.len(),
                            below,
                            after.frames@,
                            r,
                        )
                } else {
                    (r matches Some(Outcome::Fault(e, _)) && e == ExecError::Unsupported(a.code@[pc]))
                        && after.frames@ == before.frames@ && after.heap@ == before.heap@
                },
                _ => (r matches Some(Outcome::Fault(e, _)) && e == ExecError::Truncated) && after.frames@
                    == before.frames@ && after.heap@ == before.heap@,
            }
        }
    }
}

/// The virtual machine.
#[derive(Debug)]
pub struct Vm {
    pub classes: Vec<LoadedClass>,
    pub heap: Heap,
    pub frames: Vec<Activation>,
    pub options: BootOptions,
    pub strings: Interner,
    /// The object of the thread that runs, once it was made.
    pub main_thread: Option<usize>,
    /// The `java/lang/Class` objects made so far, by class name.
    pub mirrors: Vec<(String, usize)>,
}

/// The index of the first of `slots`, from `i` on, named `name`.
pub open spec fn slot_named_from(slots: Seq<FieldSlotValue>, name: Seq<char>, i: int) -> Option<int>
    decreases slots.len() - i,
{
    if i < 0 || i >= slots.len() {
        None
    } else if slots[i].name == name {
        Some(i)
    } else {
        slot_named_from(slots, name, i + 1)
    }
}

/// The index of the first field named `name` of the instance `r`, if `r` names an
/// instance that has one.
pub open spec fn named_field(heap: Seq<ObjectValue>, r: usize, name: Seq<char>) -> Option<int> {
    if is_instance(heap, r) {
        slot_named_from(instance_fields(heap, r), name, 0)
    } else {
        None
    }
}

/// The value of the first field named `name` of the instance `r`, if it has one.
pub open spec fn field_value(heap: Seq<ObjectValue>, r: usize, name: Seq<char>) -> Option<RuntimeValue> {
    match named_field(heap, r, name) {
        Some(i) => Some(instance_fields(heap, r)[i].value),
        None => None,
    }
}

/// The slot that `slot_named_from` finds has the name, from `i` on.
pub proof fn lemma_slot_named_found(slots: Seq<FieldSlotValue>, name: Seq<char>, i: int)
    ensures
        slot_named_from(slots, name, i) matches Some(j) ==> i <= j < slots.len() && slots[j].name == name,
    decreases slots.len() - i,
{
    if 0 <= i < slots.len() && slots[i].name != name {
        lemma_slot_named_found(slots, name, i + 1);
    }
}

/// Slots with the same names are searched alike, whatever their values.
pub proof fn lemma_slot_named_same_names(a: Seq<FieldSlotValue>, b: Seq<FieldSlotValue>, name: Seq<char>, i: int)
    requires
        a.len() == b.len(),
        forall|k: int| 0 <= k < a.len() ==> #[trigger] a[k].name == b[k].name,
    ensures
        slot_named_from(a, name, i) == slot_named_from(b, name, i),
    decreases a.len() - i,
{
    if 0 <= i < a.len() {
        assert(a[i].name == b[i].name);
        lemma_slot_named_same_names(a, b, name, i + 1);
    }
}

/// The instance `x` of `heap`, made with the field slots `fields`, has its first field
/// named `name` set to `v` when it has one.
pub open spec fn field_set_if_present(heap: Seq<ObjectValue>, x: usize, name: Seq<char>, v: RuntimeValue, fields: Seq<FieldSlotValue>) -> bool {
    field_value(heap, x, name) == if slot_named_from(fields, name, 0) is Some {
        Some(v)
    } else {
        None
    }
}

/// The instance `x` of `heap`, made with the field slots `fields`, has its first field
/// named `name`, when it has one, referring to a string object holding `main`.
pub open spec fn named_main(heap: Seq<ObjectValue>, x: usize, fields: Seq<FieldSlotValue>) -> bool {
    if slot_named_from(fields, "name"@, 0) is Some {
        field_value(heap, x, "name"@) matches Some(RuntimeValue::Object(Some(m))) && m < heap.len() && heap[m as int]
            == ObjectValue::Str("main"@)
    } else {
        field_value(heap, x, "name"@) is None
    }
}

/// Whether a value takes two local variable slots when passed to a method: a `long` or
/// a `double`.
pub open spec fn is_wide(v: RuntimeValue) -> bool {
    v.is_long() || (v matches RuntimeValue::Floating(f) && f.ty == FloatingType::Double)
}

/// The local variables a method starts with for the given arguments, first argument
/// first: a `long` or `double` argument fills two slots.
pub open spec fn widened(vals: Seq<RuntimeValue>) -> Seq<RuntimeValue>
    decreases vals.len(),
{
    if vals.len() == 0 {
        Seq::empty()
    } else if is_wide(vals.last()) {
        widened(vals.drop_last()).push(vals.last()).push(vals.last())
    } else {
        widened(vals.drop_last()).push(vals.last())
    }
}

fn exec_is_wide(v: &RuntimeValue) -> (r: bool)
    ensures
        r == is_wide(*v),
{
    match v {
        RuntimeValue::Integral(i) => i.ty == IntegralType::Long,
        RuntimeValue::Floating(f) => f.ty == FloatingType::Double,
        _ => false,
    }
}

/// Pops `n` arguments from the operand stack and lays them out as local variables
/// (`widened`); `None`, with the stack unchanged, when it holds fewer than `n` values.
pub fn take_args(ops: &mut Vec<RuntimeValue>, n: usize) -> (r: Option<Vec<RuntimeValue>>)
    ensures
        old(ops)@.len() < n ==> r is None && final(ops)@ == old(ops)@,
        old(ops)@.len() >= n ==> (r matches Some(a) && a@ == widened(old(ops)@.subrange(old(ops)@.len() - n, old(ops)@.len() as int))
            && final(ops)@ == old(ops)@.subrange(0, old(ops)@.len() - n)),
{
    let len = ops.len();
    if len < n {
        return None;
    }
    let start = len - n;
    let ghost top = ops@.subrange(start as int, len as int);
    let mut args: Vec<RuntimeValue> = Vec::new();
    let mut k = start;
    while k < len
        invariant
            start <= k <= len,
            len == ops@.len(),
            ops@ == old(ops)@,
            top == ops@.subrange(start as int, len as int),
            args@ == widened(top.take(k - start)),
        decreases len - k,
    {
        let v = ops[k];
        assert(top.take(k - start + 1).drop_last() =~= top.take(k - start));
        assert(top.take(k - start + 1).last() == v);
        if exec_is_wide(&v) {
            args.push(v);
        }
        args.push(v);
        k = k + 1;
    }
    assert(top.take(n as int) =~= top);
    let mut j: usize = 0;
    while j < n
        invariant
            j <= n,
            n <= len,
            len == old(ops)@.len(),
            ops@ == old(ops)@.subrange(0, len - j),
        decreases n - j,
    {
        ops.pop();
        j = j + 1;
    }
    Some(args)
}

/// A copy of the values.
fn copy_values(v: &Vec<RuntimeValue>) -> (r: Vec<RuntimeValue>)
    ensures
        r@ == v@,
{
    let mut out: Vec<RuntimeValue> = Vec::new();
    let mut k: usize = 0;
    while k < v.len()
        invariant
            k <= v@.len(),
            out@ == v@.take(k as int),
        decreases v@.len() - k,
    {
        out.push(v[k]);
        k = k + 1;
        assert(out@ =~= v@.take(k as int));
    }
    assert(v@.take(v@.len() as int) =~= v@);
    out
}

/// Whether `s` holds the text `lit`.
fn is_text(s: &String, lit: &str) -> (r: bool)
    ensures
        r == (s@ == lit@),
{
    let t = String::from_str(lit);
    *s == t
}

/// The local variables of an instance method: the receiver, then the arguments.
fn with_receiver(receiver: usize, args: Vec<RuntimeValue>) -> (r: Vec<RuntimeValue>)
    ensures
        r@ == seq![RuntimeValue::Object(Some(receiver))] + args@,
{
    let mut locals: Vec<RuntimeValue> = Vec::new();
    locals.push(RuntimeValue::Object(Some(receiver)));
    let mut j: usize = 0;
    while j < args.len()
        invariant
            j <= args@.len(),
            locals@ == seq![RuntimeValue::Object(Some(receiver))] + args@.subrange(0, j as int),
        decreases args@.len() - j,
    {
        locals.push(args[j]);
        j = j + 1;
        assert(locals@ =~= seq![RuntimeValue::Object(Some(receiver))] + args@.subrange(0, j as int));
    }
    assert(args@.subrange(0, args@.len() as int) =~= args@);
    locals
}

/// The handler of the first entry from `i` on that covers `pc` and catches an object of
/// class `thrown`: one whose catch type is 0 (any exception) or a class that `thrown` is
/// or extends.
pub open spec fn handler_from(
    classes: Seq<LoadedClass>,
    pool: Seq<EntryValue>,
    entries: Seq<ExceptionEntry>,
    pc: i32,
    thrown: int,
    i: int,
) -> Option<u16>
    decreases entries.len() - i,
{
    if i < 0 || i >= entries.len() {
        None
    } else {
        let e = entries[i];
        let at = pc as u16;
        let covers = e.start_pc <= at && at < e.end_pc;
        let catches = e.catch_type.spec_index() == 0 || (class_name_at(pool, e.catch_type.spec_index()) matches Some(
            n,
        ) && is_subclass_of(classes, thrown, n));
        if covers && catches {
            Some(e.handler_pc)
        } else {
            handler_from(classes, pool, entries, pc, thrown, i + 1)
        }
    }
}

/// The handler in `entries` for an exception of class `thrown` raised at `pc`, as
/// `handler_from` says.
pub fn caught_by(
    classes: &Vec<LoadedClass>,
    pool: &ConstantPool,
    entries: &Vec<ExceptionEntry>,
    pc: i32,
    thrown: usize,
) -> (r: Option<u16>)
    ensures
        r == handler_from(classes@, pool@, entries@, pc, thrown as int, 0),
{
    let mut i: usize = 0;
    while i < entries.len()
        invariant
            i <= entries@.len(),
            handler_from(classes@, pool@, entries@, pc, thrown as int, 0) == handler_from(
                classes@,
                pool@,
                entries@,
                pc,
                thrown as int,
                i as int,
            ),
        decreases entries@.len() - i,
    {
        let e = entries[i];
        let at = pc as u16;
        let covers = e.start_pc <= at && at < e.end_pc;
        let catches = if e.catch_type.index() == 0 {
            true
        } else {
            match class_name(pool, e.catch_type.index()) {
                Some(n) => subclass_of(classes, thrown, &n),
                None => false,
            }
        };
        if covers && catches {
            return Some(e.handler_pc);
        }
        i = i + 1;
    }
    None
}

/// The class name of the object a reference names: an instance's class, or `None` for
/// an array or a string.
fn class_of(heap: &Heap, r: usize) -> (c: Option<String>)
    ensures
        match c {
            Some(n) => object_class(heap@, r) == Some(n@),
            None => object_class(heap@, r) is None,
        },
{
    if r < heap.objects.len() {
        match &heap.objects[r] {
            HeapObject::Instance(o) => Some(o.class_name.clone()),
            _ => None,
        }
    } else {
        None
    }
}

impl Vm {
    /// The machine is well formed: superclasses come before their subclasses, and every
    /// invocation belongs to a loaded class.
    pub open spec fn wf(&self) -> bool {
        &&& table_wf(self.classes@)
        &&& forall|i: int| 0 <= i < self.frames@.len() ==> (#[trigger] self.frames@[i]).class < self.classes@.len()
    }

    /// A machine with no classes, an empty heap and no invocations.
    pub fn new(options: BootOptions) -> (r: Self)
        ensures
            r.wf(),
            r.classes@.len() == 0,
            r.frames@.len() == 0,
            r.heap@.len() == 0,
            r.options == options,
            r.strings.entries@.len() == 0,
            r.main_thread is None,
            r.mirrors@.len() == 0,
    {
        Vm {
            classes: Vec::new(),
            heap: Heap::new(),
            frames: Vec::new(),
            options,
            strings: Interner::new(),
            main_thread: None,
            mirrors: Vec::new(),
        }
    }

    /// Adds a class file, after its superclass (`add_class`).
    pub fn load(&mut self, file: ClassFile) -> (r: Result<usize, LoadError>)
        requires
            old(self).wf(),
        ensures
            final(self).wf(),
            final(self).frames@ == old(self).frames@,
            final(self).classes@.len() >= old(self).classes@.len(),
            final(self).heap@ == old(self).heap@,
            r matches Ok(i) ==> i < final(self).classes@.len(),
            class_added(old(self).classes@, final(self).classes@, file, r),
    {
        add_class(&mut self.classes, file)
    }

    /// The code and exception table of method `m` of class `c`, when it has a `Code`
    /// attribute that decodes.
    fn code_of(&self, c: usize, m: usize) -> (r: Result<CodeAttribute, ExecError>)
        requires
            c < self.classes@.len(),
        ensures
            r is Ok ==> m < self.classes@[c as int].file.methods@.len(),
            match code_attribute(self.classes@, c as int, m as int) {
                Some(j) => r matches Ok(code) && CodeAttribute::decodes_to(
                    self.classes@[c as int].file.methods@[m as int].attributes[j].data,
                    code,
                ),
                None => r == Err::<CodeAttribute, ExecError>(
                    if m < self.classes@[c as int].file.methods@.len() {
                        ExecError::NoCode
                    } else {
                        ExecError::NoSuchMethod
                    },
                ),
            },
    {
        let file = &self.classes[c].file;
        if m >= file.methods.values.len() {
            return Err(ExecError::NoSuchMethod);
        }
        let method = &file.methods.values[m];
        match method.attributes.check_names(&file.constant_pool) {
            Check::Pass => {},
            _ => return Err(ExecError::NoCode),
        }
        match method.attributes.known_attribute::<CodeAttribute>(&file.constant_pool) {
            Ok(code) => Ok(code),
            Err(_) => Err(ExecError::NoCode),
        }
    }

    /// Pushes an invocation of method `m` of class `c` with the given local variables.
    fn push_frame(&mut self, c: usize, m: usize, locals: Vec<RuntimeValue>) -> (r: Result<(), ExecError>)
        requires
            old(self).wf(),
            c < old(self).classes@.len(),
        ensures
            final(self).wf(),
            final(self).classes@ == old(self).classes@,
            final(self).heap@ == old(self).heap@,
            r is Ok ==> resumed(
                final(self).frames@,
                old(self).frames@,
                final(self).frames@.last(),
                FrameState { pc: 0, operands: Seq::empty(), locals: locals@ },
                0,
            ) && final(self).frames@.last().class == c && final(self).frames@.last().args@ == locals@,
            r is Err ==> final(self).frames@ == old(self).frames@,
            r is Ok <==> code_attribute(old(self).classes@, c as int, m as int) is Some,
            r matches Err(e) ==> e == if m < old(self).classes@[c as int].file.methods@.len() {
                ExecError::NoCode
            } else {
                ExecError::NoSuchMethod
            },
    {
        let code = self.code_of(c, m)?;
        let file = &self.classes[c].file;
        let method_name = match crate::resolve::text(&file.constant_pool, file.methods.values[m].name.index()) {
            Some(n) => n,
            None => String::new(),
        };
        let args = copy_values(&locals);
        let a = Activation {
            class: c,
            method_name,
            code: code.code,
            handlers: code.exception_table,
            ctx: Context { pc: 0, operands: Vec::new(), locals },
            resume_pc: 0,
            args,
        };
        let ghost below = self.frames@;
        self.frames.push(a);
        assert(self.frames@.subrange(0, below.len() as int) =~= below);
        Ok(())
    }

    /// Starts the method of class `c` with the name and descriptor, with the arguments
    /// as its local variables.
    pub fn start(&mut self, c: usize, name: &String, descriptor: &String, args: Vec<RuntimeValue>) -> (r: Result<(), ExecError>)
        requires
            old(self).wf(),
        ensures
            final(self).wf(),
            final(self).classes@ == old(self).classes@,
            final(self).heap@ == old(self).heap@,
            c >= old(self).classes@.len() ==> r == Err::<(), ExecError>(ExecError::BadClass),
            c < old(self).classes@.len() && resolve_method(old(self).classes@, c as int, name@, descriptor@) is None ==> r
                == Err::<(), ExecError>(ExecError::NoSuchMethod),
            r is Ok ==> (resolve_method(old(self).classes@, c as int, name@, descriptor@) matches Some((k, m)) && resumed(
                final(self).frames@,
                old(self).frames@,
                final(self).frames@.last(),
                FrameState { pc: 0, operands: Seq::empty(), locals: args@ },
                0,
            ) && final(self).frames@.last().class == k),
            r is Err ==> final(self).frames@ == old(self).frames@,
            c < old(self).classes@.len() ==> match resolve_method(old(self).classes@, c as int, name@, descriptor@) {
                Some((k, m)) => match code_attribute(old(self).classes@, k, m) {
                    Some(_) => r is Ok,
                    None => r == Err::<(), ExecError>(ExecError::NoCode),
                },
                None => true,
            },
    {
        if c >= self.classes.len() {
            return Err(ExecError::BadClass);
        }
        match resolve_class_method(&self.classes, c, name, descriptor) {
            Some((k, m)) => {
                proof {
                    crate::classes::lemma_resolve_bounds(self.classes@, c as int, name@, descriptor@);
                }
                self.push_frame(k, m, args)
            },
            None => Err(ExecError::NoSuchMethod),
        }
    }

    /// Pushes values a host computed for a request onto the current invocation's operand
    /// stack, and moves it past the instruction that made the request.
    pub fn complete(&mut self, values: Vec<RuntimeValue>)
        requires
            old(self).wf(),
        ensures
            final(self).wf(),
            final(self).classes@ == old(self).classes@,
            final(self).heap@ == old(self).heap@,
            old(self).frames@.len() == 0 ==> final(self).frames@ == old(self).frames@,
            old(self).frames@.len() > 0 ==> resumed(
                final(self).frames@,
                old(self).frames@.drop_last(),
                old(self).frames@.last(),
                FrameState {
                    pc: old(self).frames@.last().resume_pc,
                    operands: old(self).frames@.last().ctx.operands@ + values@,
                    locals: old(self).frames@.last().ctx.locals@,
                },
                old(self).frames@.last().resume_pc as int,
            ),
    {
        let ghost below = self.frames@.drop_last();
        match self.frames.pop() {
            Some(mut a) => {
                let ghost orig = a;
                assert(orig == old(self).frames@.last());
                let ghost class = a.class;
                let ghost start = a.ctx.operands@;
                let mut k: usize = 0;
                while k < values.len()
                    invariant
                        k <= values@.len(),
                        a.class == class,
                        class < self.classes@.len(),
                        a.ctx.operands@ == start + values@.take(k as int),
                        a.class == orig.class,
                        a.code == orig.code,
                        a.ctx.locals == orig.ctx.locals,
                        a.resume_pc == orig.resume_pc,
                    decreases values@.len() - k,
                {
                    a.ctx.operands.push(values[k]);
                    k = k + 1;
                    assert(a.ctx.operands@ =~= start + values@.take(k as int));
                }
                assert(values@.take(values@.len() as int) =~= values@);
                a.ctx.pc = a.resume_pc;
                let ghost top = a;
                self.frames.push(a);
                assert(self.frames@.subrange(0, below.len() as int) =~= below);
                assert(self.frames@.last() == top);
                assert(top.ctx.operands@ == start + values@);
            },
            None => {},
        }
    }
}

/// The outcome of one instruction for the invocation that ran it.
enum Flow {
    Continue,
    Done(Option<Outcome>),
}

/// The class initialised first when class `k` is initialised: none when `k` is
/// initialised already; otherwise its superclass is initialised first, and `k` itself
/// when the superclass needs nothing.
pub open spec fn uninitialised_top(classes: Seq<LoadedClass>, k: int) -> Option<int>
    decreases k,
{
    if k < 0 || k >= classes.len() || classes[k].initialised {
        None
    } else {
        let above = match classes[k].super_class {
            Some(s) => if s < k {
                uninitialised_top(classes, s as int)
            } else {
                None
            },
            None => None,
        };
        match above {
            Some(u) => Some(u),
            None => Some(k),
        }
    }
}

/// The class initialiser (`<clinit>` with descriptor `()V`) of class `u`, by its
/// index among the class's methods.
pub open spec fn clinit_of(classes: Seq<LoadedClass>, u: int) -> Option<int> {
    method_index_from(classes[u].file.constant_pool@, classes[u].file.methods@, "<clinit>"@, "()V"@, 0)
}

/// The number of classes not initialised yet.
pub open spec fn uninitialised_count(classes: Seq<LoadedClass>) -> nat
    decreases classes.len(),
{
    if classes.len() == 0 {
        0
    } else {
        uninitialised_count(classes.drop_last()) + if classes.last().initialised {
            0nat
        } else {
            1nat
        }
    }
}

/// Marking one uninitialised class initialised, and changing no other flag, lowers the
/// count.
pub proof fn lemma_marking_lowers_count(a: Seq<LoadedClass>, b: Seq<LoadedClass>, u: int)
    requires
        a.len() == b.len(),
        0 <= u < a.len(),
        !a[u].initialised,
        b[u].initialised,
        forall|i: int| #![trigger b[i]] 0 <= i < a.len() && i != u ==> b[i].initialised == a[i].initialised,
    ensures
        uninitialised_count(b) < uninitialised_count(a),
    decreases a.len(),
{
    if u == a.len() - 1 {
        lemma_same_flags_count(a.drop_last(), b.drop_last());
    } else {
        assert(b.last() == b[b.len() - 1]);
        assert(b[a.len() - 1].initialised == a[a.len() - 1].initialised);
        assert forall|i: int| #![trigger b.drop_last()[i]] 0 <= i < a.len() - 1 && i != u implies b.drop_last()[i].initialised
            == a.drop_last()[i].initialised by {
            assert(b[i].initialised == a[i].initialised);
        }
        lemma_marking_lowers_count(a.drop_last(), b.drop_last(), u);
    }
}

/// Classes with the same flags have the same count.
pub proof fn lemma_same_flags_count(a: Seq<LoadedClass>, b: Seq<LoadedClass>)
    requires
        a.len() == b.len(),
        forall|i: int| #![trigger b[i]] 0 <= i < a.len() ==> b[i].initialised == a[i].initialised,
    ensures
        uninitialised_count(b) == uninitialised_count(a),
    decreases a.len(),
{
    if a.len() > 0 {
        assert(b[a.len() - 1].initialised == a[a.len() - 1].initialised);
        assert forall|i: int| #![trigger b.drop_last()[i]] 0 <= i < a.len() - 1 implies b.drop_last()[i].initialised
            == a.drop_last()[i].initialised by {
            assert(b[i].initialised == a[i].initialised);
        }
        lemma_same_flags_count(a.drop_last(), b.drop_last());
    }
}

/// The class initialised first is one of the table and not initialised.
pub proof fn lemma_uninitialised_top_found(classes: Seq<LoadedClass>, k: int)
    ensures
        uninitialised_top(classes, k) matches Some(u) ==> 0 <= u < classes.len() && !classes[u].initialised,
    decreases k,
{
    if 0 <= k < classes.len() && !classes[k].initialised {
        match classes[k].super_class {
            Some(s) => if s < k {
                lemma_uninitialised_top_found(classes, s as int);
            },
            None => {},
        }
    }
}

/// The classes `after` are `before` with at most the values of their static fields
/// changed.
pub open spec fn classes_kept(before: Seq<LoadedClass>, after: Seq<LoadedClass>) -> bool {
    &&& after.len() == before.len()
    &&& forall|i: int|
        #![trigger after[i]]
        0 <= i < before.len() ==> {
            &&& after[i].name == before[i].name
            &&& after[i].super_class == before[i].super_class
            &&& after[i].file == before[i].file
            &&& after[i].initialised == before[i].initialised
            &&& after[i].statics@.len() == before[i].statics@.len()
        }
}

/// The instance fields of class `k` and its superclasses, own fields first, each at the
/// default value of its type; `None` when the type of one cannot be read.
pub open spec fn instance_fields_of(classes: Seq<LoadedClass>, k: int) -> Option<Seq<FieldSlotValue>>
    decreases k,
{
    if k < 0 || k >= classes.len() {
        None
    } else {
        match slots_from(classes[k].file.constant_pool@, classes[k].file.fields@, false, 0) {
            None => None,
            Some(own) => match classes[k].super_class {
                Some(s) => if s < k {
                    match instance_fields_of(classes, s as int) {
                        Some(up) => Some(own + up),
                        None => None,
                    }
                } else {
                    Some(own)
                },
                None => Some(own),
            },
        }
    }
}

/// The attribute that holds the code of method `m` of class `c`: the last one named
/// `Code`, when every attribute name of the method reads as UTF-8 text and that one
/// decodes.
pub open spec fn code_attribute(classes: Seq<LoadedClass>, c: int, m: int) -> Option<int> {
    let file = classes[c].file;
    if 0 <= m < file.methods@.len() && check_names_from(file.constant_pool@, file.methods@[m].attributes, 0) == Check::Pass {
        match last_named(file.constant_pool@, file.methods@[m].attributes, CodeAttribute::spec_id(), file.methods@[m].attributes.len() as int) {
            Some(j) => if CodeAttribute::decodable(file.methods@[m].attributes[j].data) {
                Some(j)
            } else {
                None
            },
            None => None,
        }
    } else {
        None
    }
}

/// A call of a method of class `c` with local variables `locals`, made on the call
/// stack `below` with room for `max` more invocations, left `after` and the outcome
/// `r`: past the limit the invocation on top of `below`, which made the call, raises a
/// `StackOverflowError` (`raised`); otherwise the method
/// starts at its first instruction with no operands, or, when it has no code
/// (`code_attribute`), the run ends with a fault.
pub open spec fn calls(
    classes: Seq<LoadedClass>,
    heap: Seq<ObjectValue>,
    c: usize,
    m: usize,
    locals: Seq<RuntimeValue>,
    max: u64,
    below: Seq<Activation>,
    after: Seq<Activation>,
    r: Option<Outcome>,
) -> bool {
    if below.len() > max {
        below.len() > 0 && raised(
            classes,
            heap,
            below.drop_last(),
            below.last(),
            below.last().ctx@,
            ThrowableValue::Error(VMErrorValue::StackOverflowError),
            after,
            r,
        )
    } else if code_attribute(classes, c as int, m as int) is Some {
        r is None && resumed(after, below, after.last(), FrameState { pc: 0, operands: Seq::empty(), locals }, 0)
            && after.last().class == c && after.last().args@ == locals
    } else {
        (r matches Some(Outcome::Fault(e, _)) && (e == ExecError::NoSuchMethod || e == ExecError::NoCode)) && after == below
    }
}

/// The class named `name` is not loaded: invocation `a` goes back on the call stack
/// `below`, unchanged, to run the instruction again once the host has loaded it, and
/// the outcome `r` asks for that.
pub open spec fn loads_first(name: Option<Seq<char>>, classes: Seq<LoadedClass>, a: Activation, below: Seq<Activation>, after: Seq<Activation>, r: Option<Outcome>) -> bool {
    match name {
        Some(n) => class_index(classes, n) is None ==> (r matches Some(Outcome::Request(Request::LoadClass(m))) && m@ == n)
            && after == below.push(a),
        None => true,
    }
}

/// The class named `name` is loaded but not initialised: the class initialised first
/// (`uninitialised_top`) is marked initialised, and, within the limit `max` of the
/// call stack, invocation `a` goes back on the call stack `below`, at the same
/// instruction, under that class's initialiser, if it has one.
pub open spec fn initialises_first(
    name: Option<Seq<char>>,
    classes: Seq<LoadedClass>,
    classes_after: Seq<LoadedClass>,
    max: u64,
    a: Activation,
    below: Seq<Activation>,
    after: Seq<Activation>,
) -> bool {
    match name {
        Some(n) => match class_index(classes, n) {
            Some(c) => match uninitialised_top(classes, c) {
                Some(u) => {
                    &&& classes_after[u].initialised
                    &&& below.len() + 1 <= max ==> after.len() > below.len()
                        && after.subrange(0, below.len() as int) == below && after[below.len() as int].class == a.class
                        && after[below.len() as int].code == a.code && after[below.len() as int].ctx == a.ctx
                },
                None => true,
            },
            None => true,
        },
        None => true,
    }
}

/// `new` of the class named by entry `index`, once that class is loaded and
/// initialised: a new instance of it, with every field at its default value
/// (`instance_fields_of`), is added to the heap and its reference pushed. `None` while
/// the class still has to be loaded or initialised.
pub open spec fn new_effect(classes: Seq<LoadedClass>, heap: Seq<ObjectValue>, pool: Seq<EntryValue>, index: u16, f: FrameState) -> Option<HeapEffect> {
    match class_name_at(pool, index) {
        None => Some(Err(ExecError::BadConstant(index))),
        Some(n) => match class_index(classes, n) {
            None => None,
            Some(c) => if uninitialised_top(classes, c) is Some {
                None
            } else {
                match instance_fields_of(classes, c) {
                    None => Some(Err(ExecError::BadClass)),
                    Some(fields) => Some(Ok((
                        with_operands(f, f.operands.push(RuntimeValue::Object(Some(heap.len() as usize)))),
                        heap.push(ObjectValue::Instance { class_name: classes[c].name@, fields }),
                        ProgressionValue::Next,
                    ))),
                }
            },
        },
    }
}

/// A call made on top of invocation `a`, within the limit of the call stack, keeps `a`
/// where it was pushed.
proof fn lemma_call_keeps(
    classes: Seq<LoadedClass>,
    heap: Seq<ObjectValue>,
    c: usize,
    m: usize,
    locals: Seq<RuntimeValue>,
    max: u64,
    below: Seq<Activation>,
    a: Activation,
    after: Seq<Activation>,
    r: Option<Outcome>,
)
    requires
        calls(classes, heap, c, m, locals, max, below.push(a), after, r),
        below.len() + 1 <= max,
    ensures
        after.len() > below.len(),
        after.subrange(0, below.len() as int) == below,
        after[below.len() as int] == a,
        after.subrange(0, below.len() + 1int) == below.push(a),
{
    let pushed = below.push(a);
    assert(after.subrange(0, pushed.len() as int) == pushed) by {
        if after == pushed {
            assert(after.subrange(0, pushed.len() as int) =~= pushed);
        }
    }
    assert(after.subrange(0, below.len() as int) =~= pushed.subrange(0, below.len() as int));
    assert(pushed.subrange(0, below.len() as int) =~= below);
    assert(after[below.len() as int] == after.subrange(0, pushed.len() as int)[below.len() as int]);
}

/// `getstatic` (`put` unset) and `putstatic` of the field named by entry `index`, once
/// the field's class is loaded and initialised: the field is found from that class up
/// (`resolve_static`); `getstatic` pushes its value, `putstatic` pops the value it
/// stores (`static_store`). `None` while the class still has to be loaded or
/// initialised.
pub open spec fn static_effect(
    classes: Seq<LoadedClass>,
    pool: Seq<EntryValue>,
    index: u16,
    put: bool,
    f: FrameState,
) -> Option<Result<(FrameState, ProgressionValue), ExecError>> {
    match member_at(pool, index, MemberKind::Field) {
        None => Some(Err(ExecError::BadConstant(index))),
        Some(m) => match class_index(classes, m.class_name) {
            None => None,
            Some(c) => if uninitialised_top(classes, c) is Some {
                None
            } else {
                match resolve_static(classes, c, m.name, m.descriptor) {
                    None => Some(Err(ExecError::NoSuchField)),
                    Some((k, i)) => if put {
                        if f.operands.len() < 1 {
                            Some(Err(ExecError::StackUnderflow))
                        } else {
                            Some(Ok((with_operands(f, f.operands.drop_last()), ProgressionValue::Next)))
                        }
                    } else {
                        Some(Ok((with_operands(f, f.operands.push(classes[k].statics@[i].value)), ProgressionValue::Next)))
                    },
                }
            },
        },
    }
}

/// The static field `putstatic` of entry `index` stores into, as (class, slot), and the
/// value it stores, when `static_effect` says it succeeds.
pub open spec fn static_store(classes: Seq<LoadedClass>, pool: Seq<EntryValue>, index: u16, f: FrameState) -> Option<(int, int, RuntimeValue)> {
    match static_effect(classes, pool, index, true, f) {
        Some(Ok(_)) => match member_at(pool, index, MemberKind::Field) {
            Some(m) => match class_index(classes, m.class_name) {
                Some(c) => match resolve_static(classes, c, m.name, m.descriptor) {
                    Some((k, i)) => Some((k, i, f.operands.last())),
                    None => None,
                },
                None => None,
            },
            None => None,
        },
        _ => None,
    }
}

/// The classes `after` are `before` with slot `j` of the static fields of class `k`
/// set to `v`.
pub open spec fn static_written(before: Seq<LoadedClass>, after: Seq<LoadedClass>, k: int, j: int, v: RuntimeValue) -> bool {
    &&& classes_kept(before, after)
    &&& after[k].statics@[j].value == v
    &&& after[k].statics@[j].name == before[k].statics@[j].name
    &&& after[k].statics@[j].descriptor == before[k].statics@[j].descriptor
    &&& forall|x: int, y: int|
        #![trigger after[x].statics@[y]]
        0 <= x < before.len() && 0 <= y < before[x].statics@.len() && (x != k || y != j) ==> after[x].statics@[y]
            == before[x].statics@[y]
}

/// The class named by the method reference at entry `index`.
pub open spec fn method_class(pool: Seq<EntryValue>, index: u16) -> Option<Seq<char>> {
    match member_at(pool, index, MemberKind::Method) {
        Some(m) => Some(m.class_name),
        None => None,
    }
}

/// Whether method `mi` of class `k` has the access flag `bit` (`0x0002` private,
/// `0x0100` native).
pub open spec fn method_has(classes: Seq<LoadedClass>, k: int, mi: int, bit: u16) -> bool {
    classes[k].file.methods@[mi].flags.flags & bit != 0
}

/// The method reference at entry `index` names an instance or class initialiser.
pub open spec fn names_initialiser(pool: Seq<EntryValue>, index: u16) -> bool {
    member_at(pool, index, MemberKind::Method) matches Some(m) && (m.name == "<init>"@ || m.name == "<clinit>"@)
}

/// What an invoke instruction does, once the class named by its method reference is
/// loaded (and, for a static call, initialised).
pub enum InvokePlan {
    /// The instruction faults.
    Fault(ExecError),
    /// The instruction raises this exception, with the operands as they were.
    Throw(ThrowableValue),
    /// Method `method` of class `class` runs with the local variables `locals`; the
    /// caller keeps the operands `kept`.
    Call { class: int, method: int, locals: Seq<RuntimeValue>, kept: Seq<RuntimeValue> },
}

/// The plan (`InvokePlan`) of an invoke instruction of kind `kind` for the method
/// reference at entry `index`, `len` bytes long, run on frame `f`: the method is
/// resolved from the named class up (`resolve_method`); the arguments are popped
/// (`widened`); an instance call also pops its receiver, which must not be `null`, and a
/// virtual or interface call of a method that is not private selects the method again
/// from the receiver's class when that class is loaded and has one. An `invokestatic`
/// of an initialiser is refused before its class is loaded. `None` while the class
/// still has to be loaded or initialised.
pub open spec fn invoke_plan(
    classes: Seq<LoadedClass>,
    heap: Seq<ObjectValue>,
    pool: Seq<EntryValue>,
    index: u16,
    kind: InvokeKind,
    f: FrameState,
    len: int,
) -> Option<InvokePlan> {
    match member_at(pool, index, MemberKind::Method) {
        None => Some(InvokePlan::Fault(ExecError::BadConstant(index))),
        Some(m) => if kind == InvokeKind::Static && names_initialiser(pool, index) {
            Some(InvokePlan::Fault(ExecError::InitialiserCall))
        } else {
            resolved_plan(classes, heap, m, kind, f, len)
        },
    }
}

/// The plan of an invoke instruction for the member `m`, once it is read: see
/// `invoke_plan`.
pub open spec fn resolved_plan(
    classes: Seq<LoadedClass>,
    heap: Seq<ObjectValue>,
    m: MemberRefValue,
    kind: InvokeKind,
    f: FrameState,
    len: int,
) -> Option<InvokePlan> {
    match class_index(classes, m.class_name) {
        None => None,
        Some(c) => if kind == InvokeKind::Static && uninitialised_top(classes, c) is Some {
            None
        } else {
            match resolve_method(classes, c, m.name, m.descriptor) {
                None => Some(InvokePlan::Fault(ExecError::NoSuchMethod)),
                Some((k, mi)) => match parameter_count_of(m.descriptor) {
                    None => Some(InvokePlan::Fault(ExecError::BadDescriptor)),
                    Some(count) => {
                        let s = f.operands;
                        let args = s.subrange(s.len() - count, s.len() as int);
                        if f.pc + len > i32::MAX {
                            Some(InvokePlan::Fault(ExecError::BadJump))
                        } else if kind == InvokeKind::Static {
                            if s.len() < count {
                                Some(InvokePlan::Fault(ExecError::StackUnderflow))
                            } else {
                                Some(InvokePlan::Call { class: k, method: mi, locals: widened(args), kept: s.subrange(0, s.len() - count) })
                            }
                        } else if count >= s.len() {
                            Some(InvokePlan::Fault(ExecError::StackUnderflow))
                        } else {
                            match s[s.len() - 1 - count] {
                                RuntimeValue::Object(None) => Some(
                                    InvokePlan::Throw(ThrowableValue::Error(VMErrorValue::NullPointerException { ctx: "invoke"@ })),
                                ),
                                RuntimeValue::Object(Some(x)) => {
                                    let again = (kind == InvokeKind::Virtual || kind == InvokeKind::Interface) && !method_has(
                                        classes,
                                        k,
                                        mi,
                                        0x0002,
                                    );
                                    let target = if again {
                                        match thrown_class(classes, heap, x) {
                                            Some(oc) => match resolve_method(classes, oc, m.name, m.descriptor) {
                                                Some(p) => p,
                                                None => (k, mi),
                                            },
                                            None => (k, mi),
                                        }
                                    } else {
                                        (k, mi)
                                    };
                                    Some(InvokePlan::Call {
                                        class: target.0,
                                        method: target.1,
                                        locals: seq![RuntimeValue::Object(Some(x))] + widened(args),
                                        kept: s.subrange(0, s.len() - count - 1),
                                    })
                                },
                                _ => Some(InvokePlan::Fault(ExecError::NotObject)),
                            }
                        }
                    },
                },
            }
        },
    }
}

/// An invoke instruction with plan `p`, `len` bytes long, run in invocation `a` on top of
/// the call stack `below` with room for `max` more invocations, left the call stack
/// `after`, the classes, the heap and the outcome `r`: a fault ends the run; an
/// exception is raised (`raised`); a method that is not native gets a new invocation
/// (`calls`) above the caller, which keeps the operands the plan says and resumes
/// after the instruction, or, past the limit of the call stack, the caller raises a
/// `StackOverflowError`. What a native method does is not part of the plan.
pub open spec fn invoke_step(
    classes: Seq<LoadedClass>,
    heap: Seq<ObjectValue>,
    p: InvokePlan,
    a: Activation,
    len: int,
    max: u64,
    below: Seq<Activation>,
    after: Seq<Activation>,
    classes_after: Seq<LoadedClass>,
    heap_after: Seq<ObjectValue>,
    r: Option<Outcome>,
) -> bool {
    match p {
        InvokePlan::Fault(e) => (r matches Some(Outcome::Fault(e2, _)) && e2 == e) && heap_after == heap && classes_after
            == classes && resumed(after, below, a, a.ctx@, a.ctx.pc as int),
        InvokePlan::Throw(t) => raised(classes, heap, below, a, a.ctx@, t, after, r) && heap_after == heap && classes_after
            == classes,
        InvokePlan::Call { class, method, locals, kept } => !method_has(classes, class, method, 0x0100) ==> if below.len() + 1
            > max {
            &&& heap_after == heap
            &&& classes_after == classes
            &&& raised(
                classes,
                heap,
                below,
                a,
                FrameState { pc: a.ctx.pc, operands: kept, locals: a.ctx.locals@ },
                ThrowableValue::Error(VMErrorValue::StackOverflowError),
                after,
                r,
            )
        } else {
            let w = after[below.len() as int];
            &&& heap_after == heap
            &&& classes_after == classes
            &&& after.len() > below.len()
            &&& after.subrange(0, below.len() as int) == below
            &&& w.class == a.class
            &&& w.code == a.code
            &&& w.handlers == a.handlers
            &&& w.ctx.pc == a.ctx.pc
            &&& w.ctx.locals@ == a.ctx.locals@
            &&& w.ctx.operands@ == kept
            &&& w.resume_pc == a.ctx.pc + len
            &&& calls(classes, heap, class as usize, method as usize, locals, max, after.subrange(0, below.len() + 1int), after, r)
        },
    }
}

/// The first static field named `field` of the class named `class`, as (class, slot).
pub open spec fn static_named(classes: Seq<LoadedClass>, class: Seq<char>, field: Seq<char>) -> Option<(int, int)> {
    match class_index(classes, class) {
        Some(c) => match slot_named_from(classes[c].statics@.map_values(|f: FieldSlot| f@), field, 0) {
            Some(i) => Some((c, i)),
            None => None,
        },
        None => None,
    }
}


/// The classes `after` are `before` with the same names, superclasses and class files,
/// in the same order.
pub open spec fn same_classes(before: Seq<LoadedClass>, after: Seq<LoadedClass>) -> bool {
    &&& after.len() == before.len()
    &&& forall|i: int|
        #![trigger after[i]]
        0 <= i < before.len() ==> after[i].name == before[i].name && after[i].super_class == before[i].super_class
            && after[i].file == before[i].file
}

/// Classes with the same names are found at the same places.
pub proof fn lemma_same_classes_index(before: Seq<LoadedClass>, after: Seq<LoadedClass>, name: Seq<char>, i: int)
    requires
        same_classes(before, after),
    ensures
        class_index_from(after, name, i) == class_index_from(before, name, i),
    decreases before.len() - i,
{
    if 0 <= i < before.len() {
        assert(after[i].name == before[i].name);
        lemma_same_classes_index(before, after, name, i + 1);
    }
}

/// The static field slot, among `slots`, that a constant for `info` goes to: the first
/// with its name and descriptor.
pub open spec fn constant_slot(slots: Seq<FieldSlotValue>, info: StaticInfoValue) -> Option<int> {
    slot_index_from(slots, info.name, info.descriptor, 0)
}

/// No constant after the `i`-th of `infos`, below `n`, goes to the same slot.
pub open spec fn last_for_slot(slots: Seq<FieldSlotValue>, infos: Seq<StaticInfoValue>, i: int, n: int) -> bool {
    forall|k: int| #![trigger infos[k]] i < k < n ==> constant_slot(slots, infos[k]) != constant_slot(slots, infos[i])
}

/// No constant of `infos` below `n` goes to slot `j`.
pub open spec fn slot_untouched(slots: Seq<FieldSlotValue>, infos: Seq<StaticInfoValue>, j: int, n: int) -> bool {
    forall|k: int| #![trigger infos[k]] 0 <= k < n ==> constant_slot(slots, infos[k]) != Some(j)
}

/// The value `v` is what a constant `init` gives: the value itself, or a reference to a
/// string object of `heap` holding the text.
pub open spec fn holds_init(heap: Seq<ObjectValue>, v: RuntimeValue, init: StaticInitValue) -> bool {
    match init {
        StaticInitValue::Value(w) => v == w,
        StaticInitValue::Text(t) => v matches RuntimeValue::Object(Some(x)) && x < heap.len() && heap[x as int]
            == ObjectValue::Str(t),
    }
}

/// Class `u` of `after`, in the heap `heap`, holds the constants `infos` in its static
/// fields (below `n`): each slot that a constant goes to holds the last such constant;
/// every other slot is as in `before`. The slots keep their names and descriptors.
pub open spec fn constants_applied(
    before: Seq<LoadedClass>,
    after: Seq<LoadedClass>,
    heap: Seq<ObjectValue>,
    u: int,
    infos: Seq<StaticInfoValue>,
    n: int,
) -> bool {
    let slots = before[u].statics@.map_values(|f: FieldSlot| f@);
    &&& after[u].statics@.len() == slots.len()
    &&& forall|j: int|
        #![trigger after[u].statics@[j]]
        0 <= j < slots.len() ==> after[u].statics@[j].name == before[u].statics@[j].name
            && after[u].statics@[j].descriptor == before[u].statics@[j].descriptor
    &&& forall|i: int|
        #![trigger infos[i]]
        0 <= i < n && last_for_slot(slots, infos, i, n) && constant_slot(slots, infos[i]) is Some ==> holds_init(
            heap,
            after[u].statics@[constant_slot(slots, infos[i])->0].value,
            infos[i].init,
        )
    &&& forall|j: int|
        #![trigger after[u].statics@[j]]
        0 <= j < slots.len() && slot_untouched(slots, infos, j, n) ==> after[u].statics@[j] == before[u].statics@[j]
    &&& forall|x: int| #![trigger after[x]] 0 <= x < before.len() && x != u ==> after[x].statics == before[x].statics
}

/// What the machine does with a class before an instruction uses it.
enum Ready {
    /// The class is loaded and initialised; its index.
    Class(usize),
    /// The host must load the class of this name first.
    Load(String),
    /// A class was marked initialised and has no initialiser: run the instruction again.
    Retry,
    /// A class was marked initialised: run its initialiser (class, method) first.
    Init(usize, usize),
}

/// The outcome of a fault in invocation `a`: the error, with where it stood.
fn fault_of(a: &Activation, e: ExecError) -> (r: Outcome)
    ensures
        r matches Outcome::Fault(e2, s) && e2 == e && s.pc == a.ctx.pc,
{
    Outcome::Fault(e, ThrownState { pc: a.ctx.pc, locals: a.ctx.locals.clone() })
}

/// The address after an instruction of `len` bytes at `pc`, when it fits.
fn next_pc(pc: i32, len: usize) -> (r: Option<i32>)
    ensures
        r matches Some(n) ==> n == pc + len,
        r is None ==> pc + len > i32::MAX,
{
    let n: i128 = pc as i128 + len as i128;
    if n > i32::MAX as i128 {
        None
    } else {
        Some(n as i32)
    }
}

impl Vm {
    /// Ends the run with a fault in invocation `a`, which goes back on the call stack.
    fn fault(&mut self, a: Activation, e: ExecError) -> (r: Option<Outcome>)
        requires
            old(self).wf(),
            a.class < old(self).classes@.len(),
        ensures
            final(self).wf(),
            final(self).classes@ == old(self).classes@,
            final(self).heap@ == old(self).heap@,
            final(self).frames@ == old(self).frames@.push(a),
            resumed(final(self).frames@, old(self).frames@, a, a.ctx@, a.ctx.pc as int),
            r matches Some(Outcome::Fault(e2, s)) && e2 == e && s.pc == a.ctx.pc,
    {
        let out = fault_of(&a, e);
        let ghost below = self.frames@;
        self.frames.push(a);
        assert(self.frames@.subrange(0, below.len() as int) =~= below);
        Some(out)
    }

    /// Ends the current invocation with a value: when it was the outermost the run
    /// ends; else the caller resumes after its call, with the value pushed.
    fn finish(&mut self, v: Option<RuntimeValue>) -> (r: Option<Outcome>)
        requires
            old(self).wf(),
        ensures
            final(self).wf(),
            final(self).classes@ == old(self).classes@,
            final(self).heap@ == old(self).heap@,
            returned_to(old(self).frames@, final(self).frames@, v, r),
    {
        match self.frames.pop() {
            None => Some(Outcome::Returned(v)),
            Some(mut caller) => {
                match v {
                    Some(x) => caller.ctx.operands.push(x),
                    None => {},
                }
                caller.ctx.pc = caller.resume_pc;
                self.frames.push(caller);
                assert(self.frames@.drop_last() =~= old(self).frames@.drop_last());
                None
            },
        }
    }

    /// Raises an exception in invocation `a`, which is off the stack. It is caught by
    /// the first handler, from `a` down the call stack, that covers the instruction and
    /// catches the exception's loaded class (`caught_by`): the class of the object
    /// thrown, or for an exception of the machine itself the class it is named after.
    /// That invocation resumes at the handler with the local variables it started with
    /// and the object thrown (`null` for an exception of the machine) as its only
    /// operand. An exception that no handler catches ends the run.
    fn unwind(&mut self, a: Activation, t: Throwable) -> (r: Option<Outcome>)
        requires
            old(self).wf(),
            a.class < old(self).classes@.len(),
        ensures
            final(self).wf(),
            final(self).classes@ == old(self).classes@,
            final(self).heap@ == old(self).heap@,
            raised(old(self).classes@, old(self).heap@, old(self).frames@, a, a.ctx@, t@, final(self).frames@, r),
    {
        let (thrown, operand) = match &t {
            Throwable::Error(e) => {
                let n = String::from_str(e.class_name());
                proof {
                    assert(e.spec_class_name() == error_class(e@));
                }
                (find_class(&self.classes, &n), RuntimeValue::Object(None))
            },
            Throwable::Object(x) => {
                let found = match class_of(&self.heap, *x) {
                    Some(n) => find_class(&self.classes, &n),
                    None => None,
                };
                (found, RuntimeValue::Object(Some(*x)))
            },
        };
        let ghost tc: Option<int> = match thrown {
            Some(c) => Some(c as int),
            None => None,
        };
        assert(tc == thrown_of(self.classes@, self.heap@, t@));
        assert(operand == handler_operand(t@));
        let ghost goal = catcher(old(self).classes@, tc, old(self).frames@, a.class, a.handlers@, a.ctx.pc);
        let mut current = a;
        loop
            invariant
                self.wf(),
                self.classes@ == old(self).classes@,
                self.heap@ == old(self).heap@,
                current.class < self.classes@.len(),
                tc == thrown_of(self.classes@, self.heap@, t@),
                operand == handler_operand(t@),
                thrown matches Some(c) ==> tc == Some(c as int),
                thrown is None ==> tc is None,
                goal == catcher(old(self).classes@, tc, old(self).frames@, a.class, a.handlers@, a.ctx.pc),
                self.frames@.len() <= old(self).frames@.len(),
                self.frames@ == old(self).frames@.subrange(0, self.frames@.len() as int),
                self.frames@.len() == old(self).frames@.len() ==> current == a,
                self.frames@.len() < old(self).frames@.len() ==> current == old(self).frames@[self.frames@.len() as int],
                catcher(self.classes@, tc, self.frames@, current.class, current.handlers@, current.ctx.pc) == goal,
            decreases self.frames@.len(),
        {
            match thrown {
                Some(c) => {
                    let pc = current.ctx.pc;
                    let handler = caught_by(
                        &self.classes,
                        &self.classes[current.class].file.constant_pool,
                        &current.handlers,
                        pc,
                        c,
                    );
                    match handler {
                        Some(h) => {
                            let ghost k = self.frames@.len() as int;
                            let ghost before = current;
                            current.ctx.pc = h as i32;
                            current.ctx.operands = Vec::new();
                            current.ctx.operands.push(operand);
                            current.ctx.locals = copy_values(&current.args);
                            self.frames.push(current);
                            assert(self.frames@.subrange(0, k) =~= old(self).frames@.subrange(0, k));
                            assert(current.ctx.operands@ =~= seq![operand]);
                            return None;
                        },
                        None => {},
                    }
                },
                None => {},
            }
            match self.frames.pop() {
                Some(next) => {
                    current = next;
                    assert(self.frames@ =~= old(self).frames@.subrange(0, self.frames@.len() as int));
                },
                None => {
                    let state = ThrownState { pc: current.ctx.pc, locals: current.ctx.locals };
                    return Some(Outcome::Uncaught(t, state));
                },
            }
        }
    }

    /// Pushes an invocation of method `m` of class `c`, unless the call stack is full.
    fn call(&mut self, c: usize, m: usize, locals: Vec<RuntimeValue>) -> (r: Option<Outcome>)
        requires
            old(self).wf(),
            c < old(self).classes@.len(),
        ensures
            final(self).wf(),
            final(self).classes@ == old(self).classes@,
            final(self).heap@ == old(self).heap@,
            calls(old(self).classes@, old(self).heap@, c, m, locals@, old(self).options.max_stack, old(self).frames@, final(self).frames@, r),
    {
        if self.frames.len() as u64 > self.options.max_stack {
            let caller = self.frames.pop().unwrap();
            return self.unwind(caller, Throwable::Error(VMError::StackOverflowError {}));
        }
        match self.push_frame(c, m, locals) {
            Ok(()) => None,
            Err(e) => Some(Outcome::Fault(e, ThrownState { pc: 0, locals: Vec::new() })),
        }
    }

    /// Makes sure the class named `name` is loaded and initialised. A class is
    /// initialised from the top of its superclass chain down: the first uninitialised
    /// one found from the top is marked and its `<clinit>` runs first.
    fn ready(&mut self, name: &String) -> (r: Ready)
        requires
            old(self).wf(),
        ensures
            final(self).wf(),
            final(self).classes@.len() == old(self).classes@.len(),
            final(self).frames@ == old(self).frames@,
            final(self).options == old(self).options,
            r matches Ready::Class(c) ==> c < final(self).classes@.len(),
            r matches Ready::Init(c, m) ==> c < final(self).classes@.len(),
            same_classes(old(self).classes@, final(self).classes@),
            match class_index(old(self).classes@, name@) {
                None => (r matches Ready::Load(n) && n@ == name@) && *final(self) == *old(self),
                Some(c) => match uninitialised_top(old(self).classes@, c) {
                    None => (r matches Ready::Class(k) && k == c) && *final(self) == *old(self),
                    Some(u) => {
                        &&& match clinit_of(old(self).classes@, u) {
                            Some(m) => r matches Ready::Init(v, k) && v == u && k == m,
                            None => r is Retry,
                        }
                        &&& final(self).classes@[u].initialised
                        &&& forall|i: int|
                            #![trigger final(self).classes@[i]]
                            0 <= i < old(self).classes@.len() && i != u ==> final(self).classes@[i].initialised
                                == old(self).classes@[i].initialised
                    },
                },
            },
    {
        let c = match find_class(&self.classes, name) {
            Some(c) => c,
            None => return Ready::Load(name.clone()),
        };
        proof {
            crate::classes::lemma_class_index_bounds(self.classes@, name@, 0);
        }
        let ghost goal = uninitialised_top(self.classes@, c as int);
        let mut k = c;
        let mut pending: Option<usize> = None;
        loop
            invariant
                k < self.classes@.len(),
                pending matches Some(u) ==> u < self.classes@.len(),
                table_wf(self.classes@),
                *self == *old(self),
                goal == match uninitialised_top(self.classes@, k as int) {
                    Some(u) => Some(u),
                    None => if self.classes@[k as int].initialised {
                        match pending {
                            Some(u) => Some(u as int),
                            None => None,
                        }
                    } else {
                        Some(k as int)
                    },
                },
            ensures
                pending matches Some(u) ==> u < self.classes@.len(),
                *self == *old(self),
                goal == match pending {
                    Some(u) => Some(u as int),
                    None => None,
                },
            decreases k,
        {
            if self.classes[k].initialised {
                break;
            }
            pending = Some(k);
            match self.classes[k].super_class {
                Some(s) => {
                    if s < k {
                        k = s;
                    } else {
                        break;
                    }
                },
                None => break,
            }
        }
        match pending {
            None => Ready::Class(c),
            Some(u) => {
                let ghost before = self.classes@;
                self.classes[u].initialised = true;
                assert(table_wf(self.classes@)) by {
                    assert forall|i: int| 0 <= i < self.classes@.len() implies ((#[trigger] self.classes@[i]).super_class matches Some(s) ==> s < i) by {
                        assert(self.classes@[i].super_class == before[i].super_class);
                    }
                }
                let ghost marked = self.classes@;
                self.apply_constants(u);
                assert(classes_kept(marked, self.classes@));
                let clinit_name = String::from_str("<clinit>");
                let clinit_descriptor = String::from_str("()V");
                match find_method(&self.classes[u].file, &clinit_name, &clinit_descriptor) {
                    Some(m) => Ready::Init(u, m),
                    None => Ready::Retry,
                }
            },
        }
    }
}

/// How a method is invoked.
#[derive(Debug, Clone, Copy, PartialEq, Eq, Structural)]
pub enum InvokeKind {
    Static,
    Special,
    Virtual,
    Interface,
}

impl Vm {
    /// Moves invocation `a` on by progression `p` of an instruction of `len` bytes: to
    /// the next instruction, by or to a jump target, out of the method, or into an
    /// exception.
    fn progress(&mut self, a: Activation, p: Progression, len: usize) -> (r: Option<Outcome>)
        requires
            old(self).wf(),
            a.class < old(self).classes@.len(),
        ensures
            final(self).wf(),
            final(self).classes@ == old(self).classes@,
            match p {
                Progression::Next => a.ctx.pc + len <= i32::MAX ==> r is None && resumed(
                    final(self).frames@,
                    old(self).frames@,
                    a,
                    a.ctx@,
                    a.ctx.pc + len,
                ) && final(self).heap@ == old(self).heap@,
                Progression::JumpRel(o) => i32::MIN <= a.ctx.pc + o <= i32::MAX ==> r is None && resumed(
                    final(self).frames@,
                    old(self).frames@,
                    a,
                    a.ctx@,
                    a.ctx.pc + o,
                ) && final(self).heap@ == old(self).heap@,
                Progression::JumpAbs(t) => r is None && resumed(final(self).frames@, old(self).frames@, a, a.ctx@, t as int)
                    && final(self).heap@ == old(self).heap@,
                Progression::Return(v) => returned_to(old(self).frames@, final(self).frames@, v, r)
                    && final(self).heap@ == old(self).heap@,
                Progression::Throw(t) => raised(old(self).classes@, old(self).heap@, old(self).frames@, a, a.ctx@, t@, final(self).frames@, r)
                    && final(self).heap@ == old(self).heap@,
            },
    {
        let ghost below = self.frames@;
        let mut a = a;
        match p {
            Progression::Next => match next_pc(a.ctx.pc, len) {
                Some(n) => {
                    a.ctx.pc = n;
                    self.frames.push(a);
                    assert(self.frames@.subrange(0, below.len() as int) =~= below);
                    None
                },
                None => self.fault(a, ExecError::BadJump),
            },
            Progression::JumpRel(offset) => {
                let target: i64 = a.ctx.pc as i64 + offset as i64;
                if target < i32::MIN as i64 || target > i32::MAX as i64 {
                    self.fault(a, ExecError::BadJump)
                } else {
                    a.ctx.pc = target as i32;
                    self.frames.push(a);
                    assert(self.frames@.subrange(0, below.len() as int) =~= below);
                    None
                }
            },
            Progression::JumpAbs(target) => {
                a.ctx.pc = target;
                self.frames.push(a);
                assert(self.frames@.subrange(0, below.len() as int) =~= below);
                None
            },
            Progression::Return(v) => self.finish(v),
            Progression::Throw(t) => self.unwind(a, t),
        }
    }

    /// `getstatic` (`put` unset) and `putstatic` (`put` set): the class named by the
    /// field reference is loaded and initialised first; the field is found from that
    /// class up its superclass chain.
    fn static_access(&mut self, a: Activation, index: u16, put: bool, len: usize) -> (r: Option<Outcome>)
        requires
            old(self).wf(),
            a.class < old(self).classes@.len(),
        ensures
            final(self).wf(),
            match static_effect(old(self).classes@, old(self).classes@[a.class as int].file.constant_pool@, index, put, a.ctx@) {
                Some(m) => machine_step(
                    old(self).classes@,
                    lifted(m, old(self).heap@),
                    a,
                    len as int,
                    old(self).frames@,
                    final(self).frames@,
                    old(self).heap@,
                    final(self).heap@,
                    r,
                ),
                None => true,
            },
            match static_store(old(self).classes@, old(self).classes@[a.class as int].file.constant_pool@, index, a.ctx@) {
                Some((k, j, v)) => put ==> static_written(old(self).classes@, final(self).classes@, k, j, v),
                None => static_effect(old(self).classes@, old(self).classes@[a.class as int].file.constant_pool@, index, put, a.ctx@)
                    is Some ==> final(self).classes@ == old(self).classes@,
            },
            !put && static_effect(old(self).classes@, old(self).classes@[a.class as int].file.constant_pool@, index, put, a.ctx@)
                is Some ==> final(self).classes@ == old(self).classes@,
            loads_first(
                field_class(old(self).classes@[a.class as int].file.constant_pool@, index),
                old(self).classes@,
                a,
                old(self).frames@,
                final(self).frames@,
                r,
            ),
            initialises_first(
                field_class(old(self).classes@[a.class as int].file.constant_pool@, index),
                old(self).classes@,
                final(self).classes@,
                old(self).options.max_stack,
                a,
                old(self).frames@,
                final(self).frames@,
            ),
    {
        let mut a = a;
        let m = match member_ref(&self.classes[a.class].file.constant_pool, index, MemberKind::Field) {
            Some(m) => m,
            None => return self.fault(a, ExecError::BadConstant(index)),
        };
        let c = match self.ready(&m.class_name) {
            Ready::Class(c) => c,
            Ready::Load(n) => {
                self.frames.push(a);
                return Some(Outcome::Request(Request::LoadClass(n)));
            },
            Ready::Retry => {
                let ghost below = self.frames@;
                self.frames.push(a);
                assert(self.frames@.subrange(0, below.len() as int) =~= below);
                return None;
            },
            Ready::Init(u, clinit) => {
                let ghost below = self.frames@;
                a.resume_pc = a.ctx.pc;
                self.frames.push(a);
                let ghost max = self.options.max_stack;
                let ghost heap_now = self.heap@;
                let no_args: Vec<RuntimeValue> = Vec::new();
                let ghost args = no_args@;
                let out = self.call(u, clinit, no_args);
                proof {
                    if below.len() + 1 <= max {
                        lemma_call_keeps(self.classes@, heap_now, u, clinit, args, max, below, a, self.frames@, out);
                    }
                }
                return out;
            },
        };
        let (k, i) = match resolve_static_field(&self.classes, c, &m.name, &m.descriptor) {
            Some(found) => found,
            None => return self.fault(a, ExecError::NoSuchField),
        };
        proof {
            crate::classes::lemma_static_bounds(self.classes@, c as int, m.name@, m.descriptor@);
        }
        if put {
            let v = match a.ctx.operands.pop() {
                Some(v) => v,
                None => return self.fault(a, ExecError::StackUnderflow),
            };
            let ghost before = self.classes@;
            self.classes[k].statics[i].value = v;
            assert(table_wf(self.classes@)) by {
                assert forall|j: int| 0 <= j < self.classes@.len() implies ((#[trigger] self.classes@[j]).super_class matches Some(s) ==> s < j) by {
                    assert(self.classes@[j].super_class == before[j].super_class);
                }
            }
        } else {
            let v = self.classes[k].statics[i].value;
            a.ctx.operands.push(v);
        }
        self.progress(a, Progression::Next, len)
    }

    /// The instance fields of class `c` and its superclasses, own fields first, each
    /// with the default value of its type.
    pub(crate) fn instance_slots(&self, c: usize) -> (r: Option<Vec<FieldSlot>>)
        requires
            self.wf(),
            c < self.classes@.len(),
        ensures
            match instance_fields_of(self.classes@, c as int) {
                Some(v) => r matches Some(x) && x@.map_values(|f: FieldSlot| f@) == v,
                None => r is None,
            },
    {
        let mut out: Vec<FieldSlot> = Vec::new();
        let mut k = c;
        loop
            invariant
                k < self.classes@.len(),
                table_wf(self.classes@),
                instance_fields_of(self.classes@, c as int) == match instance_fields_of(self.classes@, k as int) {
                    Some(up) => Some(out@.map_values(|f: FieldSlot| f@) + up),
                    None => None,
                },
            decreases k,
        {
            let own = field_slots(&self.classes[k].file, false)?;
            let ghost before = out@.map_values(|f: FieldSlot| f@);
            let ghost ownv = own@.map_values(|f: FieldSlot| f@);
            let mut j: usize = 0;
            while j < own.len()
                invariant
                    j <= own@.len(),
                    ownv == own@.map_values(|f: FieldSlot| f@),
                    out@.map_values(|f: FieldSlot| f@) == before + ownv.subrange(0, j as int),
                decreases own@.len() - j,
            {
                let f = &own[j];
                let slot = FieldSlot { name: f.name.clone(), descriptor: f.descriptor.clone(), value: f.value };
                assert(slot@ == ownv[j as int]);
                let ghost prev = out@;
                out.push(slot);
                assert(out@.map_values(|f: FieldSlot| f@) =~= prev.map_values(|f: FieldSlot| f@).push(slot@));
                assert(before + ownv.subrange(0, j + 1) =~= (before + ownv.subrange(0, j as int)).push(ownv[j as int]));
                j = j + 1;
            }
            assert(ownv.subrange(0, own@.len() as int) =~= ownv);
            match self.classes[k].super_class {
                Some(s) => {
                    if s < k {
                        proof {
                            match instance_fields_of(self.classes@, s as int) {
                                Some(up) => {
                                    assert(before + (ownv + up) =~= (before + ownv) + up);
                                },
                                None => {},
                            }
                        }
                        k = s;
                    } else {
                        assert(before + ownv =~= before + ownv + Seq::<FieldSlotValue>::empty());
                        return Some(out);
                    }
                },
                None => return Some(out),
            }
        }
    }

    /// `new`: the class named by the constant is loaded and initialised first; a new
    /// instance with every field at its default value is pushed.
    fn new_object(&mut self, a: Activation, index: u16, len: usize) -> (r: Option<Outcome>)
        requires
            old(self).wf(),
            a.class < old(self).classes@.len(),
        ensures
            final(self).wf(),
            match new_effect(old(self).classes@, old(self).heap@, old(self).classes@[a.class as int].file.constant_pool@, index, a.ctx@) {
                Some(m) => machine_step(
                    old(self).classes@,
                    m,
                    a,
                    len as int,
                    old(self).frames@,
                    final(self).frames@,
                    old(self).heap@,
                    final(self).heap@,
                    r,
                ),
                None => true,
            },
            new_effect(old(self).classes@, old(self).heap@, old(self).classes@[a.class as int].file.constant_pool@, index, a.ctx@)
                is Some ==> final(self).classes@ == old(self).classes@,
            loads_first(
                class_name_at(old(self).classes@[a.class as int].file.constant_pool@, index),
                old(self).classes@,
                a,
                old(self).frames@,
                final(self).frames@,
                r,
            ),
            initialises_first(
                class_name_at(old(self).classes@[a.class as int].file.constant_pool@, index),
                old(self).classes@,
                final(self).classes@,
                old(self).options.max_stack,
                a,
                old(self).frames@,
                final(self).frames@,
            ),
    {
        let mut a = a;
        let name = match class_name(&self.classes[a.class].file.constant_pool, index) {
            Some(n) => n,
            None => return self.fault(a, ExecError::BadConstant(index)),
        };
        let c = match self.ready(&name) {
            Ready::Class(c) => c,
            Ready::Load(n) => {
                self.frames.push(a);
                return Some(Outcome::Request(Request::LoadClass(n)));
            },
            Ready::Retry => {
                let ghost below = self.frames@;
                self.frames.push(a);
                assert(self.frames@.subrange(0, below.len() as int) =~= below);
                return None;
            },
            Ready::Init(u, clinit) => {
                let ghost below = self.frames@;
                a.resume_pc = a.ctx.pc;
                self.frames.push(a);
                let ghost max = self.options.max_stack;
                let ghost heap_now = self.heap@;
                let no_args: Vec<RuntimeValue> = Vec::new();
                let ghost args = no_args@;
                let out = self.call(u, clinit, no_args);
                proof {
                    if below.len() + 1 <= max {
                        lemma_call_keeps(self.classes@, heap_now, u, clinit, args, max, below, a, self.frames@, out);
                    }
                }
                return out;
            },
        };
        let fields = match self.instance_slots(c) {
            Some(f) => f,
            None => return self.fault(a, ExecError::BadClass),
        };
        let class_name = self.classes[c].name.clone();
        let r = self.heap.allocate(HeapObject::Instance(Instance { class_name, fields }));
        a.ctx.operands.push(RuntimeValue::Object(Some(r)));
        self.progress(a, Progression::Next, len)
    }

    /// Whether the object `r` names is an instance of the class named `name`: an
    /// instance when its class is or extends that class, an array or a string only of
    /// `java/lang/Object`.
    fn instance_of(&self, r: usize, name: &String) -> (b: bool)
        requires
            self.wf(),
        ensures
            b == is_instance_of(self.classes@, self.heap@, r, name@),
    {
        match class_of(&self.heap, r) {
            Some(cn) => match find_class(&self.classes, &cn) {
                Some(oc) => subclass_of(&self.classes, oc, name),
                None => false,
            },
            None => {
                let object = String::from_str("java/lang/Object");
                *name == object
            },
        }
    }

    /// `instanceof` (`test` set) and `checkcast`.
    fn type_check(&mut self, a: Activation, index: u16, test: bool, len: usize) -> (r: Option<Outcome>)
        requires
            old(self).wf(),
            a.class < old(self).classes@.len(),
        ensures
            final(self).wf(),
            final(self).classes@ == old(self).classes@,
            machine_step(
                old(self).classes@,
                lifted(
                    type_check_effect(
                        old(self).classes@,
                        old(self).heap@,
                        old(self).classes@[a.class as int].file.constant_pool@,
                        index,
                        test,
                        a.ctx@,
                    ),
                    old(self).heap@,
                ),
                a,
                len as int,
                old(self).frames@,
                final(self).frames@,
                old(self).heap@,
                final(self).heap@,
                r,
            ),
    {
        let mut a = a;
        let name = match class_name(&self.classes[a.class].file.constant_pool, index) {
            Some(n) => n,
            None => return self.fault(a, ExecError::BadConstant(index)),
        };
        let n = a.ctx.operands.len();
        if n < 1 {
            return self.fault(a, ExecError::StackUnderflow);
        }
        let reference = match a.ctx.operands[n - 1] {
            RuntimeValue::Object(r) => r,
            _ => return self.fault(a, ExecError::NotObject),
        };
        match reference {
            None => {
                if test {
                    a.ctx.operands.pop();
                    a.ctx.operands.push(RuntimeValue::from_int(0));
                }
                self.progress(a, Progression::Next, len)
            },
            Some(r) => {
                let is = self.instance_of(r, &name);
                if test {
                    a.ctx.operands.pop();
                    a.ctx.operands.push(RuntimeValue::from_int(if is { 1 } else { 0 }));
                    self.progress(a, Progression::Next, len)
                } else if is {
                    self.progress(a, Progression::Next, len)
                } else {
                    let from = match class_of(&self.heap, r) {
                        Some(cn) => cn,
                        None => String::from_str("java/lang/Object"),
                    };
                    a.ctx.operands.pop();
                    let t = Throwable::Error(VMError::ClassCastException { from, to: name });
                    self.progress(a, Progression::Throw(t), len)
                }
            },
        }
    }

    /// The invoke instructions. The class named by the method reference is loaded (and,
    /// for a static call, initialised); the method is resolved from it up the
    /// superclass chain. The arguments are popped (`take_args`); an instance call also
    /// pops its receiver, which must not be `null`, and a virtual or interface call
    /// selects the method again from the receiver's class. A native method goes to the
    /// host; any other gets a new invocation, and the caller resumes after the call.
    fn invoke(&mut self, a: Activation, index: u16, kind: InvokeKind, len: usize) -> (r: Option<Outcome>)
        requires
            old(self).wf(),
            a.class < old(self).classes@.len(),
        ensures
            final(self).wf(),
            match invoke_plan(
                old(self).classes@,
                old(self).heap@,
                old(self).classes@[a.class as int].file.constant_pool@,
                index,
                kind,
                a.ctx@,
                len as int,
            ) {
                Some(p) => invoke_step(
                    old(self).classes@,
                    old(self).heap@,
                    p,
                    a,
                    len as int,
                    old(self).options.max_stack,
                    old(self).frames@,
                    final(self).frames@,
                    final(self).classes@,
                    final(self).heap@,
                    r,
                ),
                None => true,
            },
            !(kind == InvokeKind::Static && names_initialiser(old(self).classes@[a.class as int].file.constant_pool@, index))
                ==> loads_first(
                method_class(old(self).classes@[a.class as int].file.constant_pool@, index),
                old(self).classes@,
                a,
                old(self).frames@,
                final(self).frames@,
                r,
            ),
            kind == InvokeKind::Static && !names_initialiser(old(self).classes@[a.class as int].file.constant_pool@, index)
                ==> initialises_first(
                method_class(old(self).classes@[a.class as int].file.constant_pool@, index),
                old(self).classes@,
                final(self).classes@,
                old(self).options.max_stack,
                a,
                old(self).frames@,
                final(self).frames@,
            ),
    {
        proof {
            reveal_strlit("invoke");
        }
        let ghost s0 = a.ctx.operands@;
        let mut a = a;
        let m = match member_ref(&self.classes[a.class].file.constant_pool, index, MemberKind::Method) {
            Some(m) => m,
            None => return self.fault(a, ExecError::BadConstant(index)),
        };
        if kind == InvokeKind::Static && (is_text(&m.name, "<init>") || is_text(&m.name, "<clinit>")) {
            return self.fault(a, ExecError::InitialiserCall);
        }
        let c = if kind == InvokeKind::Static {
            match self.ready(&m.class_name) {
                Ready::Class(c) => c,
                Ready::Load(n) => {
                    self.frames.push(a);
                    return Some(Outcome::Request(Request::LoadClass(n)));
                },
                Ready::Retry => {
                    let ghost below = self.frames@;
                    self.frames.push(a);
                    assert(self.frames@.subrange(0, below.len() as int) =~= below);
                    return None;
                },
                Ready::Init(u, clinit) => {
                    let ghost below = self.frames@;
                    a.resume_pc = a.ctx.pc;
                    self.frames.push(a);
                    let ghost max = self.options.max_stack;
                    let ghost heap_now = self.heap@;
                    let no_args: Vec<RuntimeValue> = Vec::new();
                    let ghost args = no_args@;
                    let out = self.call(u, clinit, no_args);
                    proof {
                        if below.len() + 1 <= max {
                            lemma_call_keeps(self.classes@, heap_now, u, clinit, args, max, below, a, self.frames@, out);
                        }
                    }
                    return out;
                },
            }
        } else {
            match find_class(&self.classes, &m.class_name) {
                Some(c) => {
                    proof {
                        crate::classes::lemma_class_index_bounds(self.classes@, m.class_name@, 0);
                    }
                    c
                },
                None => {
                    let n = m.class_name.clone();
                    self.frames.push(a);
                    return Some(Outcome::Request(Request::LoadClass(n)));
                },
            }
        };
        let (mut k, mut mi) = match resolve_class_method(&self.classes, c, &m.name, &m.descriptor) {
            Some(found) => found,
            None => return self.fault(a, ExecError::NoSuchMethod),
        };
        proof {
            crate::classes::lemma_resolve_bounds(self.classes@, c as int, m.name@, m.descriptor@);
        }
        let count = match parameter_count(m.descriptor.as_str()) {
            Some(n) => n,
            None => return self.fault(a, ExecError::BadDescriptor),
        };
        let resume = match next_pc(a.ctx.pc, len) {
            Some(n) => n,
            None => return self.fault(a, ExecError::BadJump),
        };
        let locals = if kind == InvokeKind::Static {
            match take_args(&mut a.ctx.operands, count) {
                Some(args) => args,
                None => return self.fault(a, ExecError::StackUnderflow),
            }
        } else {
            let n = a.ctx.operands.len();
            if count >= n {
                return self.fault(a, ExecError::StackUnderflow);
            }
            let receiver = match a.ctx.operands[n - 1 - count] {
                RuntimeValue::Object(None) => {
                    let t = Throwable::Error(VMError::NullPointerException { ctx: String::from_str("invoke") });
                    return self.progress(a, Progression::Throw(t), len);
                },
                RuntimeValue::Object(Some(r)) => r,
                _ => return self.fault(a, ExecError::NotObject),
            };
            let args = match take_args(&mut a.ctx.operands, count) {
                Some(args) => args,
                None => return self.fault(a, ExecError::StackUnderflow),
            };
            a.ctx.operands.pop();
            assert(a.ctx.operands@ =~= s0.subrange(0, s0.len() - count - 1));
            let locals = with_receiver(receiver, args);
            if kind == InvokeKind::Virtual || kind == InvokeKind::Interface {
                let private = self.classes[k].file.methods.values[mi].flags.flags & 0x0002 != 0;
                assert(private == method_has(self.classes@, k as int, mi as int, 0x0002));
                if !private {
                    match class_of(&self.heap, receiver) {
                        Some(cn) => match find_class(&self.classes, &cn) {
                            Some(oc) => {
                                proof {
                                    crate::classes::lemma_class_index_bounds(self.classes@, cn@, 0);
                                }
                                match resolve_class_method(&self.classes, oc, &m.name, &m.descriptor) {
                                    Some((k2, m2)) => {
                                        proof {
                                            crate::classes::lemma_resolve_bounds(self.classes@, oc as int, m.name@, m.descriptor@);
                                        }
                                        k = k2;
                                        mi = m2;
                                    },
                                    None => {},
                                }
                            },
                            None => {},
                        },
                        None => {},
                    }
                }
            }
            locals
        };
        let native = self.classes[k].file.methods.values[mi].flags.flags & 0x0100 != 0;
        a.resume_pc = resume;
        if native {
            let class_name = self.classes[k].name.clone();
            if crate::natives::is_current_thread(&class_name, &m.name, &m.descriptor) {
                match self.main_thread {
                    Some(t) => {
                        a.ctx.operands.push(RuntimeValue::Object(Some(t)));
                        return self.progress(a, Progression::Next, len);
                    },
                    None => {},
                }
            }
            match builtin_native(&mut self.heap, &class_name, &m.name, &m.descriptor, &locals) {
                NativeResult::Returned(v) => {
                    match v {
                        Some(x) => a.ctx.operands.push(x),
                        None => {},
                    }
                    return self.progress(a, Progression::Next, len);
                },
                NativeResult::Thrown(e) => return self.progress(a, Progression::Throw(Throwable::Error(e)), len),
                NativeResult::Fault(e) => return self.fault(a, e),
                NativeResult::Host => {},
            }
            match self.machine_native(a.class, &class_name, &m.name, &m.descriptor, &locals) {
                NativeResult::Returned(v) => {
                    match v {
                        Some(x) => a.ctx.operands.push(x),
                        None => {},
                    }
                    return self.progress(a, Progression::Next, len);
                },
                NativeResult::Thrown(e) => return self.progress(a, Progression::Throw(Throwable::Error(e)), len),
                NativeResult::Fault(e) => return self.fault(a, e),
                NativeResult::Host => {
                    self.frames.push(a);
                    return Some(Outcome::Request(Request::Native { class_name, name: m.name, descriptor: m.descriptor, args: locals }));
                },
            }
        }
        let ghost below = self.frames@;
        let ghost max = self.options.max_stack;
        let ghost heap_now = self.heap@;
        let ghost locals_view = locals@;
        self.frames.push(a);
        let out = self.call(k, mi, locals);
        proof {
            if below.len() + 1 <= max {
                lemma_call_keeps(self.classes@, heap_now, k, mi, locals_view, max, below, a, self.frames@, out);
            } else {
                assert(below.push(a).drop_last() =~= below);
                assert(below.push(a).last() == a);
            }
        }
        out
    }
}

impl Vm {
    /// Runs instruction `ins`, `len` bytes long, in invocation `a`, which is off the
    /// stack.
    #[verifier::spinoff_prover]
    #[verifier::rlimit(50)]
    fn execute(&mut self, a: Activation, ins: Instruction, len: usize) -> (r: Option<Outcome>)
        requires
            old(self).wf(),
            a.class < old(self).classes@.len(),
        ensures
            final(self).wf(),
            instruction_step(
                old(self).classes@,
                old(self).heap@,
                interned(old(self).strings.entries@),
                final(self).classes@,
                final(self).heap@,
                old(self).options.max_stack,
                a,
                ins,
                len as int,
                old(self).frames@,
                final(self).frames@,
                r,
            ),
    {
        let mut a = a;
        let c = a.class;
        let result: Result<Progression, ExecError> = match ins {
            Instruction::Nop(i) => i.handle(&mut a.ctx),
            Instruction::PushConst(i) => i.handle(&mut a.ctx),
            Instruction::Ldc(i) => i.handle(&mut a.ctx, &mut self.heap, &mut self.strings, &self.classes[c].file.constant_pool),
            Instruction::Ldc2W(i) => i.handle(&mut a.ctx, &self.classes[c].file.constant_pool),
            Instruction::LoadLocal(i) => i.handle(&mut a.ctx),
            Instruction::StoreLocal(i) => {
                if i.index == usize::MAX {
                    Err(ExecError::NoLocal(i.index))
                } else {
                    i.handle(&mut a.ctx)
                }
            },
            Instruction::ArrayLoad(i) => i.handle(&mut a.ctx, &mut self.heap),
            Instruction::ArrayStore(i) => i.handle(&mut a.ctx, &mut self.heap),
            Instruction::Pop(i) => i.handle(&mut a.ctx),
            Instruction::Dup(i) => i.handle(&mut a.ctx),
            Instruction::DupX1(i) => i.handle(&mut a.ctx),
            Instruction::DupX2(i) => i.handle(&mut a.ctx),
            Instruction::Dup2(i) => i.handle(&mut a.ctx),
            Instruction::IntArith(i) => i.handle(&mut a.ctx),
            Instruction::IntUnary(i) => i.handle(&mut a.ctx),
            Instruction::FloatOp(i) => {
                let n = i.op.operand_count();
                if a.ctx.operands.len() < n {
                    Err(ExecError::StackUnderflow)
                } else {
                    let resume = match next_pc(a.ctx.pc, len) {
                        Some(p) => p,
                        None => return self.fault(a, ExecError::BadJump),
                    };
                    let ghost a0 = a;
                    let ghost s = a.ctx.operands@;
                    let mut operands: Vec<RuntimeValue> = Vec::new();
                    let start = a.ctx.operands.len() - n;
                    let mut k = start;
                    while k < a.ctx.operands.len()
                        invariant
                            start <= k <= s.len(),
                            start == s.len() - n,
                            a == a0,
                            a.ctx.operands@ == s,
                            operands@ == s.subrange(start as int, k as int),
                            *self == *old(self),
                        decreases a.ctx.operands@.len() - k,
                    {
                        operands.push(a.ctx.operands[k]);
                        k = k + 1;
                    }
                    let mut j: usize = 0;
                    while j < n
                        invariant
                            j <= n <= s.len(),
                            a.class == a0.class,
                            a.code == a0.code,
                            a.handlers == a0.handlers,
                            a.ctx.pc == a0.ctx.pc,
                            a.ctx.locals == a0.ctx.locals,
                            a.ctx.operands@ == s.take(s.len() - j),
                            *self == *old(self),
                        decreases n - j,
                    {
                        a.ctx.operands.pop();
                        j = j + 1;
                    }
                    a.resume_pc = resume;
                    self.frames.push(a);
                    assert(operands@ =~= s.skip(s.len() - n));
                    assert(self.frames@.drop_last() =~= old(self).frames@);
                    return Some(Outcome::Request(Request::Float { op: i.op, operands }));
                }
            },
            Instruction::Iinc(i) => i.handle(&mut a.ctx),
            Instruction::IfZero(i) => i.handle(&mut a.ctx),
            Instruction::IfIntCompare(i) => i.handle(&mut a.ctx),
            Instruction::IfRefCompare(i) => i.handle(&mut a.ctx),
            Instruction::Goto(i) => i.handle(&mut a.ctx),
            Instruction::TableSwitch(i) => i.handle(&mut a.ctx),
            Instruction::ValueReturn(i) => i.handle(&mut a.ctx),
            Instruction::VoidReturn(i) => i.handle(&mut a.ctx),
            Instruction::GetStatic(i) => return self.static_access(a, i.index, false, len),
            Instruction::PutStatic(i) => return self.static_access(a, i.index, true, len),
            Instruction::GetField(i) => i.handle(&mut a.ctx, &mut self.heap, &self.classes[c].file.constant_pool),
            Instruction::PutField(i) => i.handle(&mut a.ctx, &mut self.heap, &self.classes[c].file.constant_pool),
            Instruction::InvokeVirtual(i) => return self.invoke(a, i.index, InvokeKind::Virtual, len),
            Instruction::InvokeSpecial(i) => return self.invoke(a, i.index, InvokeKind::Special, len),
            Instruction::InvokeStatic(i) => return self.invoke(a, i.index, InvokeKind::Static, len),
            Instruction::InvokeInterface(i) => {
                if i.zero != 0 || i.count == 0 {
                    Err(ExecError::BadDescriptor)
                } else {
                    return self.invoke(a, i.index, InvokeKind::Interface, len);
                }
            },
            Instruction::New(i) => return self.new_object(a, i.index, len),
            Instruction::NewArray(i) => i.handle(&mut a.ctx, &mut self.heap),
            Instruction::ANewArray(i) => i.handle(&mut a.ctx, &mut self.heap, &self.classes[c].file.constant_pool),
            Instruction::ArrayLength(i) => i.handle(&mut a.ctx, &mut self.heap),
            Instruction::Athrow(_) => {
                proof {
                    reveal_strlit("athrow");
                }
                let n = a.ctx.operands.len();
                if n < 1 {
                    Err(ExecError::StackUnderflow)
                } else {
                    match a.ctx.operands[n - 1] {
                        RuntimeValue::Object(Some(r)) => {
                            a.ctx.operands.pop();
                            Ok(Progression::Throw(Throwable::Object(r)))
                        },
                        RuntimeValue::Object(None) => {
                            a.ctx.operands.pop();
                            Ok(Progression::Throw(Throwable::Error(
                                VMError::NullPointerException { ctx: String::from_str("athrow") },
                            )))
                        },
                        _ => Err(ExecError::NotObject),
                    }
                }
            },
            Instruction::CheckCast(i) => return self.type_check(a, i.type_index, false, len),
            Instruction::InstanceOf(i) => return self.type_check(a, i.type_index, true, len),
            Instruction::MonitorEnter(i) => i.handle(&mut a.ctx),
            Instruction::MonitorExit(i) => i.handle(&mut a.ctx),
            Instruction::IfNull(i) => i.handle(&mut a.ctx),
            Instruction::IfNotNull(i) => i.handle(&mut a.ctx),
        };
        match result {
            Ok(p) => self.progress(a, p, len),
            Err(e) => self.fault(a, e),
        }
    }

    /// Runs one instruction of the current invocation: decodes it at the program counter
    /// and executes it. A program counter past the end of the code returns from the
    /// method without a value; one before it, or code that does not decode, is a
    /// fault. With no invocation the run has returned.
    pub fn step(&mut self) -> (r: Option<Outcome>)
        requires
            old(self).wf(),
        ensures
            final(self).wf(),
            steps(*old(self), *final(self), r),
    {
        let a = match self.frames.pop() {
            Some(a) => a,
            None => return Some(Outcome::Returned(None)),
        };
        assert(self.frames@.push(a) =~= old(self).frames@);
        let pc = a.ctx.pc;
        if pc < 0 {
            let out = fault_of(&a, ExecError::BadJump);
            self.frames.push(a);
            return Some(out);
        }
        let start = pc as usize;
        if start >= a.code.len() {
            return self.finish(None);
        }
        let mut bytes = bytes_from_slice(a.code.as_slice());
        bytes_advance(&mut bytes, start);
        let ghost input = bytes_view(bytes);
        assert(input == a.code@.skip(start as int));
        let ins = match read_instruction(&mut bytes, pc) {
            Ok(ins) => ins,
            Err(e) => {
                let out = fault_of(&a, e);
                self.frames.push(a);
                return Some(out);
            },
        };
        let remaining = bytes_len(&bytes);
        let available = a.code.len() - start;
        if remaining > available {
            let out = fault_of(&a, ExecError::Truncated);
            self.frames.push(a);
            return Some(out);
        }
        let consumed = available - remaining;
        let ghost below = self.frames@;
        let out = self.execute(a, *ins, consumed);
        proof {
            assert(below == old(self).frames@.drop_last());
            match spec_decode(input, pc) {
                Parsed::Done(v, rest) => {
                    assert(decodes_to(v, *ins));
                },
                _ => {},
            }
        }
        out
    }

    /// Runs at most `fuel` instructions: until the outermost method returns, an
    /// exception leaves it, an instruction faults, or the host has work to do. The run
    /// is a chain of steps (`steps`) that hand nothing out, followed either by the end
    /// of the fuel or by one more step whose outcome is the result.
    pub fn run(&mut self, fuel: u64) -> (r: Outcome)
        requires
            old(self).wf(),
        ensures
            final(self).wf(),
            fuel == 0 ==> r is OutOfFuel && *final(self) == *old(self),
            exists|trace: Seq<Vm>|
                {
                    &&& #[trigger] quiet_steps(trace)
                    &&& 1 <= trace.len() <= fuel + 1
                    &&& trace[0] == *old(self)
                    &&& (r is OutOfFuel && trace.len() == fuel + 1 && trace.last() == *final(self)) || (trace.len() <= fuel
                        && steps(trace.last(), *final(self), Some(r)))
                },
    {
        let mut left = fuel;
        let ghost mut trace: Seq<Vm> = seq![*self];
        while left > 0
            invariant
                self.wf(),
                left <= fuel,
                fuel == 0 ==> *self == *old(self),
                quiet_steps(trace),
                trace.len() == fuel - left + 1,
                trace[0] == *old(self),
                trace.last() == *self,
            decreases left,
        {
            let ghost before = *self;
            match self.step() {
                Some(out) => {
                    assert(quiet_steps(trace));
                    assert(steps(trace.last(), *self, Some(out)));
                    return out;
                },
                None => {},
            }
            proof {
                let next = trace.push(*self);
                assert forall|k: int| 0 <= k && k + 1 < next.len() implies #[trigger] steps(next[k], next[k + 1], None) by {
                    if k + 1 < trace.len() {
                        assert(next[k] == trace[k] && next[k + 1] == trace[k + 1]);
                    } else {
                        assert(next[k] == before);
                    }
                }
                trace = next;
            }
            left = left - 1;
        }
        assert(quiet_steps(trace));
        Outcome::OutOfFuel
    }
}

impl Vm {
    /// Sets each static field of class `u` that has a `ConstantValue` attribute to its
    /// constant (a string constant to its interned string object), as the class starts
    /// to initialise. A class whose layout cannot be computed keeps its default values.
    fn apply_constants(&mut self, u: usize)
        requires
            old(self).wf(),
            u < old(self).classes@.len(),
        ensures
            final(self).wf(),
            classes_kept(old(self).classes@, final(self).classes@),
            final(self).frames@ == old(self).frames@,
            final(self).options == old(self).options,
            old(self).heap@.len() <= final(self).heap@.len(),
            final(self).heap@.subrange(0, old(self).heap@.len() as int) == old(self).heap@,
            match spec_basic_layout(old(self).classes@[u as int].file@, object_base(), reference_layout()) {
                Ok(l) => constants_applied(
                    old(self).classes@,
                    final(self).classes@,
                    final(self).heap@,
                    u as int,
                    l.statics,
                    l.statics.len() as int,
                ),
                Err(_) => *final(self) == *old(self),
            },
    {
        let layout = match basic_layout(&self.classes[u].file, base_layout()) {
            Ok(l) => l,
            Err(_) => return,
        };
        let ghost infos = layout.statics@.map_values(|x: StaticInfo| x@);
        let ghost slots0 = old(self).classes@[u as int].statics@.map_values(|f: FieldSlot| f@);
        let n = layout.statics.len();
        let mut i: usize = 0;
        while i < n
            invariant
                n == layout.statics@.len(),
                infos == layout.statics@.map_values(|x: StaticInfo| x@),
                slots0 == old(self).classes@[u as int].statics@.map_values(|f: FieldSlot| f@),
                i <= n,
                u < self.classes@.len(),
                self.wf(),
                classes_kept(old(self).classes@, self.classes@),
                self.frames@ == old(self).frames@,
                self.options == old(self).options,
                old(self).heap@.len() <= self.heap@.len(),
                self.heap@.subrange(0, old(self).heap@.len() as int) == old(self).heap@,
                constants_applied(old(self).classes@, self.classes@, self.heap@, u as int, infos, i as int),
            decreases n - i,
        {
            let info = &layout.statics[i];
            let ghost h0 = self.heap@;
            let ghost c0 = self.classes@;
            let value = match &info.init {
                StaticInit::Value(v) => *v,
                StaticInit::Text(t) => RuntimeValue::Object(Some(self.strings.intern(&mut self.heap, t.clone()))),
            };
            proof {
                assert(h0.len() <= self.heap@.len());
                assert forall|x: int| 0 <= x < h0.len() implies self.heap@[x] == h0[x] by {}
                assert(self.heap@.subrange(0, old(self).heap@.len() as int) =~= old(self).heap@);
                assert(holds_init(self.heap@, value, infos[i as int].init));
                assert forall|k: int|
                    #![trigger infos[k]]
                    0 <= k < i && last_for_slot(slots0, infos, k, i as int) && constant_slot(slots0, infos[k]) is Some implies holds_init(
                        self.heap@,
                        self.classes@[u as int].statics@[constant_slot(slots0, infos[k])->0].value,
                        infos[k].init,
                    ) by {
                    assert(holds_init(h0, c0[u as int].statics@[constant_slot(slots0, infos[k])->0].value, infos[k].init));
                }
                let cur = self.classes@[u as int].statics@.map_values(|f: FieldSlot| f@);
                assert forall|k: int| 0 <= k < cur.len() implies #[trigger] cur[k].name == slots0[k].name && cur[k].descriptor
                    == slots0[k].descriptor by {
                    assert(self.classes@[u as int].statics@[k].name == old(self).classes@[u as int].statics@[k].name);
                }
                crate::classes::lemma_slot_index_same_keys(cur, slots0, info.name@, info.descriptor@, 0);
            }
            match find_slot(&self.classes[u].statics, &info.name, &info.descriptor) {
                Some(j) => {
                    proof {
                        crate::classes::lemma_slot_index_bounds(
                            self.classes@[u as int].statics@.map_values(|f: FieldSlot| f@),
                            info.name@,
                            info.descriptor@,
                            0,
                        );
                    }
                    let ghost before = self.classes@;
                    self.classes[u].statics[j].value = value;
                    assert(table_wf(self.classes@)) by {
                        assert forall|k: int| 0 <= k < self.classes@.len() implies ((#[trigger] self.classes@[k]).super_class matches Some(s) ==> s < k) by {
                            assert(self.classes@[k].super_class == before[k].super_class);
                        }
                    }
                    assert(classes_kept(old(self).classes@, self.classes@)) by {
                        assert forall|k: int| 0 <= k < old(self).classes@.len() implies {
                            &&& (#[trigger] self.classes@[k]).name == old(self).classes@[k].name
                            &&& self.classes@[k].super_class == old(self).classes@[k].super_class
                            &&& self.classes@[k].file == old(self).classes@[k].file
                            &&& self.classes@[k].initialised == old(self).classes@[k].initialised
                            &&& self.classes@[k].statics@.len() == old(self).classes@[k].statics@.len()
                        } by {
                            assert(self.classes@[k].name == before[k].name);
                        }
                    }
                    proof {
                        assert(constant_slot(slots0, infos[i as int]) == Some(j as int));
                        let after = self.classes@;
                        assert forall|k: int|
                            #![trigger infos[k]]
                            0 <= k < i + 1 && last_for_slot(slots0, infos, k, i + 1) && constant_slot(slots0, infos[k])
                                is Some implies holds_init(
                                self.heap@,
                                after[u as int].statics@[constant_slot(slots0, infos[k])->0].value,
                                infos[k].init,
                            ) by {
                            if k < i {
                                assert(constant_slot(slots0, infos[k]) != constant_slot(slots0, infos[i as int]));
                                assert(last_for_slot(slots0, infos, k, i as int));
                                let jk = constant_slot(slots0, infos[k])->0;
                                crate::classes::lemma_slot_index_bounds(slots0, infos[k].name, infos[k].descriptor, 0);
                                assert(jk != j);
                                assert(after[u as int].statics@[jk] == before[u as int].statics@[jk]);
                            }
                        }
                        assert forall|x: int|
                            #![trigger after[u as int].statics@[x]]
                            0 <= x < slots0.len() && slot_untouched(slots0, infos, x, i + 1) implies after[u as int].statics@[x]
                                == old(self).classes@[u as int].statics@[x] by {
                            assert(constant_slot(slots0, infos[i as int]) != Some(x));
                            assert(slot_untouched(slots0, infos, x, i as int));
                            assert(before[u as int].statics@[x] == old(self).classes@[u as int].statics@[x]);
                        }
                        assert forall|x: int|
                            #![trigger after[u as int].statics@[x]]
                            0 <= x < slots0.len() implies after[u as int].statics@[x].name == old(self).classes@[u as int].statics@[x].name
                                && after[u as int].statics@[x].descriptor == old(self).classes@[u as int].statics@[x].descriptor by {
                            assert(before[u as int].statics@[x].name == old(self).classes@[u as int].statics@[x].name);
                        }
                        assert forall|x: int| #![trigger after[x]] 0 <= x < old(self).classes@.len() && x != u implies after[x].statics
                            == old(self).classes@[x].statics by {
                            assert(before[x].statics == old(self).classes@[x].statics);
                        }
                    }
                },
                None => {
                    proof {
                        let after = self.classes@;
                        assert forall|k: int|
                            #![trigger infos[k]]
                            0 <= k < i + 1 && last_for_slot(slots0, infos, k, i + 1) && constant_slot(slots0, infos[k])
                                is Some implies holds_init(
                                self.heap@,
                                after[u as int].statics@[constant_slot(slots0, infos[k])->0].value,
                                infos[k].init,
                            ) by {
                            assert(k < i);
                            assert(last_for_slot(slots0, infos, k, i as int));
                        }
                        assert forall|x: int|
                            #![trigger after[u as int].statics@[x]]
                            0 <= x < slots0.len() && slot_untouched(slots0, infos, x, i + 1) implies after[u as int].statics@[x]
                                == old(self).classes@[u as int].statics@[x] by {
                            assert(slot_untouched(slots0, infos, x, i as int));
                        }
                    }
                },
            }
            i = i + 1;
        }
    }
}


/// Where the initialisation of a class stands.
#[derive(Debug)]
pub enum InitStep {
    /// The class and its superclasses are initialised; the class's index.
    Ready(usize),
    /// The host must load the class of this name first.
    Load(String),
    /// A class initialiser was pushed: run the machine until it returns, then ask again.
    Started,
    /// The initialiser could not be started.
    Failed(Outcome),
}

/// What `Vm::initialise` does for the class named `name`, from machine `before` to
/// machine `after`, answering `r`: a class that is not loaded is asked for; a class
/// and superclasses that need no initialisation are ready at once, with nothing
/// changed; otherwise the first uninitialised class from the top is marked initialised,
/// and either the class is then ready, or that class's initialiser was pushed
/// (`Started`), or it could not be pushed (`Failed`, with the stack overflow or the
/// fault). The classes keep their names, superclasses and files, and only `Started`
/// changes the call stack.
pub open spec fn initialises(before: Vm, after: Vm, name: Seq<char>, r: InitStep) -> bool {
    &&& same_classes(before.classes@, after.classes@)
    &&& match class_index(before.classes@, name) {
        None => (r matches InitStep::Load(n) && n@ == name) && after == before,
        Some(c) => match uninitialised_top(before.classes@, c) {
            None => (r matches InitStep::Ready(k) && k == c) && after == before,
            Some(u) => {
                &&& !(r is Load)
                &&& after.classes@[u].initialised
                &&& r matches InitStep::Ready(k) ==> k == c && uninitialised_top(after.classes@, c) is None
            },
        },
    }
    &&& !(r is Started) ==> after.frames@ == before.frames@
    &&& r is Started ==> {
        let a = after.frames@.last();
        &&& after.frames@.len() == before.frames@.len() + 1
        &&& after.frames@.drop_last() == before.frames@
        &&& a.ctx.pc == 0
        &&& a.ctx.operands@.len() == 0
        &&& a.ctx.locals@.len() == 0
        &&& after.classes@[a.class as int].initialised
        &&& clinit_of(after.classes@, a.class as int) is Some
    }
    &&& r matches InitStep::Failed(o) ==> (o matches Outcome::Uncaught(t, _) && t@ == ThrowableValue::Error(
        VMErrorValue::StackOverflowError,
    )) || o is Fault
}

impl Vm {
    /// Initialises the class named `name` and its superclasses, top first, as the
    /// instructions that use a class do (`ready`).
    pub fn initialise(&mut self, name: &String) -> (r: InitStep)
        requires
            old(self).wf(),
        ensures
            final(self).wf(),
            initialises(*old(self), *final(self), name@, r),
    {
        let ghost mut first = true;
        loop
            invariant
                self.wf(),
                same_classes(old(self).classes@, self.classes@),
                self.frames@ == old(self).frames@,
                first ==> *self == *old(self),
                !first ==> match class_index(old(self).classes@, name@) {
                    Some(c) => match uninitialised_top(old(self).classes@, c) {
                        Some(u) => self.classes@[u].initialised,
                        None => false,
                    },
                    None => false,
                },
                forall|i: int|
                    #![trigger self.classes@[i]]
                    0 <= i < old(self).classes@.len() && old(self).classes@[i].initialised ==> self.classes@[i].initialised,
            decreases uninitialised_count(self.classes@),
        {
            let ghost before = self.classes@;
            proof {
                lemma_same_classes_index(old(self).classes@, self.classes@, name@, 0);
            }
            let step = self.ready(name);
            proof {
                match class_index(old(self).classes@, name@) {
                    Some(c) => match uninitialised_top(old(self).classes@, c) {
                        Some(u0) => {
                            lemma_uninitialised_top_found(old(self).classes@, c);
                            if first {
                                assert(self.classes@[u0].initialised);
                            } else {
                                assert(before[u0].initialised);
                                assert(self.classes@[u0].initialised);
                            }
                        },
                        None => {},
                    },
                    None => {},
                }
                assert forall|i: int|
                    #![trigger self.classes@[i]]
                    0 <= i < old(self).classes@.len() && old(self).classes@[i].initialised implies self.classes@[i].initialised by {
                    assert(before[i].initialised);
                }
            }
            match step {
                Ready::Class(c) => return InitStep::Ready(c),
                Ready::Load(n) => return InitStep::Load(n),
                Ready::Retry => {
                    proof {
                        match class_index(before, name@) {
                            Some(c) => match uninitialised_top(before, c) {
                                Some(u) => {
                                    lemma_uninitialised_top_found(before, c);
                                    lemma_marking_lowers_count(before, self.classes@, u);
                                },
                                None => {},
                            },
                            None => {},
                        }
                        first = false;
                    }
                },
                Ready::Init(u, m) => {
                    if self.frames.len() as u64 > self.options.max_stack {
                        return InitStep::Failed(
                            Outcome::Uncaught(
                                Throwable::Error(VMError::StackOverflowError {}),
                                ThrownState { pc: 0, locals: Vec::new() },
                            ),
                        );
                    }
                    let no_args: Vec<RuntimeValue> = Vec::new();
                    return match self.call(u, m, no_args) {
                        None => InitStep::Started,
                        Some(out) => InitStep::Failed(out),
                    };
                },
            }
        }
    }

    /// Sets the first static field named `field` of the class named `class`; `false`
    /// when there is no such class or field.
    pub fn set_static(&mut self, class: &String, field: &String, value: RuntimeValue) -> (r: bool)
        requires
            old(self).wf(),
        ensures
            final(self).wf(),
            final(self).classes@.len() == old(self).classes@.len(),
            final(self).frames@ == old(self).frames@,
            final(self).heap@ == old(self).heap@,
            match static_named(old(self).classes@, class@, field@) {
                Some((c, i)) => r && static_written(old(self).classes@, final(self).classes@, c, i, value),
                None => !r && final(self).classes@ == old(self).classes@,
            },
    {
        let c = match find_class(&self.classes, class) {
            Some(c) => c,
            None => return false,
        };
        proof {
            crate::classes::lemma_class_index_bounds(self.classes@, class@, 0);
        }
        let mut i: usize = 0;
        while i < self.classes[c].statics.len()
            invariant
                c < self.classes@.len(),
                class_index(old(self).classes@, class@) == Some(c as int),
                self.wf(),
                *self == *old(self),
                i <= self.classes@[c as int].statics@.len(),
                slot_named_from(self.classes@[c as int].statics@.map_values(|f: FieldSlot| f@), field@, 0) == slot_named_from(
                    self.classes@[c as int].statics@.map_values(|f: FieldSlot| f@),
                    field@,
                    i as int,
                ),
            decreases self.classes@[c as int].statics@.len() - i,
        {
            if self.classes[c].statics[i].name == *field {
                let ghost before = self.classes@;
                self.classes[c].statics[i].value = value;
                assert(table_wf(self.classes@)) by {
                    assert forall|j: int| 0 <= j < self.classes@.len() implies ((#[trigger] self.classes@[j]).super_class matches Some(s) ==> s < j) by {
                        assert(self.classes@[j].super_class == before[j].super_class);
                    }
                }
                assert(self.classes@[c as int].statics@[i as int].name@ == field@);
                return true;
            }
            i = i + 1;
        }
        false
    }

    /// A new instance of the class with index `c`, every field at its default value.
    pub fn instantiate(&mut self, c: usize) -> (r: Option<usize>)
        requires
            old(self).wf(),
        ensures
            final(self).wf(),
            final(self).classes@ == old(self).classes@,
            final(self).frames@ == old(self).frames@,
            match (if c < old(self).classes@.len() { instance_fields_of(old(self).classes@, c as int) } else { None }) {
                Some(fields) => (r matches Some(x) && x == old(self).heap@.len()) && final(self).heap@ == old(self).heap@.push(
                    ObjectValue::Instance { class_name: old(self).classes@[c as int].name@, fields },
                ),
                None => r is None && final(self).heap@ == old(self).heap@,
            },
    {
        if c >= self.classes.len() {
            return None;
        }
        let fields = self.instance_slots(c)?;
        let class_name = self.classes[c].name.clone();
        let x = self.heap.allocate(HeapObject::Instance(Instance { class_name, fields }));
        Some(x)
    }

    /// Sets the first field named `field` of the instance `r`; `false` when there is
    /// no such instance or field.
    pub fn set_instance_field(&mut self, r: usize, field: &String, value: RuntimeValue) -> (b: bool)
        requires
            old(self).wf(),
        ensures
            final(self).wf(),
            final(self).classes@ == old(self).classes@,
            final(self).frames@ == old(self).frames@,
            match named_field(old(self).heap@, r, field@) {
                Some(i) => b && final(self).heap@ == with_field(old(self).heap@, r, i, value),
                None => !b && final(self).heap@ == old(self).heap@,
            },
            final(self).heap@.len() == old(self).heap@.len(),
            forall|x: usize| #[trigger] object_class(final(self).heap@, x) == object_class(old(self).heap@, x),
            named_field(old(self).heap@, r, field@) is Some ==> field_value(final(self).heap@, r, field@) == Some(value),
            forall|x: usize, n: Seq<char>|
                (x != r || n != field@) ==> #[trigger] field_value(final(self).heap@, x, n) == field_value(old(self).heap@, x, n),
            forall|x: usize, n: Seq<char>| #[trigger] named_field(final(self).heap@, x, n) == named_field(old(self).heap@, x, n),
            forall|x: int| 0 <= x < old(self).heap@.len() && x != r ==> #[trigger] final(self).heap@[x] == old(self).heap@[x],
    {
        if r >= self.heap.objects.len() {
            return false;
        }
        let object = self.heap.objects[r].clone_object();
        match object {
            HeapObject::Instance(o) => {
                let ghost slots = instance_fields(old(self).heap@, r);
                let mut fields = o.fields;
                assert(fields@.map_values(|f: FieldSlot| f@) == slots);
                let mut i: usize = 0;
                while i < fields.len()
                    invariant
                        i <= fields@.len(),
                        self.wf(),
                        *self == *old(self),
                        r < self.heap@.len(),
                        self.heap@[r as int] == (ObjectValue::Instance { class_name: o.class_name@, fields: slots }),
                        fields@.map_values(|f: FieldSlot| f@) == slots,
                        slot_named_from(slots, field@, 0) == slot_named_from(slots, field@, i as int),
                    decreases fields@.len() - i,
                {
                    if fields[i].name == *field {
                        let slot = FieldSlot { name: fields[i].name.clone(), descriptor: fields[i].descriptor.clone(), value };
                        fields.set(i, slot);
                        self.heap.objects.set(r, HeapObject::Instance(Instance { class_name: o.class_name, fields }));
                        proof {
                            assert(fields@.map_values(|f: FieldSlot| f@) =~= slots.update(
                                i as int,
                                FieldSlotValue { name: slots[i as int].name, descriptor: slots[i as int].descriptor, value },
                            ));
                            assert(self.heap@ =~= with_field(old(self).heap@, r, i as int, value));
                            assert forall|x: usize| #[trigger] object_class(self.heap@, x) == object_class(old(self).heap@, x) by {
                                if x == r {
                                }
                            }
                            let nf = instance_fields(self.heap@, r);
                            assert(nf == slots.update(
                                i as int,
                                FieldSlotValue { name: slots[i as int].name, descriptor: slots[i as int].descriptor, value },
                            ));
                            assert forall|x: usize, n: Seq<char>| #[trigger] named_field(self.heap@, x, n) == named_field(old(self).heap@, x, n) by {
                                if x == r {
                                    assert forall|k: int| 0 <= k < nf.len() implies #[trigger] nf[k].name == slots[k].name by {}
                                    lemma_slot_named_same_names(nf, slots, n, 0);
                                }
                            }
                            lemma_slot_named_found(slots, field@, 0);
                            assert(named_field(old(self).heap@, r, field@) == Some(i as int));
                            assert forall|x: usize, n: Seq<char>|
                                (x != r || n != field@) implies #[trigger] field_value(self.heap@, x, n) == field_value(old(self).heap@, x, n) by {
                                if x == r {
                                    lemma_slot_named_found(slots, n, 0);
                                }
                            }
                        }
                        return true;
                    }
                    i = i + 1;
                }
                false
            },
            _ => false,
        }
    }

    /// Makes the object of the main thread, of class `java/lang/Thread`, in a thread group
    /// of class `java/lang/ThreadGroup`, both named `main`; both classes must be loaded.
    /// The thread has priority 1, id 1 and status 1.
    pub fn make_main_thread(&mut self) -> (r: Option<usize>)
        requires
            old(self).wf(),
        ensures
            final(self).wf(),
            final(self).classes@ == old(self).classes@,
            final(self).frames@ == old(self).frames@,
            match (class_index(old(self).classes@, "java/lang/Thread"@), class_index(old(self).classes@, "java/lang/ThreadGroup"@)) {
                (Some(tc), Some(gc)) => if instance_fields_of(old(self).classes@, tc) is Some && instance_fields_of(
                    old(self).classes@,
                    gc,
                ) is Some {
                    &&& r matches Some(t) && t == old(self).heap@.len()
                    &&& final(self).main_thread == r
                    &&& final(self).heap@.len() >= old(self).heap@.len() + 2
                    &&& object_class(final(self).heap@, r->0) == Some("java/lang/Thread"@)
                    &&& object_class(final(self).heap@, (r->0 + 1) as usize) == Some("java/lang/ThreadGroup"@)
                    &&& named_main(final(self).heap@, r->0, instance_fields_of(old(self).classes@, tc)->0)
                    &&& named_main(final(self).heap@, (r->0 + 1) as usize, instance_fields_of(old(self).classes@, gc)->0)
                    &&& field_set_if_present(
                        final(self).heap@,
                        r->0,
                        "priority"@,
                        RuntimeValue::Integral(Integral { value: 1, ty: IntegralType::Int }),
                        instance_fields_of(old(self).classes@, tc)->0,
                    )
                    &&& field_set_if_present(
                        final(self).heap@,
                        r->0,
                        "tid"@,
                        RuntimeValue::Integral(Integral { value: 1, ty: IntegralType::Long }),
                        instance_fields_of(old(self).classes@, tc)->0,
                    )
                    &&& field_set_if_present(
                        final(self).heap@,
                        r->0,
                        "threadStatus"@,
                        RuntimeValue::Integral(Integral { value: 1, ty: IntegralType::Int }),
                        instance_fields_of(old(self).classes@, tc)->0,
                    )
                    &&& field_set_if_present(
                        final(self).heap@,
                        r->0,
                        "group"@,
                        RuntimeValue::Object(Some((r->0 + 1) as usize)),
                        instance_fields_of(old(self).classes@, tc)->0,
                    )
                } else {
                    r is None
                },
                _ => r is None && final(self).heap@ == old(self).heap@,
            },
    {
        let thread_name = String::from_str("java/lang/Thread");
        let group_name = String::from_str("java/lang/ThreadGroup");
        let tc = find_class(&self.classes, &thread_name)?;
        let gc = find_class(&self.classes, &group_name)?;
        proof {
            crate::classes::lemma_class_index_bounds(self.classes@, thread_name@, 0);
            crate::classes::lemma_class_index_bounds(self.classes@, group_name@, 0);
        }
        let thread = self.instantiate(tc)?;
        let group = self.instantiate(gc)?;
        proof {
            reveal_strlit("name");
            reveal_strlit("priority");
            reveal_strlit("tid");
            reveal_strlit("threadStatus");
            reveal_strlit("group");
            assert("name"@.len() == 4 && "priority"@.len() == 8 && "tid"@.len() == 3);
            assert("threadStatus"@.len() == 12 && "group"@.len() == 5);
        }
        let ghost h1 = self.heap@;
        let main = self.strings.intern(&mut self.heap, String::from_str("main"));
        proof {
            assert forall|x: usize, n: Seq<char>| x < h1.len() implies #[trigger] field_value(self.heap@, x, n) == field_value(h1, x, n)
                && named_field(self.heap@, x, n) == named_field(h1, x, n) by {
                assert(self.heap@[x as int] == h1[x as int]);
            }
        }
        let ghost h2 = self.heap@;
        self.set_instance_field(group, &String::from_str("name"), RuntimeValue::Object(Some(main)));
        self.set_instance_field(thread, &String::from_str("name"), RuntimeValue::Object(Some(main)));
        self.set_instance_field(thread, &String::from_str("priority"), RuntimeValue::from_int(1));
        self.set_instance_field(thread, &String::from_str("tid"), RuntimeValue::from_long(1));
        self.set_instance_field(thread, &String::from_str("threadStatus"), RuntimeValue::from_int(1));
        self.set_instance_field(thread, &String::from_str("group"), RuntimeValue::Object(Some(group)));
        proof {
            assert(self.heap@[main as int] == h2[main as int]);
        }
        self.main_thread = Some(thread);
        Some(thread)
    }
}

} // verus!
