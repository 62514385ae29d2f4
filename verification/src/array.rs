//! The array instructions: creating arrays, their length, loading and storing elements.
use crate::arith::int_value;
use crate::error::{ExecError, VMError};
use crate::frame::{
    below, popped, with_operands, Context, FrameState, Progression, ProgressionValue, Throwable,
};
use crate::heap::{
    default_element, elements, is_array, null_pointer, out_of_bounds, performs_on_heap, Array,
    ArrayType, ArrayTypeValue, Heap, HeapObject, ObjectValue,
};
use crate::numeric::{ArrayPrimitive, IntegralType};
use crate::pool::ConstantPool;
use crate::resolve::{class_name, class_name_at};
use crate::value::RuntimeValue;
use vstd::prelude::*;
use vstd::string::*;

verus! {

/// The model of an array instruction: the frame, the heap and the progression after
/// it, or the fault.
pub type HeapEffect = Result<(FrameState, Seq<ObjectValue>, ProgressionValue), ExecError>;

/// What a reference on the operand stack names for an array instruction: an array,
/// `null`, or something that is not an array.
pub open spec fn array_ref(h: Seq<ObjectValue>, v: RuntimeValue) -> Result<Option<usize>, ExecError> {
    match v {
        RuntimeValue::Object(None) => Ok(None),
        RuntimeValue::Object(Some(r)) => if is_array(h, r) {
            Ok(Some(r))
        } else {
            Err(ExecError::NotArray)
        },
        _ => Err(ExecError::NotObject),
    }
}

fn exec_array_ref(heap: &Heap, v: RuntimeValue) -> (r: Result<Option<usize>, ExecError>)
    ensures
        r == array_ref(heap@, v),
{
    match v {
        RuntimeValue::Object(None) => Ok(None),
        RuntimeValue::Object(Some(r)) => {
            if r < heap.objects.len() {
                match &heap.objects[r] {
                    HeapObject::Array(_) => Ok(Some(r)),
                    _ => Err(ExecError::NotArray),
                }
            } else {
                Err(ExecError::NotArray)
            }
        },
        _ => Err(ExecError::NotObject),
    }
}

/// The `int` value of an operand, or the fault when it is not an `int`.
pub open spec fn int_operand(v: RuntimeValue) -> Result<i64, ExecError> {
    if v.is_int() {
        Ok(v.integral_value())
    } else {
        Err(ExecError::NotInt)
    }
}

fn exec_int_operand(v: RuntimeValue) -> (r: Result<i64, ExecError>)
    ensures
        r == int_operand(v),
{
    match v {
        RuntimeValue::Integral(i) => if i.ty == IntegralType::Int {
            Ok(i.value)
        } else {
            Err(ExecError::NotInt)
        },
        _ => Err(ExecError::NotInt),
    }
}

/// Pushes the length of the popped array.
#[derive(Debug, Clone, Copy)]
pub struct ArrayLength;

impl ArrayLength {
    pub open spec fn effect(&self, f: FrameState, h: Seq<ObjectValue>) -> HeapEffect {
        let s = f.operands;
        if s.len() < 1 {
            Err(ExecError::StackUnderflow)
        } else {
            match array_ref(h, below(s, 0)) {
                Err(e) => Err(e),
                Ok(None) => Ok((with_operands(f, s.drop_last()), h, null_pointer("arraylength"@))),
                Ok(Some(r)) => Ok((
                    with_operands(f, s.drop_last().push(int_value(elements(h, r).len() as i32))),
                    h,
                    ProgressionValue::Next,
                )),
            }
        }
    }

    pub fn handle(&self, ctx: &mut Context, heap: &mut Heap) -> (r: Result<Progression, ExecError>)
        ensures
            performs_on_heap(r, old(ctx)@, final(ctx)@, old(heap)@, final(heap)@, self.effect(old(ctx)@, old(heap)@)),
    {
        proof {
            reveal_strlit("arraylength");
        }
        let n = ctx.operands.len();
        if n < 1 {
            return Err(ExecError::StackUnderflow);
        }
        match exec_array_ref(heap, ctx.operands[n - 1])? {
            None => {
                ctx.operands.pop();
                Ok(throw_null("arraylength"))
            },
            Some(r) => {
                let len = heap.array_len(r);
                ctx.operands.pop();
                ctx.operands.push(RuntimeValue::from_int(len as i32));
                Ok(Progression::Next)
            },
        }
    }
}

/// The exception a `null` reference raises in the named instruction.
fn throw_null(ctx: &str) -> (r: Progression)
    ensures
        r@ == null_pointer(ctx@),
{
    Progression::Throw(Throwable::Error(VMError::NullPointerException { ctx: String::from_str(ctx) }))
}

/// Pops an index and an array and pushes the element at the index.
#[derive(Debug, Clone, Copy)]
pub struct ArrayLoad;

impl ArrayLoad {
    pub open spec fn effect(&self, f: FrameState, h: Seq<ObjectValue>) -> HeapEffect {
        let s = f.operands;
        if s.len() < 1 {
            Err(ExecError::StackUnderflow)
        } else {
            match int_operand(below(s, 0)) {
                Err(e) => Err(e),
                Ok(i) => if s.len() < 2 {
                    Err(ExecError::StackUnderflow)
                } else {
                    match array_ref(h, below(s, 1)) {
                        Err(e) => Err(e),
                        Ok(None) => Ok((with_operands(f, popped(s, 2)), h, null_pointer("arrayload"@))),
                        Ok(Some(r)) => if i < 0 || i >= elements(h, r).len() {
                            Ok((with_operands(f, popped(s, 2)), h, out_of_bounds(i)))
                        } else {
                            Ok((
                                with_operands(f, popped(s, 2).push(elements(h, r)[i as int])),
                                h,
                                ProgressionValue::Next,
                            ))
                        },
                    }
                },
            }
        }
    }

    pub fn handle(&self, ctx: &mut Context, heap: &mut Heap) -> (r: Result<Progression, ExecError>)
        ensures
            performs_on_heap(r, old(ctx)@, final(ctx)@, old(heap)@, final(heap)@, self.effect(old(ctx)@, old(heap)@)),
    {
        proof {
            reveal_strlit("arrayload");
        }
        let n = ctx.operands.len();
        if n < 1 {
            return Err(ExecError::StackUnderflow);
        }
        let i = exec_int_operand(ctx.operands[n - 1])?;
        if n < 2 {
            return Err(ExecError::StackUnderflow);
        }
        match exec_array_ref(heap, ctx.operands[n - 2])? {
            None => {
                ctx.operands.pop();
                ctx.operands.pop();
                Ok(throw_null("arrayload"))
            },
            Some(r) => {
                let len = heap.array_len(r);
                ctx.operands.pop();
                ctx.operands.pop();
                if i < 0 || i as u64 >= len as u64 {
                    Ok(Progression::Throw(Throwable::Error(VMError::ArrayIndexOutOfBounds { at: i })))
                } else {
                    let v = heap.array_get(r, i as usize);
                    ctx.operands.push(v);
                    Ok(Progression::Next)
                }
            },
        }
    }
}

/// Pops a value, an index and an array and stores the value at the index.
#[derive(Debug, Clone, Copy)]
pub struct ArrayStore;

/// The heap with element `i` of array `r` set to `v`.
pub open spec fn stored(h: Seq<ObjectValue>, r: usize, i: int, v: RuntimeValue) -> Seq<ObjectValue> {
    h.update(
        r as int,
        match h[r as int] {
            ObjectValue::Array { ty, values } => ObjectValue::Array { ty, values: values.update(i, v) },
            o => o,
        },
    )
}

impl ArrayStore {
    pub open spec fn effect(&self, f: FrameState, h: Seq<ObjectValue>) -> HeapEffect {
        let s = f.operands;
        if s.len() < 2 {
            Err(ExecError::StackUnderflow)
        } else {
            match int_operand(below(s, 1)) {
                Err(e) => Err(e),
                Ok(i) => if s.len() < 3 {
                    Err(ExecError::StackUnderflow)
                } else {
                    match array_ref(h, below(s, 2)) {
                        Err(e) => Err(e),
                        Ok(None) => Ok((with_operands(f, popped(s, 3)), h, null_pointer("arraystore"@))),
                        Ok(Some(r)) => if i < 0 || i >= elements(h, r).len() {
                            Ok((with_operands(f, popped(s, 3)), h, out_of_bounds(i)))
                        } else {
                            Ok((
                                with_operands(f, popped(s, 3)),
                                stored(h, r, i as int, below(s, 0)),
                                ProgressionValue::Next,
                            ))
                        },
                    }
                },
            }
        }
    }

    pub fn handle(&self, ctx: &mut Context, heap: &mut Heap) -> (r: Result<Progression, ExecError>)
        ensures
            performs_on_heap(r, old(ctx)@, final(ctx)@, old(heap)@, final(heap)@, self.effect(old(ctx)@, old(heap)@)),
    {
        proof {
            reveal_strlit("arraystore");
        }
        let n = ctx.operands.len();
        if n < 2 {
            return Err(ExecError::StackUnderflow);
        }
        let i = exec_int_operand(ctx.operands[n - 2])?;
        if n < 3 {
            return Err(ExecError::StackUnderflow);
        }
        match exec_array_ref(heap, ctx.operands[n - 3])? {
            None => {
                ctx.operands.pop();
                ctx.operands.pop();
                ctx.operands.pop();
                Ok(throw_null("arraystore"))
            },
            Some(r) => {
                let len = heap.array_len(r);
                let value = ctx.operands[n - 1];
                ctx.operands.pop();
                ctx.operands.pop();
                ctx.operands.pop();
                if i < 0 || i as u64 >= len as u64 {
                    Ok(Progression::Throw(Throwable::Error(VMError::ArrayIndexOutOfBounds { at: i })))
                } else {
                    heap.array_set(r, i as usize, value);
                    Ok(Progression::Next)
                }
            },
        }
    }
}

/// The length of a new array from the popped count: it must be an `int` from 0 to
/// `i32::MAX`.
pub open spec fn new_length(v: RuntimeValue) -> Result<usize, ExecError> {
    match int_operand(v) {
        Err(e) => Err(e),
        Ok(c) => if c < 0 || c > i32::MAX {
            Err(ExecError::BadArraySize)
        } else {
            Ok(c as usize)
        },
    }
}

fn exec_new_length(v: RuntimeValue) -> (r: Result<usize, ExecError>)
    ensures
        r == new_length(v),
{
    let c = exec_int_operand(v)?;
    if c < 0 || c > i32::MAX as i64 {
        Err(ExecError::BadArraySize)
    } else {
        Ok(c as usize)
    }
}

/// `n` copies of `v`.
fn filled(v: RuntimeValue, n: usize) -> (r: Vec<RuntimeValue>)
    ensures
        r@ == Seq::new(n as nat, |i: int| v),
{
    let mut out: Vec<RuntimeValue> = Vec::new();
    let mut k: usize = 0;
    while k < n
        invariant
            k <= n,
            out@ =~= Seq::new(k as nat, |i: int| v),
        decreases n - k,
    {
        out.push(v);
        k = k + 1;
    }
    out
}

/// Pops a count and pushes a reference to a new array of a primitive type, whose
/// elements are zero.
#[derive(Debug, Clone, Copy)]
pub struct NewArray {
    pub type_tag: u8,
}

impl NewArray {
    pub open spec fn effect(&self, f: FrameState, h: Seq<ObjectValue>) -> HeapEffect {
        let s = f.operands;
        if s.len() < 1 {
            Err(ExecError::StackUnderflow)
        } else {
            match new_length(below(s, 0)) {
                Err(e) => Err(e),
                Ok(n) => if !ArrayPrimitive::is_tag(self.type_tag) {
                    Err(ExecError::BadArrayType(self.type_tag))
                } else {
                    let ty = ArrayPrimitive::spec_from_tag(self.type_tag);
                    Ok((
                        with_operands(f, s.drop_last().push(RuntimeValue::Object(Some(h.len() as usize)))),
                        h.push(ObjectValue::Array {
                            ty: ArrayTypeValue::Primitive(ty),
                            values: Seq::new(n as nat, |i: int| default_element(ty)),
                        }),
                        ProgressionValue::Next,
                    ))
                },
            }
        }
    }

    pub fn handle(&self, ctx: &mut Context, heap: &mut Heap) -> (r: Result<Progression, ExecError>)
        ensures
            performs_on_heap(r, old(ctx)@, final(ctx)@, old(heap)@, final(heap)@, self.effect(old(ctx)@, old(heap)@)),
    {
        let n = ctx.operands.len();
        if n < 1 {
            return Err(ExecError::StackUnderflow);
        }
        let count = exec_new_length(ctx.operands[n - 1])?;
        let ty = ArrayPrimitive::from_tag(self.type_tag)?;
        let values = filled(crate::heap::zero_element(ty), count);
        let r = heap.allocate(HeapObject::Array(Array { ty: ArrayType::Primitive(ty), values }));
        ctx.operands.pop();
        ctx.operands.push(RuntimeValue::Object(Some(r)));
        Ok(Progression::Next)
    }
}

/// Pops a count and pushes a reference to a new array of references to the class that
/// constant pool entry `type_index` names, whose elements are `null`.
#[derive(Debug, Clone, Copy)]
pub struct ANewArray {
    pub type_index: u16,
}

impl ANewArray {
    pub open spec fn effect(&self, f: FrameState, h: Seq<ObjectValue>, pool: Seq<crate::pool::EntryValue>) -> HeapEffect {
        let s = f.operands;
        if s.len() < 1 {
            Err(ExecError::StackUnderflow)
        } else {
            match new_length(below(s, 0)) {
                Err(e) => Err(e),
                Ok(n) => match class_name_at(pool, self.type_index) {
                    None => Err(ExecError::BadConstant(self.type_index)),
                    Some(name) => Ok((
                        with_operands(f, s.drop_last().push(RuntimeValue::Object(Some(h.len() as usize)))),
                        h.push(ObjectValue::Array {
                            ty: ArrayTypeValue::Object(name),
                            values: Seq::new(n as nat, |i: int| RuntimeValue::Object(None)),
                        }),
                        ProgressionValue::Next,
                    )),
                },
            }
        }
    }

    pub fn handle(&self, ctx: &mut Context, heap: &mut Heap, pool: &ConstantPool) -> (r: Result<Progression, ExecError>)
        ensures
            performs_on_heap(r, old(ctx)@, final(ctx)@, old(heap)@, final(heap)@, self.effect(old(ctx)@, old(heap)@, pool@)),
    {
        let n = ctx.operands.len();
        if n < 1 {
            return Err(ExecError::StackUnderflow);
        }
        let count = exec_new_length(ctx.operands[n - 1])?;
        let name = match class_name(pool, self.type_index) {
            Some(name) => name,
            None => return Err(ExecError::BadConstant(self.type_index)),
        };
        let values = filled(RuntimeValue::Object(None), count);
        let r = heap.allocate(HeapObject::Array(Array { ty: ArrayType::Object(name), values }));
        ctx.operands.pop();
        ctx.operands.push(RuntimeValue::Object(Some(r)));
        Ok(Progression::Next)
    }
}

} // verus!
