//! The instance field instructions: `getfield` and `putfield`.
use crate::classes::slot_index_from;
use crate::error::{ExecError, VMError};
use crate::frame::{below, popped, with_operands, Context, FrameState, Progression, ProgressionValue, Throwable};
use crate::heap::{instance_fields, is_instance, null_pointer, performs_on_heap, with_field, Heap, ObjectValue};
use crate::instruction::{GetField, PutField};
use crate::pool::{ConstantPool, EntryValue};
use crate::resolve::{member_at, member_ref, MemberKind};
use crate::value::RuntimeValue;
use vstd::prelude::*;
use vstd::string::*;

verus! {

/// What a reference names for a field instruction: an instance, `null`, or something
/// else.
pub open spec fn instance_ref(h: Seq<ObjectValue>, v: RuntimeValue) -> Result<Option<usize>, ExecError> {
    match v {
        RuntimeValue::Object(None) => Ok(None),
        RuntimeValue::Object(Some(r)) => if is_instance(h, r) {
            Ok(Some(r))
        } else {
            Err(ExecError::NotInstance)
        },
        _ => Err(ExecError::NotObject),
    }
}

fn exec_instance_ref(heap: &Heap, v: RuntimeValue) -> (r: Result<Option<usize>, ExecError>)
    ensures
        r == instance_ref(heap@, v),
{
    match v {
        RuntimeValue::Object(None) => Ok(None),
        RuntimeValue::Object(Some(r)) => {
            if r < heap.objects.len() {
                match &heap.objects[r] {
                    crate::heap::HeapObject::Instance(_) => Ok(Some(r)),
                    _ => Err(ExecError::NotInstance),
                }
            } else {
                Err(ExecError::NotInstance)
            }
        },
        _ => Err(ExecError::NotObject),
    }
}

fn throw_null(ctx: &str) -> (r: Progression)
    ensures
        r@ == null_pointer(ctx@),
{
    Progression::Throw(Throwable::Error(VMError::NullPointerException { ctx: String::from_str(ctx) }))
}

impl GetField {
    /// The field is looked up in the object by the name and descriptor of the field
    /// reference; a `null` object raises a `NullPointerException`.
    pub open spec fn effect(&self, f: FrameState, h: Seq<ObjectValue>, pool: Seq<EntryValue>) -> Result<(FrameState, Seq<ObjectValue>, ProgressionValue), ExecError> {
        let s = f.operands;
        match member_at(pool, self.index, MemberKind::Field) {
            None => Err(ExecError::BadConstant(self.index)),
            Some(m) => if s.len() < 1 {
                Err(ExecError::StackUnderflow)
            } else {
                match instance_ref(h, below(s, 0)) {
                    Err(e) => Err(e),
                    Ok(None) => Ok((with_operands(f, s.drop_last()), h, null_pointer("getfield"@))),
                    Ok(Some(r)) => match slot_index_from(instance_fields(h, r), m.name, m.descriptor, 0) {
                        None => Err(ExecError::NoSuchField),
                        Some(i) => Ok((
                            with_operands(f, s.drop_last().push(instance_fields(h, r)[i].value)),
                            h,
                            ProgressionValue::Next,
                        )),
                    },
                }
            },
        }
    }

    pub fn handle(&self, ctx: &mut Context, heap: &mut Heap, pool: &ConstantPool) -> (r: Result<Progression, ExecError>)
        ensures
            performs_on_heap(r, old(ctx)@, final(ctx)@, old(heap)@, final(heap)@, self.effect(old(ctx)@, old(heap)@, pool@)),
    {
        proof {
            reveal_strlit("getfield");
        }
        let m = match member_ref(pool, self.index, MemberKind::Field) {
            Some(m) => m,
            None => return Err(ExecError::BadConstant(self.index)),
        };
        let n = ctx.operands.len();
        if n < 1 {
            return Err(ExecError::StackUnderflow);
        }
        match exec_instance_ref(heap, ctx.operands[n - 1])? {
            None => {
                ctx.operands.pop();
                Ok(throw_null("getfield"))
            },
            Some(r) => match heap.find_field(r, &m.name, &m.descriptor) {
                None => Err(ExecError::NoSuchField),
                Some(i) => {
                    proof {
                        crate::classes::lemma_slot_index_bounds(instance_fields(heap@, r), m.name@, m.descriptor@, 0);
                    }
                    let v = heap.field_value(r, i);
                    ctx.operands.pop();
                    ctx.operands.push(v);
                    Ok(Progression::Next)
                },
            },
        }
    }
}

impl PutField {
    /// The popped value is stored in the field of the popped object named by the field
    /// reference; a `null` object raises a `NullPointerException`.
    pub open spec fn effect(&self, f: FrameState, h: Seq<ObjectValue>, pool: Seq<EntryValue>) -> Result<(FrameState, Seq<ObjectValue>, ProgressionValue), ExecError> {
        let s = f.operands;
        match member_at(pool, self.index, MemberKind::Field) {
            None => Err(ExecError::BadConstant(self.index)),
            Some(m) => if s.len() < 2 {
                Err(ExecError::StackUnderflow)
            } else {
                match instance_ref(h, below(s, 1)) {
                    Err(e) => Err(e),
                    Ok(None) => Ok((with_operands(f, popped(s, 2)), h, null_pointer("putfield"@))),
                    Ok(Some(r)) => match slot_index_from(instance_fields(h, r), m.name, m.descriptor, 0) {
                        None => Err(ExecError::NoSuchField),
                        Some(i) => Ok((
                            with_operands(f, popped(s, 2)),
                            with_field(h, r, i, below(s, 0)),
                            ProgressionValue::Next,
                        )),
                    },
                }
            },
        }
    }

    pub fn handle(&self, ctx: &mut Context, heap: &mut Heap, pool: &ConstantPool) -> (r: Result<Progression, ExecError>)
        ensures
            performs_on_heap(r, old(ctx)@, final(ctx)@, old(heap)@, final(heap)@, self.effect(old(ctx)@, old(heap)@, pool@)),
    {
        proof {
            reveal_strlit("putfield");
        }
        let m = match member_ref(pool, self.index, MemberKind::Field) {
            Some(m) => m,
            None => return Err(ExecError::BadConstant(self.index)),
        };
        let n = ctx.operands.len();
        if n < 2 {
            return Err(ExecError::StackUnderflow);
        }
        match exec_instance_ref(heap, ctx.operands[n - 2])? {
            None => {
                ctx.operands.pop();
                ctx.operands.pop();
                Ok(throw_null("putfield"))
            },
            Some(r) => match heap.find_field(r, &m.name, &m.descriptor) {
                None => Err(ExecError::NoSuchField),
                Some(i) => {
                    proof {
                        crate::classes::lemma_slot_index_bounds(instance_fields(heap@, r), m.name@, m.descriptor@, 0);
                    }
                    let v = ctx.operands[n - 1];
                    heap.set_field(r, i, v);
                    ctx.operands.pop();
                    ctx.operands.pop();
                    Ok(Progression::Next)
                },
            },
        }
    }
}

} // verus!
