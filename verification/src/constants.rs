//! Loading constants from the constant pool (`ldc`, `ldc_w`, `ldc2_w`) and the table of
//! interned strings.
use crate::classfile::text_at;
use crate::error::ExecError;
use crate::frame::{with_operands, Context, FrameState, Progression, ProgressionValue};
use crate::heap::{performs_on_heap, Heap, HeapObject, ObjectValue};
use crate::instruction::{Ldc, Ldc2W};
use crate::numeric::{Floating, FloatingType, Integral, IntegralType};
use crate::pool::{ConstantEntry, ConstantPool, EntryValue};
use crate::resolve::{entry_at, lookup_entry, text};
use crate::value::RuntimeValue;
use vstd::prelude::*;

verus! {

/// The strings interned so far, each with the reference of its string object.
#[derive(Debug, Clone)]
pub struct Interner {
    pub entries: Vec<(String, usize)>,
}

/// The interned strings as a mathematical value.
pub open spec fn interned(entries: Seq<(String, usize)>) -> Seq<(Seq<char>, usize)> {
    entries.map_values(|e: (String, usize)| (e.0@, e.1))
}

/// The index of the first entry for `s`.
pub open spec fn intern_index_from(entries: Seq<(Seq<char>, usize)>, s: Seq<char>, i: int) -> Option<int>
    decreases entries.len() - i,
{
    if i < 0 || i >= entries.len() {
        None
    } else if entries[i].0 == s {
        Some(i)
    } else {
        intern_index_from(entries, s, i + 1)
    }
}

/// What interning `s` does to a table `e` and a heap `h`, giving `r`, the table `e2`
/// and the heap `h2`: the first entry for `s` is reused when its object still holds
/// `s`; otherwise a new string object is added to the heap, and it takes the place of
/// that entry, or is added to the table when there is none.
pub open spec fn intern_post(
    e: Seq<(Seq<char>, usize)>,
    h: Seq<ObjectValue>,
    s: Seq<char>,
    r: usize,
    e2: Seq<(Seq<char>, usize)>,
    h2: Seq<ObjectValue>,
) -> bool {
    &&& r < h2.len()
    &&& h2[r as int] == ObjectValue::Str(s)
    &&& match intern_index_from(e, s, 0) {
        Some(i) => if e[i].1 < h.len() && h[e[i].1 as int] == ObjectValue::Str(s) {
            r == e[i].1 && h2 == h && e2 == e
        } else {
            r == h.len() && h2 == h.push(ObjectValue::Str(s)) && e2 == e.update(i, (s, r))
        },
        None => r == h.len() && h2 == h.push(ObjectValue::Str(s)) && e2 == e.push((s, r)),
    }
}

/// Every entry of the table names a string object that holds its text.
pub open spec fn intern_table_wf(e: Seq<(Seq<char>, usize)>, h: Seq<ObjectValue>) -> bool {
    forall|k: int| 0 <= k < e.len() ==> #[trigger] e[k].1 < h.len() && h[e[k].1 as int] == ObjectValue::Str(e[k].0)
}

/// Appending an entry for `s` to a table with no entry for `s` from `i` on makes the new
/// entry the first one for `s` from `i` on.
pub proof fn lemma_intern_index_push(e: Seq<(Seq<char>, usize)>, s: Seq<char>, x: usize, i: int)
    requires
        0 <= i <= e.len(),
        intern_index_from(e, s, i) is None,
    ensures
        intern_index_from(e.push((s, x)), s, i) == Some(e.len() as int),
    decreases e.len() - i,
{
    if i < e.len() {
        lemma_intern_index_push(e, s, x, i + 1);
    }
}

impl Interner {
    /// No interned strings.
    pub fn new() -> (r: Self)
        ensures
            r.entries@.len() == 0,
    {
        Interner { entries: Vec::new() }
    }

    /// The string object for `s`: the one interned before for the same text when it
    /// still holds that text, else a new one added to the heap and interned in place of
    /// the old entry, if any.
    pub fn intern(&mut self, heap: &mut Heap, s: String) -> (r: usize)
        ensures
            intern_post(interned(old(self).entries@), old(heap)@, s@, r, interned(final(self).entries@), final(heap)@),
    {
        let ghost e = interned(self.entries@);
        let mut i: usize = 0;
        while i < self.entries.len()
            invariant
                i <= self.entries@.len(),
                e == interned(self.entries@),
                self.entries@ == old(self).entries@,
                heap@ == old(heap)@,
                intern_index_from(e, s@, 0) == intern_index_from(e, s@, i as int),
            decreases self.entries@.len() - i,
        {
            if self.entries[i].0 == s {
                assert(e[i as int] == (self.entries@[i as int].0@, self.entries@[i as int].1));
                let r = self.entries[i].1;
                if r < heap.objects.len() {
                    let holds = match &heap.objects[r] {
                        HeapObject::Str(t) => *t == s,
                        _ => false,
                    };
                    if holds {
                        return r;
                    }
                }
                let text = s.clone();
                let fresh = heap.allocate(HeapObject::Str(text));
                self.entries.set(i, (s, fresh));
                assert(interned(self.entries@) =~= e.update(i as int, (s@, fresh)));
                return fresh;
            }
            i = i + 1;
        }
        let text = s.clone();
        let r = heap.allocate(HeapObject::Str(text));
        self.entries.push((s, r));
        assert(interned(self.entries@) =~= e.push((s@, r)));
        r
    }
}

/// The value `ldc` pushes for a constant pool entry other than a string: an `int` or a
/// `float`.
pub open spec fn ldc_plain(e: EntryValue) -> Option<RuntimeValue> {
    match e {
        EntryValue::Plain(ConstantEntry::Integer(c)) => Some(
            RuntimeValue::Integral(Integral { value: (c.bytes as i32) as i64, ty: IntegralType::Int }),
        ),
        EntryValue::Plain(ConstantEntry::Float(c)) => Some(
            RuntimeValue::Floating(Floating { bits: c.bytes as u64, ty: FloatingType::Float }),
        ),
        _ => None,
    }
}

/// The value `ldc2_w` pushes for a constant pool entry: a `long` or a `double`.
pub open spec fn ldc2_value(e: EntryValue) -> Option<RuntimeValue> {
    match e {
        EntryValue::Plain(ConstantEntry::Long(c)) => Some(
            RuntimeValue::Integral(Integral { value: c.bytes as i64, ty: IntegralType::Long }),
        ),
        EntryValue::Plain(ConstantEntry::Double(c)) => Some(
            RuntimeValue::Floating(Floating { bits: c.bytes, ty: FloatingType::Double }),
        ),
        _ => None,
    }
}

impl Ldc2W {
    pub open spec fn effect(&self, f: FrameState, pool: Seq<EntryValue>) -> Result<(FrameState, ProgressionValue), ExecError> {
        match entry_at(pool, self.index) {
            Some(e) => match ldc2_value(e) {
                Some(v) => Ok((with_operands(f, f.operands.push(v)), ProgressionValue::Next)),
                None => Err(ExecError::BadConstant(self.index)),
            },
            None => Err(ExecError::BadConstant(self.index)),
        }
    }

    pub fn handle(&self, ctx: &mut Context, pool: &ConstantPool) -> (r: Result<Progression, ExecError>)
        ensures
            crate::frame::performs(r, old(ctx)@, final(ctx)@, self.effect(old(ctx)@, pool@)),
    {
        let v = match lookup_entry(pool, self.index) {
            Some(ConstantEntry::Long(c)) => RuntimeValue::Integral(Integral { value: c.bytes as i64, ty: IntegralType::Long }),
            Some(ConstantEntry::Double(c)) => RuntimeValue::Floating(Floating { bits: c.bytes, ty: FloatingType::Double }),
            _ => return Err(ExecError::BadConstant(self.index)),
        };
        ctx.operands.push(v);
        Ok(Progression::Next)
    }
}

impl Ldc {
    /// An `int` or `float` entry pushes its value; a string entry pushes the interned
    /// string object for its text; any other entry is a fault.
    pub open spec fn effect(
        &self,
        f: FrameState,
        heap: Seq<ObjectValue>,
        strings: Seq<(Seq<char>, usize)>,
        pool: Seq<EntryValue>,
    ) -> Result<(FrameState, Seq<ObjectValue>, ProgressionValue), ExecError> {
        match entry_at(pool, self.index) {
            Some(EntryValue::Plain(ConstantEntry::String(c))) => match text_at(pool, c.string.spec_index()) {
                Some(t) => match intern_index_from(strings, t, 0) {
                    Some(i) if strings[i].1 < heap.len() && heap[strings[i].1 as int] == ObjectValue::Str(t) => Ok((
                        with_operands(f, f.operands.push(RuntimeValue::Object(Some(strings[i].1)))),
                        heap,
                        ProgressionValue::Next,
                    )),
                    _ => Ok((
                        with_operands(f, f.operands.push(RuntimeValue::Object(Some(heap.len() as usize)))),
                        heap.push(ObjectValue::Str(t)),
                        ProgressionValue::Next,
                    )),
                },
                None => Err(ExecError::BadConstant(self.index)),
            },
            Some(e) => match ldc_plain(e) {
                Some(v) => Ok((with_operands(f, f.operands.push(v)), heap, ProgressionValue::Next)),
                None => Err(ExecError::BadConstant(self.index)),
            },
            None => Err(ExecError::BadConstant(self.index)),
        }
    }

    pub fn handle(&self, ctx: &mut Context, heap: &mut Heap, strings: &mut Interner, pool: &ConstantPool) -> (r: Result<Progression, ExecError>)
        ensures
            performs_on_heap(
                r,
                old(ctx)@,
                final(ctx)@,
                old(heap)@,
                final(heap)@,
                self.effect(old(ctx)@, old(heap)@, interned(old(strings).entries@), pool@),
            ),
    {
        let v = match lookup_entry(pool, self.index) {
            Some(ConstantEntry::Integer(c)) => RuntimeValue::Integral(Integral { value: (c.bytes as i32) as i64, ty: IntegralType::Int }),
            Some(ConstantEntry::Float(c)) => RuntimeValue::Floating(Floating { bits: c.bytes as u64, ty: FloatingType::Float }),
            Some(ConstantEntry::String(c)) => {
                let t = match text(pool, c.string.index()) {
                    Some(t) => t,
                    None => return Err(ExecError::BadConstant(self.index)),
                };
                let r = strings.intern(heap, t);
                RuntimeValue::Object(Some(r))
            },
            _ => return Err(ExecError::BadConstant(self.index)),
        };
        ctx.operands.push(v);
        Ok(Progression::Next)
    }
}

} // verus!
