//! Properties of the interpreter that relate several instructions or calls.
use crate::arith::{int_value, ArithOp};
use crate::constants::{intern_index_from, intern_post, intern_table_wf, lemma_intern_index_push};
use crate::array::{ArrayLength, ArrayLoad, ArrayStore, NewArray};
use crate::classes::{lemma_slot_index_bounds, lemma_slot_index_same_keys, slot_index_from, LoadedClass};
use crate::heap::{instance_fields, is_instance, with_field, FieldSlotValue};
use crate::instruction::{GetField, PutField};
use crate::pool::EntryValue;
use crate::natives::{put_at, value_at};
use crate::resolve::{member_at, MemberKind};
use crate::error::ExecError;
use crate::frame::{FrameState, ProgressionValue};
use crate::heap::{elements, is_array, ObjectValue};
use crate::layout::{
    extend_from, field_layout, instance_info, instances_from, round_up, spec_basic_layout, valid_layout, Layout,
};
use crate::classfile::ClassFileValue;
use crate::machine::{initialises, is_wide, lemma_same_classes_index, uninitialised_top, widened, InitStep, Vm};
use crate::numeric::{ArrayPrimitive, Integral, IntegralType};
use crate::stack::{Dup, LoadLocal, Pop, PushConst, StoreLocal};
use crate::statics::{StaticFieldKey, StaticFields};
use crate::value::RuntimeValue;
use vstd::prelude::*;

verus! {

/// Storing the top of the operand stack into a local variable and loading that local
/// variable again leaves the operand stack as it was.
pub proof fn law_store_then_load(f: FrameState, index: usize, store_next: bool)
    requires
        f.operands.len() >= 1,
        index < usize::MAX,
    ensures
        (StoreLocal { index, store_next }).effect(f) is Ok,
        ({
            let (f1, p1) = (StoreLocal { index, store_next }).effect(f)->Ok_0;
            &&& p1 == ProgressionValue::Next
            &&& (LoadLocal { index }).effect(f1) is Ok
            &&& ({
                let (f2, p2) = (LoadLocal { index }).effect(f1)->Ok_0;
                p2 == ProgressionValue::Next && f2.operands =~= f.operands && f2.locals == f1.locals
            })
        }),
{
    let v = f.operands.last();
    let f1 = ((StoreLocal { index, store_next }).effect(f)->Ok_0).0;
    assert(f1.locals[index as int] == v);
    assert(f.operands.drop_last().push(v) =~= f.operands);
}

/// Duplicating the top value and popping one value leaves the operand stack as it was.
pub proof fn law_dup_then_pop(f: FrameState)
    requires
        f.operands.len() >= 1,
    ensures
        Dup.effect(f) is Ok,
        (Pop { amount: 1 }).effect((Dup.effect(f)->Ok_0).0) is Ok,
        ({
            let f2 = ((Pop { amount: 1 }).effect((Dup.effect(f)->Ok_0).0)->Ok_0).0;
            f2.operands =~= f.operands && f2.locals == f.locals && f2.pc == f.pc
        }),
{
    let f1 = (Dup.effect(f)->Ok_0).0;
    assert(f1.operands.subrange(0, f1.operands.len() - 1) =~= f.operands);
}

/// Pushing a constant and popping one value leaves the operand stack as it was.
pub proof fn law_push_then_pop(f: FrameState, value: RuntimeValue)
    ensures
        (Pop { amount: 1 }).effect(((PushConst { value }).effect(f)->Ok_0).0) is Ok,
        ({
            let f2 = ((Pop { amount: 1 }).effect(((PushConst { value }).effect(f)->Ok_0).0)->Ok_0).0;
            f2.operands =~= f.operands && f2.locals == f.locals
        }),
{
    let f1 = ((PushConst { value }).effect(f)->Ok_0).0;
    assert(f1.operands.subrange(0, f1.operands.len() - 1) =~= f.operands);
}

/// The frame `f` with an array reference, an index and (for a store) a value on top.
pub open spec fn with_top(f: FrameState, vals: Seq<RuntimeValue>) -> FrameState {
    FrameState { pc: f.pc, operands: f.operands + vals, locals: f.locals }
}

/// Storing a value into an element of an array and loading that element again gives
/// back the value.
pub proof fn law_array_store_then_load(f: FrameState, h: Seq<ObjectValue>, r: usize, i: i32, v: RuntimeValue)
    requires
        is_array(h, r),
        0 <= i < elements(h, r).len(),
    ensures
        ({
            let reference = RuntimeValue::Object(Some(r));
            let index = int_value(i);
            let stored = ArrayStore.effect(with_top(f, seq![reference, index, v]), h);
            &&& stored is Ok
            &&& (stored->Ok_0).2 == ProgressionValue::Next
            &&& ({
                let (f1, h1, p1) = stored->Ok_0;
                let loaded = ArrayLoad.effect(with_top(f1, seq![reference, index]), h1);
                &&& loaded is Ok
                &&& (loaded->Ok_0).2 == ProgressionValue::Next
                &&& (loaded->Ok_0).0.operands =~= f.operands.push(v)
                &&& (loaded->Ok_0).1 == h1
            })
        }),
{
    let reference = RuntimeValue::Object(Some(r));
    let index = int_value(i);
    let g = with_top(f, seq![reference, index, v]);
    assert(g.operands.subrange(0, g.operands.len() - 3) =~= f.operands);
    let (f1, h1, p1) = ArrayStore.effect(g, h)->Ok_0;
    assert(f1.operands =~= f.operands);
    assert(is_array(h1, r));
    assert(elements(h1, r)[i as int] == v);
    let g2 = with_top(f1, seq![reference, index]);
    assert(g2.operands.subrange(0, g2.operands.len() - 2) =~= f.operands);
}

/// The length of a new array is the count it was created with.
pub proof fn law_new_array_length(f: FrameState, h: Seq<ObjectValue>, type_tag: u8, count: i32)
    requires
        ArrayPrimitive::is_tag(type_tag),
        count >= 0,
        h.len() < usize::MAX,
    ensures
        (NewArray { type_tag }).effect(with_top(f, seq![int_value(count)]), h) is Ok,
        ({
            let (f1, h1, _) = (NewArray { type_tag }).effect(with_top(f, seq![int_value(count)]), h)->Ok_0;
            ArrayLength.effect(f1, h1) is Ok && (ArrayLength.effect(f1, h1)->Ok_0).0.operands =~= f.operands.push(int_value(count))
        }),
{
    let g = with_top(f, seq![int_value(count)]);
    assert(g.operands.drop_last() =~= f.operands);
    let (f1, h1, _) = (NewArray { type_tag }).effect(g, h)->Ok_0;
    let r = h.len() as usize;
    assert(is_array(h1, r));
    assert(elements(h1, r).len() == count);
    assert(f1.operands.drop_last() =~= f.operands);
}

/// `int` addition and multiplication do not depend on the order of their operands.
pub proof fn law_int_add_mul_commute(a: i64, b: i64)
    ensures
        ArithOp::Iadd.result(a, b) == ArithOp::Iadd.result(b, a),
        ArithOp::Imul.result(a, b) == ArithOp::Imul.result(b, a),
        ArithOp::Ladd.result(a, b) == ArithOp::Ladd.result(b, a),
{
    assert((a as i32) * (b as i32) == (b as i32) * (a as i32)) by (nonlinear_arith);
}

/// `int` quotient and remainder fit together: when both are defined,
/// `(a / b) * b + a % b == a`.
pub proof fn law_int_div_rem(a: i32, b: i32)
    requires
        b != 0,
        !(a == i32::MIN && b == -1),
    ensures
        ArithOp::Idiv.result(a as i64, b as i64) is Ok,
        ArithOp::Irem.result(a as i64, b as i64) is Ok,
        (ArithOp::Idiv.result(a as i64, b as i64)->Ok_0).integral_value() * (b as int) + (ArithOp::Irem.result(
            a as i64,
            b as i64,
        )->Ok_0).integral_value() == a,
{
    let x = a as int;
    let d = b as int;
    if x > 0 && d > 0 {
        assert((x / d) * d + x % d == x && 0 <= x / d <= x && 0 <= x % d < d) by (nonlinear_arith)
            requires
                d > 0,
                x > 0,
        ;
    } else if x < 0 && d < 0 {
        assert(((x * -1) / (d * -1)) * d + ((x * -1) % (d * -1)) * -1 == x && 0 <= (x * -1) / (d * -1) <= x * -1
            && 0 <= (x * -1) % (d * -1) < d * -1) by (nonlinear_arith)
            requires
                d < 0,
                x < 0,
        ;
        if d < -1 {
            assert(2 * ((x * -1) / (d * -1)) <= x * -1) by (nonlinear_arith)
                requires
                    d < -1,
                    x < 0,
            ;
        }
    } else if x < 0 && d > 0 {
        assert((((x * -1) / d) * -1) * d + ((x * -1) % d) * -1 == x && 0 <= (x * -1) / d <= x * -1
            && 0 <= (x * -1) % d < d) by (nonlinear_arith)
            requires
                d > 0,
                x < 0,
        ;
    } else if x > 0 && d < 0 {
        assert(((x / (d * -1)) * -1) * d + x % (d * -1) == x && 0 <= x / (d * -1) <= x && 0 <= x % (d * -1) < d * -1)
            by (nonlinear_arith)
            requires
                d < 0,
                x > 0,
        ;
    }
    assert((a as i64) as i32 == a);
    assert((b as i64) as i32 == b);
    let q = a.checked_div(b);
    let m = a.checked_rem(b);
    assert(q is Some);
    assert(m is Some);
}

/// A local variable layout gives a `long` or `double` argument two slots and any other
/// argument one.
pub open spec fn slots(vals: Seq<RuntimeValue>) -> int
    decreases vals.len(),
{
    if vals.len() == 0 {
        0
    } else {
        slots(vals.drop_last()) + if is_wide(vals.last()) { 2int } else { 1int }
    }
}

/// The local variables a call passes take one slot per argument and one more per
/// `long` or `double` argument.
pub proof fn law_widened_length(vals: Seq<RuntimeValue>)
    ensures
        widened(vals).len() == slots(vals),
    decreases vals.len(),
{
    if vals.len() > 0 {
        law_widened_length(vals.drop_last());
    }
}

/// A layout that extends another places the new part at an offset aligned for it, after
/// the old part, and ends where the new part ends.
pub proof fn law_extend_places_after(l: Layout, next: Layout)
    requires
        next.align > 0,
        l.spec_extend(next) is Some,
    ensures
        ({
            let (joined, offset) = l.spec_extend(next)->0;
            &&& offset % (next.align as int) == 0
            &&& l.size <= offset
            &&& joined.size == offset + next.size
            &&& joined.align >= l.align && joined.align >= next.align
        }),
{
    let s = l.size as int;
    let a = next.align as int;
    assert(round_up(s, a) % a == 0 && s <= round_up(s, a)) by (nonlinear_arith)
        requires
            a > 0,
            round_up(s, a) == if s % a == 0 { s } else { s + (a - s % a) },
    {
        assert(0 <= s % a < a);
        assert(s == (s / a) * a + s % a);
        if s % a != 0 {
            assert(s + (a - s % a) == (s / a + 1) * a);
        }
    }
}

/// A static field set to a value reads back as that value, and the other fields are
/// unchanged.
pub proof fn law_static_set_then_get(before: StaticFields, after: StaticFields, key: StaticFieldKey, value: RuntimeValue)
    requires
        after.as_map() == before.as_map().insert(key, value),
    ensures
        after.as_map().dom().contains(key),
        after.as_map()[key] == value,
        forall|k: StaticFieldKey| k != key ==> (#[trigger] after.as_map().dom().contains(k)) == before.as_map().dom().contains(k),
{
}


/// Interning the same text twice gives the same string object, and the second call
/// changes neither the table nor the heap. A table whose every entry names a string
/// object holding its text keeps that property.
pub proof fn law_intern_twice(
    e0: Seq<(Seq<char>, usize)>,
    h0: Seq<ObjectValue>,
    s: Seq<char>,
    r1: usize,
    e1: Seq<(Seq<char>, usize)>,
    h1: Seq<ObjectValue>,
    r2: usize,
    e2: Seq<(Seq<char>, usize)>,
    h2: Seq<ObjectValue>,
)
    requires
        intern_post(e0, h0, s, r1, e1, h1),
        intern_post(e1, h1, s, r2, e2, h2),
    ensures
        r2 == r1,
        e2 == e1,
        h2 == h1,
        intern_table_wf(e0, h0) ==> intern_table_wf(e1, h1),
{
    match intern_index_from(e0, s, 0) {
        Some(i) => {
            lemma_intern_index_bounds(e0, s, 0);
            if e0[i].1 < h0.len() && h0[e0[i].1 as int] == ObjectValue::Str(s) {
            } else {
                lemma_intern_index_same(e0, e1, s, i, 0);
                assert(e1[i] == (s, r1));
                assert forall|k: int| 0 <= k < e1.len() && intern_table_wf(e0, h0) implies #[trigger] e1[k].1 < h1.len()
                    && h1[e1[k].1 as int] == ObjectValue::Str(e1[k].0) by {
                    if k != i {
                        assert(e1[k] == e0[k]);
                    }
                }
            }
        },
        None => {
            lemma_intern_index_push(e0, s, r1, 0);
            assert(e1[e0.len() as int] == (s, r1));
            assert forall|k: int| 0 <= k < e1.len() && intern_table_wf(e0, h0) implies #[trigger] e1[k].1 < h1.len()
                && h1[e1[k].1 as int] == ObjectValue::Str(e1[k].0) by {
                if k < e0.len() {
                    assert(e1[k] == e0[k]);
                }
            }
        },
    }
}

/// Putting an entry for `s` in place of the first entry for `s` keeps it first.
proof fn lemma_intern_index_same(e: Seq<(Seq<char>, usize)>, e1: Seq<(Seq<char>, usize)>, s: Seq<char>, i: int, k: int)
    requires
        intern_index_from(e, s, 0) == Some(i),
        0 <= k <= i,
        intern_index_from(e, s, k) == Some(i),
        e1.len() == e.len(),
        e1[i].0 == s,
        forall|j: int| 0 <= j < e.len() && j != i ==> #[trigger] e1[j] == e[j],
    ensures
        intern_index_from(e1, s, k) == Some(i),
    decreases i - k,
{
    if k < i {
        assert(e1[k] == e[k]);
        lemma_intern_index_same(e, e1, s, i, k + 1);
    }
}

/// The first entry for a text, when there is one, is an entry of the table that holds
/// that text.
proof fn lemma_intern_index_bounds(e: Seq<(Seq<char>, usize)>, s: Seq<char>, i: int)
    ensures
        intern_index_from(e, s, i) matches Some(k) ==> i <= k < e.len() && e[k].0 == s,
    decreases e.len() - i,
{
    if 0 <= i < e.len() && e[i].0 != s {
        lemma_intern_index_bounds(e, s, i + 1);
    }
}



/// Storing a value into a field of an object (`putfield`) and loading the same field
/// again (`getfield`) gives back the value, and the load leaves the heap as the store
/// left it.
pub proof fn law_field_store_then_load(
    f: FrameState,
    h: Seq<ObjectValue>,
    pool: Seq<EntryValue>,
    index: u16,
    r: usize,
    v: RuntimeValue,
)
    requires
        is_instance(h, r),
        member_at(pool, index, MemberKind::Field) matches Some(m) && slot_index_from(
            instance_fields(h, r),
            m.name,
            m.descriptor,
            0,
        ) is Some,
    ensures
        ({
            let reference = RuntimeValue::Object(Some(r));
            let stored = (PutField { index }).effect(with_top(f, seq![reference, v]), h, pool);
            &&& stored is Ok
            &&& (stored->Ok_0).2 == ProgressionValue::Next
            &&& ({
                let (f1, h1, p1) = stored->Ok_0;
                let loaded = (GetField { index }).effect(with_top(f1, seq![reference]), h1, pool);
                &&& loaded is Ok
                &&& (loaded->Ok_0).2 == ProgressionValue::Next
                &&& (loaded->Ok_0).0.operands =~= f.operands.push(v)
                &&& (loaded->Ok_0).1 == h1
            })
        }),
{
    let reference = RuntimeValue::Object(Some(r));
    let m = member_at(pool, index, MemberKind::Field)->0;
    let g = with_top(f, seq![reference, v]);
    assert(g.operands.subrange(0, g.operands.len() - 2) =~= f.operands);
    let i = slot_index_from(instance_fields(h, r), m.name, m.descriptor, 0)->0;
    lemma_slot_index_bounds(instance_fields(h, r), m.name, m.descriptor, 0);
    let (f1, h1, p1) = (PutField { index }).effect(g, h, pool)->Ok_0;
    assert(h1 == with_field(h, r, i, v));
    assert(f1.operands =~= f.operands);
    assert(is_instance(h1, r));
    let a = instance_fields(h, r);
    let b = instance_fields(h1, r);
    assert(b == a.update(i, FieldSlotValue { name: a[i].name, descriptor: a[i].descriptor, value: v }));
    assert forall|k: int| 0 <= k < a.len() implies #[trigger] a[k].name == b[k].name && a[k].descriptor == b[k].descriptor by {}
    lemma_slot_index_same_keys(a, b, m.name, m.descriptor, 0);
    assert(b[i].value == v);
    let g2 = with_top(f1, seq![reference]);
    assert(g2.operands.drop_last() =~= f.operands);
}


/// Rounding up to a positive alignment gives a multiple of it, no smaller.
proof fn lemma_round_up(s: int, a: int)
    requires
        a > 0,
        s >= 0,
    ensures
        round_up(s, a) % a == 0,
        s <= round_up(s, a),
{
    assert(round_up(s, a) % a == 0 && s <= round_up(s, a)) by (nonlinear_arith)
        requires
            a > 0,
            round_up(s, a) == if s % a == 0 { s } else { s + (a - s % a) },
    {
        assert(0 <= s % a < a);
        assert(s == (s / a) * a + s % a);
        if s % a != 0 {
            assert(s + (a - s % a) == (s / a + 1) * a);
        }
    }
}

/// Laying out the layouts from `i` on one after the other after `l` places each at an
/// offset aligned for it, at or after the end of `l`, before the next one, and within
/// the result.
proof fn lemma_extend_from_places(l: Layout, ls: Seq<Layout>, i: int)
    requires
        0 <= i <= ls.len(),
        forall|k: int| 0 <= k < ls.len() ==> #[trigger] ls[k].align > 0,
        extend_from(l, ls, i) is Some,
    ensures
        ({
            let (last, offs) = extend_from(l, ls, i)->0;
            &&& offs.len() == ls.len() - i
            &&& l.size <= last.size
            &&& forall|j: int| 0 <= j < offs.len() ==> ((#[trigger] offs[j]) as int) % (ls[i + j].align as int) == 0
            &&& forall|j: int| 0 <= j < offs.len() ==> l.size <= #[trigger] offs[j]
            &&& forall|j: int| 0 <= j < offs.len() ==> #[trigger] offs[j] + ls[i + j].size <= last.size
            &&& forall|j: int| 0 <= j < offs.len() - 1 ==> #[trigger] offs[j] + ls[i + j].size <= offs[j + 1]
        }),
    decreases ls.len() - i,
{
    if i < ls.len() {
        let (l2, o) = l.spec_extend(ls[i])->0;
        assert(ls[i].align > 0);
        law_extend_places_after(l, ls[i]);
        lemma_extend_from_places(l2, ls, i + 1);
        let (last, rest) = extend_from(l2, ls, i + 1)->0;
        let offs = (extend_from(l, ls, i)->0).1;
        assert(offs == seq![o as usize] + rest);
        assert(o as usize == o);
        assert forall|j: int| 0 <= j < offs.len() implies ((#[trigger] offs[j]) as int) % (ls[i + j].align as int) == 0 by {
            if j > 0 {
                assert(offs[j] == rest[j - 1]);
                assert(i + 1 + (j - 1) == i + j);
            }
        }
        assert forall|j: int| 0 <= j < offs.len() implies l.size <= #[trigger] offs[j] by {
            if j > 0 {
                assert(offs[j] == rest[j - 1]);
            }
        }
        assert forall|j: int| 0 <= j < offs.len() implies #[trigger] offs[j] + ls[i + j].size <= last.size by {
            if j > 0 {
                assert(offs[j] == rest[j - 1]);
                assert(i + 1 + (j - 1) == i + j);
            }
        }
        assert forall|j: int| 0 <= j < offs.len() - 1 implies #[trigger] offs[j] + ls[i + j].size <= offs[j + 1] by {
            assert(offs[j + 1] == rest[j]);
            if j > 0 {
                assert(offs[j] == rest[j - 1]);
                assert(i + 1 + (j - 1) == i + j);
            }
        }
    }
}

/// With a reference layout of nonzero alignment, every field layout has a nonzero
/// alignment.
proof fn lemma_instances_aligned(pool: Seq<EntryValue>, fields: Seq<crate::classfile::FieldValue>, word: Layout, i: int)
    requires
        word.align > 0,
        instances_from(pool, fields, word, i) is Some,
    ensures
        forall|k: int|
            0 <= k < instances_from(pool, fields, word, i)->0.len() ==> (#[trigger] instances_from(pool, fields, word, i)->0[k]).2.align > 0,
    decreases fields.len() - i,
{
    if 0 <= i < fields.len() {
        lemma_instances_aligned(pool, fields, word, i + 1);
        if !crate::classes::is_static_field(fields[i]) {
            let x = instance_info(pool, fields[i], word)->0;
            let rest = instances_from(pool, fields, word, i + 1)->0;
            let all = instances_from(pool, fields, word, i)->0;
            assert(all == seq![x] + rest);
            assert forall|k: int| 0 <= k < all.len() implies (#[trigger] all[k]).2.align > 0 by {
                if k > 0 {
                    assert(all[k] == rest[k - 1]);
                }
            }
        }
    }
}

/// The instance fields of a class's layout do not overlap: each lies at an offset
/// aligned for its type, at or after the end of the base, before the next field, and
/// within the instance, whose size is a multiple of its alignment.
pub proof fn law_instance_fields_do_not_overlap(file: ClassFileValue, base: Layout, word: Layout)
    requires
        word.align > 0,
        spec_basic_layout(file, base, word) is Ok,
    ensures
        ({
            let v = spec_basic_layout(file, base, word)->Ok_0;
            let inst = instances_from(file.constant_pool, file.fields, word, 0)->0;
            &&& v.offsets.len() == inst.len()
            &&& (v.layout.size as int) % (v.layout.align as int) == 0
            &&& forall|j: int| 0 <= j < inst.len() ==> ((#[trigger] v.offsets[j]) as int) % (inst[j].2.align as int) == 0
            &&& forall|j: int| 0 <= j < inst.len() ==> base.size <= #[trigger] v.offsets[j]
            &&& forall|j: int| 0 <= j < inst.len() ==> #[trigger] v.offsets[j] + inst[j].2.size <= v.layout.size
            &&& forall|j: int| 0 <= j < inst.len() - 1 ==> #[trigger] v.offsets[j] + inst[j].2.size <= v.offsets[j + 1]
        }),
{
    let inst = instances_from(file.constant_pool, file.fields, word, 0)->0;
    lemma_instances_aligned(file.constant_pool, file.fields, word, 0);
    let ls = inst.map_values(|x: (Seq<char>, Seq<char>, Layout)| x.2);
    let align = crate::layout::max_align_from(ls, base.align, 0);
    let start = Layout { size: base.size, align };
    assert forall|k: int| 0 <= k < ls.len() implies #[trigger] ls[k].align > 0 by {
        assert(ls[k] == inst[k].2);
    }
    lemma_extend_from_places(start, ls, 0);
    let (last, offs) = extend_from(start, ls, 0)->0;
    assert(valid_layout(last.size, last.align)) by {
        lemma_extend_from_valid(start, ls, 0);
    }
    crate::layout::lemma_valid_layout_pads(last.size, last.align);
    lemma_round_up(last.size as int, last.align as int);
    let v = spec_basic_layout(file, base, word)->Ok_0;
    assert(v.offsets == offs);
    assert forall|j: int| 0 <= j < inst.len() implies ((#[trigger] v.offsets[j]) as int) % (inst[j].2.align as int) == 0 by {
        assert(ls[0 + j] == inst[j].2);
    }
    assert forall|j: int| 0 <= j < inst.len() implies #[trigger] v.offsets[j] + inst[j].2.size <= v.layout.size by {
        assert(ls[0 + j] == inst[j].2);
    }
    assert forall|j: int| 0 <= j < inst.len() - 1 implies #[trigger] v.offsets[j] + inst[j].2.size <= v.offsets[j + 1] by {
        assert(ls[0 + j] == inst[j].2);
    }
}

/// Extending a valid layout gives a valid layout.
proof fn lemma_extend_from_valid(l: Layout, ls: Seq<Layout>, i: int)
    requires
        valid_layout(l.size, l.align),
        extend_from(l, ls, i) is Some,
    ensures
        valid_layout((extend_from(l, ls, i)->0).0.size, (extend_from(l, ls, i)->0).0.align),
    decreases ls.len() - i,
{
    if 0 <= i < ls.len() {
        let (l2, o) = l.spec_extend(ls[i])->0;
        lemma_extend_from_valid(l2, ls, i + 1);
    }
}


/// An `Unsafe` write at an offset that numbers a field slot or element is read back by
/// an `Unsafe` read at that offset, and reads at other offsets of the object, or of other
/// objects, are unchanged.
pub proof fn law_unsafe_put_then_get(h: Seq<ObjectValue>, r: usize, offset: i64, v: RuntimeValue, r2: usize, offset2: i64)
    requires
        value_at(h, r, offset) is Some,
    ensures
        value_at(put_at(h, r, offset, v), r, offset) == Some(v),
        (r2 != r || offset2 != offset) ==> value_at(put_at(h, r, offset, v), r2, offset2) == value_at(h, r2, offset2),
{
}

/// A class that is initialised already needs no initialisation: initialising it
/// (`Vm::initialise`) answers at once that it is ready and changes nothing.
pub proof fn law_initialised_class_needs_nothing(classes: Seq<LoadedClass>, c: int)
    requires
        0 <= c < classes.len(),
        classes[c].initialised,
    ensures
        uninitialised_top(classes, c) is None,
{
}

/// Once initialising a class has answered that it is ready, initialising it again
/// answers the same at once and changes nothing: no initialiser runs and the call stack
/// stays as it is.
pub proof fn law_initialise_again(v0: Vm, v1: Vm, v2: Vm, name: Seq<char>, k: usize, r2: InitStep)
    requires
        initialises(v0, v1, name, InitStep::Ready(k)),
        initialises(v1, v2, name, r2),
    ensures
        r2 == InitStep::Ready(k),
        v2 == v1,
        v1.frames@ == v0.frames@,
{
    lemma_same_classes_index(v0.classes@, v1.classes@, name, 0);
}

} // verus!
