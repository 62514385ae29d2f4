//! The classes the virtual machine has loaded, and the lookups on them: classes by
//! name, superclass chains, methods and fields by name and descriptor.
use crate::classfile::{text_at, ClassFile, Field, FieldValue, MethodValue};
use crate::descriptor::{default_for, default_for_field};
use crate::flags::FieldAccessFlag;
use crate::heap::{FieldSlot, FieldSlotValue};
use crate::pool::{ConstantPool, EntryValue};
use crate::resolve::{class_name, class_name_at, text};
use crate::value::RuntimeValue;
use vstd::prelude::*;

verus! {

/// A loaded class: its name, the index of its superclass in the class table, its class
/// file, whether it was initialised, and its static fields.
#[derive(Debug)]
pub struct LoadedClass {
    pub name: String,
    pub super_class: Option<usize>,
    pub file: ClassFile,
    pub initialised: bool,
    pub statics: Vec<FieldSlot>,
}

/// Whether the class table is well formed: every superclass comes before its subclass.
pub open spec fn table_wf(classes: Seq<LoadedClass>) -> bool {
    forall|i: int|
        0 <= i < classes.len() ==> ((#[trigger] classes[i]).super_class matches Some(s) ==> s < i)
}

/// The index of the first class named `name`.
pub open spec fn class_index_from(classes: Seq<LoadedClass>, name: Seq<char>, i: int) -> Option<int>
    decreases classes.len() - i,
{
    if i < 0 || i >= classes.len() {
        None
    } else if classes[i].name@ == name {
        Some(i)
    } else {
        class_index_from(classes, name, i + 1)
    }
}

/// The index of the first class named `name`.
pub open spec fn class_index(classes: Seq<LoadedClass>, name: Seq<char>) -> Option<int> {
    class_index_from(classes, name, 0)
}

/// Finds the class named `name`.
pub fn find_class(classes: &Vec<LoadedClass>, name: &String) -> (r: Option<usize>)
    ensures
        r is None <==> class_index(classes@, name@) is None,
        r matches Some(k) ==> class_index(classes@, name@) == Some(k as int),
{
    let mut i: usize = 0;
    while i < classes.len()
        invariant
            i <= classes@.len(),
            class_index(classes@, name@) == class_index_from(classes@, name@, i as int),
        decreases classes@.len() - i,
    {
        if classes[i].name == *name {
            return Some(i);
        }
        i = i + 1;
    }
    None
}

pub proof fn lemma_class_index_bounds(classes: Seq<LoadedClass>, name: Seq<char>, i: int)
    requires
        class_index_from(classes, name, i) is Some,
    ensures
        i <= class_index_from(classes, name, i)->0 < classes.len(),
        classes[class_index_from(classes, name, i)->0].name@ == name,
    decreases classes.len() - i,
{
    if classes[i].name@ != name {
        lemma_class_index_bounds(classes, name, i + 1);
    }
}

/// Whether class `c` or one of its superclasses is named `name`.
pub open spec fn is_subclass_of(classes: Seq<LoadedClass>, c: int, name: Seq<char>) -> bool
    decreases c,
{
    if c < 0 || c >= classes.len() {
        false
    } else if classes[c].name@ == name {
        true
    } else {
        match classes[c].super_class {
            Some(s) => if s < c {
                is_subclass_of(classes, s as int, name)
            } else {
                false
            },
            None => false,
        }
    }
}

/// Whether class `c` or one of its superclasses is named `name`.
pub fn subclass_of(classes: &Vec<LoadedClass>, c: usize, name: &String) -> (r: bool)
    ensures
        r == is_subclass_of(classes@, c as int, name@),
{
    let mut k = c;
    while k < classes.len()
        invariant
            is_subclass_of(classes@, c as int, name@) == is_subclass_of(classes@, k as int, name@),
        decreases k,
    {
        if classes[k].name == *name {
            return true;
        }
        match classes[k].super_class {
            Some(s) => {
                if s < k {
                    k = s;
                } else {
                    return false;
                }
            },
            None => return false,
        }
    }
    false
}

/// Whether method `m` has the name `name` and the descriptor `descriptor`.
pub open spec fn method_named(pool: Seq<EntryValue>, m: MethodValue, name: Seq<char>, descriptor: Seq<char>) -> bool {
    text_at(pool, m.name.spec_index()) == Some(name) && text_at(pool, m.descriptor.spec_index()) == Some(
        descriptor,
    )
}

/// The index of the first method from `i` on with the name and descriptor.
pub open spec fn method_index_from(
    pool: Seq<EntryValue>,
    methods: Seq<MethodValue>,
    name: Seq<char>,
    descriptor: Seq<char>,
    i: int,
) -> Option<int>
    decreases methods.len() - i,
{
    if i < 0 || i >= methods.len() {
        None
    } else if method_named(pool, methods[i], name, descriptor) {
        Some(i)
    } else {
        method_index_from(pool, methods, name, descriptor, i + 1)
    }
}

/// A method found by name and descriptor is within the methods.
pub proof fn lemma_method_index_bounds(pool: Seq<EntryValue>, methods: Seq<MethodValue>, name: Seq<char>, descriptor: Seq<char>, i: int)
    requires
        method_index_from(pool, methods, name, descriptor, i) is Some,
    ensures
        i <= method_index_from(pool, methods, name, descriptor, i)->0 < methods.len(),
    decreases methods.len() - i,
{
    if !method_named(pool, methods[i], name, descriptor) {
        lemma_method_index_bounds(pool, methods, name, descriptor, i + 1);
    }
}

/// The index of the method that class `c` declares with the name and descriptor.
pub open spec fn declared_method(classes: Seq<LoadedClass>, c: int, name: Seq<char>, descriptor: Seq<char>) -> Option<int> {
    method_index_from(
        classes[c].file.constant_pool@,
        classes[c].file.methods@,
        name,
        descriptor,
        0,
    )
}

/// Finds the first method of `file` with the name and descriptor.
pub fn find_method(file: &ClassFile, name: &String, descriptor: &String) -> (r: Option<usize>)
    ensures
        r is None <==> method_index_from(file.constant_pool@, file.methods@, name@, descriptor@, 0) is None,
        r matches Some(k) ==> method_index_from(file.constant_pool@, file.methods@, name@, descriptor@, 0) == Some(k as int),
{
    let n = file.methods.values.len();
    let mut i: usize = 0;
    while i < n
        invariant
            n == file.methods@.len(),
            i <= n,
            method_index_from(file.constant_pool@, file.methods@, name@, descriptor@, 0)
                == method_index_from(file.constant_pool@, file.methods@, name@, descriptor@, i as int),
        decreases n - i,
    {
        let m = &file.methods.values[i];
        assert(file.methods@[i as int] == m@);
        let matches = match (text(&file.constant_pool, m.name.index()), text(&file.constant_pool, m.descriptor.index())) {
            (Some(a), Some(b)) => a == *name && b == *descriptor,
            _ => false,
        };
        if matches {
            return Some(i);
        }
        i = i + 1;
    }
    None
}

/// The class and method that resolution finds: the first class from `c` up the
/// superclass chain that declares a method with the name and descriptor.
pub open spec fn resolve_method(classes: Seq<LoadedClass>, c: int, name: Seq<char>, descriptor: Seq<char>) -> Option<(int, int)>
    decreases c,
{
    if c < 0 || c >= classes.len() {
        None
    } else {
        match declared_method(classes, c, name, descriptor) {
            Some(m) => Some((c, m)),
            None => match classes[c].super_class {
                Some(s) => if s < c {
                    resolve_method(classes, s as int, name, descriptor)
                } else {
                    None
                },
                None => None,
            },
        }
    }
}

/// A method that resolution finds is in a class of the table, at or above the start.
pub proof fn lemma_resolve_bounds(classes: Seq<LoadedClass>, c: int, name: Seq<char>, descriptor: Seq<char>)
    requires
        resolve_method(classes, c, name, descriptor) is Some,
    ensures
        0 <= (resolve_method(classes, c, name, descriptor)->0).0 <= c < classes.len(),
        0 <= (resolve_method(classes, c, name, descriptor)->0).1 < classes[(resolve_method(classes, c, name, descriptor)->0).0].file.methods@.len(),
    decreases c,
{
    if declared_method(classes, c, name, descriptor) is Some {
        lemma_method_index_bounds(classes[c].file.constant_pool@, classes[c].file.methods@, name, descriptor, 0);
    } else {
        match classes[c].super_class {
            Some(s) => {
                lemma_resolve_bounds(classes, s as int, name, descriptor);
            },
            None => {},
        }
    }
}

/// Resolves a method by name and descriptor, starting at class `c` and going up the
/// superclass chain (JVMS §5.4.3.3, without superinterfaces).
pub fn resolve_class_method(classes: &Vec<LoadedClass>, c: usize, name: &String, descriptor: &String) -> (r: Option<(usize, usize)>)
    ensures
        r is None <==> resolve_method(classes@, c as int, name@, descriptor@) is None,
        r matches Some((k, m)) ==> resolve_method(classes@, c as int, name@, descriptor@) == Some((k as int, m as int)),
{
    let mut k = c;
    while k < classes.len()
        invariant
            resolve_method(classes@, c as int, name@, descriptor@) == resolve_method(classes@, k as int, name@, descriptor@),
        decreases k,
    {
        match find_method(&classes[k].file, name, descriptor) {
            Some(m) => return Some((k, m)),
            None => {},
        }
        match classes[k].super_class {
            Some(s) => {
                if s < k {
                    k = s;
                } else {
                    return None;
                }
            },
            None => return None,
        }
    }
    None
}

/// The index of the first slot from `i` on with the name and descriptor.
pub open spec fn slot_index_from(slots: Seq<FieldSlotValue>, name: Seq<char>, descriptor: Seq<char>, i: int) -> Option<int>
    decreases slots.len() - i,
{
    if i < 0 || i >= slots.len() {
        None
    } else if slots[i].name == name && slots[i].descriptor == descriptor {
        Some(i)
    } else {
        slot_index_from(slots, name, descriptor, i + 1)
    }
}

/// Slots with the same names and descriptors are searched alike, whatever their values.
pub proof fn lemma_slot_index_same_keys(a: Seq<FieldSlotValue>, b: Seq<FieldSlotValue>, name: Seq<char>, descriptor: Seq<char>, i: int)
    requires
        a.len() == b.len(),
        forall|k: int| 0 <= k < a.len() ==> #[trigger] a[k].name == b[k].name && a[k].descriptor == b[k].descriptor,
    ensures
        slot_index_from(a, name, descriptor, i) == slot_index_from(b, name, descriptor, i),
    decreases a.len() - i,
{
    if 0 <= i < a.len() {
        assert(a[i].name == b[i].name && a[i].descriptor == b[i].descriptor);
        lemma_slot_index_same_keys(a, b, name, descriptor, i + 1);
    }
}

/// A slot found by name and descriptor is within the slots and has them.
pub proof fn lemma_slot_index_bounds(slots: Seq<FieldSlotValue>, name: Seq<char>, descriptor: Seq<char>, i: int)
    requires
        slot_index_from(slots, name, descriptor, i) is Some,
    ensures
        i <= slot_index_from(slots, name, descriptor, i)->0 < slots.len(),
        slots[slot_index_from(slots, name, descriptor, i)->0].name == name,
        slots[slot_index_from(slots, name, descriptor, i)->0].descriptor == descriptor,
    decreases slots.len() - i,
{
    if !(slots[i].name == name && slots[i].descriptor == descriptor) {
        lemma_slot_index_bounds(slots, name, descriptor, i + 1);
    }
}

/// Finds the first slot with the name and descriptor.
pub fn find_slot(slots: &Vec<FieldSlot>, name: &String, descriptor: &String) -> (r: Option<usize>)
    ensures
        r is None <==> slot_index_from(slots@.map_values(|f: FieldSlot| f@), name@, descriptor@, 0) is None,
        r matches Some(k) ==> slot_index_from(slots@.map_values(|f: FieldSlot| f@), name@, descriptor@, 0) == Some(k as int),
{
    let ghost v = slots@.map_values(|f: FieldSlot| f@);
    let mut i: usize = 0;
    while i < slots.len()
        invariant
            i <= slots@.len(),
            v == slots@.map_values(|f: FieldSlot| f@),
            slot_index_from(v, name@, descriptor@, 0) == slot_index_from(v, name@, descriptor@, i as int),
        decreases slots@.len() - i,
    {
        if slots[i].name == *name && slots[i].descriptor == *descriptor {
            return Some(i);
        }
        i = i + 1;
    }
    None
}

/// The class and slot of the static field with the name and descriptor: the first class
/// from `c` up the superclass chain that has it (JVMS §5.4.3.2, without superinterfaces).
pub open spec fn resolve_static(classes: Seq<LoadedClass>, c: int, name: Seq<char>, descriptor: Seq<char>) -> Option<(int, int)>
    decreases c,
{
    if c < 0 || c >= classes.len() {
        None
    } else {
        match slot_index_from(classes[c].statics@.map_values(|f: FieldSlot| f@), name, descriptor, 0) {
            Some(i) => Some((c, i)),
            None => match classes[c].super_class {
                Some(s) => if s < c {
                    resolve_static(classes, s as int, name, descriptor)
                } else {
                    None
                },
                None => None,
            },
        }
    }
}

/// A static field that resolution finds is in a class of the table, at a slot it has.
pub proof fn lemma_static_bounds(classes: Seq<LoadedClass>, c: int, name: Seq<char>, descriptor: Seq<char>)
    requires
        resolve_static(classes, c, name, descriptor) is Some,
    ensures
        0 <= (resolve_static(classes, c, name, descriptor)->0).0 <= c < classes.len(),
        0 <= (resolve_static(classes, c, name, descriptor)->0).1 < classes[(resolve_static(classes, c, name, descriptor)->0).0].statics@.len(),
    decreases c,
{
    match slot_index_from(classes[c].statics@.map_values(|f: FieldSlot| f@), name, descriptor, 0) {
        Some(i) => {
            lemma_slot_index_bounds(classes[c].statics@.map_values(|f: FieldSlot| f@), name, descriptor, 0);
        },
        None => match classes[c].super_class {
            Some(s) => {
                lemma_static_bounds(classes, s as int, name, descriptor);
            },
            None => {},
        },
    }
}

/// Finds the static field with the name and descriptor, from class `c` up.
pub fn resolve_static_field(classes: &Vec<LoadedClass>, c: usize, name: &String, descriptor: &String) -> (r: Option<(usize, usize)>)
    ensures
        r is None <==> resolve_static(classes@, c as int, name@, descriptor@) is None,
        r matches Some((k, i)) ==> resolve_static(classes@, c as int, name@, descriptor@) == Some((k as int, i as int)),
{
    let mut k = c;
    while k < classes.len()
        invariant
            resolve_static(classes@, c as int, name@, descriptor@) == resolve_static(classes@, k as int, name@, descriptor@),
        decreases k,
    {
        match find_slot(&classes[k].statics, name, descriptor) {
            Some(i) => return Some((k, i)),
            None => {},
        }
        match classes[k].super_class {
            Some(s) => {
                if s < k {
                    k = s;
                } else {
                    return None;
                }
            },
            None => return None,
        }
    }
    None
}

/// The slot a field starts with: its name, its descriptor and the default value of its
/// type, when both names are valid and the descriptor starts a field type.
pub open spec fn slot_of(pool: Seq<EntryValue>, f: FieldValue) -> Option<FieldSlotValue> {
    match (text_at(pool, f.name.spec_index()), text_at(pool, f.descriptor.spec_index())) {
        (Some(n), Some(d)) => match default_for(d) {
            Some(v) => Some(FieldSlotValue { name: n, descriptor: d, value: v }),
            None => None,
        },
        _ => None,
    }
}

/// Whether a field is static.
pub open spec fn is_static_field(f: FieldValue) -> bool {
    f.flags.flags & 0x0008 != 0
}

/// The slots of the fields from `i` on that are static (`statics`) or not.
pub open spec fn slots_from(pool: Seq<EntryValue>, fields: Seq<FieldValue>, statics: bool, i: int) -> Option<Seq<FieldSlotValue>>
    decreases fields.len() - i,
{
    if i < 0 || i >= fields.len() {
        Some(Seq::empty())
    } else if is_static_field(fields[i]) == statics {
        match (slot_of(pool, fields[i]), slots_from(pool, fields, statics, i + 1)) {
            (Some(s), Some(rest)) => Some(seq![s] + rest),
            _ => None,
        }
    } else {
        slots_from(pool, fields, statics, i + 1)
    }
}

/// The slots of the static (`statics`) or instance fields of a class file, each set
/// to the default value of its type.
pub fn field_slots(file: &ClassFile, statics: bool) -> (r: Option<Vec<FieldSlot>>)
    ensures
        match slots_from(file.constant_pool@, file.fields@, statics, 0) {
            Some(v) => r matches Some(slots) && slots@.map_values(|f: FieldSlot| f@) == v,
            None => r is None,
        },
{
    let n = file.fields.values.len();
    let mut out: Vec<FieldSlot> = Vec::new();
    let mut i: usize = 0;
    while i < n
        invariant
            n == file.fields@.len(),
            i <= n,
            slots_from(file.constant_pool@, file.fields@, statics, 0) == match slots_from(
                file.constant_pool@,
                file.fields@,
                statics,
                i as int,
            ) {
                Some(rest) => Some(out@.map_values(|f: FieldSlot| f@) + rest),
                None => None::<Seq<FieldSlotValue>>,
            },
        decreases n - i,
    {
        let f = &file.fields.values[i];
        assert(file.fields@[i as int] == f@);
        let is_static = f.flags.flags & 0x0008 != 0;
        if is_static == statics {
            let name = match text(&file.constant_pool, f.name.index()) {
                Some(t) => t,
                None => return None,
            };
            let descriptor = match text(&file.constant_pool, f.descriptor.index()) {
                Some(t) => t,
                None => return None,
            };
            let value = match default_for_field(descriptor.as_str()) {
                Some(v) => v,
                None => return None,
            };
            let slot = FieldSlot { name, descriptor, value };
            let ghost prev = out@.map_values(|f: FieldSlot| f@);
            out.push(slot);
            assert(out@.map_values(|f: FieldSlot| f@) =~= prev.push(slot@));
            proof {
                match slots_from(file.constant_pool@, file.fields@, statics, i + 1) {
                    Some(rest) => {
                        assert(prev + (seq![slot@] + rest) =~= prev.push(slot@) + rest);
                    },
                    None => {},
                }
            }
        }
        i = i + 1;
    }
    assert(out@.map_values(|f: FieldSlot| f@) + Seq::<FieldSlotValue>::empty() =~= out@.map_values(|f: FieldSlot| f@));
    Some(out)
}

/// Why a class could not be added to the class table.
#[derive(Debug, Clone)]
pub enum LoadError {
    /// The class names no valid class name for itself or its superclass.
    BadName,
    /// The superclass, by this name, must be loaded first.
    NeedsClass(String),
    /// A field has an invalid name or descriptor.
    BadField,
}

/// Adding the class file `file`, not yet in the table `before`, with the superclass
/// index `super_class`, left `after` and the result `r`: a field whose slot cannot be
/// made refuses the class (`BadField`); otherwise the class goes at the end, not
/// initialised, with its static fields at their default values.
pub open spec fn class_appended(
    before: Seq<LoadedClass>,
    after: Seq<LoadedClass>,
    file: ClassFile,
    name: Seq<char>,
    super_class: Option<int>,
    r: Result<usize, LoadError>,
) -> bool {
    match slots_from(file.constant_pool@, file.fields@, true, 0) {
        None => r matches Err(LoadError::BadField) && after == before,
        Some(statics) => {
            &&& r matches Ok(i) && i == before.len()
            &&& after.len() == before.len() + 1
            &&& after.take(before.len() as int) == before
            &&& after.last().name@ == name
            &&& !after.last().initialised
            &&& after.last().file == file
            &&& after.last().statics@.map_values(|f: FieldSlot| f@) == statics
            &&& match super_class {
                None => after.last().super_class is None,
                Some(s) => after.last().super_class == Some(s as usize),
            }
        },
    }
}

/// Adding the class file `file` to the class table `before` left `after` and the result
/// `r`: a file whose class name, or whose superclass's name, cannot be read is refused
/// (`BadName`); a class already in the table is not added again and its index is the
/// result; a class whose superclass is not in the table is refused with that name
/// (`NeedsClass`); otherwise it is added as `class_appended` says.
pub open spec fn class_added(before: Seq<LoadedClass>, after: Seq<LoadedClass>, file: ClassFile, r: Result<usize, LoadError>) -> bool {
    match class_name_at(file.constant_pool@, file.this_class.spec_index()) {
        None => r matches Err(LoadError::BadName) && after == before,
        Some(name) => match class_index(before, name) {
            Some(i) => r == Ok::<usize, LoadError>(i as usize) && after == before,
            None => match file.super_class {
                None => class_appended(before, after, file, name, None, r),
                Some(sc) => match class_name_at(file.constant_pool@, sc.spec_index()) {
                    None => r matches Err(LoadError::BadName) && after == before,
                    Some(sn) => match class_index(before, sn) {
                        None => (r matches Err(LoadError::NeedsClass(n)) && n@ == sn) && after == before,
                        Some(s) => class_appended(before, after, file, name, Some(s), r),
                    },
                },
            },
        },
    }
}

/// Adds a class file to the class table, after its superclass. A class whose name is
/// already in the table is not added again: its index is returned.
pub fn add_class(classes: &mut Vec<LoadedClass>, file: ClassFile) -> (r: Result<usize, LoadError>)
    requires
        table_wf(old(classes)@),
    ensures
        table_wf(final(classes)@),
        final(classes)@.len() >= old(classes)@.len(),
        r matches Ok(i) ==> i < final(classes)@.len(),
        class_added(old(classes)@, final(classes)@, file, r),
{
    let name = match class_name(&file.constant_pool, file.this_class.index()) {
        Some(n) => n,
        None => return Err(LoadError::BadName),
    };
    match find_class(classes, &name) {
        Some(i) => {
            proof {
                lemma_class_index_bounds(classes@, name@, 0);
            }
            return Ok(i);
        },
        None => {},
    }
    let super_class = match file.super_class {
        None => None,
        Some(sc) => {
            let super_name = match class_name(&file.constant_pool, sc.index()) {
                Some(n) => n,
                None => return Err(LoadError::BadName),
            };
            match find_class(classes, &super_name) {
                Some(s) => {
                    proof {
                        lemma_class_index_bounds(classes@, super_name@, 0);
                    }
                    Some(s)
                },
                None => return Err(LoadError::NeedsClass(super_name)),
            }
        },
    };
    let statics = match field_slots(&file, true) {
        Some(s) => s,
        None => return Err(LoadError::BadField),
    };
    let index = classes.len();
    classes.push(LoadedClass { name, super_class, file, initialised: false, statics });
    assert(classes@.take(index as int) =~= old(classes)@);
    Ok(index)
}

} // verus!
