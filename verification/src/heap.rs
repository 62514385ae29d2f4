//! The heap of the virtual machine: arrays, instances of classes and interned strings,
//! each named by its index, and the instructions that create and read arrays.
use crate::error::{ExecError, VMError};
use crate::frame::{
    below, popped, same_frame, with_operands, Context, FrameState, Progression, ProgressionValue, Throwable,
    ThrowableValue, VMErrorValue,
};
use crate::numeric::{ArrayPrimitive, Floating, FloatingType, Integral, IntegralType};
use crate::value::RuntimeValue;
use vstd::prelude::*;
use vstd::string::*;

verus! {

/// The element type of an array: a primitive type or a class, by its name.
#[derive(Debug, Clone)]
pub enum ArrayType {
    Primitive(ArrayPrimitive),
    Object(String),
}

/// An array element type as a mathematical value.
pub enum ArrayTypeValue {
    Primitive(ArrayPrimitive),
    Object(Seq<char>),
}

impl View for ArrayType {
    type V = ArrayTypeValue;

    open spec fn view(&self) -> ArrayTypeValue {
        match self {
            ArrayType::Primitive(p) => ArrayTypeValue::Primitive(*p),
            ArrayType::Object(name) => ArrayTypeValue::Object(name@),
        }
    }
}

/// An array: its element type and its elements.
#[derive(Debug, Clone)]
pub struct Array {
    pub ty: ArrayType,
    pub values: Vec<RuntimeValue>,
}

/// A field of an object or a class: its name, its descriptor and its value.
#[derive(Debug, Clone)]
pub struct FieldSlot {
    pub name: String,
    pub descriptor: String,
    pub value: RuntimeValue,
}

/// A field as a mathematical value.
pub struct FieldSlotValue {
    pub name: Seq<char>,
    pub descriptor: Seq<char>,
    pub value: RuntimeValue,
}

impl View for FieldSlot {
    type V = FieldSlotValue;

    open spec fn view(&self) -> FieldSlotValue {
        FieldSlotValue { name: self.name@, descriptor: self.descriptor@, value: self.value }
    }
}

/// An instance of a class: the class's name and one slot per instance field.
#[derive(Debug, Clone)]
pub struct Instance {
    pub class_name: String,
    pub fields: Vec<FieldSlot>,
}

/// An object of the heap.
#[derive(Debug, Clone)]
pub enum HeapObject {
    Array(Array),
    Instance(Instance),
    /// An interned string constant.
    Str(String),
    /// The `java/lang/Class` object of the class (or primitive type, by its descriptor
    /// letter) of this name.
    Mirror(String),
}

/// An object as a mathematical value.
pub enum ObjectValue {
    Array { ty: ArrayTypeValue, values: Seq<RuntimeValue> },
    Instance { class_name: Seq<char>, fields: Seq<FieldSlotValue> },
    Str(Seq<char>),
    Mirror(Seq<char>),
}

impl View for HeapObject {
    type V = ObjectValue;

    open spec fn view(&self) -> ObjectValue {
        match self {
            HeapObject::Array(a) => ObjectValue::Array { ty: a.ty@, values: a.values@ },
            HeapObject::Instance(i) => ObjectValue::Instance {
                class_name: i.class_name@,
                fields: i.fields@.map_values(|f: FieldSlot| f@),
            },
            HeapObject::Str(s) => ObjectValue::Str(s@),
            HeapObject::Mirror(n) => ObjectValue::Mirror(n@),
        }
    }
}

/// All objects; a reference is an index into `objects`.
#[derive(Debug, Clone)]
pub struct Heap {
    pub objects: Vec<HeapObject>,
}

impl View for Heap {
    type V = Seq<ObjectValue>;

    open spec fn view(&self) -> Seq<ObjectValue> {
        self.objects@.map_values(|o: HeapObject| o@)
    }
}

/// The value an element of a new array of `ty` starts with.
pub open spec fn default_element(ty: ArrayPrimitive) -> RuntimeValue {
    match ty {
        ArrayPrimitive::Long => RuntimeValue::Integral(Integral { value: 0, ty: IntegralType::Long }),
        ArrayPrimitive::Float => RuntimeValue::Floating(Floating { bits: 0, ty: FloatingType::Float }),
        ArrayPrimitive::Double => RuntimeValue::Floating(Floating { bits: 0, ty: FloatingType::Double }),
        _ => RuntimeValue::Integral(Integral { value: 0, ty: IntegralType::Int }),
    }
}

/// The value an element of a new array of `ty` starts with.
pub fn zero_element(ty: ArrayPrimitive) -> (r: RuntimeValue)
    ensures
        r == default_element(ty),
{
    match ty {
        ArrayPrimitive::Long => RuntimeValue::Integral(Integral { value: 0, ty: IntegralType::Long }),
        ArrayPrimitive::Float => RuntimeValue::Floating(Floating { bits: 0, ty: FloatingType::Float }),
        ArrayPrimitive::Double => RuntimeValue::Floating(Floating { bits: 0, ty: FloatingType::Double }),
        _ => RuntimeValue::Integral(Integral { value: 0, ty: IntegralType::Int }),
    }
}

/// Whether `r` names an array of the heap.
pub open spec fn is_array(heap: Seq<ObjectValue>, r: usize) -> bool {
    r < heap.len() && heap[r as int] is Array
}

/// The elements of the array `r` names.
pub open spec fn elements(heap: Seq<ObjectValue>, r: usize) -> Seq<RuntimeValue> {
    match heap[r as int] {
        ObjectValue::Array { values, .. } => values,
        _ => Seq::empty(),
    }
}

/// The exception an array access with a bad index raises.
pub open spec fn out_of_bounds(at: i64) -> ProgressionValue {
    ProgressionValue::Throw(ThrowableValue::Error(VMErrorValue::ArrayIndexOutOfBounds { at }))
}

/// The exception a `null` reference raises in the named instruction.
pub open spec fn null_pointer(ctx: Seq<char>) -> ProgressionValue {
    ProgressionValue::Throw(ThrowableValue::Error(VMErrorValue::NullPointerException { ctx }))
}

/// An instruction that also works on the heap did what its model says: on success the
/// frame and the heap became the model's and the progression is the model's; on a
/// fault both are unchanged.
pub open spec fn performs_on_heap(
    r: Result<Progression, ExecError>,
    before: FrameState,
    after: FrameState,
    heap_before: Seq<ObjectValue>,
    heap_after: Seq<ObjectValue>,
    model: Result<(FrameState, Seq<ObjectValue>, ProgressionValue), ExecError>,
) -> bool {
    match model {
        Ok((f, h, p)) => (r matches Ok(q) && q@ == p) && same_frame(after, f) && heap_after =~= h,
        Err(e) => r == Err::<Progression, ExecError>(e) && same_frame(after, before) && heap_after
            =~= heap_before,
    }
}

impl Heap {
    /// An empty heap.
    pub fn new() -> (r: Self)
        ensures
            r@ == Seq::<ObjectValue>::empty(),
    {
        let r = Heap { objects: Vec::new() };
        assert(r@ =~= Seq::<ObjectValue>::empty());
        r
    }

    /// Adds an object; its reference is the number of objects before it.
    pub fn allocate(&mut self, object: HeapObject) -> (r: usize)
        ensures
            r == old(self)@.len(),
            final(self)@ == old(self)@.push(object@),
    {
        let r = self.objects.len();
        self.objects.push(object);
        assert(self@ =~= old(self)@.push(object@));
        r
    }

    /// The length of the array `r` names.
    pub fn array_len(&self, r: usize) -> (n: usize)
        requires
            is_array(self@, r),
        ensures
            n == elements(self@, r).len(),
    {
        match &self.objects[r] {
            HeapObject::Array(a) => a.values.len(),
            _ => 0,
        }
    }

    /// Element `i` of the array `r` names.
    pub fn array_get(&self, r: usize, i: usize) -> (v: RuntimeValue)
        requires
            is_array(self@, r),
            i < elements(self@, r).len(),
        ensures
            v == elements(self@, r)[i as int],
    {
        match &self.objects[r] {
            HeapObject::Array(a) => a.values[i],
            _ => RuntimeValue::Object(None),
        }
    }

    /// Sets element `i` of the array `r` names; nothing else changes.
    pub fn array_set(&mut self, r: usize, i: usize, v: RuntimeValue)
        requires
            is_array(old(self)@, r),
            i < elements(old(self)@, r).len(),
        ensures
            final(self)@ == old(self)@.update(
                r as int,
                match old(self)@[r as int] {
                    ObjectValue::Array { ty, values } => ObjectValue::Array {
                        ty,
                        values: values.update(i as int, v),
                    },
                    o => o,
                },
            ),
    {
        let object = self.objects[r].clone_object();
        match object {
            HeapObject::Array(a) => {
                let mut values = a.values;
                values.set(i, v);
                self.objects.set(r, HeapObject::Array(Array { ty: a.ty, values }));
                assert(self@ =~= old(self)@.update(
                    r as int,
                    match old(self)@[r as int] {
                        ObjectValue::Array { ty, values } => ObjectValue::Array {
                            ty,
                            values: values.update(i as int, v),
                        },
                        o => o,
                    },
                ));
            },
            _ => {},
        }
    }
}

/// Whether `r` names an instance of a class.
pub open spec fn is_instance(heap: Seq<ObjectValue>, r: usize) -> bool {
    r < heap.len() && heap[r as int] is Instance
}

/// The fields of the instance `r` names.
pub open spec fn instance_fields(heap: Seq<ObjectValue>, r: usize) -> Seq<FieldSlotValue> {
    match heap[r as int] {
        ObjectValue::Instance { fields, .. } => fields,
        _ => Seq::empty(),
    }
}

/// The heap with field `i` of instance `r` set to `v`.
pub open spec fn with_field(heap: Seq<ObjectValue>, r: usize, i: int, v: RuntimeValue) -> Seq<ObjectValue> {
    heap.update(
        r as int,
        match heap[r as int] {
            ObjectValue::Instance { class_name, fields } => ObjectValue::Instance {
                class_name,
                fields: fields.update(i, FieldSlotValue { name: fields[i].name, descriptor: fields[i].descriptor, value: v }),
            },
            o => o,
        },
    )
}

impl Heap {
    /// The value of field `i` of the instance `r` names.
    pub fn field_value(&self, r: usize, i: usize) -> (v: RuntimeValue)
        requires
            is_instance(self@, r),
            i < instance_fields(self@, r).len(),
        ensures
            v == instance_fields(self@, r)[i as int].value,
    {
        match &self.objects[r] {
            HeapObject::Instance(o) => {
                assert(instance_fields(self@, r)[i as int] == o.fields@[i as int]@);
                o.fields[i].value
            },
            _ => RuntimeValue::Object(None),
        }
    }

    /// The index of the first field of the instance `r` names with the name and
    /// descriptor.
    pub fn find_field(&self, r: usize, name: &String, descriptor: &String) -> (f: Option<usize>)
        requires
            is_instance(self@, r),
        ensures
            f is None <==> crate::classes::slot_index_from(instance_fields(self@, r), name@, descriptor@, 0) is None,
            f matches Some(k) ==> crate::classes::slot_index_from(instance_fields(self@, r), name@, descriptor@, 0) == Some(k as int),
    {
        match &self.objects[r] {
            HeapObject::Instance(o) => crate::classes::find_slot(&o.fields, name, descriptor),
            _ => None,
        }
    }

    /// Sets field `i` of the instance `r` names; nothing else changes.
    pub fn set_field(&mut self, r: usize, i: usize, v: RuntimeValue)
        requires
            is_instance(old(self)@, r),
            i < instance_fields(old(self)@, r).len(),
        ensures
            final(self)@ == with_field(old(self)@, r, i as int, v),
    {
        let object = self.objects[r].clone_object();
        match object {
            HeapObject::Instance(o) => {
                let mut fields = o.fields;
                let ghost before = fields@.map_values(|s: FieldSlot| s@);
                let slot = FieldSlot { name: fields[i].name.clone(), descriptor: fields[i].descriptor.clone(), value: v };
                fields.set(i, slot);
                assert(fields@.map_values(|s: FieldSlot| s@) =~= before.update(i as int, slot@));
                self.objects.set(r, HeapObject::Instance(Instance { class_name: o.class_name, fields }));
                assert(self@ =~= with_field(old(self)@, r, i as int, v));
            },
            _ => {},
        }
    }
}

impl ArrayType {
    /// A copy of the element type.
    pub fn clone_type(&self) -> (r: Self)
        ensures
            r@ == self@,
    {
        match self {
            ArrayType::Primitive(p) => ArrayType::Primitive(*p),
            ArrayType::Object(name) => ArrayType::Object(name.clone()),
        }
    }
}

/// A copy of a list of fields.
pub fn clone_fields(fields: &Vec<FieldSlot>) -> (r: Vec<FieldSlot>)
    ensures
        r@.map_values(|f: FieldSlot| f@) == fields@.map_values(|f: FieldSlot| f@),
{
    let mut out: Vec<FieldSlot> = Vec::new();
    let mut k: usize = 0;
    while k < fields.len()
        invariant
            k <= fields@.len(),
            out@.map_values(|f: FieldSlot| f@) =~= fields@.take(k as int).map_values(|f: FieldSlot| f@),
        decreases fields@.len() - k,
    {
        let f = &fields[k];
        let slot = FieldSlot { name: f.name.clone(), descriptor: f.descriptor.clone(), value: f.value };
        assert(slot@ == fields@[k as int]@);
        let ghost prev = out@;
        out.push(slot);
        assert(out@.map_values(|f: FieldSlot| f@) =~= prev.map_values(|f: FieldSlot| f@).push(slot@));
        assert(fields@.take(k + 1) =~= fields@.take(k as int).push(fields@[k as int]));
        assert(fields@.take(k + 1).map_values(|f: FieldSlot| f@) =~= fields@.take(k as int).map_values(
            |f: FieldSlot| f@,
        ).push(fields@[k as int]@));
        k = k + 1;
    }
    assert(fields@.take(fields@.len() as int) =~= fields@);
    out
}

impl HeapObject {
    /// A copy of the object.
    pub fn clone_object(&self) -> (r: Self)
        ensures
            r@ == self@,
    {
        match self {
            HeapObject::Array(a) => {
                let values = a.values.clone();
                assert(values@ =~= a.values@);
                HeapObject::Array(Array { ty: a.ty.clone_type(), values })
            },
            HeapObject::Instance(i) => HeapObject::Instance(
                Instance { class_name: i.class_name.clone(), fields: clone_fields(&i.fields) },
            ),
            HeapObject::Str(s) => HeapObject::Str(s.clone()),
            HeapObject::Mirror(n) => HeapObject::Mirror(n.clone()),
        }
    }
}

} // verus!
