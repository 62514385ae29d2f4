use kate::array::{ArrayLength, ArrayLoad, ArrayStore, NewArray};
use kate::constants::Interner;
use kate::error::{ExecError, VMError};
use kate::frame::{Context, Progression, Throwable};
use kate::heap::{Array, ArrayType, Heap, HeapObject};
use kate::natives::{arraycopy, builtin_native, run_value_native, NativeResult};
use kate::numeric::{ArrayPrimitive, Floating, FloatingType, Integral, IntegralType};
use kate::value::RuntimeValue;

fn int_value(v: i64) -> RuntimeValue {
    RuntimeValue::Integral(Integral { value: v, ty: IntegralType::Int })
}

fn int_array(heap: &mut Heap, values: &[i64]) -> usize {
    let values = values.iter().map(|v| int_value(*v)).collect();
    heap.allocate(HeapObject::Array(Array { ty: ArrayType::Primitive(ArrayPrimitive::Int), values }))
}

fn elements(heap: &Heap, r: usize) -> Vec<RuntimeValue> {
    match &heap.objects[r] {
        HeapObject::Array(a) => a.values.clone(),
        other => panic!("not an array: {:?}", other),
    }
}

fn ctx(operands: Vec<RuntimeValue>) -> Context {
    Context { pc: 0, operands, locals: vec![] }
}

#[test]
fn new_array_has_requested_length_and_zeros() {
    let mut heap = Heap::new();
    let mut c = ctx(vec![int_value(4)]);
    assert_eq!(NewArray { type_tag: 10 }.handle(&mut c, &mut heap), Ok(Progression::Next));
    let r = match c.operands[0] {
        RuntimeValue::Object(Some(r)) => r,
        other => panic!("{:?}", other),
    };
    assert_eq!(elements(&heap, r), vec![int_value(0); 4]);
    let mut d = ctx(vec![RuntimeValue::Object(Some(r))]);
    ArrayLength.handle(&mut d, &mut heap).unwrap();
    assert_eq!(d.operands, vec![int_value(4)]);
}

#[test]
fn new_array_of_negative_size_faults() {
    let mut heap = Heap::new();
    let mut c = ctx(vec![int_value(-1)]);
    assert_eq!(NewArray { type_tag: 10 }.handle(&mut c, &mut heap), Err(ExecError::BadArraySize));
}

#[test]
fn new_array_with_bad_type_faults() {
    let mut heap = Heap::new();
    let mut c = ctx(vec![int_value(1)]);
    assert_eq!(NewArray { type_tag: 3 }.handle(&mut c, &mut heap), Err(ExecError::BadArrayType(3)));
}

#[test]
fn store_then_load_element() {
    let mut heap = Heap::new();
    let r = int_array(&mut heap, &[1, 2, 3]);
    let mut c = ctx(vec![RuntimeValue::Object(Some(r)), int_value(1), int_value(42)]);
    assert_eq!(ArrayStore.handle(&mut c, &mut heap), Ok(Progression::Next));
    assert!(c.operands.is_empty());
    let mut d = ctx(vec![RuntimeValue::Object(Some(r)), int_value(1)]);
    ArrayLoad.handle(&mut d, &mut heap).unwrap();
    assert_eq!(d.operands, vec![int_value(42)]);
    assert_eq!(elements(&heap, r), vec![int_value(1), int_value(42), int_value(3)]);
}

#[test]
fn load_out_of_bounds_throws() {
    let mut heap = Heap::new();
    let r = int_array(&mut heap, &[1, 2, 3]);
    let mut c = ctx(vec![RuntimeValue::Object(Some(r)), int_value(3)]);
    assert_eq!(
        ArrayLoad.handle(&mut c, &mut heap),
        Ok(Progression::Throw(Throwable::Error(VMError::ArrayIndexOutOfBounds { at: 3 })))
    );
}

#[test]
fn load_from_null_throws_null_pointer() {
    let mut heap = Heap::new();
    let mut c = ctx(vec![RuntimeValue::Object(None), int_value(0)]);
    match ArrayLoad.handle(&mut c, &mut heap) {
        Ok(Progression::Throw(Throwable::Error(VMError::NullPointerException { .. }))) => {}
        other => panic!("{:?}", other),
    }
}

#[test]
fn arraycopy_copies_a_range() {
    let mut heap = Heap::new();
    let s = int_array(&mut heap, &[1, 2, 3, 4]);
    let d = int_array(&mut heap, &[0, 0, 0, 0, 0]);
    let r = arraycopy(
        &mut heap,
        RuntimeValue::Object(Some(s)),
        int_value(1),
        RuntimeValue::Object(Some(d)),
        int_value(2),
        int_value(3),
    );
    assert!(matches!(r, NativeResult::Returned(None)));
    assert_eq!(elements(&heap, d), vec![int_value(0), int_value(0), int_value(2), int_value(3), int_value(4)]);
    assert_eq!(elements(&heap, s), vec![int_value(1), int_value(2), int_value(3), int_value(4)]);
}

#[test]
fn arraycopy_within_one_array_overlapping() {
    let mut heap = Heap::new();
    let a = int_array(&mut heap, &[1, 2, 3, 4, 5]);
    let r = arraycopy(
        &mut heap,
        RuntimeValue::Object(Some(a)),
        int_value(0),
        RuntimeValue::Object(Some(a)),
        int_value(1),
        int_value(4),
    );
    assert!(matches!(r, NativeResult::Returned(None)));
    assert_eq!(elements(&heap, a), vec![int_value(1), int_value(1), int_value(2), int_value(3), int_value(4)]);
}

#[test]
fn arraycopy_out_of_range_throws() {
    let mut heap = Heap::new();
    let s = int_array(&mut heap, &[1, 2]);
    let d = int_array(&mut heap, &[0, 0]);
    let r = arraycopy(
        &mut heap,
        RuntimeValue::Object(Some(s)),
        int_value(1),
        RuntimeValue::Object(Some(d)),
        int_value(0),
        int_value(2),
    );
    match r {
        NativeResult::Thrown(e) => assert_eq!(e, VMError::ArrayIndexOutOfBounds { at: -1 }),
        other => panic!("{:?}", other),
    }
    assert_eq!(elements(&heap, d), vec![int_value(0), int_value(0)]);
}

#[test]
fn arraycopy_of_non_array_faults() {
    let mut heap = Heap::new();
    let d = int_array(&mut heap, &[0]);
    let r = arraycopy(
        &mut heap,
        RuntimeValue::Object(None),
        int_value(0),
        RuntimeValue::Object(Some(d)),
        int_value(0),
        int_value(0),
    );
    assert!(matches!(r, NativeResult::Fault(ExecError::NotArray)));
}

#[test]
fn value_natives() {
    let s = |x: &str| x.to_string();
    assert_eq!(run_value_native(&s("java/lang/Object"), &s("registerNatives"), &s("()V"), &vec![]), Some(None));
    assert_eq!(
        run_value_native(&s("java/lang/Runtime"), &s("availableProcessors"), &s("()I"), &vec![]),
        Some(Some(int_value(1)))
    );
    let f = RuntimeValue::Floating(Floating { bits: 0x3fc0_0000, ty: FloatingType::Float });
    assert_eq!(
        run_value_native(&s("java/lang/Float"), &s("floatToRawIntBits"), &s("(F)I"), &vec![f]),
        Some(Some(int_value(0x3fc0_0000)))
    );
    assert_eq!(run_value_native(&s("java/io/FileOutputStream"), &s("writeBytes"), &s("([BIIZ)V"), &vec![]), None);
}

#[test]
fn unknown_native_goes_to_host() {
    let mut heap = Heap::new();
    let s = |x: &str| x.to_string();
    let r = builtin_native(&mut heap, &s("java/io/FileOutputStream"), &s("writeBytes"), &s("([BIIZ)V"), &vec![]);
    assert!(matches!(r, NativeResult::Host));
}

#[test]
fn interning_twice_gives_same_object() {
    let mut heap = Heap::new();
    let mut strings = Interner::new();
    let a = strings.intern(&mut heap, "hello".to_string());
    let b = strings.intern(&mut heap, "world".to_string());
    let c = strings.intern(&mut heap, "hello".to_string());
    assert_eq!(a, c);
    assert_ne!(a, b);
    assert_eq!(heap.objects.len(), 2);
    match &heap.objects[a] {
        HeapObject::Str(t) => assert_eq!(t, "hello"),
        other => panic!("{:?}", other),
    }
}
