use kate::error::{ExecError, VMError};
use kate::heap::{Array, ArrayType, FieldSlot, Heap, HeapObject, Instance};
use kate::machine::{BootOptions, Vm};
use kate::natives::{builtin_native, compare_and_set, store_bytes, unsafe_get, unsafe_put, CasKind, NativeResult};
use kate::numeric::{ArrayPrimitive, Integral, IntegralType};
use kate::value::RuntimeValue;
use kate::vmnatives::ClassTest;

fn int_value(v: i64) -> RuntimeValue {
    RuntimeValue::Integral(Integral { value: v, ty: IntegralType::Int })
}

fn long_value(v: i64) -> RuntimeValue {
    RuntimeValue::Integral(Integral { value: v, ty: IntegralType::Long })
}

fn point(heap: &mut Heap) -> usize {
    let fields = vec![
        FieldSlot { name: "x".to_string(), descriptor: "I".to_string(), value: int_value(1) },
        FieldSlot { name: "next".to_string(), descriptor: "Ljava/lang/Object;".to_string(), value: RuntimeValue::Object(None) },
    ];
    heap.allocate(HeapObject::Instance(Instance { class_name: "Point".to_string(), fields }))
}

fn field(heap: &Heap, r: usize, i: usize) -> RuntimeValue {
    match &heap.objects[r] {
        HeapObject::Instance(o) => o.fields[i].value,
        other => panic!("{:?}", other),
    }
}

#[test]
fn compare_and_set_int_succeeds_then_fails() {
    let mut heap = Heap::new();
    let p = point(&mut heap);
    let r = compare_and_set(&mut heap, CasKind::Int, RuntimeValue::Object(Some(p)), long_value(0), int_value(1), int_value(9));
    assert!(matches!(r, NativeResult::Returned(Some(v)) if v == int_value(1)));
    assert_eq!(field(&heap, p, 0), int_value(9));
    let r = compare_and_set(&mut heap, CasKind::Int, RuntimeValue::Object(Some(p)), long_value(0), int_value(1), int_value(5));
    assert!(matches!(r, NativeResult::Returned(Some(v)) if v == int_value(0)));
    assert_eq!(field(&heap, p, 0), int_value(9));
}

#[test]
fn compare_and_set_reference_on_array_element() {
    let mut heap = Heap::new();
    let a = heap.allocate(HeapObject::Array(Array {
        ty: ArrayType::Object("java/lang/Object".to_string()),
        values: vec![RuntimeValue::Object(None); 3],
    }));
    let r = compare_and_set(
        &mut heap,
        CasKind::Reference,
        RuntimeValue::Object(Some(a)),
        long_value(2),
        RuntimeValue::Object(None),
        RuntimeValue::Object(Some(a)),
    );
    assert!(matches!(r, NativeResult::Returned(Some(v)) if v == int_value(1)));
    assert!(matches!(unsafe_get(&heap, RuntimeValue::Object(Some(a)), long_value(2), false), NativeResult::Returned(Some(RuntimeValue::Object(Some(x)))) if x == a));
}

#[test]
fn unsafe_access_out_of_range_faults() {
    let mut heap = Heap::new();
    let p = point(&mut heap);
    assert!(matches!(unsafe_get(&heap, RuntimeValue::Object(Some(p)), long_value(5), true), NativeResult::Fault(ExecError::BadOffset)));
    assert!(matches!(
        unsafe_put(&mut heap, RuntimeValue::Object(Some(p)), long_value(-1), RuntimeValue::Object(None)),
        NativeResult::Fault(ExecError::BadOffset)
    ));
    assert!(matches!(
        unsafe_get(&heap, RuntimeValue::Object(None), long_value(0), true),
        NativeResult::Thrown(VMError::NullPointerException { .. })
    ));
}

#[test]
fn unsafe_put_then_get_reference() {
    let mut heap = Heap::new();
    let p = point(&mut heap);
    let q = point(&mut heap);
    assert!(matches!(
        unsafe_put(&mut heap, RuntimeValue::Object(Some(p)), long_value(1), RuntimeValue::Object(Some(q))),
        NativeResult::Returned(None)
    ));
    assert_eq!(field(&heap, p, 1), RuntimeValue::Object(Some(q)));
    assert!(matches!(unsafe_get(&heap, RuntimeValue::Object(Some(p)), long_value(0), true), NativeResult::Returned(Some(v)) if v == int_value(1)));
}

#[test]
fn unsafe_natives_dispatch_with_wide_offsets() {
    let mut heap = Heap::new();
    let p = point(&mut heap);
    let s = |x: &str| x.to_string();
    let unsafe_obj = RuntimeValue::Object(None);
    let args = vec![unsafe_obj, RuntimeValue::Object(Some(p)), long_value(0), long_value(0), int_value(1), int_value(2)];
    let r = builtin_native(&mut heap, &s("jdk/internal/misc/Unsafe"), &s("compareAndSetInt"), &s("(Ljava/lang/Object;JII)Z"), &args);
    assert!(matches!(r, NativeResult::Returned(Some(v)) if v == int_value(1)));
    assert_eq!(field(&heap, p, 0), int_value(2));
    let r = builtin_native(&mut heap, &s("java/lang/Object"), &s("hashCode"), &s("()I"), &vec![RuntimeValue::Object(Some(p))]);
    assert!(matches!(r, NativeResult::Returned(Some(v)) if v == int_value(p as i64)));
}

#[test]
fn get_class_gives_one_class_object_per_class() {
    let mut vm = Vm::new(BootOptions { max_stack: 8 });
    let a = vm.heap.allocate(HeapObject::Array(Array { ty: ArrayType::Primitive(ArrayPrimitive::Int), values: vec![] }));
    let b = vm.heap.allocate(HeapObject::Array(Array { ty: ArrayType::Primitive(ArrayPrimitive::Int), values: vec![] }));
    let ma = match vm.get_class(RuntimeValue::Object(Some(a))) {
        NativeResult::Returned(Some(RuntimeValue::Object(Some(m)))) => m,
        other => panic!("{:?}", other),
    };
    let mb = match vm.get_class(RuntimeValue::Object(Some(b))) {
        NativeResult::Returned(Some(RuntimeValue::Object(Some(m)))) => m,
        other => panic!("{:?}", other),
    };
    assert_eq!(ma, mb);
    match &vm.heap.objects[ma] {
        HeapObject::Mirror(n) => assert_eq!(n, "[I"),
        other => panic!("{:?}", other),
    }
    assert!(matches!(vm.class_is(RuntimeValue::Object(Some(ma)), ClassTest::Array), NativeResult::Returned(Some(v)) if v == int_value(1)));
    assert!(matches!(vm.class_is(RuntimeValue::Object(Some(ma)), ClassTest::Primitive), NativeResult::Returned(Some(v)) if v == int_value(0)));
    assert!(matches!(vm.get_class(RuntimeValue::Object(None)), NativeResult::Thrown(VMError::NullPointerException { .. })));
}

#[test]
fn primitive_classes_by_name() {
    let mut vm = Vm::new(BootOptions { max_stack: 8 });
    let int_name = vm.strings.intern(&mut vm.heap, "int".to_string());
    let m = match vm.get_primitive_class(RuntimeValue::Object(Some(int_name))) {
        NativeResult::Returned(Some(RuntimeValue::Object(Some(m)))) => m,
        other => panic!("{:?}", other),
    };
    match &vm.heap.objects[m] {
        HeapObject::Mirror(n) => assert_eq!(n, "I"),
        other => panic!("{:?}", other),
    }
    assert!(matches!(vm.class_is(RuntimeValue::Object(Some(m)), ClassTest::Primitive), NativeResult::Returned(Some(v)) if v == int_value(1)));
    let short_name = vm.strings.intern(&mut vm.heap, "short".to_string());
    assert!(matches!(vm.get_primitive_class(RuntimeValue::Object(Some(short_name))), NativeResult::Fault(ExecError::BadClass)));
    match vm.init_class_name(RuntimeValue::Object(Some(m))) {
        NativeResult::Returned(Some(RuntimeValue::Object(Some(s)))) => match &vm.heap.objects[s] {
            HeapObject::Str(t) => assert_eq!(t, "I"),
            other => panic!("{:?}", other),
        },
        other => panic!("{:?}", other),
    }
}

#[test]
fn signals_by_name() {
    let mut vm = Vm::new(BootOptions { max_stack: 8 });
    let int_sig = vm.strings.intern(&mut vm.heap, "INT".to_string());
    let other = vm.strings.intern(&mut vm.heap, "USR1".to_string());
    assert!(matches!(vm.find_signal(RuntimeValue::Object(Some(int_sig))), NativeResult::Returned(Some(v)) if v == int_value(3)));
    assert!(matches!(vm.find_signal(RuntimeValue::Object(Some(other))), NativeResult::Returned(Some(v)) if v == int_value(-1)));
}

#[test]
fn system_properties_arrays() {
    let mut vm = Vm::new(BootOptions { max_stack: 8 });
    let a = match vm.vm_properties() {
        NativeResult::Returned(Some(RuntimeValue::Object(Some(a)))) => a,
        other => panic!("{:?}", other),
    };
    let values = match &vm.heap.objects[a] {
        HeapObject::Array(arr) => arr.values.clone(),
        other => panic!("{:?}", other),
    };
    assert_eq!(values.len(), 17);
    assert_eq!(values[16], RuntimeValue::Object(None));
    match values[0] {
        RuntimeValue::Object(Some(k)) => match &vm.heap.objects[k] {
            HeapObject::Str(t) => assert_eq!(t, "java.home"),
            other => panic!("{:?}", other),
        },
        other => panic!("{:?}", other),
    }
    assert_eq!(values[1], values[5]);
    let p = match vm.platform_properties() {
        NativeResult::Returned(Some(RuntimeValue::Object(Some(p)))) => p,
        other => panic!("{:?}", other),
    };
    match &vm.heap.objects[p] {
        HeapObject::Array(arr) => assert_eq!(arr.values, vec![RuntimeValue::Object(None); 100]),
        other => panic!("{:?}", other),
    }
}

#[test]
fn read_bytes_are_stored_as_java_bytes() {
    let mut heap = Heap { objects: Vec::new() };
    let zero = RuntimeValue::Integral(Integral { value: 0, ty: IntegralType::Int });
    let a = heap.allocate(HeapObject::Array(Array { ty: ArrayType::Primitive(ArrayPrimitive::Byte), values: vec![zero; 4] }));
    assert!(store_bytes(&mut heap, a, 1, &vec![7u8, 0xff]));
    match &heap.objects[a] {
        HeapObject::Array(arr) => assert_eq!(
            arr.values,
            vec![
                zero,
                RuntimeValue::Integral(Integral { value: 7, ty: IntegralType::Int }),
                RuntimeValue::Integral(Integral { value: -1, ty: IntegralType::Int }),
                zero
            ]
        ),
        _ => panic!("not an array"),
    }
    assert!(!store_bytes(&mut heap, a, 3, &vec![1u8, 2u8]));
}

#[test]
fn compare_and_set_long_stores_the_expected_value_again() {
    let mut heap = Heap::new();
    let fields = vec![FieldSlot { name: "n".to_string(), descriptor: "J".to_string(), value: long_value(5) }];
    let o = heap.allocate(HeapObject::Instance(Instance { class_name: "Counter".to_string(), fields }));
    let s = |x: &str| x.to_string();
    let args = vec![
        RuntimeValue::Object(None),
        RuntimeValue::Object(Some(o)),
        long_value(0),
        long_value(0),
        long_value(5),
        long_value(5),
        long_value(9),
        long_value(9),
    ];
    let r = builtin_native(&mut heap, &s("jdk/internal/misc/Unsafe"), &s("compareAndSetLong"), &s("(Ljava/lang/Object;JJJ)Z"), &args);
    assert!(matches!(r, NativeResult::Returned(Some(v)) if v == int_value(1)));
    assert_eq!(field(&heap, o, 0), long_value(5));
}

#[test]
fn long_bits_to_double_goes_to_the_host() {
    let mut heap = Heap::new();
    let s = |x: &str| x.to_string();
    let r = builtin_native(&mut heap, &s("java/lang/Double"), &s("longBitsToDouble"), &s("(J)D"), &vec![long_value(3)]);
    assert!(matches!(r, NativeResult::Host));
}
