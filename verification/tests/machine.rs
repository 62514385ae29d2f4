use kate::error::{ExecError, VMError};
use kate::frame::Throwable;
use kate::heap::HeapObject;
use kate::instruction::FloatKind;
use kate::layout::{base_layout, full_layout, LayoutFailure, StaticInit};
use kate::machine::{BootOptions, Outcome, Request, Vm};
use kate::numeric::{Floating, FloatingType, Integral, IntegralType};
use kate::parser::Parser;
use kate::classfile::ClassFile;
use kate::value::RuntimeValue;

/// Writes the constant pool of a class file.
struct Pool {
    bytes: Vec<u8>,
    count: u16,
}

impl Pool {
    fn new() -> Self {
        Pool { bytes: Vec::new(), count: 0 }
    }

    fn add(&mut self, entry: &[u8]) -> u16 {
        self.bytes.extend_from_slice(entry);
        self.count += 1;
        self.count
    }

    fn utf8(&mut self, s: &str) -> u16 {
        let mut e = vec![1u8];
        e.extend_from_slice(&(s.len() as u16).to_be_bytes());
        e.extend_from_slice(s.as_bytes());
        self.add(&e)
    }

    fn class(&mut self, name: &str) -> u16 {
        let n = self.utf8(name);
        let mut e = vec![7u8];
        e.extend_from_slice(&n.to_be_bytes());
        self.add(&e)
    }

    fn name_and_type(&mut self, name: &str, descriptor: &str) -> u16 {
        let n = self.utf8(name);
        let d = self.utf8(descriptor);
        let mut e = vec![12u8];
        e.extend_from_slice(&n.to_be_bytes());
        e.extend_from_slice(&d.to_be_bytes());
        self.add(&e)
    }

    fn member(&mut self, tag: u8, class: u16, name: &str, descriptor: &str) -> u16 {
        let nt = self.name_and_type(name, descriptor);
        let mut e = vec![tag];
        e.extend_from_slice(&class.to_be_bytes());
        e.extend_from_slice(&nt.to_be_bytes());
        self.add(&e)
    }

    fn string(&mut self, s: &str) -> u16 {
        let u = self.utf8(s);
        let mut e = vec![8u8];
        e.extend_from_slice(&u.to_be_bytes());
        self.add(&e)
    }

    fn integer(&mut self, v: i32) -> u16 {
        let mut e = vec![3u8];
        e.extend_from_slice(&v.to_be_bytes());
        self.add(&e)
    }
}

struct MethodSpec {
    flags: u16,
    name: u16,
    descriptor: u16,
    max_stack: u16,
    max_locals: u16,
    code: Vec<u8>,
}

struct FieldSpec {
    flags: u16,
    name: u16,
    descriptor: u16,
    constant: Option<u16>,
}

fn u16b(out: &mut Vec<u8>, v: u16) {
    out.extend_from_slice(&v.to_be_bytes());
}

fn u32b(out: &mut Vec<u8>, v: u32) {
    out.extend_from_slice(&v.to_be_bytes());
}

fn class_bytes(pool: &Pool, this: u16, fields: &[FieldSpec], methods: &[MethodSpec], code_name: u16, constant_name: u16) -> Vec<u8> {
    let mut out = Vec::new();
    u32b(&mut out, 0xCAFE_BABE);
    u16b(&mut out, 0);
    u16b(&mut out, 52);
    u16b(&mut out, pool.count + 1);
    out.extend_from_slice(&pool.bytes);
    u16b(&mut out, 0x0021);
    u16b(&mut out, this);
    u16b(&mut out, 0);
    u16b(&mut out, 0);
    u16b(&mut out, fields.len() as u16);
    for f in fields {
        u16b(&mut out, f.flags);
        u16b(&mut out, f.name);
        u16b(&mut out, f.descriptor);
        match f.constant {
            Some(c) => {
                u16b(&mut out, 1);
                u16b(&mut out, constant_name);
                u32b(&mut out, 2);
                u16b(&mut out, c);
            }
            None => u16b(&mut out, 0),
        }
    }
    u16b(&mut out, methods.len() as u16);
    for m in methods {
        u16b(&mut out, m.flags);
        u16b(&mut out, m.name);
        u16b(&mut out, m.descriptor);
        u16b(&mut out, 1);
        u16b(&mut out, code_name);
        u32b(&mut out, 12 + m.code.len() as u32);
        u16b(&mut out, m.max_stack);
        u16b(&mut out, m.max_locals);
        u32b(&mut out, m.code.len() as u32);
        out.extend_from_slice(&m.code);
        u16b(&mut out, 0);
        u16b(&mut out, 0);
    }
    u16b(&mut out, 0);
    out
}

/// A class `Calc` with static methods over ints, longs, floats, arrays, static fields and
/// a string constant.
fn calc_class() -> Vec<u8> {
    let mut p = Pool::new();
    let this = p.class("Calc");
    let code_name = p.utf8("Code");
    let constant_name = p.utf8("ConstantValue");
    let add_ref = p.member(10, this, "add", "(II)I");
    let counter_ref = p.member(9, this, "counter", "I");
    let k_ref = p.member(9, this, "K", "I");
    let hi = p.string("hi");
    let ninety_nine = p.integer(99);
    let i_desc = p.utf8("I");
    let counter_name = p.utf8("counter");
    let k_name = p.utf8("K");
    let statik = 0x0009;
    let mut methods = Vec::new();
    let mut method = |p: &mut Pool, name: &str, desc: &str, max_stack: u16, max_locals: u16, code: Vec<u8>| {
        let n = p.utf8(name);
        let d = p.utf8(desc);
        methods.push(MethodSpec { flags: statik, name: n, descriptor: d, max_stack, max_locals, code });
    };
    method(&mut p, "add", "(II)I", 2, 2, vec![0x1a, 0x1b, 0x60, 0xac]);
    let add = add_ref.to_be_bytes();
    method(&mut p, "twice", "(I)I", 2, 1, vec![0x1a, 0x1a, 0xb8, add[0], add[1], 0xac]);
    method(&mut p, "divide", "(II)I", 2, 2, vec![0x1a, 0x1b, 0x6c, 0xac]);
    method(
        &mut p,
        "sum",
        "(I)I",
        2,
        3,
        vec![
            0x03, 0x3c, 0x03, 0x3d, 0x1c, 0x1a, 0xa2, 0x00, 0x0d, 0x1b, 0x1c, 0x60, 0x3c, 0x84, 0x02, 0x01, 0xa7,
            0xff, 0xf4, 0x1b, 0xac,
        ],
    );
    method(
        &mut p,
        "arr",
        "()I",
        3,
        1,
        vec![0x06, 0xbc, 0x0a, 0x4b, 0x2a, 0x04, 0x10, 0x07, 0x4f, 0x2a, 0x04, 0x2e, 0x2a, 0xbe, 0x60, 0xac],
    );
    method(&mut p, "oob", "()I", 2, 1, vec![0x05, 0xbc, 0x0a, 0x4b, 0x2a, 0x08, 0x2e, 0xac]);
    method(&mut p, "lmul", "(JJ)J", 4, 4, vec![0x1e, 0x20, 0x69, 0xad]);
    let c = counter_ref.to_be_bytes();
    method(&mut p, "bump", "()I", 2, 0, vec![0x10, 41, 0xb3, c[0], c[1], 0xb2, c[0], c[1], 0x04, 0x60, 0xac]);
    let k = k_ref.to_be_bytes();
    method(&mut p, "getK", "()I", 1, 0, vec![0xb2, k[0], k[1], 0xac]);
    method(&mut p, "hello", "()Ljava/lang/String;", 1, 0, vec![0x12, hi as u8, 0xb0]);
    method(&mut p, "fadd", "(FF)F", 2, 2, vec![0x22, 0x23, 0x62, 0xae]);
    let fields = vec![
        FieldSpec { flags: 0x0008, name: counter_name, descriptor: i_desc, constant: None },
        FieldSpec { flags: 0x0018, name: k_name, descriptor: i_desc, constant: Some(ninety_nine) },
    ];
    class_bytes(&p, this, &fields, &methods, code_name, constant_name)
}

fn parse_calc() -> ClassFile {
    let bytes = calc_class();
    let mut parser = Parser::new(&bytes);
    parser.parse().expect("the class file parses")
}

fn machine() -> (Vm, usize) {
    let mut vm = Vm::new(BootOptions { max_stack: 64 });
    let c = vm.load(parse_calc()).expect("the class loads");
    (vm, c)
}

fn int_value(v: i64) -> RuntimeValue {
    RuntimeValue::Integral(Integral { value: v, ty: IntegralType::Int })
}

fn long_value(v: i64) -> RuntimeValue {
    RuntimeValue::Integral(Integral { value: v, ty: IntegralType::Long })
}

fn call(vm: &mut Vm, c: usize, name: &str, descriptor: &str, args: Vec<RuntimeValue>) -> Outcome {
    vm.start(c, &name.to_string(), &descriptor.to_string(), args).expect("the method exists");
    vm.run(10_000)
}

#[test]
fn runs_int_addition() {
    let (mut vm, c) = machine();
    match call(&mut vm, c, "add", "(II)I", vec![int_value(2), int_value(3)]) {
        Outcome::Returned(Some(v)) => assert_eq!(v, int_value(5)),
        other => panic!("unexpected outcome {:?}", other),
    }
}

#[test]
fn runs_nested_static_call() {
    let (mut vm, c) = machine();
    match call(&mut vm, c, "twice", "(I)I", vec![int_value(21)]) {
        Outcome::Returned(Some(v)) => assert_eq!(v, int_value(42)),
        other => panic!("unexpected outcome {:?}", other),
    }
}

#[test]
fn runs_a_counting_loop() {
    let (mut vm, c) = machine();
    match call(&mut vm, c, "sum", "(I)I", vec![int_value(5)]) {
        Outcome::Returned(Some(v)) => assert_eq!(v, int_value(10)),
        other => panic!("unexpected outcome {:?}", other),
    }
}

#[test]
fn division_by_zero_is_a_fault() {
    let (mut vm, c) = machine();
    match call(&mut vm, c, "divide", "(II)I", vec![int_value(7), int_value(0)]) {
        Outcome::Fault(e, _) => assert_eq!(e, ExecError::Arithmetic),
        other => panic!("unexpected outcome {:?}", other),
    }
}

#[test]
fn integer_division_truncates() {
    let (mut vm, c) = machine();
    match call(&mut vm, c, "divide", "(II)I", vec![int_value(-7), int_value(2)]) {
        Outcome::Returned(Some(v)) => assert_eq!(v, int_value(-3)),
        other => panic!("unexpected outcome {:?}", other),
    }
}

#[test]
fn array_store_load_and_length() {
    let (mut vm, c) = machine();
    match call(&mut vm, c, "arr", "()I", vec![]) {
        Outcome::Returned(Some(v)) => assert_eq!(v, int_value(10)),
        other => panic!("unexpected outcome {:?}", other),
    }
}

#[test]
fn array_index_out_of_bounds_is_raised() {
    let (mut vm, c) = machine();
    match call(&mut vm, c, "oob", "()I", vec![]) {
        Outcome::Uncaught(Throwable::Error(VMError::ArrayIndexOutOfBounds { at }), _) => assert_eq!(at, 5),
        other => panic!("unexpected outcome {:?}", other),
    }
}

#[test]
fn long_arguments_take_two_slots() {
    let (mut vm, c) = machine();
    match call(&mut vm, c, "lmul", "(JJ)J", vec![long_value(6), long_value(6), long_value(7), long_value(7)]) {
        Outcome::Returned(Some(v)) => assert_eq!(v, long_value(42)),
        other => panic!("unexpected outcome {:?}", other),
    }
}

#[test]
fn static_field_set_then_read() {
    let (mut vm, c) = machine();
    match call(&mut vm, c, "bump", "()I", vec![]) {
        Outcome::Returned(Some(v)) => assert_eq!(v, int_value(42)),
        other => panic!("unexpected outcome {:?}", other),
    }
}

#[test]
fn constant_value_attribute_initialises_static() {
    let (mut vm, c) = machine();
    match call(&mut vm, c, "getK", "()I", vec![]) {
        Outcome::Returned(Some(v)) => assert_eq!(v, int_value(99)),
        other => panic!("unexpected outcome {:?}", other),
    }
}

#[test]
fn string_constant_is_interned_once() {
    let (mut vm, c) = machine();
    let first = match call(&mut vm, c, "hello", "()Ljava/lang/String;", vec![]) {
        Outcome::Returned(Some(RuntimeValue::Object(Some(r)))) => r,
        other => panic!("unexpected outcome {:?}", other),
    };
    match &vm.heap.objects[first] {
        HeapObject::Str(s) => assert_eq!(s, "hi"),
        other => panic!("not a string: {:?}", other),
    }
    let second = match call(&mut vm, c, "hello", "()Ljava/lang/String;", vec![]) {
        Outcome::Returned(Some(RuntimeValue::Object(Some(r)))) => r,
        other => panic!("unexpected outcome {:?}", other),
    };
    assert_eq!(first, second);
}

#[test]
fn float_addition_is_handed_to_the_host() {
    let (mut vm, c) = machine();
    let a = RuntimeValue::Floating(Floating { bits: 1.5f32.to_bits() as u64, ty: FloatingType::Float });
    let b = RuntimeValue::Floating(Floating { bits: 2.25f32.to_bits() as u64, ty: FloatingType::Float });
    match call(&mut vm, c, "fadd", "(FF)F", vec![a, b]) {
        Outcome::Request(Request::Float { op, operands }) => {
            assert_eq!(op, FloatKind::Fadd);
            assert_eq!(operands, vec![a, b]);
        }
        other => panic!("unexpected outcome {:?}", other),
    }
    let sum = RuntimeValue::Floating(Floating { bits: 3.75f32.to_bits() as u64, ty: FloatingType::Float });
    vm.complete(vec![sum]);
    match vm.run(100) {
        Outcome::Returned(Some(v)) => assert_eq!(v, sum),
        other => panic!("unexpected outcome {:?}", other),
    }
}

#[test]
fn missing_method_is_refused() {
    let (mut vm, c) = machine();
    assert!(vm.start(c, &"nothing".to_string(), &"()V".to_string(), vec![]).is_err());
}

#[test]
fn layout_of_calc_has_statics_with_constant() {
    let file = parse_calc();
    let layout = full_layout(&file, base_layout()).expect("the layout computes");
    assert_eq!(layout.field_info.len(), 0);
    assert_eq!(layout.statics.len(), 2);
    assert_eq!(layout.statics[1].name, "K");
    match &layout.statics[1].init {
        StaticInit::Value(v) => assert_eq!(*v, int_value(99)),
        other => panic!("unexpected start {:?}", other),
    }
    match &layout.statics[0].init {
        StaticInit::Value(v) => assert_eq!(*v, int_value(0)),
        other => panic!("unexpected start {:?}", other),
    }
    assert_eq!(layout.layout, base_layout());
    let _ = LayoutFailure::TooLarge;
}

/// A class `Point` with instance fields and a static method that makes one.
fn point_class() -> Vec<u8> {
    let mut p = Pool::new();
    let this = p.class("Point");
    let code_name = p.utf8("Code");
    let constant_name = p.utf8("ConstantValue");
    let x_ref = p.member(9, this, "x", "I");
    let names: Vec<(u16, u16)> = [("x", "I"), ("y", "J"), ("c", "B"), ("o", "Ljava/lang/Object;")]
        .iter()
        .map(|(n, d)| (p.utf8(n), p.utf8(d)))
        .collect();
    let make_name = p.utf8("make");
    let make_desc = p.utf8("()I");
    let t = this.to_be_bytes();
    let x = x_ref.to_be_bytes();
    let code = vec![0xbb, t[0], t[1], 0x4b, 0x2a, 0x08, 0xb5, x[0], x[1], 0x2a, 0xb4, x[0], x[1], 0xac];
    let methods = vec![MethodSpec { flags: 0x0009, name: make_name, descriptor: make_desc, max_stack: 2, max_locals: 1, code }];
    let fields: Vec<FieldSpec> =
        names.iter().map(|(n, d)| FieldSpec { flags: 0x0001, name: *n, descriptor: *d, constant: None }).collect();
    class_bytes(&p, this, &fields, &methods, code_name, constant_name)
}

#[test]
fn new_object_field_store_then_load() {
    let bytes = point_class();
    let file = Parser::new(&bytes).parse().expect("the class file parses");
    let mut vm = Vm::new(BootOptions { max_stack: 64 });
    let c = vm.load(file).expect("the class loads");
    match call(&mut vm, c, "make", "()I", vec![]) {
        Outcome::Returned(Some(v)) => assert_eq!(v, int_value(5)),
        other => panic!("unexpected outcome {:?}", other),
    }
}

#[test]
fn instance_fields_are_laid_out_in_order() {
    let bytes = point_class();
    let file = Parser::new(&bytes).parse().expect("the class file parses");
    let base = base_layout();
    let layout = full_layout(&file, base).expect("the layout computes");
    let offsets: Vec<usize> = layout.field_info.iter().map(|f| f.location.offset).collect();
    let names: Vec<&str> = layout.field_info.iter().map(|f| f.name.as_str()).collect();
    assert_eq!(names, vec!["x", "y", "c", "o"]);
    let x = (base.size + 3) / 4 * 4;
    let y = (x + 4 + 7) / 8 * 8;
    let c = y + 8;
    let word = std::mem::size_of::<usize>();
    let o = (c + 1 + word - 1) / word * word;
    assert_eq!(offsets, vec![x, y, c, o]);
    let align = base.align.max(8);
    assert_eq!(layout.layout().align, align);
    assert_eq!(layout.layout().size, (o + word + align - 1) / align * align);
    assert_eq!(layout.field_info(&"y".to_string()).map(|f| f.location.offset), Some(y));
    assert!(layout.statics.is_empty());
}

#[test]
fn one_step_runs_one_instruction() {
    let (mut vm, c) = machine();
    vm.start(c, &"add".to_string(), &"(II)I".to_string(), vec![int_value(2), int_value(3)]).unwrap();
    assert!(vm.step().is_none());
    let top = vm.frames.last().unwrap();
    assert_eq!(top.ctx.pc, 1);
    assert_eq!(top.ctx.operands, vec![int_value(2)]);
    assert!(vm.step().is_none());
    assert!(vm.step().is_none());
    let top = vm.frames.last().unwrap();
    assert_eq!(top.ctx.pc, 3);
    assert_eq!(top.ctx.operands, vec![int_value(5)]);
    match vm.step() {
        Some(Outcome::Returned(Some(v))) => assert_eq!(v, int_value(5)),
        other => panic!("unexpected outcome {:?}", other),
    }
}

#[test]
fn loop_jumps_back() {
    let (mut vm, c) = machine();
    vm.start(c, &"sum".to_string(), &"(I)I".to_string(), vec![int_value(0)]).unwrap();
    for _ in 0..7 {
        assert!(vm.step().is_none());
    }
    // the comparison of 0 with 0 jumps past the loop body to the load of the sum
    assert_eq!(vm.frames.last().unwrap().ctx.pc, 19);
}
