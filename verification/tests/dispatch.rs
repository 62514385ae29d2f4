use kate::classfile::ClassFile;
use kate::error::VMError;
use kate::frame::Throwable;
use kate::heap::HeapObject;
use kate::boot::{BootAction, LoaderStep};
use kate::machine::{BootOptions, InitStep, Outcome, Request, Vm};
use kate::numeric::{Integral, IntegralType};
use kate::parser::Parser;
use kate::value::RuntimeValue;

/// Writes the constant pool of a class file.
struct Pool {
    bytes: Vec<u8>,
    count: u16,
}

impl Pool {
    fn new() -> Self {
        Pool { bytes: Vec::new(), count: 0 }
    }

    fn add(&mut self, entry: &[u8]) -> u16 {
        self.bytes.extend_from_slice(entry);
        self.count += 1;
        self.count
    }

    fn utf8(&mut self, s: &str) -> u16 {
        let mut e = vec![1u8];
        e.extend_from_slice(&(s.len() as u16).to_be_bytes());
        e.extend_from_slice(s.as_bytes());
        self.add(&e)
    }

    fn class(&mut self, name: &str) -> u16 {
        let n = self.utf8(name);
        let mut e = vec![7u8];
        e.extend_from_slice(&n.to_be_bytes());
        self.add(&e)
    }

    fn member(&mut self, tag: u8, class: u16, name: &str, descriptor: &str) -> u16 {
        let n = self.utf8(name);
        let d = self.utf8(descriptor);
        let mut nt = vec![12u8];
        nt.extend_from_slice(&n.to_be_bytes());
        nt.extend_from_slice(&d.to_be_bytes());
        let nt = self.add(&nt);
        let mut e = vec![tag];
        e.extend_from_slice(&class.to_be_bytes());
        e.extend_from_slice(&nt.to_be_bytes());
        self.add(&e)
    }
}

/// A method: access flags, name, descriptor, code and exception table rows
/// (start, end, handler, catch type).
struct MethodSpec {
    flags: u16,
    name: &'static str,
    descriptor: &'static str,
    code: Vec<u8>,
    handlers: Vec<[u16; 4]>,
}

/// A static `int` field.
struct StaticSpec {
    name: &'static str,
}

/// An instance field: name and descriptor.
struct InstanceSpec {
    name: &'static str,
    descriptor: &'static str,
}

fn push16(out: &mut Vec<u8>, v: u16) {
    out.extend_from_slice(&v.to_be_bytes());
}

fn push32(out: &mut Vec<u8>, v: u32) {
    out.extend_from_slice(&v.to_be_bytes());
}

fn class_file(p: Pool, this: u16, super_class: u16, statics: &[StaticSpec], methods: &[MethodSpec]) -> ClassFile {
    class_file_with(p, this, super_class, statics, &[], methods)
}

fn class_file_with(
    mut p: Pool,
    this: u16,
    super_class: u16,
    statics: &[StaticSpec],
    instance: &[InstanceSpec],
    methods: &[MethodSpec],
) -> ClassFile {
    let code_name = p.utf8("Code");
    let int_desc = p.utf8("I");
    let mut fields = Vec::new();
    for f in statics {
        fields.push((0x0008u16, p.utf8(f.name), int_desc));
    }
    for f in instance {
        let n = p.utf8(f.name);
        let d = p.utf8(f.descriptor);
        fields.push((0x0001u16, n, d));
    }
    let mut method_names = Vec::new();
    for m in methods {
        method_names.push((p.utf8(m.name), p.utf8(m.descriptor)));
    }
    let mut out = Vec::new();
    push32(&mut out, 0xCAFE_BABE);
    push16(&mut out, 0);
    push16(&mut out, 52);
    push16(&mut out, p.count + 1);
    out.extend_from_slice(&p.bytes);
    push16(&mut out, 0x0021);
    push16(&mut out, this);
    push16(&mut out, super_class);
    push16(&mut out, 0);
    push16(&mut out, fields.len() as u16);
    for (flags, n, d) in &fields {
        push16(&mut out, *flags);
        push16(&mut out, *n);
        push16(&mut out, *d);
        push16(&mut out, 0);
    }
    push16(&mut out, methods.len() as u16);
    for (m, (n, d)) in methods.iter().zip(method_names.iter()) {
        push16(&mut out, m.flags);
        push16(&mut out, *n);
        push16(&mut out, *d);
        push16(&mut out, 1);
        push16(&mut out, code_name);
        push32(&mut out, 12 + m.code.len() as u32 + 8 * m.handlers.len() as u32);
        push16(&mut out, 4);
        push16(&mut out, 4);
        push32(&mut out, m.code.len() as u32);
        out.extend_from_slice(&m.code);
        push16(&mut out, m.handlers.len() as u16);
        for h in &m.handlers {
            for v in h {
                push16(&mut out, *v);
            }
        }
        push16(&mut out, 0);
    }
    push16(&mut out, 0);
    let mut parser = Parser::new(&out);
    parser.parse().expect("the class file parses")
}

fn static_method(name: &'static str, descriptor: &'static str, code: Vec<u8>, handlers: Vec<[u16; 4]>) -> MethodSpec {
    MethodSpec { flags: 0x0009, name, descriptor, code, handlers }
}

fn int_value(v: i64) -> RuntimeValue {
    RuntimeValue::Integral(Integral { value: v, ty: IntegralType::Int })
}

fn run(vm: &mut Vm, c: usize, name: &str, descriptor: &str) -> Outcome {
    vm.start(c, &name.to_string(), &descriptor.to_string(), Vec::new()).expect("the method exists");
    vm.run(10_000)
}

fn returned_int(out: &Outcome) -> Option<i64> {
    match out {
        Outcome::Returned(Some(RuntimeValue::Integral(i))) if i.ty == IntegralType::Int => Some(i.value),
        _ => None,
    }
}

/// Class `Boom` with static methods that throw and catch instances of itself.
fn boom_class() -> ClassFile {
    let mut p = Pool::new();
    let this = p.class("Boom");
    let t = this.to_be_bytes();
    let thrower = p.member(10, this, "thrower", "()I").to_be_bytes();
    let methods = vec![
        // new Boom; athrow; (handler) pop; iconst_5; ireturn
        static_method("caught", "()I", vec![0xbb, t[0], t[1], 0xbf, 0x57, 0x08, 0xac], vec![[0, 4, 4, 0]]),
        // new Boom; athrow
        static_method("thrower", "()I", vec![0xbb, t[0], t[1], 0xbf], vec![]),
        // invokestatic thrower; ireturn; (handler) pop; bipush 7; ireturn
        static_method(
            "caller",
            "()I",
            vec![0xb8, thrower[0], thrower[1], 0xac, 0x57, 0x10, 7, 0xac],
            vec![[0, 3, 4, this]],
        ),
        // aconst_null; athrow
        static_method("null_throw", "()I", vec![0x01, 0xbf], vec![]),
        // aconst_null; athrow; (handler) pop; iconst_3; ireturn -- a handler for Boom does
        // not catch the machine's NullPointerException
        static_method("null_not_caught", "()I", vec![0x01, 0xbf, 0x57, 0x06, 0xac], vec![[0, 2, 2, this]]),
    ];
    class_file(p, this, 0, &[], &methods)
}

fn boom_machine() -> (Vm, usize) {
    let mut vm = Vm::new(BootOptions { max_stack: 64 });
    let c = vm.load(boom_class()).expect("the class loads");
    (vm, c)
}

#[test]
fn thrown_object_is_caught_by_its_handler() {
    let (mut vm, c) = boom_machine();
    let out = run(&mut vm, c, "caught", "()I");
    assert_eq!(returned_int(&out), Some(5));
}

#[test]
fn uncaught_object_ends_the_run() {
    let (mut vm, c) = boom_machine();
    let out = run(&mut vm, c, "thrower", "()I");
    match out {
        Outcome::Uncaught(Throwable::Object(r), _) => {
            assert!(matches!(&vm.heap.objects[r], HeapObject::Instance(i) if i.class_name == "Boom"));
        },
        other => panic!("unexpected outcome {:?}", other),
    }
    assert!(vm.frames.is_empty());
}

#[test]
fn exception_is_caught_in_the_caller() {
    let (mut vm, c) = boom_machine();
    let out = run(&mut vm, c, "caller", "()I");
    assert_eq!(returned_int(&out), Some(7));
}

#[test]
fn throwing_null_raises_null_pointer_exception() {
    let (mut vm, c) = boom_machine();
    let out = run(&mut vm, c, "null_throw", "()I");
    assert!(matches!(out, Outcome::Uncaught(Throwable::Error(VMError::NullPointerException { ref ctx }), _) if ctx == "athrow"));
}

#[test]
fn machine_exception_is_not_caught_by_class_handler() {
    let (mut vm, c) = boom_machine();
    let out = run(&mut vm, c, "null_not_caught", "()I");
    assert!(matches!(out, Outcome::Uncaught(Throwable::Error(VMError::NullPointerException { .. }), _)));
}

/// `Base` with an instance method `v()I` giving 1.
fn base_class() -> ClassFile {
    let mut p = Pool::new();
    let this = p.class("Base");
    let methods = vec![MethodSpec { flags: 0x0001, name: "v", descriptor: "()I", code: vec![0x04, 0xac], handlers: vec![] }];
    class_file(p, this, 0, &[], &methods)
}

/// `Sub` extends `Base`, overrides `v()I` to give 2, and has static methods that make a
/// `Sub` and call or test it through `Base`.
fn sub_class() -> ClassFile {
    let mut p = Pool::new();
    let this = p.class("Sub");
    let base = p.class("Base");
    let other = p.class("Other");
    let v_ref = p.member(10, base, "v", "()I").to_be_bytes();
    let t = this.to_be_bytes();
    let b = base.to_be_bytes();
    let o = other.to_be_bytes();
    let methods = vec![
        MethodSpec { flags: 0x0001, name: "v", descriptor: "()I", code: vec![0x05, 0xac], handlers: vec![] },
        // new Sub; invokevirtual Base.v; ireturn
        static_method("dispatch", "()I", vec![0xbb, t[0], t[1], 0xb6, v_ref[0], v_ref[1], 0xac], vec![]),
        // new Sub; instanceof Base; ireturn
        static_method("is_base", "()I", vec![0xbb, t[0], t[1], 0xc1, b[0], b[1], 0xac], vec![]),
        // aconst_null; instanceof Base; ireturn
        static_method("null_is_base", "()I", vec![0x01, 0xc1, b[0], b[1], 0xac], vec![]),
        // new Sub; checkcast Base; pop; iconst_1; ireturn
        static_method("cast_ok", "()I", vec![0xbb, t[0], t[1], 0xc0, b[0], b[1], 0x57, 0x04, 0xac], vec![]),
        // new Sub; checkcast Other; pop; iconst_1; ireturn
        static_method("cast_bad", "()I", vec![0xbb, t[0], t[1], 0xc0, o[0], o[1], 0x57, 0x04, 0xac], vec![]),
        // new Other; ireturn
        static_method("make_other", "()I", vec![0xbb, o[0], o[1], 0xac], vec![]),
        // aconst_null; invokevirtual Base.v; ireturn
        static_method("call_on_null", "()I", vec![0x01, 0xb6, v_ref[0], v_ref[1], 0xac], vec![]),
    ];
    class_file(p, this, base, &[], &methods)
}

fn sub_machine() -> (Vm, usize) {
    let mut vm = Vm::new(BootOptions { max_stack: 64 });
    vm.load(base_class()).expect("the base class loads");
    let c = vm.load(sub_class()).expect("the subclass loads");
    (vm, c)
}

#[test]
fn virtual_call_runs_the_override() {
    let (mut vm, c) = sub_machine();
    let out = run(&mut vm, c, "dispatch", "()I");
    assert_eq!(returned_int(&out), Some(2));
}

#[test]
fn instance_of_superclass_is_one() {
    let (mut vm, c) = sub_machine();
    let out = run(&mut vm, c, "is_base", "()I");
    assert_eq!(returned_int(&out), Some(1));
}

#[test]
fn null_is_no_instance() {
    let (mut vm, c) = sub_machine();
    let out = run(&mut vm, c, "null_is_base", "()I");
    assert_eq!(returned_int(&out), Some(0));
}

#[test]
fn cast_to_superclass_passes() {
    let (mut vm, c) = sub_machine();
    let out = run(&mut vm, c, "cast_ok", "()I");
    assert_eq!(returned_int(&out), Some(1));
}

#[test]
fn cast_to_unrelated_class_raises() {
    let (mut vm, c) = sub_machine();
    let out = run(&mut vm, c, "cast_bad", "()I");
    match out {
        Outcome::Uncaught(Throwable::Error(VMError::ClassCastException { from, to }), _) => {
            assert_eq!(from, "Sub");
            assert_eq!(to, "Other");
        },
        other => panic!("unexpected outcome {:?}", other),
    }
}

#[test]
fn new_of_unloaded_class_asks_for_it() {
    let (mut vm, c) = sub_machine();
    let out = run(&mut vm, c, "make_other", "()I");
    assert!(matches!(out, Outcome::Request(Request::LoadClass(ref n)) if n == "Other"));
    assert_eq!(vm.frames.len(), 1);
    assert_eq!(vm.frames[0].ctx.pc, 0);
}

#[test]
fn call_on_null_raises_null_pointer_exception() {
    let (mut vm, c) = sub_machine();
    let out = run(&mut vm, c, "call_on_null", "()I");
    assert!(matches!(out, Outcome::Uncaught(Throwable::Error(VMError::NullPointerException { ref ctx }), _) if ctx == "invoke"));
}

/// `Init` whose class initialiser sets its static field `x` to 3.
fn init_class() -> ClassFile {
    let mut p = Pool::new();
    let this = p.class("Init");
    let x = p.member(9, this, "x", "I").to_be_bytes();
    let methods = vec![
        // iconst_3; putstatic x; return
        static_method("<clinit>", "()V", vec![0x06, 0xb3, x[0], x[1], 0xb1], vec![]),
        // getstatic x; ireturn
        static_method("get", "()I", vec![0xb2, x[0], x[1], 0xac], vec![]),
    ];
    class_file(p, this, 0, &[StaticSpec { name: "x" }], &methods)
}

#[test]
fn class_initialiser_runs_before_static_read() {
    let mut vm = Vm::new(BootOptions { max_stack: 64 });
    let c = vm.load(init_class()).expect("the class loads");
    assert!(!vm.classes[c].initialised);
    let out = run(&mut vm, c, "get", "()I");
    assert_eq!(returned_int(&out), Some(3));
    assert!(vm.classes[c].initialised);
}

#[test]
fn class_initialiser_runs_once() {
    let mut vm = Vm::new(BootOptions { max_stack: 64 });
    let c = vm.load(init_class()).expect("the class loads");
    let first = run(&mut vm, c, "get", "()I");
    assert_eq!(returned_int(&first), Some(3));
    vm.classes[c].statics[0].value = int_value(9);
    let second = run(&mut vm, c, "get", "()I");
    assert_eq!(returned_int(&second), Some(9));
}

#[test]
fn set_static_sets_a_known_field_only() {
    let mut vm = Vm::new(BootOptions { max_stack: 64 });
    let c = vm.load(init_class()).expect("the class loads");
    assert!(vm.set_static(&"Init".to_string(), &"x".to_string(), int_value(5)));
    assert_eq!(vm.classes[c].statics[0].value, int_value(5));
    assert!(!vm.set_static(&"Init".to_string(), &"y".to_string(), int_value(6)));
    assert!(!vm.set_static(&"Missing".to_string(), &"x".to_string(), int_value(6)));
    assert_eq!(vm.classes[c].statics[0].value, int_value(5));
}

#[test]
fn initialise_runs_the_class_initialiser() {
    let mut vm = Vm::new(BootOptions { max_stack: 64 });
    let c = vm.load(init_class()).expect("the class loads");
    assert!(matches!(vm.initialise(&"Missing".to_string()), InitStep::Load(ref n) if n == "Missing"));
    assert!(matches!(vm.initialise(&"Init".to_string()), InitStep::Started));
    assert!(vm.classes[c].initialised);
    assert_eq!(vm.frames.len(), 1);
    let out = vm.run(100);
    assert!(matches!(out, Outcome::Returned(None)));
    assert_eq!(vm.classes[c].statics[0].value, int_value(3));
    assert!(matches!(vm.initialise(&"Init".to_string()), InitStep::Ready(k) if k == c));
}

#[test]
fn instantiate_adds_an_instance_at_the_end() {
    let (mut vm, c) = sub_machine();
    let before = vm.heap.objects.len();
    assert_eq!(vm.instantiate(c), Some(before));
    assert!(matches!(&vm.heap.objects[before], HeapObject::Instance(i) if i.class_name == "Sub"));
    assert_eq!(vm.instantiate(99), None);
    assert_eq!(vm.heap.objects.len(), before + 1);
}

#[test]
fn main_thread_needs_its_classes() {
    let mut vm = Vm::new(BootOptions { max_stack: 64 });
    assert_eq!(vm.make_main_thread(), None);
    assert!(vm.main_thread.is_none());
    assert!(vm.heap.objects.is_empty());
}

fn thread_classes(vm: &mut Vm) {
    let mut p = Pool::new();
    let group = p.class("java/lang/ThreadGroup");
    vm.load(class_file_with(p, group, 0, &[], &[InstanceSpec { name: "name", descriptor: "Ljava/lang/String;" }], &[]))
        .expect("the group class loads");
    let mut p = Pool::new();
    let thread = p.class("java/lang/Thread");
    let fields = [
        InstanceSpec { name: "name", descriptor: "Ljava/lang/String;" },
        InstanceSpec { name: "priority", descriptor: "I" },
        InstanceSpec { name: "tid", descriptor: "J" },
        InstanceSpec { name: "threadStatus", descriptor: "I" },
        InstanceSpec { name: "group", descriptor: "Ljava/lang/ThreadGroup;" },
    ];
    vm.load(class_file_with(p, thread, 0, &[], &fields, &[])).expect("the thread class loads");
}

#[test]
fn main_thread_gets_its_fields() {
    let mut vm = Vm::new(BootOptions { max_stack: 64 });
    thread_classes(&mut vm);
    let t = vm.make_main_thread().expect("the main thread is made");
    assert_eq!(t, 0);
    assert_eq!(vm.main_thread, Some(0));
    let fields = match &vm.heap.objects[0] {
        HeapObject::Instance(i) => {
            assert_eq!(i.class_name, "java/lang/Thread");
            i.fields.clone()
        },
        other => panic!("unexpected object {:?}", other),
    };
    let value = |n: &str| fields.iter().find(|f| f.name == n).map(|f| f.value).expect("the field exists");
    assert_eq!(value("priority"), int_value(1));
    assert_eq!(value("tid"), RuntimeValue::Integral(Integral { value: 1, ty: IntegralType::Long }));
    assert_eq!(value("threadStatus"), int_value(1));
    assert_eq!(value("group"), RuntimeValue::Object(Some(1)));
    match value("name") {
        RuntimeValue::Object(Some(m)) => assert!(matches!(&vm.heap.objects[m], HeapObject::Str(s) if s == "main")),
        other => panic!("unexpected name {:?}", other),
    }
    assert!(matches!(&vm.heap.objects[1], HeapObject::Instance(i) if i.class_name == "java/lang/ThreadGroup"));
}

fn plain_class(name: &str, statics: &[StaticSpec]) -> ClassFile {
    let mut p = Pool::new();
    let this = p.class(name);
    class_file(p, this, 0, statics, &[])
}

#[test]
fn boot_runs_its_steps_in_order() {
    let mut vm = Vm::new(BootOptions { max_stack: 64 });
    thread_classes(&mut vm);
    let string = vm.load(plain_class("java/lang/String", &[StaticSpec { name: "COMPACT_STRINGS" }])).expect("loads");
    let mut done = 0usize;
    let mut log = Vec::new();
    loop {
        match vm.boot_step(done) {
            BootAction::Initialise(n) => {
                log.push(format!("init {n}"));
                loop {
                    match vm.initialise(&n) {
                        InitStep::Ready(_) => break,
                        InitStep::Started => {
                            vm.run(1000);
                        },
                        other => panic!("unexpected {:?}", other),
                    }
                }
            },
            BootAction::Load(n) => {
                log.push(format!("load {n}"));
                if n == "java/lang/System" {
                    vm.load(plain_class("java/lang/System", &[StaticSpec { name: "allowSecurityManager" }])).expect("loads");
                } else {
                    assert_eq!(n, "java/lang/ThreadGroup");
                }
            },
            BootAction::Done => break,
            BootAction::Failed(what) => panic!("boot failed: {what}"),
        }
        done += 1;
    }
    assert_eq!(
        log,
        vec![
            "init java/lang/String",
            "load java/lang/System",
            "init java/lang/Thread",
            "load java/lang/ThreadGroup",
            "init java/lang/Thread"
        ]
    );
    assert_eq!(vm.classes[string].statics[0].value, int_value(0));
    assert!(vm.main_thread.is_some());
    assert!(vm.classes[string].initialised);
}

#[test]
fn boot_fails_without_its_classes() {
    let mut vm = Vm::new(BootOptions { max_stack: 64 });
    assert!(matches!(vm.boot_step(0), BootAction::Initialise(ref n) if n == "java/lang/String"));
    assert!(matches!(vm.boot_step(2), BootAction::Failed(_)));
    assert!(matches!(vm.boot_step(3), BootAction::Load(ref n) if n == "java/lang/ThreadGroup"));
    assert!(matches!(vm.boot_step(5), BootAction::Failed(_)));
    assert!(vm.main_thread.is_none());
}

#[test]
fn class_loader_bootstrap_makes_primitive_classes() {
    let mut vm = Vm::new(BootOptions { max_stack: 64 });
    assert!(matches!(vm.bootstrap_classes(), LoaderStep::Load(ref n) if n == "java/lang/Class"));
    let c = vm.load(plain_class("java/lang/Class", &[])).expect("loads");
    assert!(matches!(vm.bootstrap_classes(), LoaderStep::Load(ref n) if n == "java/lang/Object"));
    let o = vm.load(plain_class("java/lang/Object", &[])).expect("loads");
    assert!(matches!(vm.bootstrap_classes(), LoaderStep::Load(ref n) if n == "java/lang/String"));
    let s = vm.load(plain_class("java/lang/String", &[])).expect("loads");
    match vm.bootstrap_classes() {
        LoaderStep::Ready(b) => {
            assert_eq!((b.java_lang_class, b.java_lang_object, b.java_lang_string), (c, o, s));
            assert!(matches!(&vm.heap.objects[b.byte_array_ty], HeapObject::Mirror(n) if n == "[B"));
        }
        other => panic!("{:?}", other),
    }
    let names: Vec<&str> = vm.mirrors.iter().map(|(n, _)| n.as_str()).collect();
    assert_eq!(names, vec!["B", "[B", "Z", "[Z", "S", "[S", "C", "[C", "I", "[I", "J", "[J", "F", "[F", "D", "[D"]);
    let again = vm.bootstrap_classes();
    assert!(matches!(again, LoaderStep::Ready(_)));
    assert_eq!(vm.mirrors.len(), 16);
}
