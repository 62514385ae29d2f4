use kate::error::VMError;
use kate::frame::Throwable;
use kate::machine::{BootOptions, Outcome, Vm};
use kate::numeric::{Integral, IntegralType};
use kate::parser::Parser;
use kate::value::RuntimeValue;

/// The constant pool of a class file being written.
struct Pool {
    bytes: Vec<u8>,
    count: u16,
}

impl Pool {
    fn new() -> Self {
        Pool { bytes: Vec::new(), count: 0 }
    }

    fn add(&mut self, entry: &[u8]) -> u16 {
        self.bytes.extend_from_slice(entry);
        self.count += 1;
        self.count
    }

    fn utf8(&mut self, s: &str) -> u16 {
        let mut e = vec![1u8];
        e.extend_from_slice(&(s.len() as u16).to_be_bytes());
        e.extend_from_slice(s.as_bytes());
        self.add(&e)
    }

    fn class(&mut self, name: &str) -> u16 {
        let n = self.utf8(name);
        let mut e = vec![7u8];
        e.extend_from_slice(&n.to_be_bytes());
        self.add(&e)
    }

    fn method_ref(&mut self, class: u16, name: &str, descriptor: &str) -> u16 {
        let n = self.utf8(name);
        let d = self.utf8(descriptor);
        let mut nt = vec![12u8];
        nt.extend_from_slice(&n.to_be_bytes());
        nt.extend_from_slice(&d.to_be_bytes());
        let nt = self.add(&nt);
        let mut e = vec![10u8];
        e.extend_from_slice(&class.to_be_bytes());
        e.extend_from_slice(&nt.to_be_bytes());
        self.add(&e)
    }
}

/// A static method: name, descriptor, locals, code and its exception table
/// (start, end, handler, catch type).
struct Method {
    name: u16,
    descriptor: u16,
    max_locals: u16,
    code: Vec<u8>,
    table: Vec<(u16, u16, u16, u16)>,
}

fn put16(out: &mut Vec<u8>, v: u16) {
    out.extend_from_slice(&v.to_be_bytes());
}

fn put32(out: &mut Vec<u8>, v: u32) {
    out.extend_from_slice(&v.to_be_bytes());
}

fn class_file(pool: &Pool, this: u16, methods: &[Method], code_name: u16) -> Vec<u8> {
    let mut out = Vec::new();
    put32(&mut out, 0xCAFE_BABE);
    put16(&mut out, 0);
    put16(&mut out, 52);
    put16(&mut out, pool.count + 1);
    out.extend_from_slice(&pool.bytes);
    put16(&mut out, 0x0021);
    put16(&mut out, this);
    put16(&mut out, 0);
    put16(&mut out, 0);
    put16(&mut out, 0);
    put16(&mut out, methods.len() as u16);
    for m in methods {
        put16(&mut out, 0x0009);
        put16(&mut out, m.name);
        put16(&mut out, m.descriptor);
        put16(&mut out, 1);
        put16(&mut out, code_name);
        put32(&mut out, 12 + m.code.len() as u32 + 8 * m.table.len() as u32);
        put16(&mut out, 4);
        put16(&mut out, m.max_locals);
        put32(&mut out, m.code.len() as u32);
        out.extend_from_slice(&m.code);
        put16(&mut out, m.table.len() as u16);
        for (start, end, handler, ty) in &m.table {
            put16(&mut out, *start);
            put16(&mut out, *end);
            put16(&mut out, *handler);
            put16(&mut out, *ty);
        }
        put16(&mut out, 0);
    }
    put16(&mut out, 0);
    out
}

/// A class of this name with nothing in it.
fn empty_class(name: &str) -> Vec<u8> {
    let mut p = Pool::new();
    let this = p.class(name);
    let code_name = p.utf8("Code");
    class_file(&p, this, &[], code_name)
}

/// A class `Guarded` whose methods raise exceptions of the machine inside handlers.
fn guarded_class() -> Vec<u8> {
    let mut p = Pool::new();
    let this = p.class("Guarded");
    let code_name = p.utf8("Code");
    let bounds = p.class("java/lang/ArrayIndexOutOfBoundsException");
    let overflow = p.class("java/lang/StackOverflowError");
    let recurse_ref = p.method_ref(this, "recurse", "()I").to_be_bytes();
    let mut methods = Vec::new();
    // Overwrites its argument with 7, reads element 5 of a two-element array; the
    // handler returns the argument when it was handed `null`, else -1.
    let name = p.utf8("guard");
    let descriptor = p.utf8("(I)I");
    methods.push(Method {
        name,
        descriptor,
        max_locals: 1,
        code: vec![
            0x10, 0x07, 0x3b, 0x05, 0xbc, 0x0a, 0x10, 0x05, 0x2e, 0xac, 0xc6, 0x00, 0x06, 0x02, 0xac, 0x00, 0x1a, 0xac,
        ],
        table: vec![(0, 10, 10, bounds)],
    });
    // Calls itself without end.
    let name = p.utf8("recurse");
    let descriptor = p.utf8("()I");
    methods.push(Method { name, descriptor, max_locals: 0, code: vec![0xb8, recurse_ref[0], recurse_ref[1], 0xac], table: vec![] });
    // Calls `recurse`; the handler of the stack overflow returns 9.
    let name = p.utf8("safe");
    let descriptor = p.utf8("()I");
    methods.push(Method {
        name,
        descriptor,
        max_locals: 0,
        code: vec![0xb8, recurse_ref[0], recurse_ref[1], 0xac, 0x57, 0x10, 0x09, 0xac],
        table: vec![(0, 4, 4, overflow)],
    });
    class_file(&p, this, &methods, code_name)
}

fn load(vm: &mut Vm, bytes: &[u8]) -> usize {
    let mut parser = Parser::new(bytes);
    let file = parser.parse().expect("the class file parses");
    vm.load(file).expect("the class loads")
}

fn int_value(v: i64) -> RuntimeValue {
    RuntimeValue::Integral(Integral { value: v, ty: IntegralType::Int })
}

fn call(vm: &mut Vm, c: usize, name: &str, descriptor: &str, args: Vec<RuntimeValue>) -> Outcome {
    vm.start(c, &name.to_string(), &descriptor.to_string(), args).expect("the method exists");
    vm.run(100_000)
}

#[test]
fn machine_exception_is_caught_by_its_loaded_class() {
    let mut vm = Vm::new(BootOptions { max_stack: 64 });
    load(&mut vm, &empty_class("java/lang/ArrayIndexOutOfBoundsException"));
    let c = load(&mut vm, &guarded_class());
    match call(&mut vm, c, "guard", "(I)I", vec![int_value(42)]) {
        Outcome::Returned(Some(v)) => assert_eq!(v, int_value(42)),
        other => panic!("unexpected outcome {:?}", other),
    }
}

#[test]
fn machine_exception_without_its_class_is_uncaught() {
    let mut vm = Vm::new(BootOptions { max_stack: 64 });
    let c = load(&mut vm, &guarded_class());
    match call(&mut vm, c, "guard", "(I)I", vec![int_value(42)]) {
        Outcome::Uncaught(Throwable::Error(VMError::ArrayIndexOutOfBounds { at }), state) => {
            assert_eq!(at, 5);
            assert_eq!(state.pc, 8);
            assert_eq!(state.locals, vec![int_value(7)]);
        }
        other => panic!("unexpected outcome {:?}", other),
    }
    assert!(vm.frames.is_empty());
}

#[test]
fn stack_overflow_is_caught_by_a_caller() {
    let mut vm = Vm::new(BootOptions { max_stack: 8 });
    load(&mut vm, &empty_class("java/lang/StackOverflowError"));
    let c = load(&mut vm, &guarded_class());
    match call(&mut vm, c, "safe", "()I", vec![]) {
        Outcome::Returned(Some(v)) => assert_eq!(v, int_value(9)),
        other => panic!("unexpected outcome {:?}", other),
    }
}

#[test]
fn uncaught_stack_overflow_keeps_the_outermost_state() {
    let mut vm = Vm::new(BootOptions { max_stack: 8 });
    let c = load(&mut vm, &guarded_class());
    match call(&mut vm, c, "safe", "()I", vec![]) {
        Outcome::Uncaught(Throwable::Error(VMError::StackOverflowError {}), state) => {
            assert_eq!(state.pc, 0);
            assert!(state.locals.is_empty());
        }
        other => panic!("unexpected outcome {:?}", other),
    }
    assert!(vm.frames.is_empty());
}
