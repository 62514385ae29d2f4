use kate::error::ExecError;
use kate::frame::{Context, Progression};
use kate::numeric::{Integral, IntegralType};
use kate::stack::{Dup, DupX1, DupX2, Iinc, LoadLocal, Nop, Pop, PushConst, StoreLocal, ValueReturn, VoidReturn};
use kate::value::RuntimeValue;

fn int_value(v: i64) -> RuntimeValue {
    RuntimeValue::Integral(Integral { value: v, ty: IntegralType::Int })
}

fn ctx(operands: Vec<RuntimeValue>, locals: Vec<RuntimeValue>) -> Context {
    Context { pc: 0, operands, locals }
}

#[test]
fn nop_changes_nothing() {
    let mut c = ctx(vec![int_value(1)], vec![]);
    assert_eq!(Nop.handle(&mut c), Ok(Progression::Next));
    assert_eq!(c.operands, vec![int_value(1)]);
}

#[test]
fn push_then_pop_restores_stack() {
    let mut c = ctx(vec![int_value(4)], vec![]);
    PushConst { value: int_value(9) }.handle(&mut c).unwrap();
    assert_eq!(c.operands, vec![int_value(4), int_value(9)]);
    Pop { amount: 1 }.handle(&mut c).unwrap();
    assert_eq!(c.operands, vec![int_value(4)]);
}

#[test]
fn dup_then_pop_restores_stack() {
    let mut c = ctx(vec![int_value(4), int_value(5)], vec![]);
    Dup.handle(&mut c).unwrap();
    assert_eq!(c.operands, vec![int_value(4), int_value(5), int_value(5)]);
    Pop { amount: 1 }.handle(&mut c).unwrap();
    assert_eq!(c.operands, vec![int_value(4), int_value(5)]);
}

#[test]
fn dup_on_empty_stack_underflows() {
    let mut c = ctx(vec![], vec![]);
    assert_eq!(Dup.handle(&mut c), Err(ExecError::StackUnderflow));
}

#[test]
fn dup_x1_inserts_below_second() {
    let mut c = ctx(vec![int_value(1), int_value(2)], vec![]);
    DupX1.handle(&mut c).unwrap();
    assert_eq!(c.operands, vec![int_value(2), int_value(1), int_value(2)]);
}

#[test]
fn store_then_load_gives_back_value() {
    let mut c = ctx(vec![int_value(77)], vec![int_value(0), int_value(0)]);
    StoreLocal { index: 1, store_next: false }.handle(&mut c).unwrap();
    assert!(c.operands.is_empty());
    assert_eq!(c.locals, vec![int_value(0), int_value(77)]);
    LoadLocal { index: 1 }.handle(&mut c).unwrap();
    assert_eq!(c.operands, vec![int_value(77)]);
}

#[test]
fn store_past_end_fills_with_null() {
    let mut c = ctx(vec![int_value(3)], vec![]);
    StoreLocal { index: 2, store_next: false }.handle(&mut c).unwrap();
    assert_eq!(c.locals, vec![RuntimeValue::Object(None), RuntimeValue::Object(None), int_value(3)]);
}

#[test]
fn wide_store_writes_two_slots() {
    let v = RuntimeValue::Integral(Integral { value: 5, ty: IntegralType::Long });
    let mut c = ctx(vec![v], vec![]);
    StoreLocal { index: 0, store_next: true }.handle(&mut c).unwrap();
    assert_eq!(c.locals, vec![v, v]);
}

#[test]
fn load_of_missing_local_fails() {
    let mut c = ctx(vec![], vec![]);
    assert_eq!(LoadLocal { index: 3 }.handle(&mut c), Err(ExecError::NoLocal(3)));
}

#[test]
fn iinc_adds_constant_to_the_value() {
    let mut c = ctx(vec![], vec![int_value(i32::MAX as i64)]);
    Iinc { index: 0, constant: 1 }.handle(&mut c).unwrap();
    assert_eq!(c.locals, vec![int_value(i32::MAX as i64 + 1)]);
    let mut d = ctx(vec![], vec![int_value(10)]);
    Iinc { index: 0, constant: -3 }.handle(&mut d).unwrap();
    assert_eq!(d.locals, vec![int_value(7)]);
}

#[test]
fn returns_pop_the_result() {
    let mut c = ctx(vec![int_value(8)], vec![]);
    assert_eq!(ValueReturn.handle(&mut c), Ok(Progression::Return(Some(int_value(8)))));
    let mut d = ctx(vec![], vec![]);
    assert_eq!(VoidReturn.handle(&mut d), Ok(Progression::Return(None)));
}

fn long_value(v: i64) -> RuntimeValue {
    RuntimeValue::Integral(Integral { value: v, ty: IntegralType::Long })
}

#[test]
fn dup_x2_of_int_over_long_takes_form_two() {
    let mut c = ctx(vec![long_value(7), int_value(3)], vec![]);
    assert_eq!(DupX2.handle(&mut c), Ok(Progression::Next));
    assert_eq!(c.operands, vec![int_value(3), long_value(7), int_value(3)]);
}

#[test]
fn dup_x2_of_three_ints_takes_form_one() {
    let mut c = ctx(vec![int_value(1), int_value(2), int_value(3)], vec![]);
    assert_eq!(DupX2.handle(&mut c), Ok(Progression::Next));
    assert_eq!(c.operands, vec![int_value(3), int_value(1), int_value(2), int_value(3)]);
}

#[test]
fn dup_x2_of_two_ints_underflows() {
    let mut c = ctx(vec![int_value(2), int_value(3)], vec![]);
    assert_eq!(DupX2.handle(&mut c), Err(ExecError::StackUnderflow));
    assert_eq!(c.operands, vec![int_value(2), int_value(3)]);
}
