use kate::branch::{Comparison, Goto, IfIntCompare, IfNull, IfZero, LookupSwitch, TableSwitch};
use kate::error::ExecError;
use kate::frame::{Context, Progression};
use kate::numeric::{Integral, IntegralType};
use kate::value::RuntimeValue;

fn int_value(v: i64) -> RuntimeValue {
    RuntimeValue::Integral(Integral { value: v, ty: IntegralType::Int })
}

fn ctx(pc: i32, operands: Vec<RuntimeValue>) -> Context {
    Context { pc, operands, locals: vec![] }
}

#[test]
fn comparisons() {
    assert!(Comparison::Lt.test(1, 2));
    assert!(!Comparison::Lt.test(2, 2));
    assert!(Comparison::Le.test(2, 2));
    assert!(Comparison::Ne.test(1, 2));
    assert!(Comparison::Ge.test(3, 2));
}

#[test]
fn if_int_compare_taken_and_not_taken() {
    let mut c = ctx(10, vec![int_value(1), int_value(2)]);
    assert_eq!(IfIntCompare { cond: Comparison::Lt, jump_to: 7 }.handle(&mut c), Ok(Progression::JumpRel(7)));
    assert!(c.operands.is_empty());
    let mut d = ctx(10, vec![int_value(3), int_value(2)]);
    assert_eq!(IfIntCompare { cond: Comparison::Lt, jump_to: 7 }.handle(&mut d), Ok(Progression::Next));
}

#[test]
fn if_zero_tests_against_zero() {
    let mut c = ctx(0, vec![int_value(0)]);
    assert_eq!(IfZero { cond: Comparison::Eq, jump_to: -4 }.handle(&mut c), Ok(Progression::JumpRel(-4)));
    let mut d = ctx(0, vec![RuntimeValue::Object(None)]);
    assert_eq!(IfZero { cond: Comparison::Eq, jump_to: -4 }.handle(&mut d), Err(ExecError::NotInt));
}

#[test]
fn if_null_tests_reference() {
    let mut c = ctx(0, vec![RuntimeValue::Object(None)]);
    assert_eq!(IfNull { jump_to: 5 }.handle(&mut c), Ok(Progression::JumpRel(5)));
    let mut d = ctx(0, vec![RuntimeValue::Object(Some(2))]);
    assert_eq!(IfNull { jump_to: 5 }.handle(&mut d), Ok(Progression::Next));
}

#[test]
fn goto_jumps_relative() {
    let mut c = ctx(20, vec![]);
    assert_eq!(Goto { jump_to: -12 }.handle(&mut c), Ok(Progression::JumpRel(-12)));
}

#[test]
fn table_switch_picks_offset_or_default() {
    let t = TableSwitch { default: 100, low: 1, high: 3, table: vec![10, 20, 30] };
    let mut c = ctx(50, vec![int_value(2)]);
    assert_eq!(t.handle(&mut c), Ok(Progression::JumpAbs(70)));
    let mut d = ctx(50, vec![int_value(9)]);
    assert_eq!(t.handle(&mut d), Ok(Progression::JumpAbs(150)));
}

#[test]
fn lookup_switch_picks_matching_pair() {
    let l = LookupSwitch { default: 8, pairs: vec![(-1, 16), (5, 24)] };
    let mut c = ctx(0, vec![int_value(5)]);
    assert_eq!(l.handle(&mut c), Ok(Progression::JumpAbs(24)));
    let mut d = ctx(0, vec![int_value(6)]);
    assert_eq!(l.handle(&mut d), Ok(Progression::JumpAbs(8)));
}
