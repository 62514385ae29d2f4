use kate::arith::{ArithOp, IntArith, IntUnary, UnaryOp};
use kate::error::ExecError;
use kate::frame::{Context, Progression};
use kate::numeric::{Integral, IntegralType};
use kate::value::RuntimeValue;

fn int_value(v: i64) -> RuntimeValue {
    RuntimeValue::Integral(Integral { value: v, ty: IntegralType::Int })
}

fn long_value(v: i64) -> RuntimeValue {
    RuntimeValue::Integral(Integral { value: v, ty: IntegralType::Long })
}

#[test]
fn int_addition_wraps() {
    assert_eq!(ArithOp::Iadd.compute(i32::MAX as i64, 1), Ok(int_value(i32::MIN as i64)));
    assert_eq!(ArithOp::Iadd.compute(2, 3), Ok(int_value(5)));
}

#[test]
fn int_add_and_mul_commute() {
    for (a, b) in [(3i64, -8i64), (100_000, 70_000), (-1, i32::MIN as i64)] {
        assert_eq!(ArithOp::Iadd.compute(a, b), ArithOp::Iadd.compute(b, a));
        assert_eq!(ArithOp::Imul.compute(a, b), ArithOp::Imul.compute(b, a));
    }
}

#[test]
fn int_division_and_remainder_fit_together() {
    for (a, b) in [(7i64, 2i64), (-7, 2), (7, -2), (-7, -2)] {
        let q = match ArithOp::Idiv.compute(a, b) {
            Ok(RuntimeValue::Integral(i)) => i.value,
            other => panic!("{:?}", other),
        };
        let r = match ArithOp::Irem.compute(a, b) {
            Ok(RuntimeValue::Integral(i)) => i.value,
            other => panic!("{:?}", other),
        };
        assert_eq!(q * b + r, a);
    }
    assert_eq!(ArithOp::Idiv.compute(-7, 2), Ok(int_value(-3)));
    assert_eq!(ArithOp::Irem.compute(-7, 2), Ok(int_value(-1)));
}

#[test]
fn division_by_zero_faults() {
    assert_eq!(ArithOp::Idiv.compute(1, 0), Err(ExecError::Arithmetic));
    assert_eq!(ArithOp::Ldiv.compute(1, 0), Err(ExecError::Arithmetic));
    assert_eq!(ArithOp::Irem.compute(1, 0), Err(ExecError::Arithmetic));
    assert_eq!(ArithOp::Lrem.compute(1, 0), Err(ExecError::Arithmetic));
}

#[test]
fn least_int_divided_by_minus_one_stays_least() {
    assert_eq!(ArithOp::Idiv.compute(i32::MIN as i64, -1), Ok(int_value(i32::MIN as i64)));
    assert_eq!(ArithOp::Ldiv.compute(i64::MIN, -1), Ok(long_value(i64::MIN)));
}

#[test]
fn shifts_take_low_bits_of_distance() {
    assert_eq!(ArithOp::Ishl.compute(1, 33), Ok(int_value(2)));
    assert_eq!(ArithOp::Ishr.compute(-8, 1), Ok(int_value(-4)));
    assert_eq!(ArithOp::Iushr.compute(-8, 28), Ok(int_value(15)));
    assert_eq!(ArithOp::Iushr.compute(1, 32), Err(ExecError::ShiftTooFar));
    assert_eq!(ArithOp::Lshl.compute(1, 65), Ok(long_value(2)));
    assert_eq!(ArithOp::Lushr.compute(-1, 60), Ok(long_value(15)));
}

#[test]
fn bitwise_operations() {
    assert_eq!(ArithOp::Iand.compute(0b1100, 0b1010), Ok(int_value(0b1000)));
    assert_eq!(ArithOp::Ior.compute(0b1100, 0b1010), Ok(int_value(0b1110)));
    assert_eq!(ArithOp::Ixor.compute(0b1100, 0b1010), Ok(int_value(0b0110)));
    assert_eq!(ArithOp::Land.compute(-1, 255), Ok(long_value(255)));
}

#[test]
fn long_comparison_gives_sign() {
    assert_eq!(ArithOp::Lcompare.compute(5, 3), Ok(int_value(1)));
    assert_eq!(ArithOp::Lcompare.compute(3, 3), Ok(int_value(0)));
    assert_eq!(ArithOp::Lcompare.compute(-5, 3), Ok(int_value(-1)));
}

#[test]
fn long_arithmetic_wraps() {
    assert_eq!(ArithOp::Lmul.compute(i64::MAX, 2), Ok(long_value(-2)));
    assert_eq!(ArithOp::Lsub.compute(i64::MIN, 1), Ok(long_value(i64::MAX)));
}

#[test]
fn arith_handler_pops_two_pushes_one() {
    let mut c = Context { pc: 0, operands: vec![int_value(40), int_value(2)], locals: vec![] };
    assert_eq!(IntArith { op: ArithOp::Iadd }.handle(&mut c), Ok(Progression::Next));
    assert_eq!(c.operands, vec![int_value(42)]);
}

#[test]
fn arith_handler_underflows() {
    let mut c = Context { pc: 0, operands: vec![int_value(40)], locals: vec![] };
    assert_eq!(IntArith { op: ArithOp::Iadd }.handle(&mut c), Err(ExecError::StackUnderflow));
}

#[test]
fn unary_conversions() {
    let mut c = Context { pc: 0, operands: vec![int_value(300)], locals: vec![] };
    IntUnary { op: UnaryOp::I2b }.handle(&mut c).unwrap();
    assert_eq!(c.operands, vec![int_value(44)]);
    let mut d = Context { pc: 0, operands: vec![int_value(-5)], locals: vec![] };
    IntUnary { op: UnaryOp::I2l }.handle(&mut d).unwrap();
    assert_eq!(d.operands, vec![long_value(-5)]);
    let mut e = Context { pc: 0, operands: vec![int_value(7)], locals: vec![] };
    IntUnary { op: UnaryOp::Ineg }.handle(&mut e).unwrap();
    assert_eq!(e.operands, vec![int_value(-7)]);
}
