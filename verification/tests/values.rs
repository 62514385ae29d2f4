use kate::error::ExecError;
use kate::numeric::{ArrayPrimitive, Floating, FloatingType, Integral, IntegralType};
use kate::pool::ConstantTag;
use kate::value::{ComputationalType, RuntimeValue};

#[test]
fn int_value_is_int() {
    let v = RuntimeValue::from_int(-3);
    assert_eq!(v, RuntimeValue::Integral(Integral { value: -3, ty: IntegralType::Int }));
}

#[test]
fn long_value_is_long() {
    let v = RuntimeValue::from_long(1 << 40);
    assert_eq!(v, RuntimeValue::Integral(Integral { value: 1 << 40, ty: IntegralType::Long }));
}

#[test]
fn null_is_null() {
    assert!(RuntimeValue::null_ref().is_null());
    assert!(!RuntimeValue::Object(Some(0)).is_null());
    assert!(!RuntimeValue::from_int(0).is_null());
}

#[test]
fn categories_of_values() {
    assert_eq!(RuntimeValue::from_int(1).computational_type(), ComputationalType::Category1);
    assert_eq!(RuntimeValue::from_long(1).computational_type(), ComputationalType::Category2);
    assert_eq!(RuntimeValue::Object(None).computational_type(), ComputationalType::Category1);
    assert_eq!(
        RuntimeValue::Floating(Floating::double(0)).computational_type(),
        ComputationalType::Category1
    );
    assert_eq!(RuntimeValue::Floating(Floating::float(0)).computational_type(), ComputationalType::Category2);
}

#[test]
fn integral_constructors_and_operations() {
    let a = Integral::new_int(7);
    let b = Integral::long(-3);
    assert_eq!(a.ty, IntegralType::Int);
    assert_eq!(b.ty, IntegralType::Long);
    assert_eq!(a.add(b), 4);
    assert_eq!(a.sub(b), 10);
    assert_eq!(a.mul(b), -21);
    assert_eq!(a.div(b), -2);
    assert_eq!(Integral::new_int(-7).div(Integral::new_int(2)), -3);
    assert_eq!(a.bitor(Integral::new_int(8)), 15);
    assert_eq!(a.bitand(Integral::new_int(5)), 5);
}

#[test]
fn floating_constructors_keep_bits() {
    assert_eq!(Floating::double(42), Floating { bits: 42, ty: FloatingType::Double });
    assert_eq!(Floating::float(42), Floating { bits: 42, ty: FloatingType::Float });
}

#[test]
fn array_types_by_tag() {
    assert_eq!(ArrayPrimitive::from_tag(4), Ok(ArrayPrimitive::Bool));
    assert_eq!(ArrayPrimitive::from_tag(5), Ok(ArrayPrimitive::Char));
    assert_eq!(ArrayPrimitive::from_tag(10), Ok(ArrayPrimitive::Int));
    assert_eq!(ArrayPrimitive::from_tag(11), Ok(ArrayPrimitive::Long));
    assert_eq!(ArrayPrimitive::from_tag(3), Err(ExecError::BadArrayType(3)));
    assert_eq!(ArrayPrimitive::from_tag(12), Err(ExecError::BadArrayType(12)));
}

#[test]
fn constant_tags_by_byte() {
    assert!(matches!(ConstantTag::from_tag(1), ConstantTag::Utf8));
    assert!(matches!(ConstantTag::from_tag(7), ConstantTag::Class));
    assert!(matches!(ConstantTag::from_tag(12), ConstantTag::NameAndType));
    assert!(matches!(ConstantTag::from_tag(18), ConstantTag::InvokeDynamic));
}
