use kate::numeric::{Integral, IntegralType};
use kate::statics::{StaticFieldRef, StaticFields};
use kate::value::RuntimeValue;

fn int_value(v: i64) -> RuntimeValue {
    RuntimeValue::Integral(Integral { value: v, ty: IntegralType::Int })
}

#[test]
fn unset_field_reads_nothing() {
    let statics = StaticFields::new();
    assert_eq!(statics.get_field(StaticFieldRef::new_str("A", "x", "I")), None);
}

#[test]
fn set_then_get_gives_value_back() {
    let mut statics = StaticFields::new();
    assert_eq!(statics.set_field(StaticFieldRef::new_str("A", "x", "I"), int_value(3)), None);
    assert_eq!(statics.get_field(StaticFieldRef::new_str("A", "x", "I")), Some(int_value(3)));
}

#[test]
fn setting_again_returns_previous_value() {
    let mut statics = StaticFields::new();
    statics.set_field(StaticFieldRef::new_str("A", "x", "I"), int_value(3));
    assert_eq!(statics.set_field(StaticFieldRef::new_str("A", "x", "I"), int_value(4)), Some(int_value(3)));
    assert_eq!(statics.get_field(StaticFieldRef::new_str("A", "x", "I")), Some(int_value(4)));
}

#[test]
fn fields_differ_by_class_name_and_descriptor() {
    let mut statics = StaticFields::new();
    statics.set_field(StaticFieldRef::new_str("A", "x", "I"), int_value(1));
    statics.set_field(StaticFieldRef::new_str("B", "x", "I"), int_value(2));
    statics.set_field(StaticFieldRef::new_str("A", "x", "J"), int_value(3));
    statics.set_field(StaticFieldRef::new("A".to_string(), "y".to_string(), "I".to_string()), int_value(4));
    assert_eq!(statics.get_field(StaticFieldRef::new_str("A", "x", "I")), Some(int_value(1)));
    assert_eq!(statics.get_field(StaticFieldRef::new_str("B", "x", "I")), Some(int_value(2)));
    assert_eq!(statics.get_field(StaticFieldRef::new_str("A", "x", "J")), Some(int_value(3)));
    assert_eq!(statics.get_field(StaticFieldRef::new_str("A", "y", "I")), Some(int_value(4)));
}

#[test]
fn references_compare_by_all_parts() {
    let a = StaticFieldRef::new_str("A", "x", "I");
    assert!(a.same(&StaticFieldRef::new("A".to_string(), "x".to_string(), "I".to_string())));
    assert!(!a.same(&StaticFieldRef::new_str("A", "x", "J")));
}
