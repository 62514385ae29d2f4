use kate::descriptor::{default_for_field, parameter_count};
use kate::numeric::{Floating, FloatingType, Integral, IntegralType};
use kate::value::RuntimeValue;

#[test]
fn counts_parameters_of_method_descriptor() {
    assert_eq!(parameter_count("(IJ[Ljava/lang/String;)V"), Some(3));
    assert_eq!(parameter_count("()V"), Some(0));
    assert_eq!(parameter_count("([[D[Ljava/lang/Object;Z)I"), Some(3));
}

#[test]
fn refuses_bad_method_descriptor() {
    assert_eq!(parameter_count("IJ)V"), None);
    assert_eq!(parameter_count("(Ljava/lang/String"), None);
    assert_eq!(parameter_count("(Q)V"), None);
}

#[test]
fn default_values_by_field_type() {
    assert_eq!(default_for_field("I"), Some(RuntimeValue::Integral(Integral { value: 0, ty: IntegralType::Int })));
    assert_eq!(default_for_field("Z"), Some(RuntimeValue::Integral(Integral { value: 0, ty: IntegralType::Int })));
    assert_eq!(default_for_field("J"), Some(RuntimeValue::Integral(Integral { value: 0, ty: IntegralType::Long })));
    assert_eq!(default_for_field("D"), Some(RuntimeValue::Floating(Floating { bits: 0, ty: FloatingType::Double })));
    assert_eq!(default_for_field("F"), Some(RuntimeValue::Floating(Floating { bits: 0, ty: FloatingType::Float })));
    assert_eq!(default_for_field("Ljava/lang/Object;"), Some(RuntimeValue::Object(None)));
    assert_eq!(default_for_field("[I"), Some(RuntimeValue::Object(None)));
    assert_eq!(default_for_field(""), None);
    assert_eq!(default_for_field("V"), None);
}
