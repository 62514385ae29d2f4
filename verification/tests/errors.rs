use kate::error::VMError;

#[test]
fn array_index_message_gives_index() {
    let e = VMError::ArrayIndexOutOfBounds { at: -5 };
    assert_eq!(e.class_name(), "java/lang/ArrayIndexOutOfBoundsException");
    assert_eq!(e.message(), "java/lang/ArrayIndexOutOfBoundsException: OOB @ -5");
    let f = VMError::ArrayIndexOutOfBounds { at: 120 };
    assert_eq!(f.message(), "java/lang/ArrayIndexOutOfBoundsException: OOB @ 120");
    let z = VMError::ArrayIndexOutOfBounds { at: 0 };
    assert_eq!(z.message(), "java/lang/ArrayIndexOutOfBoundsException: OOB @ 0");
}

#[test]
fn extreme_index_message() {
    let e = VMError::ArrayIndexOutOfBounds { at: i64::MIN };
    assert_eq!(e.message(), "java/lang/ArrayIndexOutOfBoundsException: OOB @ -9223372036854775808");
}

#[test]
fn null_pointer_message_gives_context() {
    let e = VMError::NullPointerException { ctx: "getfield".to_string() };
    assert_eq!(e.class_name(), "java/lang/NullPointerException");
    assert_eq!(e.message(), "java/lang/NullPointerException: NPE (getfield)");
}

#[test]
fn stack_overflow_message() {
    let e = VMError::StackOverflowError {};
    assert_eq!(e.class_name(), "java/lang/StackOverflowError");
    assert_eq!(e.message(), "java/lang/StackOverflowError: thread main has overflowed its stack");
}

#[test]
fn class_cast_message_names_both_classes() {
    let e = VMError::ClassCastException { from: "A".to_string(), to: "B".to_string() };
    assert_eq!(e.class_name(), "java/lang/ClassCastException");
    assert_eq!(e.message(), "java/lang/ClassCastException: invalid cast from A to B");
}

#[test]
fn wrong_magic_is_reported_with_its_value() {
    let bytes = [0xCA, 0xFE, 0xBA, 0xBF, 0x00, 0x00, 0x00, 0x34];
    let mut p = kate::parser::Parser::new(&bytes);
    assert_eq!(p.parse().err(), Some(kate::result::ParseError::InvalidMagic(3405691583)));
}

#[test]
fn extra_bytes_after_a_class_are_refused() {
    let bytes = [0xCA, 0xFE, 0xBA, 0xBE, 0, 0, 0, 52, 0, 1, 0, 1, 0, 0, 0, 0, 0, 0, 0, 0, 0, 0, 0, 0, 0x00];
    let mut p = kate::parser::Parser::new(&bytes);
    assert_eq!(p.parse().err(), Some(kate::result::ParseError::TrailingBytes));
    let short = &bytes[..bytes.len() - 3];
    let mut q = kate::parser::Parser::new(short);
    assert!(q.parse().is_err());
}
