use kate::layout::{base_layout, for_field_type, word_layout, ClassFileLayout, JavaType, Layout, LayoutError};

#[test]
fn from_size_align_checks_alignment() {
    assert_eq!(Layout::from_size_align(12, 4), Ok(Layout { size: 12, align: 4 }));
    assert_eq!(Layout::from_size_align(12, 3), Err(LayoutError));
    assert_eq!(Layout::from_size_align(12, 0), Err(LayoutError));
    assert_eq!(Layout::from_size_align(isize::MAX as usize, 2), Err(LayoutError));
}

#[test]
fn extend_places_next_at_aligned_offset() {
    let a = Layout { size: 5, align: 1 };
    let b = Layout { size: 8, align: 8 };
    assert_eq!(a.extend(b), Ok((Layout { size: 16, align: 8 }, 8)));
    let c = Layout { size: 8, align: 8 };
    let d = Layout { size: 2, align: 2 };
    assert_eq!(c.extend(d), Ok((Layout { size: 10, align: 8 }, 8)));
}

#[test]
fn pad_rounds_size_up_to_alignment() {
    assert_eq!(Layout { size: 10, align: 8 }.pad_to_align(), Layout { size: 16, align: 8 });
    assert_eq!(Layout { size: 16, align: 8 }.pad_to_align(), Layout { size: 16, align: 8 });
}

#[test]
fn layout_of_rust_types() {
    assert_eq!(Layout::new::<u64>(), Layout { size: 8, align: std::mem::align_of::<u64>() });
    let t = JavaType::new::<u16>("C");
    assert_eq!(t.size.0, 2);
    assert_eq!(t.name, "C");
    let l = JavaType::from_layout(Layout { size: 24, align: 8 }, "header");
    assert_eq!(l.alignment.0, 8);
    assert_eq!(l.size.0, 24);
}

#[test]
fn field_type_layouts() {
    let word = word_layout();
    assert_eq!(for_field_type("I", word), Some(Layout { size: 4, align: 4 }));
    assert_eq!(for_field_type("Z", word), Some(Layout { size: 4, align: 4 }));
    assert_eq!(for_field_type("C", word), Some(Layout { size: 2, align: 2 }));
    assert_eq!(for_field_type("B", word), Some(Layout { size: 1, align: 1 }));
    assert_eq!(for_field_type("J", word), Some(Layout { size: 8, align: 8 }));
    assert_eq!(for_field_type("Ljava/lang/Object;", word), Some(word));
    assert_eq!(for_field_type("[J", word), Some(Layout { size: word.size, align: 8.max(word.align) }));
    assert_eq!(for_field_type("[[I", word), None);
    assert_eq!(for_field_type("V", word), None);
}

#[test]
fn empty_class_layout() {
    let e = ClassFileLayout::empty();
    assert_eq!(e.layout(), Layout { size: 0, align: 1 });
    assert!(e.fields().is_empty());
    assert!(e.field_info(&"x".to_string()).is_none());
    let t = ClassFileLayout::from_java_type(JavaType::from_layout(base_layout(), "Object"));
    assert_eq!(t.layout(), base_layout());
}
