//! Memory layouts of Java types and of class instances: the size and alignment of each
//! field type, and the offsets of an instance's fields after the object header.
use crate::attributes::{check_names_from, last_named, AttributeValue, ConstantValueAttribute};
use crate::classes::is_static_field;
use crate::classfile::{text_at, Addressed, ClassFile, ClassFileValue, Field, FieldValue};
use crate::descriptor::{default_for, default_for_field};
use crate::numeric::{Floating, FloatingType, Integral, IntegralType};
use crate::pool::{Check, ConstantEntry, EntryValue};
use crate::reader::peek_u16;
use crate::resolve::{entry_at, lookup_entry, text};
use crate::value::RuntimeValue;
use vstd::prelude::*;

verus! {

/// Whether `a` is a power of two.
pub open spec fn power_of_two(a: usize) -> bool {
    a != 0 && a & ((a - 1) as usize) == 0
}

/// Whether a size and alignment make a layout: the alignment is a power of two and the
/// size, rounded up to it, does not exceed `isize::MAX`.
pub open spec fn valid_layout(size: usize, align: usize) -> bool {
    power_of_two(align) && size <= (isize::MAX as int) - ((isize::MAX as int) % (align as int))
}

/// `size` rounded up to a multiple of `align`.
pub open spec fn round_up(size: int, align: int) -> int {
    if size % align == 0 {
        size
    } else {
        size + (align - size % align)
    }
}

/// The size and alignment of a block of memory, as `std::alloc::Layout` describes one.
#[derive(Debug, Clone, Copy, PartialEq, Eq, Structural)]
pub struct Layout {
    pub size: usize,
    pub align: usize,
}

/// A size and alignment that do not make a layout.
#[derive(Debug, Clone, Copy, PartialEq, Eq, Structural)]
pub struct LayoutError;

impl Layout {
    /// The layout with this size and alignment, when they make one (`valid_layout`).
    pub fn from_size_align(size: usize, align: usize) -> (r: Result<Layout, LayoutError>)
        ensures
            valid_layout(size, align) ==> r == Ok::<Layout, LayoutError>(Layout { size, align }),
            !valid_layout(size, align) ==> r == Err::<Layout, LayoutError>(LayoutError),
    {
        if align == 0 || align & (align - 1) != 0 {
            return Err(LayoutError);
        }
        let max = isize::MAX as usize;
        let rem = max % align;
        assert(rem <= max) by (nonlinear_arith)
            requires
                rem == max % align,
                align > 0,
        ;
        if size > max - rem {
            return Err(LayoutError);
        }
        Ok(Layout { size, align })
    }

    /// The layout of values of type `T`.
    pub fn new<T>() -> (r: Layout)
        ensures
            r.size == vstd::layout::size_of::<T>(),
            r.align == vstd::layout::align_of::<T>(),
    {
        Layout { size: core::mem::size_of::<T>(), align: core::mem::align_of::<T>() }
    }

    /// The layout of this one followed by `next`, with `next` at the first offset aligned
    /// to it: the alignment is the larger of the two; an error when the size does not fit.
    pub open spec fn spec_extend(self, next: Layout) -> Option<(Layout, int)> {
        let align = if self.align >= next.align { self.align } else { next.align };
        let offset = round_up(self.size as int, next.align as int);
        let size = offset + next.size;
        if size <= usize::MAX && valid_layout(size as usize, align) {
            Some((Layout { size: size as usize, align }, offset))
        } else {
            None
        }
    }

    /// This layout followed by `next`, and the offset of `next` in it.
    pub fn extend(&self, next: Layout) -> (r: Result<(Layout, usize), LayoutError>)
        requires
            next.align > 0,
        ensures
            match self.spec_extend(next) {
                Some((l, o)) => r == Ok::<(Layout, usize), LayoutError>((l, o as usize)),
                None => r == Err::<(Layout, usize), LayoutError>(LayoutError),
            },
    {
        let align = if self.align >= next.align {
            self.align
        } else {
            next.align
        };
        let rem = self.size % next.align;
        let offset = if rem == 0 {
            self.size
        } else {
            match self.size.checked_add(next.align - rem) {
                Some(o) => o,
                None => return Err(LayoutError),
            }
        };
        let size = match offset.checked_add(next.size) {
            Some(s) => s,
            None => return Err(LayoutError),
        };
        match Layout::from_size_align(size, align) {
            Ok(l) => Ok((l, offset)),
            Err(e) => Err(e),
        }
    }

    /// This layout with its size rounded up to a multiple of its alignment.
    pub fn pad_to_align(&self) -> (r: Layout)
        requires
            self.align > 0,
            round_up(self.size as int, self.align as int) <= usize::MAX,
        ensures
            r == (Layout { size: round_up(self.size as int, self.align as int) as usize, align: self.align }),
    {
        let rem = self.size % self.align;
        if rem == 0 {
            Layout { size: self.size, align: self.align }
        } else {
            Layout { size: self.size + (self.align - rem), align: self.align }
        }
    }
}

/// The alignment of a type.
#[derive(Debug, Clone, Copy, PartialEq, Eq, Structural)]
pub struct Alignment(pub usize);

/// The size of a type.
#[derive(Debug, Clone, Copy, PartialEq, Eq, Structural)]
pub struct Size(pub usize);

/// The layout of a Java type, with a name for it.
#[derive(Debug, Clone, Copy)]
pub struct JavaType {
    pub alignment: Alignment,
    pub size: Size,
    pub layout: Layout,
    pub name: &'static str,
}

/// Where a field lies in an instance: its offset from the start.
#[derive(Debug, Clone, Copy, PartialEq, Eq, Structural)]
pub struct FieldLocation {
    pub offset: usize,
}

impl JavaType {
    /// The Java type whose values are laid out as values of `T`.
    pub fn new<T>(name: &'static str) -> (r: Self)
        ensures
            r.layout.size == vstd::layout::size_of::<T>(),
            r.layout.align == vstd::layout::align_of::<T>(),
            r.size.0 == r.layout.size,
            r.alignment.0 == r.layout.align,
            r.name == name,
    {
        let layout = Layout::new::<T>();
        JavaType { alignment: Alignment(layout.align), size: Size(layout.size), name, layout }
    }

    /// The Java type with the given layout.
    pub fn from_layout(layout: Layout, name: &'static str) -> (r: Self)
        ensures
            r.layout == layout,
            r.size.0 == layout.size,
            r.alignment.0 == layout.align,
            r.name == name,
    {
        JavaType { alignment: Alignment(layout.align), size: Size(layout.size), name, layout }
    }
}

/// The header every object starts with: its class and its superclass, by reference,
/// and a reference count.
#[derive(Debug, Clone, Copy)]
pub struct ObjectHeader {
    pub class: usize,
    pub super_class: usize,
    pub ref_count: u64,
}

/// The layout of the object header, as a value.
pub open spec fn object_base() -> Layout {
    Layout {
        size: vstd::layout::size_of::<ObjectHeader>() as usize,
        align: vstd::layout::align_of::<ObjectHeader>() as usize,
    }
}

/// The layout of the object header, which every instance layout starts with.
pub fn base_layout() -> (r: Layout)
    ensures
        r.size == vstd::layout::size_of::<ObjectHeader>(),
        r.align == vstd::layout::align_of::<ObjectHeader>(),
        r == object_base(),
{
    Layout::new::<ObjectHeader>()
}

/// The size and alignment of a field of a primitive type, by its descriptor letter, at
/// its Java width (`boolean` as an `int`, `char` as 16 bits).
pub open spec fn primitive_field_layout(c: char) -> Option<Layout> {
    if c == 'Z' || c == 'I' || c == 'F' {
        Some(Layout { size: 4, align: 4 })
    } else if c == 'C' || c == 'S' {
        Some(Layout { size: 2, align: 2 })
    } else if c == 'B' {
        Some(Layout { size: 1, align: 1 })
    } else if c == 'J' || c == 'D' {
        Some(Layout { size: 8, align: 8 })
    } else {
        None
    }
}

/// The size and alignment of a field of the type that `descriptor` starts with: a
/// primitive type at its Java width, a reference to an object as a reference (`word`),
/// a one-dimensional array as the array base (a reference) aligned to its elements.
/// `None` for `void`, nested arrays and text that is not a field type.
pub open spec fn field_layout(descriptor: Seq<char>, word: Layout) -> Option<Layout> {
    if descriptor.len() == 0 {
        None
    } else {
        let c = descriptor[0];
        if c == 'L' {
            Some(word)
        } else if c == '[' {
            if descriptor.len() >= 2 && descriptor[1] != '[' {
                let component = if descriptor[1] == 'L' {
                    Some(word)
                } else {
                    primitive_field_layout(descriptor[1])
                };
                match component {
                    Some(e) => {
                        let align = if e.align >= word.align { e.align } else { word.align };
                        if valid_layout(word.size, align) {
                            Some(Layout { size: word.size, align })
                        } else {
                            None
                        }
                    },
                    None => None,
                }
            } else {
                None
            }
        } else {
            primitive_field_layout(c)
        }
    }
}

/// The layout of a reference: that of a `usize`.
pub open spec fn reference_layout() -> Layout {
    Layout { size: vstd::layout::size_of::<usize>() as usize, align: vstd::layout::align_of::<usize>() as usize }
}

/// The layout of a reference.
pub fn word_layout() -> (r: Layout)
    ensures
        r == reference_layout(),
        r.align > 0,
{
    vstd::layout::layout_for_type_is_valid::<usize>();
    Layout::new::<usize>()
}

fn primitive_layout(c: char) -> (r: Option<Layout>)
    ensures
        r == primitive_field_layout(c),
{
    if c == 'Z' || c == 'I' || c == 'F' {
        Some(Layout { size: 4, align: 4 })
    } else if c == 'C' || c == 'S' {
        Some(Layout { size: 2, align: 2 })
    } else if c == 'B' {
        Some(Layout { size: 1, align: 1 })
    } else if c == 'J' || c == 'D' {
        Some(Layout { size: 8, align: 8 })
    } else {
        None
    }
}

/// The layout of a field of the type that `descriptor` starts with (`field_layout`),
/// with `word` as the layout of a reference.
pub fn for_field_type(descriptor: &str, word: Layout) -> (r: Option<Layout>)
    ensures
        r == field_layout(descriptor@, word),
{
    let n = descriptor.unicode_len();
    if n == 0 {
        return None;
    }
    let c = descriptor.get_char(0);
    if c == 'L' {
        return Some(word);
    }
    if c != '[' {
        return primitive_layout(c);
    }
    if n < 2 {
        return None;
    }
    let e = descriptor.get_char(1);
    if e == '[' {
        return None;
    }
    let component = if e == 'L' {
        Some(word)
    } else {
        primitive_layout(e)
    };
    match component {
        Some(l) => {
            let align = if l.align >= word.align { l.align } else { word.align };
            match Layout::from_size_align(word.size, align) {
                Ok(layout) => Some(layout),
                Err(_) => None,
            }
        },
        None => None,
    }
}


/// Why the layout of a class could not be computed.
#[derive(Debug, Clone, Copy, PartialEq, Eq, Structural)]
pub enum LayoutFailure {
    /// A field names no valid name or field type.
    BadField,
    /// A static field's `ConstantValue` names this entry, which holds no constant a field
    /// can start with.
    BadConstant(u16),
    /// The instance does not fit a layout.
    TooLarge,
}

/// How a static field starts: with a value, or with the string object for a text.
#[derive(Debug, Clone)]
pub enum StaticInit {
    Value(RuntimeValue),
    Text(String),
}

/// How a static field starts, as a mathematical value.
pub enum StaticInitValue {
    Value(RuntimeValue),
    Text(Seq<char>),
}

impl View for StaticInit {
    type V = StaticInitValue;

    open spec fn view(&self) -> StaticInitValue {
        match self {
            StaticInit::Value(v) => StaticInitValue::Value(*v),
            StaticInit::Text(t) => StaticInitValue::Text(t@),
        }
    }
}

/// A static field: its name, its descriptor and how it starts.
#[derive(Debug, Clone)]
pub struct StaticInfo {
    pub name: String,
    pub descriptor: String,
    pub init: StaticInit,
}

/// A static field as a mathematical value.
pub struct StaticInfoValue {
    pub name: Seq<char>,
    pub descriptor: Seq<char>,
    pub init: StaticInitValue,
}

impl View for StaticInfo {
    type V = StaticInfoValue;

    open spec fn view(&self) -> StaticInfoValue {
        StaticInfoValue { name: self.name@, descriptor: self.descriptor@, init: self.init@ }
    }
}

/// The entry a field's `ConstantValue` attribute names: the last attribute of that name
/// decides, when every attribute name is valid and its data holds an index.
pub open spec fn constant_index(pool: Seq<EntryValue>, attrs: Seq<AttributeValue>) -> Option<u16> {
    if check_names_from(pool, attrs, 0) == Check::Pass {
        match last_named(pool, attrs, "ConstantValue"@, attrs.len() as int) {
            Some(j) => if attrs[j].data.len() >= 2 {
                Some(Addressed::<ConstantEntry>::spec_from(peek_u16(attrs[j].data)).spec_index())
            } else {
                None
            },
            None => None,
        }
    } else {
        None
    }
}

/// How a static field with the constant `index` starts: an `int`, `float`, `long` or
/// `double` constant gives its value, a string constant its text.
pub open spec fn constant_init(pool: Seq<EntryValue>, index: u16) -> Option<StaticInitValue> {
    match entry_at(pool, index) {
        Some(EntryValue::Plain(ConstantEntry::Integer(c))) => Some(
            StaticInitValue::Value(RuntimeValue::Integral(Integral { value: (c.bytes as i32) as i64, ty: IntegralType::Int })),
        ),
        Some(EntryValue::Plain(ConstantEntry::Float(c))) => Some(
            StaticInitValue::Value(RuntimeValue::Floating(Floating { bits: c.bytes as u64, ty: FloatingType::Float })),
        ),
        Some(EntryValue::Plain(ConstantEntry::Long(c))) => Some(
            StaticInitValue::Value(RuntimeValue::Integral(Integral { value: c.bytes as i64, ty: IntegralType::Long })),
        ),
        Some(EntryValue::Plain(ConstantEntry::Double(c))) => Some(
            StaticInitValue::Value(RuntimeValue::Floating(Floating { bits: c.bytes, ty: FloatingType::Double })),
        ),
        Some(EntryValue::Plain(ConstantEntry::String(c))) => match text_at(pool, c.string.spec_index()) {
            Some(t) => Some(StaticInitValue::Text(t)),
            None => None,
        },
        _ => None,
    }
}

/// A static field: its constant value when it has a `ConstantValue` attribute, else the
/// default value of its type.
pub open spec fn static_info(pool: Seq<EntryValue>, f: FieldValue) -> Result<StaticInfoValue, LayoutFailure> {
    match (text_at(pool, f.name.spec_index()), text_at(pool, f.descriptor.spec_index())) {
        (Some(n), Some(d)) => match constant_index(pool, f.attributes) {
            Some(i) => match constant_init(pool, i) {
                Some(v) => Ok(StaticInfoValue { name: n, descriptor: d, init: v }),
                None => Err(LayoutFailure::BadConstant(i)),
            },
            None => match default_for(d) {
                Some(v) => Ok(StaticInfoValue { name: n, descriptor: d, init: StaticInitValue::Value(v) }),
                None => Err(LayoutFailure::BadField),
            },
        },
        _ => Err(LayoutFailure::BadField),
    }
}

/// The static fields from `i` on, in order.
pub open spec fn statics_from(pool: Seq<EntryValue>, fields: Seq<FieldValue>, i: int) -> Result<Seq<StaticInfoValue>, LayoutFailure>
    decreases fields.len() - i,
{
    if i < 0 || i >= fields.len() {
        Ok(Seq::empty())
    } else if is_static_field(fields[i]) {
        match static_info(pool, fields[i]) {
            Ok(s) => match statics_from(pool, fields, i + 1) {
                Ok(rest) => Ok(seq![s] + rest),
                Err(e) => Err(e),
            },
            Err(e) => Err(e),
        }
    } else {
        statics_from(pool, fields, i + 1)
    }
}

/// An instance field: its name, its descriptor and the layout of its type.
pub open spec fn instance_info(pool: Seq<EntryValue>, f: FieldValue, word: Layout) -> Option<(Seq<char>, Seq<char>, Layout)> {
    match (text_at(pool, f.name.spec_index()), text_at(pool, f.descriptor.spec_index())) {
        (Some(n), Some(d)) => match field_layout(d, word) {
            Some(l) => Some((n, d, l)),
            None => None,
        },
        _ => None,
    }
}

/// The instance fields from `i` on, in order.
pub open spec fn instances_from(pool: Seq<EntryValue>, fields: Seq<FieldValue>, word: Layout, i: int) -> Option<
    Seq<(Seq<char>, Seq<char>, Layout)>,
>
    decreases fields.len() - i,
{
    if i < 0 || i >= fields.len() {
        Some(Seq::empty())
    } else if !is_static_field(fields[i]) {
        match (instance_info(pool, fields[i], word), instances_from(pool, fields, word, i + 1)) {
            (Some(x), Some(rest)) => Some(seq![x] + rest),
            _ => None,
        }
    } else {
        instances_from(pool, fields, word, i + 1)
    }
}

/// The largest alignment among the layouts from `i` on, and `a`.
pub open spec fn max_align_from(ls: Seq<Layout>, a: usize, i: int) -> usize
    decreases ls.len() - i,
{
    if i < 0 || i >= ls.len() {
        a
    } else {
        let b = if ls[i].align > a { ls[i].align } else { a };
        max_align_from(ls, b, i + 1)
    }
}

/// The layout `l` extended by the layouts from `i` on, one after the other, and the
/// offset each was placed at.
pub open spec fn extend_from(l: Layout, ls: Seq<Layout>, i: int) -> Option<(Layout, Seq<usize>)>
    decreases ls.len() - i,
{
    if i < 0 || i >= ls.len() {
        Some((l, Seq::empty()))
    } else {
        match l.spec_extend(ls[i]) {
            Some((l2, o)) => match extend_from(l2, ls, i + 1) {
                Some((last, offsets)) => Some((last, seq![o as usize] + offsets)),
                None => None,
            },
            None => None,
        }
    }
}

/// The layout of a class's instances: the instance fields, each with its offset, laid out
/// one after the other after the base, the whole aligned to the largest alignment and
/// padded to it; with the static fields and how each starts.
pub struct BasicLayout {
    pub layout: Layout,
    pub names: Vec<String>,
    pub descriptors: Vec<String>,
    pub offsets: Vec<usize>,
    pub statics: Vec<StaticInfo>,
}

/// The layout of a class as a mathematical value.
pub struct BasicLayoutValue {
    pub layout: Layout,
    pub names: Seq<Seq<char>>,
    pub descriptors: Seq<Seq<char>>,
    pub offsets: Seq<usize>,
    pub statics: Seq<StaticInfoValue>,
}

impl View for BasicLayout {
    type V = BasicLayoutValue;

    open spec fn view(&self) -> BasicLayoutValue {
        BasicLayoutValue {
            layout: self.layout,
            names: self.names@.map_values(|n: String| n@),
            descriptors: self.descriptors@.map_values(|n: String| n@),
            offsets: self.offsets@,
            statics: self.statics@.map_values(|s: StaticInfo| s@),
        }
    }
}

/// The layout of the instances of class `file` after `base`, with `word` the layout of
/// a reference (`basic_layout`). A bad static field is reported before a bad instance
/// field, each at the first in order.
pub open spec fn spec_basic_layout(file: ClassFileValue, base: Layout, word: Layout) -> Result<BasicLayoutValue, LayoutFailure> {
    match statics_from(file.constant_pool, file.fields, 0) {
        Err(e) => Err(e),
        Ok(statics) => match instances_from(file.constant_pool, file.fields, word, 0) {
            None => Err(LayoutFailure::BadField),
            Some(inst) => {
                let ls = inst.map_values(|x: (Seq<char>, Seq<char>, Layout)| x.2);
                let align = max_align_from(ls, base.align, 0);
                if !valid_layout(base.size, align) {
                    Err(LayoutFailure::TooLarge)
                } else {
                    match extend_from(Layout { size: base.size, align }, ls, 0) {
                        None => Err(LayoutFailure::TooLarge),
                        Some((l, offsets)) => Ok(
                            BasicLayoutValue {
                                layout: Layout { size: round_up(l.size as int, l.align as int) as usize, align: l.align },
                                names: inst.map_values(|x: (Seq<char>, Seq<char>, Layout)| x.0),
                                descriptors: inst.map_values(|x: (Seq<char>, Seq<char>, Layout)| x.1),
                                offsets,
                                statics,
                            },
                        ),
                    }
                }
            },
        },
    }
}


/// The constant index of a field's `ConstantValue` attribute (`constant_index`).
fn field_constant_index(pool: &crate::pool::ConstantPool, f: &Field) -> (r: Option<u16>)
    ensures
        r == constant_index(pool@, f@.attributes),
{
    match f.attributes.check_names(pool) {
        Check::Pass => {},
        _ => return None,
    }
    match f.attributes.known_attribute::<ConstantValueAttribute>(pool) {
        Ok(a) => Some(a.value.index()),
        Err(_) => None,
    }
}

/// How a static field with the constant `index` starts (`constant_init`).
fn field_constant_init(pool: &crate::pool::ConstantPool, index: u16) -> (r: Option<StaticInit>)
    ensures
        match constant_init(pool@, index) {
            Some(v) => r matches Some(x) && x@ == v,
            None => r is None,
        },
{
    match lookup_entry(pool, index) {
        Some(ConstantEntry::Integer(c)) => Some(
            StaticInit::Value(RuntimeValue::Integral(Integral { value: (c.bytes as i32) as i64, ty: IntegralType::Int })),
        ),
        Some(ConstantEntry::Float(c)) => Some(
            StaticInit::Value(RuntimeValue::Floating(Floating { bits: c.bytes as u64, ty: FloatingType::Float })),
        ),
        Some(ConstantEntry::Long(c)) => Some(
            StaticInit::Value(RuntimeValue::Integral(Integral { value: c.bytes as i64, ty: IntegralType::Long })),
        ),
        Some(ConstantEntry::Double(c)) => Some(
            StaticInit::Value(RuntimeValue::Floating(Floating { bits: c.bytes, ty: FloatingType::Double })),
        ),
        Some(ConstantEntry::String(c)) => match text(pool, c.string.index()) {
            Some(t) => Some(StaticInit::Text(t)),
            None => None,
        },
        _ => None,
    }
}

/// A static field and how it starts (`static_info`).
fn static_field_info(pool: &crate::pool::ConstantPool, f: &Field) -> (r: Result<StaticInfo, LayoutFailure>)
    ensures
        match static_info(pool@, f@) {
            Ok(v) => r matches Ok(x) && x@ == v,
            Err(e) => r == Err::<StaticInfo, LayoutFailure>(e),
        },
{
    let name = match text(pool, f.name.index()) {
        Some(t) => t,
        None => return Err(LayoutFailure::BadField),
    };
    let descriptor = match text(pool, f.descriptor.index()) {
        Some(t) => t,
        None => return Err(LayoutFailure::BadField),
    };
    let init = match field_constant_index(pool, f) {
        Some(i) => match field_constant_init(pool, i) {
            Some(v) => v,
            None => return Err(LayoutFailure::BadConstant(i)),
        },
        None => match default_for_field(descriptor.as_str()) {
            Some(v) => StaticInit::Value(v),
            None => return Err(LayoutFailure::BadField),
        },
    };
    Ok(StaticInfo { name, descriptor, init })
}


/// A valid layout has a nonzero alignment, and its size rounded up to it still fits.
pub proof fn lemma_valid_layout_pads(size: usize, align: usize)
    requires
        valid_layout(size, align),
    ensures
        align > 0,
        round_up(size as int, align as int) <= isize::MAX,
{
    let m = isize::MAX as int;
    let a = align as int;
    let s = size as int;
    assert(a > 0);
    assert(m == a * (m / a) + m % a) by (nonlinear_arith)
        requires
            a > 0,
    ;
    assert(s == a * (s / a) + s % a) by (nonlinear_arith)
        requires
            a > 0,
    ;
    assert(0 <= m % a) by (nonlinear_arith)
        requires
            a > 0,
    ;
    if s % a != 0 {
        assert(s + (a - s % a) == a * (s / a + 1)) by (nonlinear_arith)
            requires
                s == a * (s / a) + s % a,
        ;
        assert(0 < s % a < a) by (nonlinear_arith)
            requires
                a > 0,
                s % a != 0,
        ;
        assert(s / a < m / a) by (nonlinear_arith)
            requires
                a > 0,
                s == a * (s / a) + s % a,
                s % a > 0,
                s <= a * (m / a),
        ;
        assert(a * (s / a + 1) <= a * (m / a)) by (nonlinear_arith)
            requires
                a > 0,
                s / a + 1 <= m / a,
        ;
    }
}

/// The layout of the instances of class `class_file` after `base_layout`: the instance
/// fields in order, each placed at the first offset aligned for its type after the one
/// before; the whole aligned to the largest alignment among the fields and the base, and
/// padded to it. Also the static fields and how each starts: with its `ConstantValue`
/// constant when it has one, else with the default value of its type.
#[verifier::spinoff_prover]
pub fn basic_layout(class_file: &ClassFile, base_layout: Layout) -> (r: Result<BasicLayout, LayoutFailure>)
    ensures
        match spec_basic_layout(class_file@, base_layout, reference_layout()) {
            Ok(v) => r matches Ok(b) && b@ == v,
            Err(e) => r == Err::<BasicLayout, LayoutFailure>(e),
        },
        r matches Ok(b) ==> b.names@.len() == b.offsets@.len() && b.descriptors@.len() == b.names@.len(),
{
    let pool = &class_file.constant_pool;
    let n = class_file.fields.values.len();
    let ghost fields = class_file.fields@;
    let mut statics: Vec<StaticInfo> = Vec::new();
    let mut i: usize = 0;
    while i < n
        invariant
            n == fields.len(),
            fields == class_file.fields@,
            pool@ == class_file@.constant_pool,
            i <= n,
            statics_from(pool@, fields, 0) == match statics_from(pool@, fields, i as int) {
                Ok(rest) => Ok(statics@.map_values(|s: StaticInfo| s@) + rest),
                Err(e) => Err::<Seq<StaticInfoValue>, LayoutFailure>(e),
            },
        decreases n - i,
    {
        let f = &class_file.fields.values[i];
        assert(fields[i as int] == f@);
        if f.flags.flags & 0x0008 != 0 {
            let info = match static_field_info(pool, f) {
                Ok(x) => x,
                Err(e) => {
                    assert(statics_from(pool@, fields, i as int) == Err::<Seq<StaticInfoValue>, LayoutFailure>(e));
                    assert(statics_from(class_file@.constant_pool, class_file@.fields, 0) == Err::<Seq<StaticInfoValue>, LayoutFailure>(e));
                    assert(spec_basic_layout(class_file@, base_layout, reference_layout()) == Err::<BasicLayoutValue, LayoutFailure>(e));
                    return Err(e);
                },
            };
            let ghost prev = statics@.map_values(|s: StaticInfo| s@);
            statics.push(info);
            assert(statics@.map_values(|s: StaticInfo| s@) =~= prev.push(info@));
            proof {
                match statics_from(pool@, fields, i + 1) {
                    Ok(rest) => {
                        assert(prev + (seq![info@] + rest) =~= prev.push(info@) + rest);
                    },
                    Err(_) => {},
                }
            }
        }
        i = i + 1;
    }
    assert(statics@.map_values(|s: StaticInfo| s@) + Seq::<StaticInfoValue>::empty() =~= statics@.map_values(
        |s: StaticInfo| s@,
    ));
    assert(statics_from(pool@, fields, n as int) == Ok::<Seq<StaticInfoValue>, LayoutFailure>(Seq::empty()));
    let word = word_layout();
    let mut names: Vec<String> = Vec::new();
    let mut descriptors: Vec<String> = Vec::new();
    let mut layouts: Vec<Layout> = Vec::new();
    let ghost mut inst: Seq<(Seq<char>, Seq<char>, Layout)> = Seq::empty();
    let mut i: usize = 0;
    while i < n
        invariant
            n == fields.len(),
            fields == class_file.fields@,
            word == reference_layout(),
            word.align > 0,
            i <= n,
            pool@ == class_file@.constant_pool,
            statics_from(pool@, fields, 0) == Ok::<Seq<StaticInfoValue>, LayoutFailure>(statics@.map_values(|s: StaticInfo| s@)),
            names@.len() == inst.len(),
            descriptors@.len() == inst.len(),
            layouts@.len() == inst.len(),
            forall|k: int|
                #![trigger inst[k]]
                0 <= k < inst.len() ==> names@[k]@ == inst[k].0 && descriptors@[k]@ == inst[k].1 && layouts@[k] == inst[k].2
                    && inst[k].2.align > 0,
            instances_from(pool@, fields, word, 0) == match instances_from(pool@, fields, word, i as int) {
                Some(rest) => Some(inst + rest),
                None => None::<Seq<(Seq<char>, Seq<char>, Layout)>>,
            },
        decreases n - i,
    {
        let f = &class_file.fields.values[i];
        assert(fields[i as int] == f@);
        if f.flags.flags & 0x0008 == 0 {
            let name = match text(pool, f.name.index()) {
                Some(t) => t,
                None => {
                    assert(instances_from(pool@, fields, word, i as int) is None);
                    assert(spec_basic_layout(class_file@, base_layout, reference_layout()) == Err::<BasicLayoutValue, LayoutFailure>(LayoutFailure::BadField));
                    return Err(LayoutFailure::BadField);
                },
            };
            let descriptor = match text(pool, f.descriptor.index()) {
                Some(t) => t,
                None => {
                    assert(instances_from(pool@, fields, word, i as int) is None);
                    assert(spec_basic_layout(class_file@, base_layout, reference_layout()) == Err::<BasicLayoutValue, LayoutFailure>(LayoutFailure::BadField));
                    return Err(LayoutFailure::BadField);
                },
            };
            let l = match for_field_type(descriptor.as_str(), word) {
                Some(l) => l,
                None => {
                    assert(instances_from(pool@, fields, word, i as int) is None);
                    assert(spec_basic_layout(class_file@, base_layout, reference_layout()) == Err::<BasicLayoutValue, LayoutFailure>(LayoutFailure::BadField));
                    return Err(LayoutFailure::BadField);
                },
            };
            let ghost x = (name@, descriptor@, l);
            let ghost prev = inst;
            names.push(name);
            descriptors.push(descriptor);
            layouts.push(l);
            assert(l.align > 0);
            proof {
                inst = inst.push(x);
                assert forall|k: int|
                    #![trigger inst[k]]
                    0 <= k < inst.len() implies names@[k]@ == inst[k].0 && descriptors@[k]@ == inst[k].1 && layouts@[k]
                        == inst[k].2 && inst[k].2.align > 0 by {
                    if k < prev.len() {
                        assert(inst[k] == prev[k]);
                        assert(prev[k].0 == prev[k].0);
                    }
                }
                match instances_from(pool@, fields, word, i + 1) {
                    Some(rest) => {
                        assert(prev + (seq![x] + rest) =~= inst + rest);
                    },
                    None => {},
                }
            }
        }
        i = i + 1;
    }
    assert(inst + Seq::<(Seq<char>, Seq<char>, Layout)>::empty() =~= inst);
    let ghost ls = inst.map_values(|x: (Seq<char>, Seq<char>, Layout)| x.2);
    assert forall|q: int| 0 <= q < inst.len() implies #[trigger] layouts@[q] == inst[q].2 && inst[q].2.align > 0 by {
        assert(inst[q].0 == inst[q].0);
    }
    assert(layouts@ =~= ls);
    assert(names@.map_values(|t: String| t@) =~= inst.map_values(|x: (Seq<char>, Seq<char>, Layout)| x.0));
    assert(descriptors@.map_values(|t: String| t@) =~= inst.map_values(|x: (Seq<char>, Seq<char>, Layout)| x.1));
    let m = layouts.len();
    let mut align = base_layout.align;
    let mut k: usize = 0;
    while k < m
        invariant
            m == layouts@.len(),
            layouts@ == ls,
            k <= m,
            max_align_from(ls, base_layout.align, 0) == max_align_from(ls, align, k as int),
            names@.len() == inst.len(),
            descriptors@.len() == inst.len(),
            names@.map_values(|t: String| t@) == inst.map_values(|x: (Seq<char>, Seq<char>, Layout)| x.0),
            descriptors@.map_values(|t: String| t@) == inst.map_values(|x: (Seq<char>, Seq<char>, Layout)| x.1),
        decreases m - k,
    {
        if layouts[k].align > align {
            align = layouts[k].align;
        }
        k = k + 1;
    }
    assert(max_align_from(ls, align, m as int) == align);
    assert(instances_from(pool@, fields, word, n as int) == Some(Seq::<(Seq<char>, Seq<char>, Layout)>::empty()));
    let start = match Layout::from_size_align(base_layout.size, align) {
        Ok(l) => l,
        Err(_) => {
            assert(spec_basic_layout(class_file@, base_layout, reference_layout()) == Err::<BasicLayoutValue, LayoutFailure>(LayoutFailure::TooLarge));
            return Err(LayoutFailure::TooLarge);
        },
    };
    let mut cur = start;
    let mut offsets: Vec<usize> = Vec::new();
    let mut k: usize = 0;
    while k < m
        invariant
            m == layouts@.len(),
            layouts@ == ls,
            ls.len() == inst.len(),
            forall|q: int| 0 <= q < inst.len() ==> #[trigger] layouts@[q] == inst[q].2 && inst[q].2.align > 0,
            k <= m,
            pool@ == class_file@.constant_pool,
            fields == class_file@.fields,
            word == reference_layout(),
            statics_from(pool@, fields, 0) == Ok::<Seq<StaticInfoValue>, LayoutFailure>(statics@.map_values(|s: StaticInfo| s@)),
            instances_from(pool@, fields, word, 0) == Some(inst),
            ls == inst.map_values(|x: (Seq<char>, Seq<char>, Layout)| x.2),
            start == (Layout { size: base_layout.size, align: max_align_from(ls, base_layout.align, 0) }),
            valid_layout(start.size, start.align),
            valid_layout(cur.size, cur.align),
            offsets@.len() == k,
            names@.len() == inst.len(),
            descriptors@.len() == inst.len(),
            names@.map_values(|t: String| t@) == inst.map_values(|x: (Seq<char>, Seq<char>, Layout)| x.0),
            descriptors@.map_values(|t: String| t@) == inst.map_values(|x: (Seq<char>, Seq<char>, Layout)| x.1),
            extend_from(start, ls, 0) == match extend_from(cur, ls, k as int) {
                Some((l, os)) => Some((l, offsets@ + os)),
                None => None::<(Layout, Seq<usize>)>,
            },
        decreases m - k,
    {
        let next = layouts[k];
        assert(next.align > 0);
        let (l, o) = match cur.extend(next) {
            Ok(x) => x,
            Err(_) => {
                assert(extend_from(cur, ls, k as int) is None);
                assert(spec_basic_layout(class_file@, base_layout, reference_layout()) == Err::<BasicLayoutValue, LayoutFailure>(LayoutFailure::TooLarge));
                return Err(LayoutFailure::TooLarge);
            },
        };
        let ghost prev = offsets@;
        offsets.push(o);
        proof {
            match extend_from(l, ls, k + 1) {
                Some((last, os)) => {
                    assert(prev + (seq![o] + os) =~= offsets@ + os);
                },
                None => {},
            }
        }
        cur = l;
        k = k + 1;
    }
    assert(offsets@ + Seq::<usize>::empty() =~= offsets@);
    proof {
        lemma_valid_layout_pads(cur.size, cur.align);
    }
    let layout = cur.pad_to_align();
    let r = BasicLayout { layout, names, descriptors, offsets, statics };
    Ok(r)
}


/// An instance field and where it lies.
#[derive(Debug, Clone)]
pub struct FieldInfo {
    pub name: String,
    pub descriptor: String,
    pub location: FieldLocation,
}

/// An instance field as a mathematical value.
pub struct FieldInfoValue {
    pub name: Seq<char>,
    pub descriptor: Seq<char>,
    pub offset: usize,
}

impl View for FieldInfo {
    type V = FieldInfoValue;

    open spec fn view(&self) -> FieldInfoValue {
        FieldInfoValue { name: self.name@, descriptor: self.descriptor@, offset: self.location.offset }
    }
}

/// The layout of a class's instances with the location of each instance field, and the
/// class's static fields.
#[derive(Debug, Clone)]
pub struct ClassFileLayout {
    pub layout: Layout,
    pub field_info: Vec<FieldInfo>,
    pub statics: Vec<StaticInfo>,
}

/// The index of the last field named `name` before `n`.
pub open spec fn last_field_named(fields: Seq<FieldInfoValue>, name: Seq<char>, n: int) -> Option<int>
    decreases n,
{
    if n <= 0 {
        None
    } else if fields[n - 1].name == name {
        Some(n - 1)
    } else {
        last_field_named(fields, name, n - 1)
    }
}

impl ClassFileLayout {
    /// The layout of values of a Java type, with no fields.
    pub fn from_java_type(ty: JavaType) -> (r: Self)
        ensures
            r.layout == ty.layout,
            r.field_info@.len() == 0,
            r.statics@.len() == 0,
    {
        ClassFileLayout { layout: ty.layout, field_info: Vec::new(), statics: Vec::new() }
    }

    /// The layout of the unit type, with no fields.
    pub fn empty() -> (r: Self)
        ensures
            r.layout.size == vstd::layout::size_of::<()>(),
            r.layout.align == vstd::layout::align_of::<()>(),
            r.field_info@.len() == 0,
            r.statics@.len() == 0,
    {
        ClassFileLayout { layout: Layout::new::<()>(), field_info: Vec::new(), statics: Vec::new() }
    }

    /// The instance fields.
    pub fn fields(&self) -> (r: &Vec<FieldInfo>)
        ensures
            r == &self.field_info,
    {
        &self.field_info
    }

    /// The layout of an instance.
    pub fn layout(&self) -> (r: Layout)
        ensures
            r == self.layout,
    {
        self.layout
    }

    /// The static fields.
    pub fn statics(&self) -> (r: &Vec<StaticInfo>)
        ensures
            r == &self.statics,
    {
        &self.statics
    }

    /// The instance field named `name`; of two with that name, the later one.
    pub fn field_info(&self, name: &String) -> (r: Option<&FieldInfo>)
        ensures
            match last_field_named(self.field_info@.map_values(|f: FieldInfo| f@), name@, self.field_info@.len() as int) {
                Some(k) => r matches Some(f) && f@ == self.field_info@[k]@,
                None => r is None,
            },
    {
        let ghost fs = self.field_info@.map_values(|f: FieldInfo| f@);
        let mut n = self.field_info.len();
        while n > 0
            invariant
                n <= self.field_info@.len(),
                fs == self.field_info@.map_values(|f: FieldInfo| f@),
                last_field_named(fs, name@, self.field_info@.len() as int) == last_field_named(fs, name@, n as int),
            decreases n,
        {
            assert(fs[n - 1] == self.field_info@[n - 1]@);
            if self.field_info[n - 1].name == *name {
                return Some(&self.field_info[n - 1]);
            }
            n = n - 1;
        }
        None
    }
}

/// The layout of the instances of class `class_file` after `base_layout`
/// (`basic_layout`), with each instance field's name, descriptor and offset together.
pub fn full_layout(class_file: &ClassFile, base_layout: Layout) -> (r: Result<ClassFileLayout, LayoutFailure>)
    ensures
        match spec_basic_layout(class_file@, base_layout, reference_layout()) {
            Ok(v) => r matches Ok(c) && c.layout == v.layout && c.statics@.map_values(|s: StaticInfo| s@) == v.statics
                && c.field_info@.len() == v.names.len() && forall|k: int|
                0 <= k < v.names.len() ==> #[trigger] c.field_info@[k]@ == (FieldInfoValue {
                    name: v.names[k],
                    descriptor: v.descriptors[k],
                    offset: v.offsets[k],
                }),
            Err(e) => r == Err::<ClassFileLayout, LayoutFailure>(e),
        },
{
    let b = match basic_layout(class_file, base_layout) {
        Ok(b) => b,
        Err(e) => return Err(e),
    };
    let n = b.names.len();
    let mut field_info: Vec<FieldInfo> = Vec::new();
    let mut k: usize = 0;
    while k < n
        invariant
            n == b.names@.len(),
            n == b.offsets@.len(),
            n == b.descriptors@.len(),
            k <= n,
            field_info@.len() == k,
            forall|q: int| 0 <= q < k ==> #[trigger] field_info@[q]@ == (FieldInfoValue {
                name: b.names@[q]@,
                descriptor: b.descriptors@[q]@,
                offset: b.offsets@[q],
            }),
        decreases n - k,
    {
        let info = FieldInfo {
            name: b.names[k].clone(),
            descriptor: b.descriptors[k].clone(),
            location: FieldLocation { offset: b.offsets[k] },
        };
        field_info.push(info);
        k = k + 1;
    }
    Ok(ClassFileLayout { layout: b.layout, field_info, statics: b.statics })
}

} // verus!
