//! The parts of a class file: fields, methods, interfaces and references into the
//! constant pool.
use crate::attributes::{AttributeValue, Attributes};
use crate::flags::{ClassFileAccessFlags, FieldAccessFlags, MethodAccessFlags};
use crate::pool::{
    entry_kind, ConstantClass, ConstantEntry, ConstantField, ConstantNameAndType, ConstantPool,
    ConstantString, ConstantTag, ConstantUtf8, EntryValue,
};
use crate::result::ParseError;
use vstd::utf8::{decode_utf8, valid_utf8};
use core::marker::PhantomData;
use vstd::prelude::*;

verus! {

/// A class file: its constant pool, version, flags, names, members and attributes.
#[derive(Debug)]
pub struct ClassFile {
    pub constant_pool: ConstantPool,
    pub meta_data: MetaData,
    pub access_flags: ClassFileAccessFlags,
    pub this_class: Addressed<ConstantClass>,
    pub super_class: Option<Addressed<ConstantClass>>,
    pub interfaces: Interfaces,
    pub fields: Fields,
    pub methods: Methods,
    pub attributes: Attributes,
}

/// A class file as a mathematical value.
pub struct ClassFileValue {
    pub constant_pool: Seq<EntryValue>,
    pub meta_data: MetaData,
    pub access_flags: ClassFileAccessFlags,
    pub this_class: Addressed<ConstantClass>,
    pub super_class: Option<Addressed<ConstantClass>>,
    pub interfaces: Seq<Addressed<ConstantClass>>,
    pub fields: Seq<FieldValue>,
    pub methods: Seq<MethodValue>,
    pub attributes: Seq<AttributeValue>,
}

impl View for ClassFile {
    type V = ClassFileValue;

    open spec fn view(&self) -> ClassFileValue {
        ClassFileValue {
            constant_pool: self.constant_pool@,
            meta_data: self.meta_data,
            access_flags: self.access_flags,
            this_class: self.this_class,
            super_class: self.super_class,
            interfaces: self.interfaces@,
            fields: self.fields@,
            methods: self.methods@,
            attributes: self.attributes@,
        }
    }
}

#[derive(Debug)]
pub struct Field {
    pub flags: FieldAccessFlags,
    pub name: Addressed<ConstantUtf8>,
    pub descriptor: Addressed<ConstantUtf8>,
    pub attributes: Attributes,
}

/// A field as a mathematical value.
pub struct FieldValue {
    pub flags: FieldAccessFlags,
    pub name: Addressed<ConstantUtf8>,
    pub descriptor: Addressed<ConstantUtf8>,
    pub attributes: Seq<AttributeValue>,
}

impl View for Field {
    type V = FieldValue;

    open spec fn view(&self) -> FieldValue {
        FieldValue {
            flags: self.flags,
            name: self.name,
            descriptor: self.descriptor,
            attributes: self.attributes@,
        }
    }
}

#[derive(Debug)]
pub struct Fields {
    pub values: Vec<Field>,
}

impl View for Fields {
    type V = Seq<FieldValue>;

    open spec fn view(&self) -> Seq<FieldValue> {
        self.values@.map_values(|f: Field| f@)
    }
}

#[derive(Debug)]
pub struct Method {
    pub flags: MethodAccessFlags,
    pub name: Addressed<ConstantUtf8>,
    pub descriptor: Addressed<ConstantUtf8>,
    pub attributes: Attributes,
}

/// A method as a mathematical value.
pub struct MethodValue {
    pub flags: MethodAccessFlags,
    pub name: Addressed<ConstantUtf8>,
    pub descriptor: Addressed<ConstantUtf8>,
    pub attributes: Seq<AttributeValue>,
}

impl View for Method {
    type V = MethodValue;

    open spec fn view(&self) -> MethodValue {
        MethodValue {
            flags: self.flags,
            name: self.name,
            descriptor: self.descriptor,
            attributes: self.attributes@,
        }
    }
}

#[derive(Debug)]
pub struct Methods {
    pub values: Vec<Method>,
}

impl View for Methods {
    type V = Seq<MethodValue>;

    open spec fn view(&self) -> Seq<MethodValue> {
        self.values@.map_values(|m: Method| m@)
    }
}

#[derive(Debug)]
pub struct Interfaces {
    pub values: Vec<Addressed<ConstantClass>>,
}

impl View for Interfaces {
    type V = Seq<Addressed<ConstantClass>>;

    open spec fn view(&self) -> Seq<Addressed<ConstantClass>> {
        self.values@
    }
}

/// The version of a class file.
#[derive(Debug, Clone, Copy, PartialEq, Eq, Structural)]
pub struct MetaData {
    pub minor_version: u16,
    pub major_version: u16,
}

/// A reference to the constant pool entry numbered `index` (counted from 1), expected
/// to be of the kind `T`.
#[derive(Debug)]
pub struct Addressed<T> {
    phantom: PhantomData<T>,
    index: u16,
}

impl<T> Clone for Addressed<T> {
    fn clone(&self) -> (r: Self)
        ensures
            r == *self,
    {
        Addressed { phantom: PhantomData, index: self.index }
    }
}

impl<T> Copy for Addressed<T> {

}

impl<T> Addressed<T> {
    pub closed spec fn spec_from(index: u16) -> Self {
        Addressed { phantom: PhantomData, index }
    }

    pub closed spec fn spec_index(self) -> u16 {
        self.index
    }

    /// Two references with the same number are the same reference.
    pub broadcast proof fn lemma_index_determines(a: Self)
        ensures
            #[trigger] Self::spec_from(a.spec_index()) == a,
            #[trigger] Self::spec_from(a.spec_index()).spec_index() == a.spec_index(),
    {
    }

    /// A reference to the entry numbered `index`.
    pub fn from(index: u16) -> (r: Self)
        ensures
            r == Self::spec_from(index),
            r.spec_index() == index,
    {
        Addressed { phantom: PhantomData, index }
    }

    /// The number of the entry this refers to.
    pub fn index(&self) -> (r: u16)
        ensures
            r == self.spec_index(),
    {
        self.index
    }
}


/// Looking up the entry a reference names.
pub trait Resolvable<T>: Sized {
    /// The number of the entry named.
    spec fn target(&self) -> u16;

    /// Whether the entry named exists and is of the expected kind.
    spec fn resolvable(&self, pool: Seq<EntryValue>) -> bool;

    /// Whether `v` is the entry named.
    spec fn resolves_to(&self, pool: Seq<EntryValue>, v: T) -> bool;

    /// The entry named, or an error when it is missing or of another kind.
    fn try_resolve(&self, pool: &ConstantPool) -> (r: Result<T, ParseError>)
        requires
            self.target() != 0,
        ensures
            r is Ok <==> self.resolvable(pool@),
            r matches Ok(v) ==> self.resolves_to(pool@, v),
    ;

    /// The entry named, which must exist and be of the expected kind.
    fn resolve(&self, pool: &ConstantPool) -> (r: T)
        requires
            self.target() != 0,
            self.resolvable(pool@),
        ensures
            self.resolves_to(pool@, r),
    {
        self.try_resolve(pool).unwrap()
    }
}

/// Whether `index` (counted from 1) names an entry of kind `kind`.
pub open spec fn names_kind(pool: Seq<EntryValue>, index: u16, kind: ConstantTag) -> bool {
    1 <= index <= pool.len() && entry_kind(pool[index - 1]) == Some(kind)
}

impl Resolvable<ConstantEntry> for Addressed<ConstantEntry> {
    open spec fn target(&self) -> u16 {
        self.spec_index()
    }

    open spec fn resolvable(&self, pool: Seq<EntryValue>) -> bool {
        1 <= self.spec_index() <= pool.len()
    }

    open spec fn resolves_to(&self, pool: Seq<EntryValue>, v: ConstantEntry) -> bool {
        v@ == pool[self.spec_index() - 1]
    }

    fn try_resolve(&self, pool: &ConstantPool) -> (r: Result<ConstantEntry, ParseError>) {
        pool.entry(self.index())
    }
}

impl Resolvable<ConstantUtf8> for Addressed<ConstantUtf8> {
    open spec fn target(&self) -> u16 {
        self.spec_index()
    }

    open spec fn resolvable(&self, pool: Seq<EntryValue>) -> bool {
        names_kind(pool, self.spec_index(), ConstantTag::Utf8)
    }

    open spec fn resolves_to(&self, pool: Seq<EntryValue>, v: ConstantUtf8) -> bool {
        v@ == pool[self.spec_index() - 1]
    }

    fn try_resolve(&self, pool: &ConstantPool) -> (r: Result<ConstantUtf8, ParseError>) {
        pool.utf8(self.index())
    }
}

impl Resolvable<ConstantClass> for Addressed<ConstantClass> {
    open spec fn target(&self) -> u16 {
        self.spec_index()
    }

    open spec fn resolvable(&self, pool: Seq<EntryValue>) -> bool {
        names_kind(pool, self.spec_index(), ConstantTag::Class)
    }

    open spec fn resolves_to(&self, pool: Seq<EntryValue>, v: ConstantClass) -> bool {
        pool[self.spec_index() - 1] == EntryValue::Plain(ConstantEntry::Class(v))
    }

    fn try_resolve(&self, pool: &ConstantPool) -> (r: Result<ConstantClass, ParseError>) {
        match pool.entry(self.index())? {
            ConstantEntry::Class(c) => Ok(c),
            _ => Err(ParseError::WrongEntryKind(self.index())),
        }
    }
}

impl Resolvable<ConstantField> for Addressed<ConstantField> {
    open spec fn target(&self) -> u16 {
        self.spec_index()
    }

    open spec fn resolvable(&self, pool: Seq<EntryValue>) -> bool {
        names_kind(pool, self.spec_index(), ConstantTag::Field)
    }

    open spec fn resolves_to(&self, pool: Seq<EntryValue>, v: ConstantField) -> bool {
        pool[self.spec_index() - 1] == EntryValue::Plain(ConstantEntry::Field(v))
    }

    fn try_resolve(&self, pool: &ConstantPool) -> (r: Result<ConstantField, ParseError>) {
        match pool.entry(self.index())? {
            ConstantEntry::Field(c) => Ok(c),
            _ => Err(ParseError::WrongEntryKind(self.index())),
        }
    }
}

impl Resolvable<ConstantNameAndType> for Addressed<ConstantNameAndType> {
    open spec fn target(&self) -> u16 {
        self.spec_index()
    }

    open spec fn resolvable(&self, pool: Seq<EntryValue>) -> bool {
        names_kind(pool, self.spec_index(), ConstantTag::NameAndType)
    }

    open spec fn resolves_to(&self, pool: Seq<EntryValue>, v: ConstantNameAndType) -> bool {
        pool[self.spec_index() - 1] == EntryValue::Plain(ConstantEntry::NameAndType(v))
    }

    fn try_resolve(&self, pool: &ConstantPool) -> (r: Result<ConstantNameAndType, ParseError>) {
        match pool.entry(self.index())? {
            ConstantEntry::NameAndType(c) => Ok(c),
            _ => Err(ParseError::WrongEntryKind(self.index())),
        }
    }
}

/// The decoded text of the string constant numbered `index`, if it is one and is
/// valid UTF-8.
pub open spec fn text_at(pool: Seq<EntryValue>, index: u16) -> Option<Seq<char>> {
    if 1 <= index <= pool.len() {
        match pool[index - 1] {
            EntryValue::Utf8 { bytes, .. } => if valid_utf8(bytes) {
                Some(decode_utf8(bytes))
            } else {
                None
            },
            _ => None,
        }
    } else {
        None
    }
}

impl ConstantString {
    /// The text of the string constant; it must name a valid UTF-8 string constant.
    pub fn string(&self, pool: &ConstantPool) -> (r: String)
        requires
            text_at(pool@, self.string.spec_index()) is Some,
        ensures
            text_at(pool@, self.string.spec_index()) == Some(r@),
    {
        let u = self.string.resolve(pool);
        u.string()
    }

    /// The text of the string constant, or an error when the reference is not to a
    /// string constant or the bytes are not UTF-8.
    pub fn try_string(&self, pool: &ConstantPool) -> (r: Result<String, ParseError>)
        requires
            self.string.spec_index() != 0,
        ensures
            r is Ok <==> text_at(pool@, self.string.spec_index()) is Some,
            r matches Ok(s) ==> text_at(pool@, self.string.spec_index()) == Some(s@),
    {
        let u = self.string.try_resolve(pool)?;
        u.try_string()
    }
}

/// A method's name and descriptor, the key by which methods are looked up.
#[derive(Debug, Clone)]
pub struct MethodDescriptor {
    pub name: String,
    pub descriptor: String,
}

/// Whether method `m` has the name and descriptor `name` and `descriptor`.
pub open spec fn method_has(pool: Seq<EntryValue>, m: MethodValue, name: Seq<char>, descriptor: Seq<char>) -> bool {
    text_at(pool, m.name.spec_index()) == Some(name) && text_at(pool, m.descriptor.spec_index())
        == Some(descriptor)
}

impl Methods {
    /// The first method with the given name and descriptor. Every method's name and
    /// descriptor must name a valid UTF-8 string constant.
    pub fn locate(&self, pool: &ConstantPool, descriptor: &MethodDescriptor) -> (r: Option<&Method>)
        requires
            forall|i: int|
                0 <= i < self@.len() ==> text_at(pool@, #[trigger] self@[i].name.spec_index()) is Some
                    && text_at(pool@, self@[i].descriptor.spec_index()) is Some,
        ensures
            r is None <==> forall|i: int|
                0 <= i < self@.len() ==> !method_has(pool@, #[trigger] self@[i], descriptor.name@, descriptor.descriptor@),
            r matches Some(m) ==> exists|i: int|
                0 <= i < self@.len() && self.values@[i] == *m && method_has(pool@, #[trigger] self@[i], descriptor.name@, descriptor.descriptor@)
                    && forall|k: int| 0 <= k < i ==> !method_has(pool@, #[trigger] self@[k], descriptor.name@, descriptor.descriptor@),
    {
        let n = self.values.len();
        let mut i: usize = 0;
        while i < n
            invariant
                n == self@.len(),
                i <= n,
                forall|j: int|
                    0 <= j < self@.len() ==> text_at(pool@, #[trigger] self@[j].name.spec_index()) is Some
                        && text_at(pool@, self@[j].descriptor.spec_index()) is Some,
                forall|k: int| 0 <= k < i ==> !method_has(pool@, #[trigger] self@[k], descriptor.name@, descriptor.descriptor@),
            decreases n - i,
        {
            let m = &self.values[i];
            assert(self@[i as int] == m@);
            assert(text_at(pool@, self@[i as int].name.spec_index()) is Some);
            let name_entry = m.name.resolve(pool);
            let name = name_entry.string();
            let desc_entry = m.descriptor.resolve(pool);
            let desc = desc_entry.string();
            if name == descriptor.name && desc == descriptor.descriptor {
                return Some(m);
            }
            i = i + 1;
        }
        None
    }
}

} // verus!
