//! The constant pool of a class file and the resolution of its indices.
use crate::classfile::Addressed;
use crate::result::ParseError;
use vstd::prelude::*;
use vstd::utf8::{decode_utf8, valid_utf8};

verus! {

/// The kind of a constant pool entry.
#[derive(Debug, Clone, Copy, PartialEq, Eq, Structural)]
pub enum ConstantTag {
    Class,
    Field,
    Method,
    InterfaceMethod,
    String,
    Integer,
    Float,
    Long,
    Double,
    NameAndType,
    Utf8,
    MethodHandle,
    MethodType,
    Dynamic,
    InvokeDynamic,
    Module,
    Package,
}

impl ConstantTag {
    /// The tag bytes that name a kind of entry.
    pub open spec fn is_known(tag: u8) -> bool {
        tag == 1 || (3 <= tag <= 12) || (15 <= tag <= 20)
    }

    /// The kind that a known tag byte names.
    pub open spec fn spec_from_tag(tag: u8) -> ConstantTag {
        if tag == 1 {
            ConstantTag::Utf8
        } else if tag == 3 {
            ConstantTag::Integer
        } else if tag == 4 {
            ConstantTag::Float
        } else if tag == 5 {
            ConstantTag::Long
        } else if tag == 6 {
            ConstantTag::Double
        } else if tag == 7 {
            ConstantTag::Class
        } else if tag == 8 {
            ConstantTag::String
        } else if tag == 9 {
            ConstantTag::Field
        } else if tag == 10 {
            ConstantTag::Method
        } else if tag == 11 {
            ConstantTag::InterfaceMethod
        } else if tag == 12 {
            ConstantTag::NameAndType
        } else if tag == 15 {
            ConstantTag::MethodHandle
        } else if tag == 16 {
            ConstantTag::MethodType
        } else if tag == 17 {
            ConstantTag::Dynamic
        } else if tag == 18 {
            ConstantTag::InvokeDynamic
        } else if tag == 19 {
            ConstantTag::Method
        } else {
            ConstantTag::Package
        }
    }

    /// The kind named by a tag byte of the constant pool.
    pub fn from_tag(tag: u8) -> (r: Self)
        requires
            Self::is_known(tag),
        ensures
            r == Self::spec_from_tag(tag),
    {
        match tag {
            1 => ConstantTag::Utf8,
            3 => ConstantTag::Integer,
            4 => ConstantTag::Float,
            5 => ConstantTag::Long,
            6 => ConstantTag::Double,
            7 => ConstantTag::Class,
            8 => ConstantTag::String,
            9 => ConstantTag::Field,
            10 => ConstantTag::Method,
            11 => ConstantTag::InterfaceMethod,
            12 => ConstantTag::NameAndType,
            15 => ConstantTag::MethodHandle,
            16 => ConstantTag::MethodType,
            17 => ConstantTag::Dynamic,
            18 => ConstantTag::InvokeDynamic,
            19 => ConstantTag::Method,
            _ => ConstantTag::Package,
        }
    }
}

#[derive(Debug, Clone, Copy)]
pub struct ConstantClass {
    pub tag: ConstantTag,
    pub name: Addressed<ConstantUtf8>,
}

#[derive(Debug, Clone, Copy)]
pub struct ConstantField {
    pub tag: ConstantTag,
    pub class: Addressed<ConstantClass>,
    pub name_and_type: Addressed<ConstantNameAndType>,
}

#[derive(Debug, Clone, Copy)]
pub struct ConstantMethod {
    pub tag: ConstantTag,
    pub class: Addressed<ConstantClass>,
    pub name_and_type: Addressed<ConstantNameAndType>,
}

#[derive(Debug, Clone, Copy)]
pub struct ConstantInterfaceMethod {
    pub tag: ConstantTag,
    pub class: Addressed<ConstantClass>,
    pub name_and_type: Addressed<ConstantNameAndType>,
}

#[derive(Debug, Clone, Copy)]
pub struct ConstantString {
    pub tag: ConstantTag,
    pub string: Addressed<ConstantUtf8>,
}

#[derive(Debug, Clone, Copy)]
pub struct ConstantInteger {
    pub tag: ConstantTag,
    pub bytes: u32,
}

/// A `float` constant, held as its IEEE 754 bit pattern.
#[derive(Debug, Clone, Copy)]
pub struct ConstantFloat {
    pub tag: ConstantTag,
    pub bytes: u32,
}

#[derive(Debug, Clone, Copy)]
pub struct ConstantLong {
    pub tag: ConstantTag,
    pub bytes: u64,
}

/// A `double` constant, held as its IEEE 754 bit pattern.
#[derive(Debug, Clone, Copy)]
pub struct ConstantDouble {
    pub tag: ConstantTag,
    pub bytes: u64,
}

#[derive(Debug, Clone, Copy)]
pub struct ConstantNameAndType {
    pub tag: ConstantTag,
    pub name: Addressed<ConstantUtf8>,
    pub descriptor: Addressed<ConstantUtf8>,
}

#[derive(Debug, Clone)]
pub struct ConstantUtf8 {
    pub tag: ConstantTag,
    pub length: u16,
    pub bytes: Vec<u8>,
}

#[derive(Debug, Clone, Copy)]
pub struct ConstantMethodHandle {
    pub tag: ConstantTag,
    pub kind: u8,
    pub index: u16,
}

#[derive(Debug, Clone, Copy)]
pub struct ConstantMethodType {
    pub tag: ConstantTag,
    pub descriptor: Addressed<ConstantUtf8>,
}

#[derive(Debug, Clone, Copy)]
pub struct ConstantDynamic {
    pub tag: ConstantTag,
    pub method_index: u16,
    pub name_and_type: Addressed<ConstantNameAndType>,
}

#[derive(Debug, Clone, Copy)]
pub struct ConstantInvokeDynamic {
    pub tag: ConstantTag,
    pub method_index: u16,
    pub name_and_type: Addressed<ConstantNameAndType>,
}

#[derive(Debug, Clone, Copy)]
pub struct ConstantPackage {
    pub tag: ConstantTag,
    pub name: Addressed<ConstantUtf8>,
}

/// One slot of the constant pool. `Reserved` fills the slot after a `long` or `double`.
#[derive(Debug, Clone)]
pub enum ConstantEntry {
    Class(ConstantClass),
    Field(ConstantField),
    Method(ConstantMethod),
    InterfaceMethod(ConstantInterfaceMethod),
    String(ConstantString),
    Integer(ConstantInteger),
    Float(ConstantFloat),
    Long(ConstantLong),
    Double(ConstantDouble),
    NameAndType(ConstantNameAndType),
    Utf8(ConstantUtf8),
    MethodHandle(ConstantMethodHandle),
    MethodType(ConstantMethodType),
    Dynamic(ConstantDynamic),
    InvokeDynamic(ConstantInvokeDynamic),
    Package(ConstantPackage),
    Reserved,
}

/// A constant pool entry as a mathematical value: a string constant holds its tag, its
/// length and its bytes as a sequence, every other entry is itself.
pub enum EntryValue {
    Utf8 { tag: ConstantTag, length: u16, bytes: Seq<u8> },
    Plain(ConstantEntry),
}

impl View for ConstantUtf8 {
    type V = EntryValue;

    open spec fn view(&self) -> EntryValue {
        EntryValue::Utf8 { tag: self.tag, length: self.length, bytes: self.bytes@ }
    }
}

impl View for ConstantEntry {
    type V = EntryValue;

    open spec fn view(&self) -> EntryValue {
        match self {
            ConstantEntry::Utf8(u) => u@,
            _ => EntryValue::Plain(*self),
        }
    }
}

impl ConstantUtf8 {
    /// A copy of this string constant.
    pub fn duplicate(&self) -> (r: Self)
        ensures
            r@ == self@,
            r.tag == self.tag,
    {
        let bytes = self.bytes.clone();
        assert(bytes@ =~= self.bytes@);
        ConstantUtf8 { tag: self.tag, length: self.length, bytes }
    }

    /// The string this constant encodes; it must be valid UTF-8.
    pub fn string(self) -> (r: String)
        requires
            valid_utf8(self.bytes@),
        ensures
            r@ == decode_utf8(self.bytes@),
    {
        match utf8_to_string(self.bytes) {
            Some(s) => s,
            None => {
                proof {
                    assert(false);
                }
                String::new()
            },
        }
    }

    /// The string this constant encodes, or an error when it is not valid UTF-8.
    pub fn try_string(self) -> (r: Result<String, ParseError>)
        ensures
            r is Ok <==> valid_utf8(self.bytes@),
            r matches Ok(s) ==> s@ == decode_utf8(self.bytes@),
            r matches Err(e) ==> e == ParseError::InvalidUtf8,
    {
        match utf8_to_string(self.bytes) {
            Some(s) => Ok(s),
            None => Err(ParseError::InvalidUtf8),
        }
    }
}

/// `String::from_utf8`: the string whose UTF-8 encoding is `bytes`; `None` when `bytes`
/// is not valid UTF-8.
#[verifier::external_body]
fn utf8_to_string(bytes: Vec<u8>) -> (r: Option<String>)
    ensures
        r is Some <==> valid_utf8(bytes@),
        r matches Some(s) ==> s@ == decode_utf8(bytes@),
{
    String::from_utf8(bytes).ok()
}

impl ConstantEntry {
    /// A copy of this entry.
    pub fn duplicate(&self) -> (r: Self)
        ensures
            r@ == self@,
    {
        match self {
            ConstantEntry::Class(d) => ConstantEntry::Class(*d),
            ConstantEntry::Field(d) => ConstantEntry::Field(*d),
            ConstantEntry::Method(d) => ConstantEntry::Method(*d),
            ConstantEntry::InterfaceMethod(d) => ConstantEntry::InterfaceMethod(*d),
            ConstantEntry::String(d) => ConstantEntry::String(*d),
            ConstantEntry::Integer(d) => ConstantEntry::Integer(*d),
            ConstantEntry::Float(d) => ConstantEntry::Float(*d),
            ConstantEntry::Long(d) => ConstantEntry::Long(*d),
            ConstantEntry::Double(d) => ConstantEntry::Double(*d),
            ConstantEntry::NameAndType(d) => ConstantEntry::NameAndType(*d),
            ConstantEntry::Utf8(d) => ConstantEntry::Utf8(d.duplicate()),
            ConstantEntry::MethodHandle(d) => ConstantEntry::MethodHandle(*d),
            ConstantEntry::MethodType(d) => ConstantEntry::MethodType(*d),
            ConstantEntry::Dynamic(d) => ConstantEntry::Dynamic(*d),
            ConstantEntry::InvokeDynamic(d) => ConstantEntry::InvokeDynamic(*d),
            ConstantEntry::Package(d) => ConstantEntry::Package(*d),
            ConstantEntry::Reserved => ConstantEntry::Reserved,
        }
    }

    /// Whether this entry takes two slots of the pool (`long` and `double`).
    pub open spec fn is_wide(e: EntryValue) -> bool {
        e matches EntryValue::Plain(ConstantEntry::Long(_)) || e matches EntryValue::Plain(
            ConstantEntry::Double(_),
        )
    }
}

/// The kind of a pool entry, `None` for a reserved slot.
pub open spec fn entry_kind(e: EntryValue) -> Option<ConstantTag> {
    match e {
        EntryValue::Utf8 { .. } => Some(ConstantTag::Utf8),
        EntryValue::Plain(p) => match p {
            ConstantEntry::Class(_) => Some(ConstantTag::Class),
            ConstantEntry::Field(_) => Some(ConstantTag::Field),
            ConstantEntry::Method(_) => Some(ConstantTag::Method),
            ConstantEntry::InterfaceMethod(_) => Some(ConstantTag::InterfaceMethod),
            ConstantEntry::String(_) => Some(ConstantTag::String),
            ConstantEntry::Integer(_) => Some(ConstantTag::Integer),
            ConstantEntry::Float(_) => Some(ConstantTag::Float),
            ConstantEntry::Long(_) => Some(ConstantTag::Long),
            ConstantEntry::Double(_) => Some(ConstantTag::Double),
            ConstantEntry::NameAndType(_) => Some(ConstantTag::NameAndType),
            ConstantEntry::Utf8(_) => Some(ConstantTag::Utf8),
            ConstantEntry::MethodHandle(_) => Some(ConstantTag::MethodHandle),
            ConstantEntry::MethodType(_) => Some(ConstantTag::MethodType),
            ConstantEntry::Dynamic(_) => Some(ConstantTag::Dynamic),
            ConstantEntry::InvokeDynamic(_) => Some(ConstantTag::InvokeDynamic),
            ConstantEntry::Package(_) => Some(ConstantTag::Package),
            ConstantEntry::Reserved => None,
        },
    }
}

/// The outcome of checking the constant pool: it passes, it is refused, or the check
/// cannot complete (a reference to slot 0, or an entry kind that is not handled).
pub enum Check {
    Pass,
    Fail,
    Stuck,
}

/// The first outcome that is not a pass.
pub open spec fn then_check(a: Check, b: Check) -> Check {
    match a {
        Check::Pass => b,
        _ => a,
    }
}

/// Checking that `index` (counted from 1) names an entry of kind `kind`.
pub open spec fn check_ref(pool: Seq<EntryValue>, index: u16, kind: ConstantTag) -> Check {
    if index == 0 {
        Check::Stuck
    } else if index > pool.len() {
        Check::Fail
    } else if entry_kind(pool[index - 1]) == Some(kind) {
        Check::Pass
    } else {
        Check::Fail
    }
}

/// The format check of one entry: the references that it holds name entries of the
/// right kind.
pub open spec fn check_entry(pool: Seq<EntryValue>, e: EntryValue) -> Check {
    match e {
        EntryValue::Utf8 { .. } => Check::Pass,
        EntryValue::Plain(p) => match p {
            ConstantEntry::Class(d) => check_ref(pool, d.name.spec_index(), ConstantTag::Utf8),
            ConstantEntry::Field(d) => then_check(
                check_ref(pool, d.class.spec_index(), ConstantTag::Class),
                check_ref(pool, d.name_and_type.spec_index(), ConstantTag::NameAndType),
            ),
            ConstantEntry::Method(d) => then_check(
                check_ref(pool, d.class.spec_index(), ConstantTag::Class),
                check_ref(pool, d.name_and_type.spec_index(), ConstantTag::NameAndType),
            ),
            ConstantEntry::InterfaceMethod(d) => then_check(
                check_ref(pool, d.class.spec_index(), ConstantTag::Class),
                check_ref(pool, d.name_and_type.spec_index(), ConstantTag::NameAndType),
            ),
            ConstantEntry::String(d) => check_ref(pool, d.string.spec_index(), ConstantTag::Utf8),
            ConstantEntry::NameAndType(d) => then_check(
                check_ref(pool, d.name.spec_index(), ConstantTag::Utf8),
                check_ref(pool, d.descriptor.spec_index(), ConstantTag::Utf8),
            ),
            ConstantEntry::MethodType(d) => check_ref(
                pool,
                d.descriptor.spec_index(),
                ConstantTag::Utf8,
            ),
            ConstantEntry::InvokeDynamic(d) => check_ref(
                pool,
                d.name_and_type.spec_index(),
                ConstantTag::NameAndType,
            ),
            ConstantEntry::Dynamic(_) => Check::Stuck,
            ConstantEntry::Package(_) => Check::Stuck,
            _ => Check::Pass,
        },
    }
}

/// The format check of the entries from `i` on, in order.
pub open spec fn check_from(pool: Seq<EntryValue>, i: int) -> Check
    decreases pool.len() - i,
{
    if i < 0 || i >= pool.len() {
        Check::Pass
    } else {
        then_check(check_entry(pool, pool[i]), check_from(pool, i + 1))
    }
}

/// The format check of a whole pool.
pub open spec fn check_pool(pool: Seq<EntryValue>) -> Check {
    check_from(pool, 0)
}

#[derive(Debug)]
pub struct ConstantPool {
    pub entries: Vec<ConstantEntry>,
}

impl View for ConstantPool {
    type V = Seq<EntryValue>;

    open spec fn view(&self) -> Seq<EntryValue> {
        self.entries@.map_values(|e: ConstantEntry| e@)
    }
}

impl ConstantPool {
    /// An empty pool.
    pub fn new() -> (r: Self)
        ensures
            r@ == Seq::<EntryValue>::empty(),
    {
        let r = ConstantPool { entries: Vec::new() };
        assert(r@ =~= Seq::<EntryValue>::empty());
        r
    }

    /// Appends an entry.
    pub fn insert(&mut self, entry: ConstantEntry)
        ensures
            final(self)@ == old(self)@.push(entry@),
    {
        self.entries.push(entry);
        assert(self@ =~= old(self)@.push(entry@));
    }

    /// The entry in slot `index`, counted from 0.
    pub fn get(&self, index: u16) -> (r: Option<ConstantEntry>)
        ensures
            (index as int) < self@.len() ==> (r matches Some(e) && e@ == self@[index as int]),
            (index as int) >= self@.len() ==> r is None,
    {
        if (index as usize) < self.entries.len() {
            Some(self.entries[index as usize].duplicate())
        } else {
            None
        }
    }

    /// A reference to the entry numbered `for_index`.
    pub fn address<T>(&self, for_index: u16) -> (r: Addressed<T>)
        ensures
            r == Addressed::<T>::spec_from(for_index),
    {
        Addressed::from(for_index)
    }

    /// The entry numbered `index`, counted from 1.
    pub fn entry(&self, index: u16) -> (r: Result<ConstantEntry, ParseError>)
        requires
            index != 0,
        ensures
            index <= self@.len() ==> (r matches Ok(e) && e@ == self@[index - 1]),
            index > self@.len() ==> r == Err::<ConstantEntry, ParseError>(ParseError::NoEntry(index)),
    {
        let i = (index - 1) as usize;
        if i < self.entries.len() {
            Ok(self.entries[i].duplicate())
        } else {
            Err(ParseError::NoEntry(index))
        }
    }

    /// The string constant numbered `index`, counted from 1.
    pub fn utf8(&self, index: u16) -> (r: Result<ConstantUtf8, ParseError>)
        ensures
            r is Ok <==> (1 <= index <= self@.len() && self@[index - 1] is Utf8),
            r matches Ok(u) ==> u@ == self@[index - 1],
    {
        if index == 0 || (index - 1) as usize >= self.entries.len() {
            return Err(ParseError::NoEntry(index));
        }
        let i = (index - 1) as usize;
        let ghost e = self.entries@[i as int];
        assert(self@[i as int] == e@);
        match &self.entries[i] {
            ConstantEntry::Utf8(u) => Ok(u.duplicate()),
            _ => Err(ParseError::WrongEntryKind(index)),
        }
    }

    /// Checks that the entry numbered `index` exists and is of kind `kind`; the number
    /// zero names no entry.
    fn check_index(&self, index: u16, kind: ConstantTag) -> (r: Result<(), ParseError>)
        ensures
            r is Ok <==> check_ref(self@, index, kind) == Check::Pass,
    {
        if index == 0 {
            return Err(ParseError::NoEntry(0));
        }
        let i = (index - 1) as usize;
        if i >= self.entries.len() {
            return Err(ParseError::NoEntry(index));
        }
        let ghost e = self.entries@[i as int];
        assert(self@[i as int] == e@);
        let found = match &self.entries[i] {
            ConstantEntry::Class(_) => ConstantTag::Class,
            ConstantEntry::Field(_) => ConstantTag::Field,
            ConstantEntry::Method(_) => ConstantTag::Method,
            ConstantEntry::InterfaceMethod(_) => ConstantTag::InterfaceMethod,
            ConstantEntry::String(_) => ConstantTag::String,
            ConstantEntry::Integer(_) => ConstantTag::Integer,
            ConstantEntry::Float(_) => ConstantTag::Float,
            ConstantEntry::Long(_) => ConstantTag::Long,
            ConstantEntry::Double(_) => ConstantTag::Double,
            ConstantEntry::NameAndType(_) => ConstantTag::NameAndType,
            ConstantEntry::Utf8(_) => ConstantTag::Utf8,
            ConstantEntry::MethodHandle(_) => ConstantTag::MethodHandle,
            ConstantEntry::MethodType(_) => ConstantTag::MethodType,
            ConstantEntry::Dynamic(_) => ConstantTag::Dynamic,
            ConstantEntry::InvokeDynamic(_) => ConstantTag::InvokeDynamic,
            ConstantEntry::Package(_) => ConstantTag::Package,
            ConstantEntry::Reserved => {
                return Err(ParseError::WrongEntryKind(index));
            },
        };
        if found == kind {
            Ok(())
        } else {
            Err(ParseError::WrongEntryKind(index))
        }
    }

    /// Checks one entry, in the order the references appear in it.
    fn check_one(&self, i: usize) -> (r: Result<(), ParseError>)
        requires
            i < self@.len(),
        ensures
            r is Ok <==> check_entry(self@, self@[i as int]) == Check::Pass,
    {
        let ghost e = self.entries@[i as int];
        assert(self@[i as int] == e@);
        match &self.entries[i] {
            ConstantEntry::Class(d) => self.check_index(d.name.index(), ConstantTag::Utf8),
            ConstantEntry::Field(d) => {
                self.check_index(d.class.index(), ConstantTag::Class)?;
                self.check_index(d.name_and_type.index(), ConstantTag::NameAndType)
            },
            ConstantEntry::Method(d) => {
                self.check_index(d.class.index(), ConstantTag::Class)?;
                self.check_index(d.name_and_type.index(), ConstantTag::NameAndType)
            },
            ConstantEntry::InterfaceMethod(d) => {
                self.check_index(d.class.index(), ConstantTag::Class)?;
                self.check_index(d.name_and_type.index(), ConstantTag::NameAndType)
            },
            ConstantEntry::String(d) => self.check_index(d.string.index(), ConstantTag::Utf8),
            ConstantEntry::NameAndType(d) => {
                self.check_index(d.name.index(), ConstantTag::Utf8)?;
                self.check_index(d.descriptor.index(), ConstantTag::Utf8)
            },
            ConstantEntry::MethodType(d) => self.check_index(d.descriptor.index(), ConstantTag::Utf8),
            ConstantEntry::InvokeDynamic(d) => self.check_index(
                d.name_and_type.index(),
                ConstantTag::NameAndType,
            ),
            ConstantEntry::Dynamic(_) => Err(ParseError::WrongEntryKind(0)),
            ConstantEntry::Package(_) => Err(ParseError::WrongEntryKind(0)),
            _ => Ok(()),
        }
    }

    /// The format check of the pool: every reference held by an entry names an entry of
    /// the kind the reference calls for. The first refused entry gives the error. A
    /// reference numbered zero, and a dynamic or package entry, which the checker does not
    /// handle, are refused too.
    pub fn perform_format_checking(&self) -> (r: Result<(), ParseError>)
        ensures
            r is Ok <==> check_pool(self@) == Check::Pass,
    {
        let n = self.entries.len();
        let mut i: usize = 0;
        while i < n
            invariant
                n == self@.len(),
                i <= n,
                check_pool(self@) == check_from(self@, i as int),
            decreases n - i,
        {
            let ghost c = check_entry(self@, self@[i as int]);
            assert(check_from(self@, i as int) == then_check(c, check_from(self@, i + 1)));
            self.check_one(i)?;
            i = i + 1;
        }
        Ok(())
    }
}

} // verus!
