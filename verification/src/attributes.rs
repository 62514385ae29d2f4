//! Attributes of classes, fields and methods, and the attributes the interpreter reads.
use crate::classfile::Addressed;
use crate::pool::{Check, ConstantClass, ConstantEntry, ConstantPool, ConstantUtf8, EntryValue};
use crate::reader::{
    bytes_from_slice, bytes_view, is_suffix, lemma_prepend_push, lemma_suffix, peek_u16, peek_u32, prepend, try_get_u16,
    try_get_u32, try_get_u8, Outcome,
};
use crate::result::ParseError;
use bytes::Bytes;
use vstd::prelude::*;
use vstd::utf8::{decode_utf8, valid_utf8};

verus! {

#[derive(Debug)]
pub struct Attribute {
    pub name: Addressed<ConstantUtf8>,
    pub data: Vec<u8>,
}

/// An attribute as a mathematical value.
pub struct AttributeValue {
    pub name: Addressed<ConstantUtf8>,
    pub data: Seq<u8>,
}

impl View for Attribute {
    type V = AttributeValue;

    open spec fn view(&self) -> AttributeValue {
        AttributeValue { name: self.name, data: self.data@ }
    }
}

#[derive(Debug)]
pub struct Attributes {
    pub values: Vec<Attribute>,
}

impl View for Attributes {
    type V = Seq<AttributeValue>;

    open spec fn view(&self) -> Seq<AttributeValue> {
        self.values@.map_values(|a: Attribute| a@)
    }
}

/// One attribute: a name index, a four-byte length and that many bytes of data.
pub open spec fn spec_attribute(s: Seq<u8>) -> Outcome<AttributeValue> {
    if s.len() < 6 {
        Outcome::Fail
    } else {
        let n = peek_u32(s.skip(2)) as int;
        let r = s.skip(6);
        if r.len() < n {
            Outcome::Fail
        } else {
            Outcome::Done(
                AttributeValue { name: Addressed::spec_from(peek_u16(s)), data: r.take(n) },
                r.skip(n),
            )
        }
    }
}

/// `n` attributes, one after the other.
pub open spec fn spec_attributes_n(s: Seq<u8>, n: int) -> Outcome<Seq<AttributeValue>>
    decreases n,
{
    if n <= 0 {
        Outcome::Done(Seq::empty(), s)
    } else {
        match spec_attribute(s) {
            Outcome::Done(a, r) => prepend(seq![a], spec_attributes_n(r, n - 1)),
            Outcome::Fail => Outcome::Fail,
            Outcome::Stuck => Outcome::Stuck,
        }
    }
}

/// An attribute table: a two-byte count and that many attributes.
pub open spec fn spec_attributes(s: Seq<u8>) -> Outcome<Seq<AttributeValue>> {
    if s.len() < 2 {
        Outcome::Fail
    } else {
        spec_attributes_n(s.skip(2), peek_u16(s) as int)
    }
}

/// Reads one attribute from the front of `bytes`.
fn parse_attribute(bytes: &mut Bytes, constant_pool: &ConstantPool) -> (r: Result<
    Attribute,
    ParseError,
>)
    ensures
        spec_attribute(bytes_view(*old(bytes))) matches Outcome::Done(v, rest) ==> (r matches Ok(a)
            && a@ == v && bytes_view(*final(bytes)) == rest),
        !(spec_attribute(bytes_view(*old(bytes))) is Done) ==> r is Err,
        is_suffix(bytes_view(*final(bytes)), bytes_view(*old(bytes))),
{
    let ghost s0 = bytes_view(*bytes);
    proof {
        lemma_suffix(s0, s0, s0, 0);
    }
    let index = match try_get_u16(bytes) {
        Some(v) => v,
        None => return Err(ParseError::UnexpectedEnd),
    };
    let name = constant_pool.address(index);
    let attr_length = match try_get_u32(bytes) {
        Some(v) => v,
        None => {
            proof {
                lemma_suffix(s0, s0, s0, 2);
            }
            return Err(ParseError::UnexpectedEnd);
        },
    };
    assert(s0.skip(2).skip(4) =~= s0.skip(6));
    let mut info: Vec<u8> = Vec::new();
    let mut j: u32 = 0;
    while j < attr_length
        invariant
            s0.len() >= 6,
            s0 == bytes_view(*old(bytes)),
            attr_length == peek_u32(s0.skip(2)),
            j <= attr_length,
            6 + j <= s0.len(),
            bytes_view(*bytes) == s0.skip(6 + j),
            info@ =~= s0.subrange(6, 6 + j),
        decreases attr_length - j,
    {
        let ghost cur = bytes_view(*bytes);
        match try_get_u8(bytes) {
            Some(b) => {
                assert(cur.skip(1) =~= s0.skip(6 + j + 1));
                info.push(b);
                j = j + 1;
            },
            None => {
                proof {
                    lemma_suffix(s0, s0, s0, 6 + j);
                }
                return Err(ParseError::UnexpectedEnd);
            },
        }
    }
    assert(s0.skip(6).take(attr_length as int) =~= s0.subrange(6, 6 + j));
    assert(s0.skip(6).skip(attr_length as int) =~= s0.skip(6 + j));
    proof {
        lemma_suffix(s0, s0, s0, 6 + j);
    }
    Ok(Attribute { name, data: info })
}

impl Attributes {
    /// Reads an attribute table from the front of `bytes`: on success the bytes after the
    /// table remain; on failure some bytes may have been taken from the front.
    pub fn parse(bytes: &mut Bytes, constant_pool: &ConstantPool) -> (r: Result<Self, ParseError>)
        ensures
            spec_attributes(bytes_view(*old(bytes))) matches Outcome::Done(v, rest) ==> (r matches Ok(
                a,
            ) && a@ == v && bytes_view(*final(bytes)) == rest),
            !(spec_attributes(bytes_view(*old(bytes))) is Done) ==> r is Err,
            is_suffix(bytes_view(*final(bytes)), bytes_view(*old(bytes))),
    {
        let ghost s0 = bytes_view(*bytes);
        proof {
            lemma_suffix(s0, s0, s0, 0);
        }
        let length = match try_get_u16(bytes) {
            Some(v) => v,
            None => return Err(ParseError::UnexpectedEnd),
        };
        let ghost s1 = bytes_view(*bytes);
        proof {
            lemma_suffix(s0, s0, s0, 2);
        }
        let mut attributes = Attributes { values: Vec::new() };
        assert(attributes@ =~= Seq::<AttributeValue>::empty());
        let mut i: u16 = 0;
        while i < length
            invariant
                i <= length,
                s0 == bytes_view(*old(bytes)),
                s1 == s0.skip(2),
                length == peek_u16(s0),
                s0.len() >= 2,
                spec_attributes(s0) == spec_attributes_n(s1, length as int),
                spec_attributes_n(s1, length as int) == prepend(
                    attributes@,
                    spec_attributes_n(bytes_view(*bytes), length - i),
                ),
                is_suffix(bytes_view(*bytes), s0),
            decreases length - i,
        {
            let ghost cur = bytes_view(*bytes);
            let ghost prev = attributes@;
            proof {
                lemma_suffix(s0, s0, cur, 0);
            }
            let attr = match parse_attribute(bytes, constant_pool) {
                Ok(a) => a,
                Err(e) => {
                    proof {
                        lemma_suffix(bytes_view(*bytes), cur, s0, 0);
                    }
                    return Err(e);
                },
            };
            proof {
                lemma_prepend_push(prev, attr@, spec_attributes_n(bytes_view(*bytes), length - i - 1));
                lemma_suffix(bytes_view(*bytes), cur, s0, 0);
                lemma_suffix(bytes_view(*bytes), cur, cur, 6 + attr.data@.len() as int);
            }
            attributes.values.push(attr);
            assert(attributes@ =~= prev.push(attr@));
            i = i + 1;
        }
        assert(spec_attributes_n(bytes_view(*bytes), 0) == Outcome::Done(
            Seq::<AttributeValue>::empty(),
            bytes_view(*bytes),
        ));
        assert(attributes@ + Seq::<AttributeValue>::empty() =~= attributes@);
        Ok(attributes)
    }
}


/// The bytes of the string constant numbered `index`, if that entry is one.
pub open spec fn utf8_at(pool: Seq<EntryValue>, index: u16) -> Option<Seq<u8>> {
    if 1 <= index <= pool.len() {
        match pool[index - 1] {
            EntryValue::Utf8 { bytes, .. } => Some(bytes),
            _ => None,
        }
    } else {
        None
    }
}

/// Reading the names of the attributes from `i` on: each must name a string constant
/// (else the reader cannot complete) that is valid UTF-8 (else it is refused).
pub open spec fn check_names_from(pool: Seq<EntryValue>, attrs: Seq<AttributeValue>, i: int) -> Check
    decreases attrs.len() - i,
{
    if i < 0 || i >= attrs.len() {
        Check::Pass
    } else {
        match utf8_at(pool, attrs[i].name.spec_index()) {
            None => Check::Stuck,
            Some(b) => if valid_utf8(b) {
                check_names_from(pool, attrs, i + 1)
            } else {
                Check::Fail
            },
        }
    }
}

/// Whether the name of attribute `j` decodes to `id`.
pub open spec fn attribute_named(pool: Seq<EntryValue>, attrs: Seq<AttributeValue>, j: int, id: Seq<char>) -> bool {
    &&& 0 <= j < attrs.len()
    &&& utf8_at(pool, attrs[j].name.spec_index()) matches Some(b)
    &&& decode_utf8(b) == id
}

/// The last attribute before `n` whose name is `id`.
pub open spec fn last_named(pool: Seq<EntryValue>, attrs: Seq<AttributeValue>, id: Seq<char>, n: int) -> Option<int>
    decreases n,
{
    if n <= 0 {
        None
    } else if attribute_named(pool, attrs, n - 1, id) {
        Some(n - 1)
    } else {
        last_named(pool, attrs, id, n - 1)
    }
}

/// An attribute whose name the interpreter knows and whose data it can decode.
pub trait KnownAttribute: Sized {
    /// The name of the attribute.
    spec fn spec_id() -> Seq<char>;

    /// Whether `data` decodes.
    spec fn decodable(data: Seq<u8>) -> bool;

    /// Whether `data` decodes to `value`.
    spec fn decodes_to(data: Seq<u8>, value: Self) -> bool;

    /// Decodes the data of the attribute.
    fn decode(bytes: Bytes, constant_pool: &ConstantPool) -> (r: Result<Self, ParseError>)
        ensures
            r is Ok <==> Self::decodable(bytes_view(bytes)),
            r matches Ok(v) ==> Self::decodes_to(bytes_view(bytes), v),
    ;

    /// The name of the attribute.
    fn id() -> (r: &'static str)
        ensures
            r@ == Self::spec_id(),
    ;
}

impl Attributes {
    /// Reads the names of all attributes: `Stuck` when one does not name a string
    /// constant, `Fail` when one is not valid UTF-8, else `Pass`, as `check_names_from`
    /// says.
    pub fn check_names(&self, constant_pool: &ConstantPool) -> (r: Check)
        ensures
            r == check_names_from(constant_pool@, self@, 0),
    {
        let n = self.values.len();
        let mut i: usize = 0;
        while i < n
            invariant
                n == self@.len(),
                i <= n,
                check_names_from(constant_pool@, self@, 0) == check_names_from(constant_pool@, self@, i as int),
            decreases n - i,
        {
            let ghost a = self.values@[i as int];
            assert(self@[i as int] == a@);
            let index = self.values[i].name.index();
            match constant_pool.utf8(index) {
                Ok(u) => {
                    if u.try_string().is_err() {
                        return Check::Fail;
                    }
                },
                Err(_) => return Check::Stuck,
            }
            i = i + 1;
        }
        Check::Pass
    }

    /// Decodes the last attribute named `T::id()`. Every attribute name is read first;
    /// a name that is not valid UTF-8 is an error.
    pub fn known_attribute<T: KnownAttribute>(&self, constant_pool: &ConstantPool) -> (r: Result<T, ParseError>)
        requires
            check_names_from(constant_pool@, self@, 0) != Check::Stuck,
        ensures
            check_names_from(constant_pool@, self@, 0) == Check::Fail ==> r == Err::<T, ParseError>(ParseError::InvalidUtf8),
            check_names_from(constant_pool@, self@, 0) == Check::Pass ==> match last_named(constant_pool@, self@, T::spec_id(), self@.len() as int) {
                None => r == Err::<T, ParseError>(ParseError::MissingAttribute),
                Some(j) => (r is Ok <==> T::decodable(self@[j].data)) && (r matches Ok(v) ==> T::decodes_to(self@[j].data, v)),
            },
    {
        let n = self.values.len();
        let mut found: Option<usize> = None;
        let mut i: usize = 0;
        while i < n
            invariant
                n == self@.len(),
                i <= n,
                check_names_from(constant_pool@, self@, 0) == check_names_from(constant_pool@, self@, i as int),
                check_names_from(constant_pool@, self@, 0) != Check::Stuck,
                found is None <==> last_named(constant_pool@, self@, T::spec_id(), i as int) is None,
                found matches Some(j) ==> j < n && last_named(constant_pool@, self@, T::spec_id(), i as int) == Some(j as int),
            decreases n - i,
        {
            let ghost a = self.values@[i as int];
            assert(self@[i as int] == a@);
            let index = self.values[i].name.index();
            let name = match constant_pool.utf8(index) {
                Ok(u) => u,
                Err(e) => {
                    return Err(e);
                },
            };
            let ghost name_bytes = name.bytes@;
            let s = name.try_string()?;
            let id = T::id().to_owned();
            if s == id {
                found = Some(i);
            }
            assert(attribute_named(constant_pool@, self@, i as int, T::spec_id()) == (s@ == id@));
            i = i + 1;
        }
        match found {
            None => Err(ParseError::MissingAttribute),
            Some(j) => {
                let data = bytes_from_slice(self.values[j].data.as_slice());
                assert(self@[j as int].data == self.values@[j as int].data@);
                T::decode(data, constant_pool)
            },
        }
    }
}

/// One row of a method's exception table.
#[derive(Debug, Clone, Copy)]
pub struct ExceptionEntry {
    pub start_pc: u16,
    pub end_pc: u16,
    pub handler_pc: u16,
    pub catch_type: Addressed<ConstantClass>,
}

/// The code of a method.
#[derive(Debug)]
pub struct CodeAttribute {
    pub max_stack: u16,
    pub max_locals: u16,
    pub code: Vec<u8>,
    pub exception_table: Vec<ExceptionEntry>,
    pub attributes: Attributes,
}

/// The code of a method as a mathematical value.
pub struct CodeValue {
    pub max_stack: u16,
    pub max_locals: u16,
    pub code: Seq<u8>,
    pub exception_table: Seq<ExceptionEntry>,
    pub attributes: Seq<AttributeValue>,
}

impl View for CodeAttribute {
    type V = CodeValue;

    open spec fn view(&self) -> CodeValue {
        CodeValue {
            max_stack: self.max_stack,
            max_locals: self.max_locals,
            code: self.code@,
            exception_table: self.exception_table@,
            attributes: self.attributes@,
        }
    }
}

/// `n` rows of an exception table, eight bytes each.
pub open spec fn spec_exception_table_n(s: Seq<u8>, n: int) -> Outcome<Seq<ExceptionEntry>>
    decreases n,
{
    if n <= 0 {
        Outcome::Done(Seq::empty(), s)
    } else if s.len() < 8 {
        Outcome::Fail
    } else {
        prepend(
            seq![
                ExceptionEntry {
                    start_pc: peek_u16(s),
                    end_pc: peek_u16(s.skip(2)),
                    handler_pc: peek_u16(s.skip(4)),
                    catch_type: Addressed::spec_from(peek_u16(s.skip(6))),
                },
            ],
            spec_exception_table_n(s.skip(8), n - 1),
        )
    }
}

/// The data of a `Code` attribute: stack and local sizes, the code, the exception
/// table and an attribute table. Bytes after these are not looked at.
pub open spec fn spec_code(s: Seq<u8>) -> Outcome<CodeValue> {
    if s.len() < 8 || s.len() - 8 < peek_u32(s.skip(4)) {
        Outcome::Fail
    } else {
        let n = peek_u32(s.skip(4)) as int;
        let r = s.skip(8 + n);
        if r.len() < 2 {
            Outcome::Fail
        } else {
            match spec_exception_table_n(r.skip(2), peek_u16(r) as int) {
                Outcome::Done(t, r2) => match spec_attributes(r2) {
                    Outcome::Done(a, r3) => Outcome::Done(
                        CodeValue {
                            max_stack: peek_u16(s),
                            max_locals: peek_u16(s.skip(2)),
                            code: s.subrange(8, 8 + n),
                            exception_table: t,
                            attributes: a,
                        },
                        r3,
                    ),
                    _ => Outcome::Fail,
                },
                _ => Outcome::Fail,
            }
        }
    }
}

impl KnownAttribute for CodeAttribute {
    open spec fn spec_id() -> Seq<char> {
        "Code"@
    }

    open spec fn decodable(data: Seq<u8>) -> bool {
        spec_code(data) is Done
    }

    open spec fn decodes_to(data: Seq<u8>, value: Self) -> bool {
        spec_code(data) matches Outcome::Done(v, _) && value@ == v
    }

    fn decode(bytes: Bytes, constant_pool: &ConstantPool) -> (r: Result<Self, ParseError>) {
        let mut buf = bytes;
        let ghost s0 = bytes_view(buf);
        assert(s0 == bytes_view(bytes));
        let max_stack = match try_get_u16(&mut buf) {
            Some(v) => v,
            None => return Err(ParseError::UnexpectedEnd),
        };
        let max_locals = match try_get_u16(&mut buf) {
            Some(v) => v,
            None => return Err(ParseError::UnexpectedEnd),
        };
        let code_length = match try_get_u32(&mut buf) {
            Some(v) => v,
            None => return Err(ParseError::UnexpectedEnd),
        };
        assert(s0.skip(2).skip(2) =~= s0.skip(4));
        assert(s0.skip(4).skip(4) =~= s0.skip(8));
        let mut code: Vec<u8> = Vec::new();
        let mut j: u32 = 0;
        while j < code_length
            invariant
                s0 == bytes_view(bytes),
                s0.len() >= 8,
                code_length == peek_u32(s0.skip(4)),
                j <= code_length,
                8 + j <= s0.len(),
                bytes_view(buf) == s0.skip(8 + j),
                code@ =~= s0.subrange(8, 8 + j),
            decreases code_length - j,
        {
            let ghost cur = bytes_view(buf);
            match try_get_u8(&mut buf) {
                Some(b) => {
                    assert(cur.skip(1) =~= s0.skip(8 + j + 1));
                    code.push(b);
                    j = j + 1;
                },
                None => return Err(ParseError::UnexpectedEnd),
            }
        }
        let ghost r = bytes_view(buf);
        let exception_length = match try_get_u16(&mut buf) {
            Some(v) => v,
            None => return Err(ParseError::UnexpectedEnd),
        };
        let ghost r1 = bytes_view(buf);
        let mut exception_table: Vec<ExceptionEntry> = Vec::new();
        let mut i: u16 = 0;
        while i < exception_length
            invariant
                s0 == bytes_view(bytes),
                s0.len() >= 8,
                code_length == peek_u32(s0.skip(4)),
                s0.len() - 8 >= code_length,
                r == s0.skip(8 + code_length),
                code@ =~= s0.subrange(8, 8 + code_length),
                r.len() >= 2,
                r1 == r.skip(2),
                exception_length == peek_u16(r),
                i <= exception_length,
                spec_exception_table_n(r1, exception_length as int) == prepend(
                    exception_table@,
                    spec_exception_table_n(bytes_view(buf), exception_length - i),
                ),
            decreases exception_length - i,
        {
            let ghost cur = bytes_view(buf);
            let ghost prev = exception_table@;
            let start_pc = match try_get_u16(&mut buf) {
                Some(v) => v,
                None => return Err(ParseError::UnexpectedEnd),
            };
            let end_pc = match try_get_u16(&mut buf) {
                Some(v) => v,
                None => return Err(ParseError::UnexpectedEnd),
            };
            let handler_pc = match try_get_u16(&mut buf) {
                Some(v) => v,
                None => return Err(ParseError::UnexpectedEnd),
            };
            let catch_index = match try_get_u16(&mut buf) {
                Some(v) => v,
                None => return Err(ParseError::UnexpectedEnd),
            };
            assert(cur.skip(2).skip(2) =~= cur.skip(4));
            assert(cur.skip(4).skip(2) =~= cur.skip(6));
            assert(cur.skip(6).skip(2) =~= cur.skip(8));
            let entry = ExceptionEntry {
                start_pc,
                end_pc,
                handler_pc,
                catch_type: constant_pool.address(catch_index),
            };
            proof {
                lemma_prepend_push(
                    prev,
                    entry,
                    spec_exception_table_n(bytes_view(buf), exception_length - i - 1),
                );
            }
            exception_table.push(entry);
            i = i + 1;
        }
        assert(exception_table@ + Seq::<ExceptionEntry>::empty() =~= exception_table@);
        let attributes = Attributes::parse(&mut buf, constant_pool)?;
        Ok(CodeAttribute { max_stack, max_locals, code, exception_table, attributes })
    }

    fn id() -> (r: &'static str) {
        "Code"
    }
}

/// The `ConstantValue` attribute of a static field.
#[derive(Debug, Clone, Copy)]
pub struct ConstantValueAttribute {
    pub value: Addressed<ConstantEntry>,
}

impl KnownAttribute for ConstantValueAttribute {
    open spec fn spec_id() -> Seq<char> {
        "ConstantValue"@
    }

    open spec fn decodable(data: Seq<u8>) -> bool {
        data.len() >= 2
    }

    open spec fn decodes_to(data: Seq<u8>, value: Self) -> bool {
        value.value == Addressed::<ConstantEntry>::spec_from(peek_u16(data))
    }

    fn decode(bytes: Bytes, constant_pool: &ConstantPool) -> (r: Result<Self, ParseError>) {
        let mut bytes = bytes;
        match try_get_u16(&mut bytes) {
            Some(v) => Ok(ConstantValueAttribute { value: constant_pool.address(v) }),
            None => Err(ParseError::UnexpectedEnd),
        }
    }

    fn id() -> (r: &'static str) {
        "ConstantValue"
    }
}

pub struct StackMapTableAttribute {}

pub struct BootstrapMethodsAttribute {}

pub struct NestHostAttribute {}

pub struct NestMembersAttribute {}

pub struct PermittedSubclassesAttribute {}

} // verus!
