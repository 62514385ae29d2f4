//! Reading a class file (JVMS chapter 4) from its bytes.
use crate::attributes::{spec_attributes, AttributeValue, Attributes};
use crate::classfile::{
    Addressed, ClassFile, ClassFileValue, Field, FieldValue, Fields, Interfaces, MetaData, Method,
    MethodValue, Methods,
};
use crate::flags::{ClassFileAccessFlags, FieldAccessFlags, MethodAccessFlags};
use crate::pool::{
    check_pool, Check, ConstantClass, ConstantDouble, ConstantDynamic, ConstantEntry, ConstantField,
    ConstantFloat, ConstantInteger, ConstantInterfaceMethod, ConstantInvokeDynamic, ConstantLong,
    ConstantMethod, ConstantMethodHandle, ConstantMethodType, ConstantNameAndType, ConstantPool,
    ConstantString, ConstantTag, ConstantUtf8, EntryValue,
};
use crate::reader::{
    be_u64, bytes_from_slice, bytes_len, bytes_view, is_suffix, lemma_prepend_push, lemma_suffix,
    peek_u16, peek_u32, prepend, try_get_u16, try_get_u32, try_get_u64, try_get_u8, Outcome,
};
use crate::result::ParseError;
use bytes::Bytes;
use vstd::prelude::*;

verus! {

/// The magic number that starts every class file.
pub const MAGIC: u32 = 0xCAFE_BABE;

/// One constant pool entry: a tag byte followed by the fields of that kind of entry.
/// A tag that names no kind, and the package and module kinds, are not handled.
#[verifier::opaque]
pub open spec fn spec_entry(s: Seq<u8>) -> Outcome<EntryValue> {
    if s.len() < 1 {
        Outcome::Fail
    } else if !ConstantTag::is_known(s[0]) {
        Outcome::Stuck
    } else {
        let r = s.skip(1);
        match ConstantTag::spec_from_tag(s[0]) {
            ConstantTag::Class => if r.len() < 2 {
                Outcome::Fail
            } else {
                Outcome::Done(
                    EntryValue::Plain(
                        ConstantEntry::Class(
                            ConstantClass {
                                tag: ConstantTag::Class,
                                name: Addressed::spec_from(peek_u16(r)),
                            },
                        ),
                    ),
                    r.skip(2),
                )
            },
            ConstantTag::Field => if r.len() < 4 {
                Outcome::Fail
            } else {
                Outcome::Done(
                    EntryValue::Plain(
                        ConstantEntry::Field(
                            ConstantField {
                                tag: ConstantTag::Field,
                                class: Addressed::spec_from(peek_u16(r)),
                                name_and_type: Addressed::spec_from(peek_u16(r.skip(2))),
                            },
                        ),
                    ),
                    r.skip(4),
                )
            },
            ConstantTag::Method => if r.len() < 4 {
                Outcome::Fail
            } else {
                Outcome::Done(
                    EntryValue::Plain(
                        ConstantEntry::Method(
                            ConstantMethod {
                                tag: ConstantTag::Method,
                                class: Addressed::spec_from(peek_u16(r)),
                                name_and_type: Addressed::spec_from(peek_u16(r.skip(2))),
                            },
                        ),
                    ),
                    r.skip(4),
                )
            },
            ConstantTag::InterfaceMethod => if r.len() < 4 {
                Outcome::Fail
            } else {
                Outcome::Done(
                    EntryValue::Plain(
                        ConstantEntry::InterfaceMethod(
                            ConstantInterfaceMethod {
                                tag: ConstantTag::InterfaceMethod,
                                class: Addressed::spec_from(peek_u16(r)),
                                name_and_type: Addressed::spec_from(peek_u16(r.skip(2))),
                            },
                        ),
                    ),
                    r.skip(4),
                )
            },
            ConstantTag::String => if r.len() < 2 {
                Outcome::Fail
            } else {
                Outcome::Done(
                    EntryValue::Plain(
                        ConstantEntry::String(
                            ConstantString {
                                tag: ConstantTag::String,
                                string: Addressed::spec_from(peek_u16(r)),
                            },
                        ),
                    ),
                    r.skip(2),
                )
            },
            ConstantTag::Integer => if r.len() < 4 {
                Outcome::Fail
            } else {
                Outcome::Done(
                    EntryValue::Plain(
                        ConstantEntry::Integer(
                            ConstantInteger { tag: ConstantTag::Integer, bytes: peek_u32(r) },
                        ),
                    ),
                    r.skip(4),
                )
            },
            ConstantTag::Float => if r.len() < 4 {
                Outcome::Fail
            } else {
                Outcome::Done(
                    EntryValue::Plain(
                        ConstantEntry::Float(ConstantFloat { tag: ConstantTag::Float, bytes: peek_u32(r) }),
                    ),
                    r.skip(4),
                )
            },
            ConstantTag::Long => if r.len() < 8 {
                Outcome::Fail
            } else {
                Outcome::Done(
                    EntryValue::Plain(
                        ConstantEntry::Long(ConstantLong { tag: ConstantTag::Long, bytes: be_u64(r) }),
                    ),
                    r.skip(8),
                )
            },
            ConstantTag::Double => if r.len() < 8 {
                Outcome::Fail
            } else {
                Outcome::Done(
                    EntryValue::Plain(
                        ConstantEntry::Double(
                            ConstantDouble { tag: ConstantTag::Float, bytes: be_u64(r) },
                        ),
                    ),
                    r.skip(8),
                )
            },
            ConstantTag::NameAndType => if r.len() < 4 {
                Outcome::Fail
            } else {
                Outcome::Done(
                    EntryValue::Plain(
                        ConstantEntry::NameAndType(
                            ConstantNameAndType {
                                tag: ConstantTag::NameAndType,
                                name: Addressed::spec_from(peek_u16(r)),
                                descriptor: Addressed::spec_from(peek_u16(r.skip(2))),
                            },
                        ),
                    ),
                    r.skip(4),
                )
            },
            ConstantTag::Utf8 => if r.len() < 2 || r.len() - 2 < peek_u16(r) {
                Outcome::Fail
            } else {
                Outcome::Done(
                    EntryValue::Utf8 {
                        tag: ConstantTag::Utf8,
                        length: peek_u16(r),
                        bytes: r.skip(2).take(peek_u16(r) as int),
                    },
                    r.skip(2).skip(peek_u16(r) as int),
                )
            },
            ConstantTag::MethodHandle => if r.len() < 3 {
                Outcome::Fail
            } else {
                Outcome::Done(
                    EntryValue::Plain(
                        ConstantEntry::MethodHandle(
                            ConstantMethodHandle {
                                tag: ConstantTag::MethodHandle,
                                kind: r[0],
                                index: peek_u16(r.skip(1)),
                            },
                        ),
                    ),
                    r.skip(3),
                )
            },
            ConstantTag::MethodType => if r.len() < 2 {
                Outcome::Fail
            } else {
                Outcome::Done(
                    EntryValue::Plain(
                        ConstantEntry::MethodType(
                            ConstantMethodType {
                                tag: ConstantTag::MethodType,
                                descriptor: Addressed::spec_from(peek_u16(r)),
                            },
                        ),
                    ),
                    r.skip(2),
                )
            },
            ConstantTag::Dynamic => if r.len() < 4 {
                Outcome::Fail
            } else {
                Outcome::Done(
                    EntryValue::Plain(
                        ConstantEntry::Dynamic(
                            ConstantDynamic {
                                tag: ConstantTag::Dynamic,
                                method_index: peek_u16(r),
                                name_and_type: Addressed::spec_from(peek_u16(r.skip(2))),
                            },
                        ),
                    ),
                    r.skip(4),
                )
            },
            ConstantTag::InvokeDynamic => if r.len() < 4 {
                Outcome::Fail
            } else {
                Outcome::Done(
                    EntryValue::Plain(
                        ConstantEntry::InvokeDynamic(
                            ConstantInvokeDynamic {
                                tag: ConstantTag::InvokeDynamic,
                                method_index: peek_u16(r),
                                name_and_type: Addressed::spec_from(peek_u16(r.skip(2))),
                            },
                        ),
                    ),
                    r.skip(4),
                )
            },
            _ => Outcome::Stuck,
        }
    }
}

/// What follows an entry is a suffix of the input.
proof fn lemma_entry_rest(s: Seq<u8>)
    ensures
        spec_entry(s) matches Outcome::Done(_, rest) ==> is_suffix(rest, s),
{
    reveal(spec_entry);
    if let Outcome::Done(_, rest) = spec_entry(s) {
        assert(is_suffix(rest, s));
    }
}

/// Reads a `u16` reference and its partner from the front of `bytes`.
fn read_two(bytes: &mut Bytes) -> (r: Option<(u16, u16)>)
    ensures
        bytes_view(*old(bytes)).len() >= 4 ==> r == Some((
            peek_u16(bytes_view(*old(bytes))),
            peek_u16(bytes_view(*old(bytes)).skip(2)),
        )) && bytes_view(*final(bytes)) == bytes_view(*old(bytes)).skip(4),
        bytes_view(*old(bytes)).len() < 4 ==> r is None && is_suffix(
            bytes_view(*final(bytes)),
            bytes_view(*old(bytes)),
        ),
{
    let ghost s0 = bytes_view(*bytes);
    proof {
        lemma_suffix(s0, s0, s0, 0);
        lemma_suffix(s0, s0, s0, 2);
    }
    let a = try_get_u16(bytes)?;
    let b = try_get_u16(bytes)?;
    assert(s0.skip(2).skip(2) =~= s0.skip(4));
    Some((a, b))
}

/// Reads one constant pool entry from the front of `bytes`.
fn parse_entry(bytes: &mut Bytes, pool: &ConstantPool) -> (r: Result<ConstantEntry, ParseError>)
    ensures
        spec_entry(bytes_view(*old(bytes))) matches Outcome::Done(v, rest) ==> (r matches Ok(e)
            && e@ == v && bytes_view(*final(bytes)) == rest),
        !(spec_entry(bytes_view(*old(bytes))) is Done) ==> r is Err,
        is_suffix(bytes_view(*final(bytes)), bytes_view(*old(bytes))),
{
    reveal(spec_entry);
    let ghost s0 = bytes_view(*bytes);
    proof {
        lemma_suffix(s0, s0, s0, 0);
        lemma_suffix(s0, s0, s0, 1);
    }
    let t = match try_get_u8(bytes) {
        Some(t) => t,
        None => return Err(ParseError::UnexpectedEnd),
    };
    let ghost r = bytes_view(*bytes);
    if !(t == 1 || (3 <= t && t <= 12) || (15 <= t && t <= 20)) {
        return Err(ParseError::WrongEntryKind(0));
    }
    let tag = ConstantTag::from_tag(t);
    proof {
        lemma_suffix(r, r, s0, 0);
        lemma_suffix(r, r, r, 0);
    }
    proof {
        lemma_entry_rest(s0);
    }
    let entry = match tag {
        ConstantTag::Class => {
            let i = match try_get_u16(bytes) {
                Some(i) => i,
                None => return Err(ParseError::UnexpectedEnd),
            };
            ConstantEntry::Class(ConstantClass { tag: ConstantTag::Class, name: pool.address(i) })
        },
        ConstantTag::Field => {
            let (a, b) = match read_two(bytes) {
                Some(p) => p,
                None => {
                    proof {
                        lemma_suffix(bytes_view(*bytes), r, s0, 0);
                    }
                    return Err(ParseError::UnexpectedEnd);
                },
            };
            ConstantEntry::Field(
                ConstantField {
                    tag: ConstantTag::Field,
                    class: pool.address(a),
                    name_and_type: pool.address(b),
                },
            )
        },
        ConstantTag::Method => {
            let (a, b) = match read_two(bytes) {
                Some(p) => p,
                None => {
                    proof {
                        lemma_suffix(bytes_view(*bytes), r, s0, 0);
                    }
                    return Err(ParseError::UnexpectedEnd);
                },
            };
            ConstantEntry::Method(
                ConstantMethod {
                    tag: ConstantTag::Method,
                    class: pool.address(a),
                    name_and_type: pool.address(b),
                },
            )
        },
        ConstantTag::InterfaceMethod => {
            let (a, b) = match read_two(bytes) {
                Some(p) => p,
                None => {
                    proof {
                        lemma_suffix(bytes_view(*bytes), r, s0, 0);
                    }
                    return Err(ParseError::UnexpectedEnd);
                },
            };
            ConstantEntry::InterfaceMethod(
                ConstantInterfaceMethod {
                    tag: ConstantTag::InterfaceMethod,
                    class: pool.address(a),
                    name_and_type: pool.address(b),
                },
            )
        },
        ConstantTag::String => {
            let i = match try_get_u16(bytes) {
                Some(i) => i,
                None => return Err(ParseError::UnexpectedEnd),
            };
            ConstantEntry::String(ConstantString { tag: ConstantTag::String, string: pool.address(i) })
        },
        ConstantTag::Integer => {
            let v = match try_get_u32(bytes) {
                Some(v) => v,
                None => return Err(ParseError::UnexpectedEnd),
            };
            ConstantEntry::Integer(ConstantInteger { tag: ConstantTag::Integer, bytes: v })
        },
        ConstantTag::Float => {
            let v = match try_get_u32(bytes) {
                Some(v) => v,
                None => return Err(ParseError::UnexpectedEnd),
            };
            ConstantEntry::Float(ConstantFloat { tag: ConstantTag::Float, bytes: v })
        },
        ConstantTag::Long => {
            let v = match try_get_u64(bytes) {
                Some(v) => v,
                None => return Err(ParseError::UnexpectedEnd),
            };
            ConstantEntry::Long(ConstantLong { tag: ConstantTag::Long, bytes: v })
        },
        ConstantTag::Double => {
            let v = match try_get_u64(bytes) {
                Some(v) => v,
                None => return Err(ParseError::UnexpectedEnd),
            };
            ConstantEntry::Double(ConstantDouble { tag: ConstantTag::Float, bytes: v })
        },
        ConstantTag::NameAndType => {
            let (a, b) = match read_two(bytes) {
                Some(p) => p,
                None => {
                    proof {
                        lemma_suffix(bytes_view(*bytes), r, s0, 0);
                    }
                    return Err(ParseError::UnexpectedEnd);
                },
            };
            ConstantEntry::NameAndType(
                ConstantNameAndType {
                    tag: ConstantTag::NameAndType,
                    name: pool.address(a),
                    descriptor: pool.address(b),
                },
            )
        },
        ConstantTag::Utf8 => {
            let length = match try_get_u16(bytes) {
                Some(v) => v,
                None => return Err(ParseError::UnexpectedEnd),
            };
            let ghost r2 = bytes_view(*bytes);
            proof {
                lemma_suffix(r2, r, s0, 0);
            }
            let mut data: Vec<u8> = Vec::new();
            let mut j: u16 = 0;
            while j < length
                invariant
                    s0 == bytes_view(*old(bytes)),
                    s0.len() >= 1,
                    r == s0.skip(1),
                    ConstantTag::is_known(s0[0]),
                    ConstantTag::spec_from_tag(s0[0]) == ConstantTag::Utf8,
                    r2 == r.skip(2),
                    r.len() >= 2,
                    length == peek_u16(r),
                    j <= length,
                    j <= r2.len(),
                    bytes_view(*bytes) == r2.skip(j as int),
                    data@ =~= r2.take(j as int),
                    is_suffix(r2, s0),
                decreases length - j,
            {
                let ghost cur = bytes_view(*bytes);
                match try_get_u8(bytes) {
                    Some(b) => {
                        assert(cur.skip(1) =~= r2.skip(j + 1));
                        data.push(b);
                        j = j + 1;
                    },
                    None => {
                        proof {
                            reveal(spec_entry);
                            lemma_suffix(r2, r2, r2, j as int);
                            lemma_suffix(bytes_view(*bytes), r2, s0, 0);
                        }
                        return Err(ParseError::UnexpectedEnd);
                    },
                }
            }
            ConstantEntry::Utf8(ConstantUtf8 { tag: ConstantTag::Utf8, length, bytes: data })
        },
        ConstantTag::MethodHandle => {
            let kind = match try_get_u8(bytes) {
                Some(v) => v,
                None => return Err(ParseError::UnexpectedEnd),
            };
            let index = match try_get_u16(bytes) {
                Some(v) => v,
                None => {
                    proof {
                        lemma_suffix(bytes_view(*bytes), r, s0, 0);
                        lemma_suffix(r, r, r, 1);
                        lemma_suffix(bytes_view(*bytes), r, s0, 0);
                    }
                    return Err(ParseError::UnexpectedEnd);
                },
            };
            assert(r.skip(1).skip(2) =~= r.skip(3));
            ConstantEntry::MethodHandle(
                ConstantMethodHandle { tag: ConstantTag::MethodHandle, kind, index },
            )
        },
        ConstantTag::MethodType => {
            let i = match try_get_u16(bytes) {
                Some(i) => i,
                None => return Err(ParseError::UnexpectedEnd),
            };
            ConstantEntry::MethodType(
                ConstantMethodType { tag: ConstantTag::MethodType, descriptor: pool.address(i) },
            )
        },
        ConstantTag::Dynamic => {
            let (a, b) = match read_two(bytes) {
                Some(p) => p,
                None => {
                    proof {
                        lemma_suffix(bytes_view(*bytes), r, s0, 0);
                    }
                    return Err(ParseError::UnexpectedEnd);
                },
            };
            ConstantEntry::Dynamic(
                ConstantDynamic {
                    tag: ConstantTag::Dynamic,
                    method_index: a,
                    name_and_type: pool.address(b),
                },
            )
        },
        ConstantTag::InvokeDynamic => {
            let (a, b) = match read_two(bytes) {
                Some(p) => p,
                None => {
                    proof {
                        lemma_suffix(bytes_view(*bytes), r, s0, 0);
                    }
                    return Err(ParseError::UnexpectedEnd);
                },
            };
            ConstantEntry::InvokeDynamic(
                ConstantInvokeDynamic {
                    tag: ConstantTag::InvokeDynamic,
                    method_index: a,
                    name_and_type: pool.address(b),
                },
            )
        },
        _ => {
            return Err(ParseError::WrongEntryKind(0));
        },
    };
    Ok(entry)
}


/// `n` constant pool slots; a `long` or `double` fills two.
pub open spec fn spec_pool_n(s: Seq<u8>, n: int) -> Outcome<Seq<EntryValue>>
    decreases n,
{
    if n <= 0 {
        Outcome::Done(Seq::empty(), s)
    } else {
        match spec_entry(s) {
            Outcome::Done(e, r) => if ConstantEntry::is_wide(e) {
                prepend(
                    seq![e, EntryValue::Plain(ConstantEntry::Reserved)],
                    spec_pool_n(r, if n >= 2 { n - 2 } else { 0 }),
                )
            } else {
                prepend(seq![e], spec_pool_n(r, n - 1))
            },
            Outcome::Fail => Outcome::Fail,
            Outcome::Stuck => Outcome::Stuck,
        }
    }
}

/// The constant pool: a two-byte count, one more than the number of slots, and the
/// entries. A count of zero is not handled.
pub open spec fn spec_constant_pool(s: Seq<u8>) -> Outcome<Seq<EntryValue>> {
    if s.len() < 2 {
        Outcome::Fail
    } else if peek_u16(s) == 0 {
        Outcome::Stuck
    } else {
        spec_pool_n(s.skip(2), peek_u16(s) - 1)
    }
}

/// `n` two-byte class references.
pub open spec fn spec_class_refs_n(s: Seq<u8>, n: int) -> Outcome<Seq<Addressed<ConstantClass>>>
    decreases n,
{
    if n <= 0 {
        Outcome::Done(Seq::empty(), s)
    } else if s.len() < 2 {
        Outcome::Fail
    } else {
        prepend(seq![Addressed::spec_from(peek_u16(s))], spec_class_refs_n(s.skip(2), n - 1))
    }
}

/// The interface table: a two-byte count and that many class references.
pub open spec fn spec_interfaces(s: Seq<u8>) -> Outcome<Seq<Addressed<ConstantClass>>> {
    if s.len() < 2 {
        Outcome::Fail
    } else {
        spec_class_refs_n(s.skip(2), peek_u16(s) as int)
    }
}

/// One field: flags, name and descriptor references, and an attribute table.
pub open spec fn spec_field(s: Seq<u8>) -> Outcome<FieldValue> {
    if s.len() < 2 || !FieldAccessFlags::valid_bits(peek_u16(s)) || s.len() < 6 {
        Outcome::Fail
    } else {
        match spec_attributes(s.skip(6)) {
            Outcome::Done(a, r) => Outcome::Done(
                FieldValue {
                    flags: FieldAccessFlags { flags: peek_u16(s) },
                    name: Addressed::spec_from(peek_u16(s.skip(2))),
                    descriptor: Addressed::spec_from(peek_u16(s.skip(4))),
                    attributes: a,
                },
                r,
            ),
            _ => Outcome::Fail,
        }
    }
}

/// `n` fields.
pub open spec fn spec_fields_n(s: Seq<u8>, n: int) -> Outcome<Seq<FieldValue>>
    decreases n,
{
    if n <= 0 {
        Outcome::Done(Seq::empty(), s)
    } else {
        match spec_field(s) {
            Outcome::Done(f, r) => prepend(seq![f], spec_fields_n(r, n - 1)),
            _ => Outcome::Fail,
        }
    }
}

/// The field table: a two-byte count and that many fields.
pub open spec fn spec_fields(s: Seq<u8>) -> Outcome<Seq<FieldValue>> {
    if s.len() < 2 {
        Outcome::Fail
    } else {
        spec_fields_n(s.skip(2), peek_u16(s) as int)
    }
}

/// One method: flags, name and descriptor references, and an attribute table.
pub open spec fn spec_method(s: Seq<u8>) -> Outcome<MethodValue> {
    if s.len() < 2 || !MethodAccessFlags::valid_bits(peek_u16(s)) || s.len() < 6 {
        Outcome::Fail
    } else {
        match spec_attributes(s.skip(6)) {
            Outcome::Done(a, r) => Outcome::Done(
                MethodValue {
                    flags: MethodAccessFlags { flags: peek_u16(s) },
                    name: Addressed::spec_from(peek_u16(s.skip(2))),
                    descriptor: Addressed::spec_from(peek_u16(s.skip(4))),
                    attributes: a,
                },
                r,
            ),
            _ => Outcome::Fail,
        }
    }
}

/// `n` methods.
pub open spec fn spec_methods_n(s: Seq<u8>, n: int) -> Outcome<Seq<MethodValue>>
    decreases n,
{
    if n <= 0 {
        Outcome::Done(Seq::empty(), s)
    } else {
        match spec_method(s) {
            Outcome::Done(m, r) => prepend(seq![m], spec_methods_n(r, n - 1)),
            _ => Outcome::Fail,
        }
    }
}

/// The method table: a two-byte count and that many methods.
pub open spec fn spec_methods(s: Seq<u8>) -> Outcome<Seq<MethodValue>> {
    if s.len() < 2 {
        Outcome::Fail
    } else {
        spec_methods_n(s.skip(2), peek_u16(s) as int)
    }
}

/// The bytes left after the part of a class file that follows its constant pool, when
/// every piece of that part reads.
pub open spec fn spec_tail_rest(s: Seq<u8>) -> Option<Seq<u8>> {
    if s.len() < 2 || !ClassFileAccessFlags::valid_bits(peek_u16(s)) || s.len() < 6 {
        None
    } else {
        match spec_interfaces(s.skip(6)) {
            Outcome::Done(_, r1) => match spec_fields(r1) {
                Outcome::Done(_, r2) => match spec_methods(r2) {
                    Outcome::Done(_, r3) => match spec_attributes(r3) {
                        Outcome::Done(_, r4) => Some(r4),
                        _ => None,
                    },
                    _ => None,
                },
                _ => None,
            },
            _ => None,
        }
    }
}

/// A class file that reads in full, with bytes after its last attribute.
pub open spec fn spec_trailing(s: Seq<u8>) -> bool {
    &&& s.len() >= 8
    &&& peek_u32(s) == MAGIC
    &&& match spec_constant_pool(s.skip(8)) {
        Outcome::Done(pool, r) => check_pool(pool) == Check::Pass && match spec_tail_rest(r) {
            Some(r4) => r4.len() > 0,
            None => false,
        },
        _ => false,
    }
}

/// The part of a class file after its constant pool: flags, this and super class,
/// interfaces, fields, methods and attributes, with no byte after them.
pub open spec fn spec_class_tail(s: Seq<u8>, pool: Seq<EntryValue>, meta: MetaData) -> Outcome<
    ClassFileValue,
> {
    if s.len() < 2 || !ClassFileAccessFlags::valid_bits(peek_u16(s)) || s.len() < 6 {
        Outcome::Fail
    } else {
        match spec_interfaces(s.skip(6)) {
            Outcome::Done(ifs, r1) => match spec_fields(r1) {
                Outcome::Done(fs, r2) => match spec_methods(r2) {
                    Outcome::Done(ms, r3) => match spec_attributes(r3) {
                        Outcome::Done(ats, r4) => if r4.len() == 0 {
                            Outcome::Done(
                                ClassFileValue {
                                    constant_pool: pool,
                                    meta_data: meta,
                                    access_flags: ClassFileAccessFlags { flags: peek_u16(s) },
                                    this_class: Addressed::spec_from(peek_u16(s.skip(2))),
                                    super_class: if peek_u16(s.skip(4)) == 0 {
                                        None
                                    } else {
                                        Some(Addressed::spec_from(peek_u16(s.skip(4))))
                                    },
                                    interfaces: ifs,
                                    fields: fs,
                                    methods: ms,
                                    attributes: ats,
                                },
                                r4,
                            )
                        } else {
                            Outcome::Fail
                        },
                        _ => Outcome::Fail,
                    },
                    _ => Outcome::Fail,
                },
                _ => Outcome::Fail,
            },
            _ => Outcome::Fail,
        }
    }
}

/// A whole class file: the magic number, the version, a constant pool that passes the
/// format check, and the rest of the file with no byte left over.
pub open spec fn spec_class_file(s: Seq<u8>) -> Outcome<ClassFileValue> {
    if s.len() < 4 || peek_u32(s) != MAGIC || s.len() < 8 {
        Outcome::Fail
    } else {
        let meta = MetaData { minor_version: peek_u16(s.skip(4)), major_version: peek_u16(s.skip(6)) };
        match spec_constant_pool(s.skip(8)) {
            Outcome::Done(pool, r) => match check_pool(pool) {
                Check::Pass => spec_class_tail(r, pool, meta),
                Check::Fail => Outcome::Fail,
                Check::Stuck => Outcome::Stuck,
            },
            Outcome::Fail => Outcome::Fail,
            Outcome::Stuck => Outcome::Stuck,
        }
    }
}

/// Reads the constant pool from the front of `bytes`.
fn parse_constant_pool(bytes: &mut Bytes) -> (r: Result<ConstantPool, ParseError>)
    ensures
        spec_constant_pool(bytes_view(*old(bytes))) matches Outcome::Done(v, rest) ==> (r matches Ok(
            p,
        ) && p@ == v && bytes_view(*final(bytes)) == rest),
        !(spec_constant_pool(bytes_view(*old(bytes))) is Done) ==> r is Err,
        is_suffix(bytes_view(*final(bytes)), bytes_view(*old(bytes))),
{
    let ghost s0 = bytes_view(*bytes);
    proof {
        lemma_suffix(s0, s0, s0, 0);
        lemma_suffix(s0, s0, s0, 2);
    }
    let length = match try_get_u16(bytes) {
        Some(v) => v,
        None => return Err(ParseError::UnexpectedEnd),
    };
    if length == 0 {
        return Err(ParseError::UnexpectedEnd);
    }
    let ghost s1 = bytes_view(*bytes);
    let mut pool = ConstantPool::new();
    let n: u16 = length - 1;
    let mut i: u16 = 0;
    while i < n
        invariant
            s0 == bytes_view(*old(bytes)),
            s0.len() >= 2,
            length == peek_u16(s0),
            n == length - 1,
            s1 == s0.skip(2),
            i <= length,
            spec_constant_pool(s0) == spec_pool_n(s1, n as int),
            spec_pool_n(s1, n as int) == prepend(pool@, spec_pool_n(bytes_view(*bytes), n - i)),
            is_suffix(bytes_view(*bytes), s0),
        decreases n + 1 - i,
    {
        let ghost cur = bytes_view(*bytes);
        let ghost prev = pool@;
        proof {
            lemma_suffix(s0, s0, cur, 0);
        }
        let entry = match parse_entry(bytes, &pool) {
            Ok(e) => e,
            Err(e) => {
                proof {
                    lemma_suffix(bytes_view(*bytes), cur, s0, 0);
                }
                return Err(e);
            },
        };
        let ghost ev = entry@;
        let ghost r = bytes_view(*bytes);
        proof {
            lemma_entry_rest(cur);
            lemma_suffix(r, cur, s0, 0);
        }
        let wide = match &entry {
            ConstantEntry::Long(_) => true,
            ConstantEntry::Double(_) => true,
            _ => false,
        };
        assert(wide == ConstantEntry::is_wide(ev));
        pool.insert(entry);
        if wide {
            pool.insert(ConstantEntry::Reserved);
            proof {
                let rest = spec_pool_n(r, if n - i >= 2 { n - i - 2 } else { 0 });
                lemma_prepend_push(prev, ev, prepend(seq![EntryValue::Plain(ConstantEntry::Reserved)], rest));
                lemma_prepend_push(prev.push(ev), EntryValue::Plain(ConstantEntry::Reserved), rest);
                match rest {
                    Outcome::Done(v, rr) => {
                        assert(seq![ev, EntryValue::Plain(ConstantEntry::Reserved)] + v =~= seq![ev] + (
                        seq![EntryValue::Plain(ConstantEntry::Reserved)] + v));
                    },
                    _ => {},
                }
            }
            i = i + 1;
        } else {
            proof {
                lemma_prepend_push(prev, ev, spec_pool_n(r, n - i - 1));
            }
        }
        i = i + 1;
    }
    proof {
        let rest = bytes_view(*bytes);
        assert(spec_pool_n(rest, n - i) == Outcome::Done(Seq::<EntryValue>::empty(), rest));
        assert(pool@ + Seq::<EntryValue>::empty() =~= pool@);
    }
    Ok(pool)
}


/// Reads the interface table from the front of `bytes`.
fn parse_interfaces(bytes: &mut Bytes, pool: &ConstantPool) -> (r: Result<Interfaces, ParseError>)
    ensures
        spec_interfaces(bytes_view(*old(bytes))) matches Outcome::Done(v, rest) ==> (r matches Ok(
            p,
        ) && p@ == v && bytes_view(*final(bytes)) == rest),
        !(spec_interfaces(bytes_view(*old(bytes))) is Done) ==> r is Err,
        is_suffix(bytes_view(*final(bytes)), bytes_view(*old(bytes))),
{
    let ghost s0 = bytes_view(*bytes);
    proof {
        lemma_suffix(s0, s0, s0, 0);
        lemma_suffix(s0, s0, s0, 2);
    }
    let length = match try_get_u16(bytes) {
        Some(v) => v,
        None => return Err(ParseError::UnexpectedEnd),
    };
    let ghost s1 = bytes_view(*bytes);
    let mut interfaces = Interfaces { values: Vec::new() };
    let mut i: u16 = 0;
    while i < length
        invariant
            s0 == bytes_view(*old(bytes)),
            s0.len() >= 2,
            length == peek_u16(s0),
            s1 == s0.skip(2),
            i <= length,
            spec_interfaces(s0) == spec_class_refs_n(s1, length as int),
            spec_class_refs_n(s1, length as int) == prepend(
                interfaces@,
                spec_class_refs_n(bytes_view(*bytes), length - i),
            ),
            is_suffix(bytes_view(*bytes), s0),
        decreases length - i,
    {
        let ghost cur = bytes_view(*bytes);
        let ghost prev = interfaces@;
        let index = match try_get_u16(bytes) {
            Some(v) => v,
            None => return Err(ParseError::UnexpectedEnd),
        };
        proof {
            lemma_suffix(cur, cur, cur, 2);
            lemma_suffix(bytes_view(*bytes), cur, s0, 0);
            lemma_prepend_push(
                prev,
                Addressed::<ConstantClass>::spec_from(index),
                spec_class_refs_n(bytes_view(*bytes), length - i - 1),
            );
        }
        interfaces.values.push(pool.address(index));
        i = i + 1;
    }
    assert(interfaces@ + Seq::<Addressed<ConstantClass>>::empty() =~= interfaces@);
    Ok(interfaces)
}

/// Reads one field from the front of `bytes`.
fn parse_field(bytes: &mut Bytes, pool: &ConstantPool) -> (r: Result<Field, ParseError>)
    ensures
        spec_field(bytes_view(*old(bytes))) matches Outcome::Done(v, rest) ==> (r matches Ok(f)
            && f@ == v && bytes_view(*final(bytes)) == rest),
        !(spec_field(bytes_view(*old(bytes))) is Done) ==> r is Err,
        is_suffix(bytes_view(*final(bytes)), bytes_view(*old(bytes))),
{
    let ghost s0 = bytes_view(*bytes);
    proof {
        lemma_suffix(s0, s0, s0, 0);
        lemma_suffix(s0, s0, s0, 2);
    }
    let bits = match try_get_u16(bytes) {
        Some(v) => v,
        None => return Err(ParseError::UnexpectedEnd),
    };
    let flags = FieldAccessFlags::from_bits(bits)?;
    let ghost s2 = bytes_view(*bytes);
    let (name, descriptor) = match read_two(bytes) {
        Some(p) => p,
        None => {
            proof {
                lemma_suffix(bytes_view(*bytes), s2, s0, 0);
            }
            return Err(ParseError::UnexpectedEnd);
        },
    };
    assert(s0.skip(2).skip(4) =~= s0.skip(6));
    assert(s0.skip(2).skip(2) =~= s0.skip(4));
    proof {
        lemma_suffix(s0, s0, s0, 6);
    }
    let ghost s6 = bytes_view(*bytes);
    let attributes = match Attributes::parse(bytes, pool) {
        Ok(a) => a,
        Err(e) => {
            proof {
                lemma_suffix(bytes_view(*bytes), s6, s0, 0);
            }
            return Err(e);
        },
    };
    proof {
        lemma_suffix(bytes_view(*bytes), s6, s0, 0);
    }
    Ok(Field { flags, name: pool.address(name), descriptor: pool.address(descriptor), attributes })
}

/// Reads one method from the front of `bytes`.
fn parse_method(bytes: &mut Bytes, pool: &ConstantPool) -> (r: Result<Method, ParseError>)
    ensures
        spec_method(bytes_view(*old(bytes))) matches Outcome::Done(v, rest) ==> (r matches Ok(m)
            && m@ == v && bytes_view(*final(bytes)) == rest),
        !(spec_method(bytes_view(*old(bytes))) is Done) ==> r is Err,
        is_suffix(bytes_view(*final(bytes)), bytes_view(*old(bytes))),
{
    let ghost s0 = bytes_view(*bytes);
    proof {
        lemma_suffix(s0, s0, s0, 0);
        lemma_suffix(s0, s0, s0, 2);
    }
    let bits = match try_get_u16(bytes) {
        Some(v) => v,
        None => return Err(ParseError::UnexpectedEnd),
    };
    let flags = MethodAccessFlags::from_bits(bits)?;
    let ghost s2 = bytes_view(*bytes);
    let (name, descriptor) = match read_two(bytes) {
        Some(p) => p,
        None => {
            proof {
                lemma_suffix(bytes_view(*bytes), s2, s0, 0);
            }
            return Err(ParseError::UnexpectedEnd);
        },
    };
    assert(s0.skip(2).skip(4) =~= s0.skip(6));
    assert(s0.skip(2).skip(2) =~= s0.skip(4));
    proof {
        lemma_suffix(s0, s0, s0, 6);
    }
    let ghost s6 = bytes_view(*bytes);
    let attributes = match Attributes::parse(bytes, pool) {
        Ok(a) => a,
        Err(e) => {
            proof {
                lemma_suffix(bytes_view(*bytes), s6, s0, 0);
            }
            return Err(e);
        },
    };
    proof {
        lemma_suffix(bytes_view(*bytes), s6, s0, 0);
    }
    Ok(Method { flags, name: pool.address(name), descriptor: pool.address(descriptor), attributes })
}

/// Reads the field table from the front of `bytes`.
fn parse_fields(bytes: &mut Bytes, pool: &ConstantPool) -> (r: Result<Fields, ParseError>)
    ensures
        spec_fields(bytes_view(*old(bytes))) matches Outcome::Done(v, rest) ==> (r matches Ok(p)
            && p@ == v && bytes_view(*final(bytes)) == rest),
        !(spec_fields(bytes_view(*old(bytes))) is Done) ==> r is Err,
        is_suffix(bytes_view(*final(bytes)), bytes_view(*old(bytes))),
{
    let ghost s0 = bytes_view(*bytes);
    proof {
        lemma_suffix(s0, s0, s0, 0);
        lemma_suffix(s0, s0, s0, 2);
    }
    let length = match try_get_u16(bytes) {
        Some(v) => v,
        None => return Err(ParseError::UnexpectedEnd),
    };
    let ghost s1 = bytes_view(*bytes);
    let mut fields = Fields { values: Vec::new() };
    assert(fields@ =~= Seq::<FieldValue>::empty());
    let mut i: u16 = 0;
    while i < length
        invariant
            s0 == bytes_view(*old(bytes)),
            s0.len() >= 2,
            length == peek_u16(s0),
            s1 == s0.skip(2),
            i <= length,
            spec_fields(s0) == spec_fields_n(s1, length as int),
            spec_fields_n(s1, length as int) == prepend(fields@, spec_fields_n(bytes_view(*bytes), length - i)),
            is_suffix(bytes_view(*bytes), s0),
        decreases length - i,
    {
        let ghost cur = bytes_view(*bytes);
        let ghost prev = fields@;
        let field = match parse_field(bytes, pool) {
            Ok(f) => f,
            Err(e) => {
                proof {
                    lemma_suffix(bytes_view(*bytes), cur, s0, 0);
                }
                return Err(e);
            },
        };
        proof {
            lemma_suffix(bytes_view(*bytes), cur, s0, 0);
            lemma_prepend_push(prev, field@, spec_fields_n(bytes_view(*bytes), length - i - 1));
        }
        fields.values.push(field);
        assert(fields@ =~= prev.push(field@));
        i = i + 1;
    }
    assert(fields@ + Seq::<FieldValue>::empty() =~= fields@);
    Ok(fields)
}

/// Reads the method table from the front of `bytes`.
fn parse_methods(bytes: &mut Bytes, pool: &ConstantPool) -> (r: Result<Methods, ParseError>)
    ensures
        spec_methods(bytes_view(*old(bytes))) matches Outcome::Done(v, rest) ==> (r matches Ok(p)
            && p@ == v && bytes_view(*final(bytes)) == rest),
        !(spec_methods(bytes_view(*old(bytes))) is Done) ==> r is Err,
        is_suffix(bytes_view(*final(bytes)), bytes_view(*old(bytes))),
{
    let ghost s0 = bytes_view(*bytes);
    proof {
        lemma_suffix(s0, s0, s0, 0);
        lemma_suffix(s0, s0, s0, 2);
    }
    let length = match try_get_u16(bytes) {
        Some(v) => v,
        None => return Err(ParseError::UnexpectedEnd),
    };
    let ghost s1 = bytes_view(*bytes);
    let mut methods = Methods { values: Vec::new() };
    assert(methods@ =~= Seq::<MethodValue>::empty());
    let mut i: u16 = 0;
    while i < length
        invariant
            s0 == bytes_view(*old(bytes)),
            s0.len() >= 2,
            length == peek_u16(s0),
            s1 == s0.skip(2),
            i <= length,
            spec_methods(s0) == spec_methods_n(s1, length as int),
            spec_methods_n(s1, length as int) == prepend(
                methods@,
                spec_methods_n(bytes_view(*bytes), length - i),
            ),
            is_suffix(bytes_view(*bytes), s0),
        decreases length - i,
    {
        let ghost cur = bytes_view(*bytes);
        let ghost prev = methods@;
        let method = match parse_method(bytes, pool) {
            Ok(m) => m,
            Err(e) => {
                proof {
                    lemma_suffix(bytes_view(*bytes), cur, s0, 0);
                }
                return Err(e);
            },
        };
        proof {
            lemma_suffix(bytes_view(*bytes), cur, s0, 0);
            lemma_prepend_push(prev, method@, spec_methods_n(bytes_view(*bytes), length - i - 1));
        }
        methods.values.push(method);
        assert(methods@ =~= prev.push(method@));
        i = i + 1;
    }
    assert(methods@ + Seq::<MethodValue>::empty() =~= methods@);
    Ok(methods)
}



/// Reads the part of a class file after its constant pool and builds the class file.
#[verifier::spinoff_prover]
fn parse_tail(bytes: &mut Bytes, constant_pool: ConstantPool, meta_data: MetaData) -> (r: Result<
    ClassFile,
    ParseError,
>)
    ensures
        spec_class_tail(bytes_view(*old(bytes)), constant_pool@, meta_data) matches Outcome::Done(
            v,
            _,
        ) ==> (r matches Ok(cf) && cf@ == v && bytes_view(*final(bytes)).len() == 0),
        !(spec_class_tail(bytes_view(*old(bytes)), constant_pool@, meta_data) is Done) ==> r is Err,
        is_suffix(bytes_view(*final(bytes)), bytes_view(*old(bytes))),
        match spec_tail_rest(bytes_view(*old(bytes))) {
            Some(rest) => rest.len() > 0 ==> r == Err::<ClassFile, ParseError>(ParseError::TrailingBytes),
            None => true,
        },
{
    let ghost sp = bytes_view(*bytes);
    let ghost s0 = sp;
    proof {
        lemma_suffix(s0, s0, s0, 0);
    }
    let bits = match try_get_u16(bytes) {
        Some(v) => v,
        None => return Err(ParseError::UnexpectedEnd),
    };
    proof {
        lemma_suffix(sp, sp, sp, 2);
    }
    let access_flags = ClassFileAccessFlags::from_bits(bits)?;
    let ghost sf = bytes_view(*bytes);
    let (this_index, super_class_index) = match read_two(bytes) {
        Some(p) => p,
        None => {
            proof {
                lemma_suffix(bytes_view(*bytes), sf, s0, 0);
            }
            return Err(ParseError::UnexpectedEnd);
        },
    };
    assert(sp.skip(2).skip(4) =~= sp.skip(6));
    assert(sp.skip(2).skip(2) =~= sp.skip(4));
    proof {
        lemma_suffix(sp, sp, sp, 6);
        lemma_suffix(bytes_view(*bytes), sp, s0, 0);
    }
    let this_class: Addressed<ConstantClass> = constant_pool.address(this_index);
    let mut super_class: Option<Addressed<ConstantClass>> = None;
    if super_class_index != 0 {
        super_class = Some(constant_pool.address(super_class_index));
    }
    let ghost r0 = bytes_view(*bytes);
    let interfaces = parse_interfaces(bytes, &constant_pool);
    proof {
        lemma_suffix(bytes_view(*bytes), r0, s0, 0);
    }
    let interfaces = interfaces?;
    let ghost r1 = bytes_view(*bytes);
    let fields = parse_fields(bytes, &constant_pool);
    proof {
        lemma_suffix(bytes_view(*bytes), r1, s0, 0);
    }
    let fields = fields?;
    let ghost r2 = bytes_view(*bytes);
    let methods = parse_methods(bytes, &constant_pool);
    proof {
        lemma_suffix(bytes_view(*bytes), r2, s0, 0);
    }
    let methods = methods?;
    let ghost r3 = bytes_view(*bytes);
    let attributes = Attributes::parse(bytes, &constant_pool);
    proof {
        lemma_suffix(bytes_view(*bytes), r3, s0, 0);
    }
    let attributes = attributes?;
    if bytes_len(&*bytes) != 0 {
        return Err(ParseError::TrailingBytes);
    }
    Ok(
        ClassFile {
            constant_pool,
            meta_data,
            access_flags,
            this_class,
            super_class,
            interfaces,
            fields,
            methods,
            attributes,
        },
    )
}

/// What reading a class file from `input` answers: the class file when the bytes hold
/// one (`spec_class_file`), else an error; `UnexpectedEnd` for fewer than four bytes,
/// `InvalidMagic` with the first four bytes when they are not the magic number, and
/// `TrailingBytes` when bytes follow a class file.
pub open spec fn parses(input: Seq<u8>, r: Result<ClassFile, ParseError>) -> bool {
    &&& spec_class_file(input) matches Outcome::Done(v, _) ==> (r matches Ok(cf) && cf@ == v)
    &&& !(spec_class_file(input) is Done) ==> r is Err
    &&& input.len() < 4 ==> r == Err::<ClassFile, ParseError>(ParseError::UnexpectedEnd)
    &&& input.len() >= 4 && peek_u32(input) != MAGIC ==> r == Err::<ClassFile, ParseError>(
        ParseError::InvalidMagic(peek_u32(input)),
    )
    &&& spec_trailing(input) ==> r == Err::<ClassFile, ParseError>(ParseError::TrailingBytes)
}

/// Reading depends on the bytes alone: two readings of the same bytes both succeed, with
/// the same class file, or both fail, with the same error where `parses` names it.
pub proof fn law_parse_depends_on_bytes(input: Seq<u8>, r1: Result<ClassFile, ParseError>, r2: Result<ClassFile, ParseError>)
    requires
        parses(input, r1),
        parses(input, r2),
    ensures
        r1 is Ok <==> r2 is Ok,
        r1 is Ok ==> (r1->Ok_0)@ == (r2->Ok_0)@,
        input.len() < 4 || peek_u32(input) != MAGIC || spec_trailing(input) ==> r1 == r2,
{
}

/// A class file reader over a buffer of bytes.
pub struct Parser {
    bytes: Bytes,
}

impl Parser {
    /// The bytes the parser has not read yet.
    pub closed spec fn remaining(&self) -> Seq<u8> {
        bytes_view(self.bytes)
    }

    /// A parser over a copy of `data`.
    pub fn new(data: &[u8]) -> (r: Self)
        ensures
            r.remaining() == data@,
    {
        Parser { bytes: bytes_from_slice(data) }
    }

    /// Reads the class file. It succeeds exactly when the bytes hold a class file
    /// (`spec_class_file`), and then no byte remains. Input that the reader does not
    /// handle (an unknown constant tag, an empty pool count, a zero reference) is refused
    /// with an error.
    pub fn parse(&mut self) -> (r: Result<ClassFile, ParseError>)
        ensures
            parses(old(self).remaining(), r),
            spec_class_file(old(self).remaining()) is Done ==> final(self).remaining().len() == 0,
            is_suffix(final(self).remaining(), old(self).remaining()),
    {
        let ghost s0 = bytes_view(self.bytes);
        proof {
            lemma_suffix(s0, s0, s0, 0);
        }
        let magic = match try_get_u32(&mut self.bytes) {
            Some(v) => v,
            None => return Err(ParseError::UnexpectedEnd),
        };
        proof {
            lemma_suffix(s0, s0, s0, 4);
        }
        if magic != MAGIC {
            return Err(ParseError::InvalidMagic(magic));
        }
        let ghost s4 = bytes_view(self.bytes);
        let minor = match try_get_u16(&mut self.bytes) {
            Some(v) => v,
            None => return Err(ParseError::UnexpectedEnd),
        };
        proof {
            lemma_suffix(s4, s4, s4, 2);
            lemma_suffix(bytes_view(self.bytes), s4, s0, 0);
        }
        let ghost s6 = bytes_view(self.bytes);
        let major = match try_get_u16(&mut self.bytes) {
            Some(v) => v,
            None => {
                proof {
                    lemma_suffix(bytes_view(self.bytes), s6, s0, 0);
                }
                return Err(ParseError::UnexpectedEnd);
            },
        };
        assert(s0.skip(4).skip(2) =~= s0.skip(6));
        assert(s0.skip(6).skip(2) =~= s0.skip(8));
        proof {
            lemma_suffix(s0, s0, s0, 8);
        }
        let meta_data = MetaData { minor_version: minor, major_version: major };
        let ghost s8 = bytes_view(self.bytes);
        let constant_pool = match parse_constant_pool(&mut self.bytes) {
            Ok(p) => p,
            Err(e) => {
                proof {
                    lemma_suffix(bytes_view(self.bytes), s8, s0, 0);
                }
                return Err(e);
            },
        };
        let ghost sp = bytes_view(self.bytes);
        proof {
            lemma_suffix(sp, s8, s0, 0);
        }
        constant_pool.perform_format_checking()?;
        let r = parse_tail(&mut self.bytes, constant_pool, meta_data);
        proof {
            lemma_suffix(bytes_view(self.bytes), sp, s0, 0);
        }
        r
    }
}

} // verus!
