//! Reading the symbolic references of the constant pool that instructions name: class
//! names and the class, name and descriptor of fields and methods.
use crate::classfile::text_at;
use crate::pool::{ConstantEntry, ConstantPool, EntryValue};
use vstd::prelude::*;

verus! {

/// The entry numbered `index`, counted from 1.
pub open spec fn entry_at(pool: Seq<EntryValue>, index: u16) -> Option<EntryValue> {
    if 1 <= index <= pool.len() {
        Some(pool[index - 1])
    } else {
        None
    }
}

/// The name of the class that the class entry numbered `index` names.
pub open spec fn class_name_at(pool: Seq<EntryValue>, index: u16) -> Option<Seq<char>> {
    match entry_at(pool, index) {
        Some(EntryValue::Plain(ConstantEntry::Class(c))) => text_at(pool, c.name.spec_index()),
        _ => None,
    }
}

/// Whether a member reference is to a field or to a method.
#[derive(Debug, Clone, Copy, PartialEq, Eq, Structural)]
pub enum MemberKind {
    Field,
    Method,
}

/// A reference to a field or method: the class it is looked up in, its name and its
/// descriptor.
#[derive(Debug, Clone)]
pub struct MemberRef {
    pub class_name: String,
    pub name: String,
    pub descriptor: String,
}

/// A member reference as a mathematical value.
pub struct MemberRefValue {
    pub class_name: Seq<char>,
    pub name: Seq<char>,
    pub descriptor: Seq<char>,
}

impl View for MemberRef {
    type V = MemberRefValue;

    open spec fn view(&self) -> MemberRefValue {
        MemberRefValue { class_name: self.class_name@, name: self.name@, descriptor: self.descriptor@ }
    }
}

/// The member named by a class entry and a name-and-type entry.
pub open spec fn member_of(pool: Seq<EntryValue>, class: u16, name_and_type: u16) -> Option<
    MemberRefValue,
> {
    match (class_name_at(pool, class), entry_at(pool, name_and_type)) {
        (Some(c), Some(EntryValue::Plain(ConstantEntry::NameAndType(nt)))) => match (
            text_at(pool, nt.name.spec_index()),
            text_at(pool, nt.descriptor.spec_index()),
        ) {
            (Some(n), Some(d)) => Some(MemberRefValue { class_name: c, name: n, descriptor: d }),
            _ => None,
        },
        _ => None,
    }
}

/// The member that entry `index` refers to: a field reference for `MemberKind::Field`,
/// a method or interface method reference for `MemberKind::Method`.
pub open spec fn member_at(pool: Seq<EntryValue>, index: u16, kind: MemberKind) -> Option<
    MemberRefValue,
> {
    match entry_at(pool, index) {
        Some(EntryValue::Plain(ConstantEntry::Field(f))) => if kind == MemberKind::Field {
            member_of(pool, f.class.spec_index(), f.name_and_type.spec_index())
        } else {
            None
        },
        Some(EntryValue::Plain(ConstantEntry::Method(m))) => if kind == MemberKind::Method {
            member_of(pool, m.class.spec_index(), m.name_and_type.spec_index())
        } else {
            None
        },
        Some(EntryValue::Plain(ConstantEntry::InterfaceMethod(m))) => if kind == MemberKind::Method {
            member_of(pool, m.class.spec_index(), m.name_and_type.spec_index())
        } else {
            None
        },
        _ => None,
    }
}

/// The decoded text of the string constant numbered `index`, when there is one.
pub fn text(pool: &ConstantPool, index: u16) -> (r: Option<String>)
    ensures
        r is None <==> text_at(pool@, index) is None,
        r matches Some(s) ==> text_at(pool@, index) == Some(s@),
{
    match pool.utf8(index) {
        Ok(u) => match u.try_string() {
            Ok(s) => Some(s),
            Err(_) => None,
        },
        Err(_) => None,
    }
}

/// The entry numbered `index`, when there is one.
pub fn lookup_entry(pool: &ConstantPool, index: u16) -> (r: Option<ConstantEntry>)
    ensures
        r is None <==> entry_at(pool@, index) is None,
        r matches Some(e) ==> entry_at(pool@, index) == Some(e@),
{
    if index == 0 {
        return None;
    }
    match pool.entry(index) {
        Ok(e) => Some(e),
        Err(_) => None,
    }
}

/// The name of the class that entry `index` names, when it is a class entry with a
/// valid name.
pub fn class_name(pool: &ConstantPool, index: u16) -> (r: Option<String>)
    ensures
        r is None <==> class_name_at(pool@, index) is None,
        r matches Some(s) ==> class_name_at(pool@, index) == Some(s@),
{
    match lookup_entry(pool, index) {
        Some(ConstantEntry::Class(c)) => text(pool, c.name.index()),
        _ => None,
    }
}

fn member(pool: &ConstantPool, class: u16, name_and_type: u16) -> (r: Option<MemberRef>)
    ensures
        r is None <==> member_of(pool@, class, name_and_type) is None,
        r matches Some(m) ==> member_of(pool@, class, name_and_type) == Some(m@),
{
    let class_name = match class_name(pool, class) {
        Some(c) => c,
        None => return None,
    };
    match lookup_entry(pool, name_and_type) {
        Some(ConstantEntry::NameAndType(nt)) => {
            let name = match text(pool, nt.name.index()) {
                Some(n) => n,
                None => return None,
            };
            let descriptor = match text(pool, nt.descriptor.index()) {
                Some(d) => d,
                None => return None,
            };
            Some(MemberRef { class_name, name, descriptor })
        },
        _ => None,
    }
}

/// The field or method that entry `index` refers to, when it is a reference of the
/// kind asked for whose names are all valid.
pub fn member_ref(pool: &ConstantPool, index: u16, kind: MemberKind) -> (r: Option<MemberRef>)
    ensures
        r is None <==> member_at(pool@, index, kind) is None,
        r matches Some(m) ==> member_at(pool@, index, kind) == Some(m@),
{
    match lookup_entry(pool, index) {
        Some(ConstantEntry::Field(f)) => if kind == MemberKind::Field {
            member(pool, f.class.index(), f.name_and_type.index())
        } else {
            None
        },
        Some(ConstantEntry::Method(m)) => if kind == MemberKind::Method {
            member(pool, m.class.index(), m.name_and_type.index())
        } else {
            None
        },
        Some(ConstantEntry::InterfaceMethod(m)) => if kind == MemberKind::Method {
            member(pool, m.class.index(), m.name_and_type.index())
        } else {
            None
        },
        _ => None,
    }
}

} // verus!
