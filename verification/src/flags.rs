//! The access flags of classes, fields and methods.
use crate::result::ParseError;
use vstd::prelude::*;

verus! {

/// The flag bits a class may carry (JVMS table 4.1-B).
pub const CLASS_FLAG_MASK: u16 = 0xF631;

/// The flag bits a field may carry (JVMS table 4.5-A).
pub const FIELD_FLAG_MASK: u16 = 0x50DF;

/// The flag bits a method may carry (JVMS table 4.6-A).
pub const METHOD_FLAG_MASK: u16 = 0x1DFF;

/// The access flags of a class file.
#[derive(Debug, Clone, Copy, PartialEq, Eq, Structural)]
pub struct ClassFileAccessFlags {
    pub flags: u16,
}

/// The access flags of a field.
#[derive(Debug, Clone, Copy, PartialEq, Eq, Structural)]
pub struct FieldAccessFlags {
    pub flags: u16,
}

/// The access flags of a method.
#[derive(Debug, Clone, Copy, PartialEq, Eq, Structural)]
pub struct MethodAccessFlags {
    pub flags: u16,
}

/// One flag of a field.
#[derive(Debug, Clone, Copy, PartialEq, Eq, Structural)]
pub enum FieldAccessFlag {
    Public,
    Private,
    Protected,
    Static,
    Final,
    Volatile,
    Transient,
    Synthetic,
    Enum,
}

/// One flag of a method.
#[derive(Debug, Clone, Copy, PartialEq, Eq, Structural)]
pub enum MethodAccessFlag {
    Public,
    Private,
    Protected,
    Static,
    Final,
    Synchronized,
    Bridge,
    Varargs,
    Native,
    Abstract,
    Strict,
    Synthetic,
}

impl FieldAccessFlag {
    pub open spec fn spec_bit(self) -> u16 {
        match self {
            FieldAccessFlag::Public => 0x0001,
            FieldAccessFlag::Private => 0x0002,
            FieldAccessFlag::Protected => 0x0004,
            FieldAccessFlag::Static => 0x0008,
            FieldAccessFlag::Final => 0x0010,
            FieldAccessFlag::Volatile => 0x0040,
            FieldAccessFlag::Transient => 0x0080,
            FieldAccessFlag::Synthetic => 0x1000,
            FieldAccessFlag::Enum => 0x4000,
        }
    }

    /// The bit of this flag in the flag word.
    pub fn bit(self) -> (r: u16)
        ensures
            r == self.spec_bit(),
    {
        match self {
            FieldAccessFlag::Public => 0x0001,
            FieldAccessFlag::Private => 0x0002,
            FieldAccessFlag::Protected => 0x0004,
            FieldAccessFlag::Static => 0x0008,
            FieldAccessFlag::Final => 0x0010,
            FieldAccessFlag::Volatile => 0x0040,
            FieldAccessFlag::Transient => 0x0080,
            FieldAccessFlag::Synthetic => 0x1000,
            FieldAccessFlag::Enum => 0x4000,
        }
    }
}

impl MethodAccessFlag {
    pub open spec fn spec_bit(self) -> u16 {
        match self {
            MethodAccessFlag::Public => 0x0001,
            MethodAccessFlag::Private => 0x0002,
            MethodAccessFlag::Protected => 0x0004,
            MethodAccessFlag::Static => 0x0008,
            MethodAccessFlag::Final => 0x0010,
            MethodAccessFlag::Synchronized => 0x0020,
            MethodAccessFlag::Bridge => 0x0040,
            MethodAccessFlag::Varargs => 0x0080,
            MethodAccessFlag::Native => 0x0100,
            MethodAccessFlag::Abstract => 0x0400,
            MethodAccessFlag::Strict => 0x0800,
            MethodAccessFlag::Synthetic => 0x1000,
        }
    }

    /// The bit of this flag in the flag word.
    pub fn bit(self) -> (r: u16)
        ensures
            r == self.spec_bit(),
    {
        match self {
            MethodAccessFlag::Public => 0x0001,
            MethodAccessFlag::Private => 0x0002,
            MethodAccessFlag::Protected => 0x0004,
            MethodAccessFlag::Static => 0x0008,
            MethodAccessFlag::Final => 0x0010,
            MethodAccessFlag::Synchronized => 0x0020,
            MethodAccessFlag::Bridge => 0x0040,
            MethodAccessFlag::Varargs => 0x0080,
            MethodAccessFlag::Native => 0x0100,
            MethodAccessFlag::Abstract => 0x0400,
            MethodAccessFlag::Strict => 0x0800,
            MethodAccessFlag::Synthetic => 0x1000,
        }
    }
}

impl ClassFileAccessFlags {
    /// The flag word is accepted when it holds no bit outside those defined for classes.
    pub open spec fn valid_bits(bits: u16) -> bool {
        bits & !CLASS_FLAG_MASK == 0
    }

    pub fn from_bits(bits: u16) -> (r: Result<Self, ParseError>)
        ensures
            Self::valid_bits(bits) ==> r == Ok::<Self, ParseError>(ClassFileAccessFlags { flags: bits }),
            !Self::valid_bits(bits) ==> r == Err::<Self, ParseError>(ParseError::InvalidFlags(bits)),
    {
        if bits & !CLASS_FLAG_MASK == 0 {
            Ok(ClassFileAccessFlags { flags: bits })
        } else {
            Err(ParseError::InvalidFlags(bits))
        }
    }
}

impl FieldAccessFlags {
    /// The flag word is accepted when it holds no bit outside those defined for fields.
    pub open spec fn valid_bits(bits: u16) -> bool {
        bits & !FIELD_FLAG_MASK == 0
    }

    pub fn from_bits(bits: u16) -> (r: Result<Self, ParseError>)
        ensures
            Self::valid_bits(bits) ==> r == Ok::<Self, ParseError>(FieldAccessFlags { flags: bits }),
            !Self::valid_bits(bits) ==> r == Err::<Self, ParseError>(ParseError::InvalidFlags(bits)),
    {
        if bits & !FIELD_FLAG_MASK == 0 {
            Ok(FieldAccessFlags { flags: bits })
        } else {
            Err(ParseError::InvalidFlags(bits))
        }
    }

    /// Whether the flag is set.
    pub fn has(&self, flag: FieldAccessFlag) -> (r: bool)
        ensures
            r == (self.flags & flag.spec_bit() != 0),
    {
        self.flags & flag.bit() != 0
    }
}

impl MethodAccessFlags {
    /// The flag word is accepted when it holds no bit outside those defined for methods.
    pub open spec fn valid_bits(bits: u16) -> bool {
        bits & !METHOD_FLAG_MASK == 0
    }

    pub fn from_bits(bits: u16) -> (r: Result<Self, ParseError>)
        ensures
            Self::valid_bits(bits) ==> r == Ok::<Self, ParseError>(MethodAccessFlags { flags: bits }),
            !Self::valid_bits(bits) ==> r == Err::<Self, ParseError>(ParseError::InvalidFlags(bits)),
    {
        if bits & !METHOD_FLAG_MASK == 0 {
            Ok(MethodAccessFlags { flags: bits })
        } else {
            Err(ParseError::InvalidFlags(bits))
        }
    }

    /// Whether the flag is set.
    pub fn has(&self, flag: MethodAccessFlag) -> (r: bool)
        ensures
            r == (self.flags & flag.spec_bit() != 0),
    {
        self.flags & flag.bit() != 0
    }
}

} // verus!
