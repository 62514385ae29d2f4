//! The errors of class file reading and bytecode decoding.
use vstd::prelude::*;

verus! {

/// Why a class file, an attribute or an instruction could not be read.
#[derive(Debug, Clone, Copy, PartialEq, Eq)]
pub enum ParseError {
    /// The input ended before a value could be read.
    UnexpectedEnd,
    /// The class file does not start with `0xCAFEBABE`; the value found.
    InvalidMagic(u32),
    /// Bytes remain after the last attribute of the class file.
    TrailingBytes,
    /// An access flag word holds bits that are not defined for its kind.
    InvalidFlags(u16),
    /// A constant pool index points past the end of the pool.
    NoEntry(u16),
    /// A constant pool index points at an entry of another kind.
    WrongEntryKind(u16),
    /// A string constant is not valid UTF-8.
    InvalidUtf8,
    /// No attribute of the requested name exists.
    MissingAttribute,
    /// A byte that starts no instruction.
    UnknownOpcode(u8),
    /// A type descriptor that does not follow the grammar.
    InvalidDescriptor,
}

} // verus!
