//! The instruction set of the JVM and the decoding of one instruction from code bytes.
use crate::reader::{
    bytes_view, is_suffix, lemma_prepend_push, lemma_suffix, peek_u16, peek_u32, prepend, read_i16,
    read_i8, read_u16, read_u16_u8_u8, read_u32, read_u8, read_u8_i8, try_get_u8, u16_as_i16, u8_as_i8,
    bytes_advance, bytes_len, Outcome,
};
use crate::result::ParseError;
use bytes::Bytes;
use vstd::prelude::*;

verus! {

/// One JVM instruction with its operands.
#[derive(Debug)]
#[allow(non_camel_case_types)]
pub enum Opcode {
    // Constants Loads Stores
    NOP,
    ACONST_NULL,
    ICONST_M1,
    ICONST_0,
    ICONST_1,
    ICONST_2,
    ICONST_3,
    ICONST_4,
    ICONST_5,
    LCONST_0,
    LCONST_1,
    FCONST_0,
    FCONST_1,
    FCONST_2,
    DCONST_0,
    DCONST_1,
    BIPUSH(i8),
    SIPUSH(i16),
    LDC(u8),
    LDC_W(u16),
    LDC2_W(u16),
    ILOAD(u8),
    LLOAD(u8),
    FLOAD(u8),
    DLOAD,
    ALOAD(u8),
    ILOAD_0,
    ILOAD_1,
    ILOAD_2,
    ILOAD_3,
    LLOAD_0,
    LLOAD_1,
    LLOAD_2,
    LLOAD_3,
    FLOAD_0,
    FLOAD_1,
    FLOAD_2,
    FLOAD_3,
    DLOAD_0,
    DLOAD_1,
    DLOAD_2,
    DLOAD_3,
    ALOAD_0,
    ALOAD_1,
    ALOAD_2,
    ALOAD_3,
    IALOAD,
    LALOAD,
    FALOAD,
    DALOAD,
    AALOAD,
    BALOAD,
    CALOAD,
    SALOAD,
    ISTORE(u8),
    LSTORE(u8),
    FSTORE(u8),
    DSTORE,
    ASTORE(u8),
    ISTORE_0,
    ISTORE_1,
    ISTORE_2,
    ISTORE_3,
    LSTORE_0,
    LSTORE_1,
    LSTORE_2,
    LSTORE_3,
    FSTORE_0,
    FSTORE_1,
    FSTORE_2,
    FSTORE_3,
    DSTORE_0,
    DSTORE_1,
    DSTORE_2,
    DSTORE_3,
    ASTORE_0,
    ASTORE_1,
    ASTORE_2,
    ASTORE_3,
    IASTORE,
    LASTORE,
    FASTORE,
    DASTORE,
    AASTORE,
    BASTORE,
    CASTORE,
    SASTORE,

    // Stack Math Conversions
    POP,
    POP2,
    DUP,
    DUP_X1,
    DUP_X2,
    DUP2,
    DUP2_X1,
    DUP2_X2,
    SWAP,
    IADD,
    LADD,
    FADD,
    DADD,
    ISUB,
    LSUB,
    FSUB,
    DSUB,
    IMUL,
    LMUL,
    FMUL,
    DMUL,
    IDIV,
    LDIV,
    FDIV,
    DDIV,
    IREM,
    LREM,
    FREM,
    DREM,
    INEG,
    LNEG,
    FNEG,
    DNEG,
    ISHL,
    LSHL,
    ISHR,
    LSHR,
    IUSHR,
    LUSHR,
    IAND,
    LAND,
    IOR,
    LOR,
    IXOR,
    LXOR,
    IINC(u8, i8),
    I2L,
    I2F,
    I2D,
    L2I,
    L2F,
    L2D,
    F2I,
    F2L,
    F2D,
    D2I,
    D2L,
    D2F,
    I2B,
    I2C,
    I2S,

    // Comparisons
    LCMP,
    FCMPL,
    FCMPG,
    DCMPL,
    DCMPG,
    IFEQ(i16),
    IFNE(i16),
    IFLT(i16),
    IFGE(i16),
    IFGT(i16),
    IFLE(i16),
    IF_ICMPEQ(i16),
    IF_ICMPNE(i16),
    IF_ICMPLT(i16),
    IF_ICMPGE(i16),
    IF_ICMPGT(i16),
    IF_ICMPLE(i16),
    IF_ACMPEQ(i16),
    IF_ACMPNE(i16),

    // Control
    GOTO(i16),
    JSR,
    RET,
    TABLESWITCH(TableSwitch),
    LOOKUPSWITCH,
    IRETURN,
    LRETURN,
    FRETURN,
    DRETURN,
    ARETURN,
    RETURN,

    // References
    GETSTATIC(u16),
    PUTSTATIC(u16),
    GETFIELD(u16),
    PUTFIELD(u16),
    INVOKEVIRTUAL(u16),
    INVOKESPECIAL(u16),
    INVOKESTATIC(u16),
    INVOKEINTERFACE(u16, u8, u8),
    INVOKEDYNAMIC,
    NEW(u16),
    NEWARRAY(u8),
    ANEWARRAY(u16),
    ARRAYLENGTH,
    ATHROW,
    CHECKCAST(u16),
    INSTANCEOF(u16),
    MONITORENTER,
    MONITOREXIT,

    // Extended
    WIDE,
    MULTIANEWARRAY,
    IFNULL(i16),
    IFNONNULL(i16),
    GOTO_W,
    JSR_W,

    // Reserved
    BREAKPOINT,
    IMPDEP1,
    IMPDEP2,
}

/// The operands of a `tableswitch`: the default offset, the bounds, and for each key
/// from `low` to `high` the key and its offset.
#[derive(Debug)]
pub struct TableSwitch {
    pub default: u32,
    pub low: u32,
    pub high: u32,
    pub pairs: Vec<(u32, u32)>,
}

/// An instruction as a mathematical value: a `tableswitch` holds its pairs as a
/// sequence, every other instruction is itself.
pub enum OpcodeValue {
    TableSwitch { default: u32, low: u32, high: u32, pairs: Seq<(u32, u32)> },
    Plain(Opcode),
}

impl View for Opcode {
    type V = OpcodeValue;

    open spec fn view(&self) -> OpcodeValue {
        match self {
            Opcode::TABLESWITCH(t) => OpcodeValue::TableSwitch {
                default: t.default,
                low: t.low,
                high: t.high,
                pairs: t.pairs@,
            },
            _ => OpcodeValue::Plain(*self),
        }
    }
}

/// The remainder of `pc` divided by 4, with the sign of `pc`, as Rust computes it.
pub open spec fn rem4(pc: i32) -> int {
    if pc >= 0 {
        pc as int % 4
    } else {
        -((-pc) as int % 4)
    }
}

/// The padding bytes after a `tableswitch` opcode at `pc`.
pub open spec fn table_pad(pc: i32) -> int {
    3 - rem4(pc)
}

/// `n` jump offsets of a `tableswitch`, paired with the keys from `key` on.
pub open spec fn spec_table_pairs(s: Seq<u8>, key: int, n: int) -> Outcome<Seq<(u32, u32)>>
    decreases n,
{
    if n <= 0 {
        Outcome::Done(Seq::empty(), s)
    } else if s.len() < 4 {
        Outcome::Fail
    } else {
        prepend(seq![(key as u32, peek_u32(s))], spec_table_pairs(s.skip(4), key + 1, n - 1))
    }
}

/// The operands of a `tableswitch` at `pc`, after the opcode byte: padding, default,
/// low, high and one offset per key. Too little padding, `high` below `low`, a table
/// of 2^32 keys and a table that ends at key `u32::MAX` are not handled.
pub open spec fn spec_table_switch(r: Seq<u8>, pc: i32) -> Outcome<OpcodeValue> {
    let pad = table_pad(pc);
    if r.len() < pad {
        Outcome::Stuck
    } else {
        let t = r.skip(pad);
        if t.len() < 12 {
            Outcome::Fail
        } else {
            let default = peek_u32(t);
            let low = peek_u32(t.skip(4));
            let high = peek_u32(t.skip(8));
            if high < low || high - low == u32::MAX {
                Outcome::Stuck
            } else {
                match spec_table_pairs(t.skip(12), low as int, high - low + 1) {
                    Outcome::Done(pairs, rest) => if high == u32::MAX {
                        Outcome::Stuck
                    } else {
                        Outcome::Done(OpcodeValue::TableSwitch { default, low, high, pairs }, rest)
                    },
                    Outcome::Fail => Outcome::Fail,
                    Outcome::Stuck => Outcome::Stuck,
                }
            }
        }
    }
}

/// One instruction at `pc`: the opcode byte and its operands (JVMS chapter 6).
#[verifier::opaque]
pub open spec fn spec_decode(s: Seq<u8>, pc: i32) -> Outcome<OpcodeValue> {
    if s.len() < 1 {
        Outcome::Fail
    } else {
        let r = s.skip(1);
        match s[0] {
            0x00 => Outcome::Done(OpcodeValue::Plain(Opcode::NOP), r),
            0x01 => Outcome::Done(OpcodeValue::Plain(Opcode::ACONST_NULL), r),
            0x02 => Outcome::Done(OpcodeValue::Plain(Opcode::ICONST_M1), r),
            0x03 => Outcome::Done(OpcodeValue::Plain(Opcode::ICONST_0), r),
            0x04 => Outcome::Done(OpcodeValue::Plain(Opcode::ICONST_1), r),
            0x05 => Outcome::Done(OpcodeValue::Plain(Opcode::ICONST_2), r),
            0x06 => Outcome::Done(OpcodeValue::Plain(Opcode::ICONST_3), r),
            0x07 => Outcome::Done(OpcodeValue::Plain(Opcode::ICONST_4), r),
            0x08 => Outcome::Done(OpcodeValue::Plain(Opcode::ICONST_5), r),
            0x09 => Outcome::Done(OpcodeValue::Plain(Opcode::LCONST_0), r),
            0x0a => Outcome::Done(OpcodeValue::Plain(Opcode::LCONST_1), r),
            0x0b => Outcome::Done(OpcodeValue::Plain(Opcode::FCONST_0), r),
            0x0c => Outcome::Done(OpcodeValue::Plain(Opcode::FCONST_1), r),
            0x0d => Outcome::Done(OpcodeValue::Plain(Opcode::FCONST_2), r),
            0x0e => Outcome::Done(OpcodeValue::Plain(Opcode::DCONST_0), r),
            0x0f => Outcome::Done(OpcodeValue::Plain(Opcode::DCONST_1), r),
            0x10 => if r.len() < 1 { Outcome::Fail } else { Outcome::Done(OpcodeValue::Plain(Opcode::BIPUSH(u8_as_i8(r[0]))), r.skip(1)) },
            0x11 => if r.len() < 2 { Outcome::Fail } else { Outcome::Done(OpcodeValue::Plain(Opcode::SIPUSH(u16_as_i16(peek_u16(r)))), r.skip(2)) },
            0x12 => if r.len() < 1 { Outcome::Fail } else { Outcome::Done(OpcodeValue::Plain(Opcode::LDC(r[0])), r.skip(1)) },
            0x13 => if r.len() < 2 { Outcome::Fail } else { Outcome::Done(OpcodeValue::Plain(Opcode::LDC_W(peek_u16(r))), r.skip(2)) },
            0x14 => if r.len() < 2 { Outcome::Fail } else { Outcome::Done(OpcodeValue::Plain(Opcode::LDC2_W(peek_u16(r))), r.skip(2)) },
            0x15 => if r.len() < 1 { Outcome::Fail } else { Outcome::Done(OpcodeValue::Plain(Opcode::ILOAD(r[0])), r.skip(1)) },
            0x16 => if r.len() < 1 { Outcome::Fail } else { Outcome::Done(OpcodeValue::Plain(Opcode::LLOAD(r[0])), r.skip(1)) },
            0x17 => if r.len() < 1 { Outcome::Fail } else { Outcome::Done(OpcodeValue::Plain(Opcode::FLOAD(r[0])), r.skip(1)) },
            0x18 => Outcome::Done(OpcodeValue::Plain(Opcode::DLOAD), r),
            0x19 => if r.len() < 1 { Outcome::Fail } else { Outcome::Done(OpcodeValue::Plain(Opcode::ALOAD(r[0])), r.skip(1)) },
            0x1a => Outcome::Done(OpcodeValue::Plain(Opcode::ILOAD_0), r),
            0x1b => Outcome::Done(OpcodeValue::Plain(Opcode::ILOAD_1), r),
            0x1c => Outcome::Done(OpcodeValue::Plain(Opcode::ILOAD_2), r),
            0x1d => Outcome::Done(OpcodeValue::Plain(Opcode::ILOAD_3), r),
            0x1e => Outcome::Done(OpcodeValue::Plain(Opcode::LLOAD_0), r),
            0x1f => Outcome::Done(OpcodeValue::Plain(Opcode::LLOAD_1), r),
            0x20 => Outcome::Done(OpcodeValue::Plain(Opcode::LLOAD_2), r),
            0x21 => Outcome::Done(OpcodeValue::Plain(Opcode::LLOAD_3), r),
            0x22 => Outcome::Done(OpcodeValue::Plain(Opcode::FLOAD_0), r),
            0x23 => Outcome::Done(OpcodeValue::Plain(Opcode::FLOAD_1), r),
            0x24 => Outcome::Done(OpcodeValue::Plain(Opcode::FLOAD_2), r),
            0x25 => Outcome::Done(OpcodeValue::Plain(Opcode::FLOAD_3), r),
            0x26 => Outcome::Done(OpcodeValue::Plain(Opcode::DLOAD_0), r),
            0x27 => Outcome::Done(OpcodeValue::Plain(Opcode::DLOAD_1), r),
            0x28 => Outcome::Done(OpcodeValue::Plain(Opcode::DLOAD_2), r),
            0x29 => Outcome::Done(OpcodeValue::Plain(Opcode::DLOAD_3), r),
            0x2a => Outcome::Done(OpcodeValue::Plain(Opcode::ALOAD_0), r),
            0x2b => Outcome::Done(OpcodeValue::Plain(Opcode::ALOAD_1), r),
            0x2c => Outcome::Done(OpcodeValue::Plain(Opcode::ALOAD_2), r),
            0x2d => Outcome::Done(OpcodeValue::Plain(Opcode::ALOAD_3), r),
            0x2e => Outcome::Done(OpcodeValue::Plain(Opcode::IALOAD), r),
            0x2f => Outcome::Done(OpcodeValue::Plain(Opcode::LALOAD), r),
            0x30 => Outcome::Done(OpcodeValue::Plain(Opcode::FALOAD), r),
            0x31 => Outcome::Done(OpcodeValue::Plain(Opcode::DALOAD), r),
            0x32 => Outcome::Done(OpcodeValue::Plain(Opcode::AALOAD), r),
            0x33 => Outcome::Done(OpcodeValue::Plain(Opcode::BALOAD), r),
            0x34 => Outcome::Done(OpcodeValue::Plain(Opcode::CALOAD), r),
            0x35 => Outcome::Done(OpcodeValue::Plain(Opcode::SALOAD), r),
            0x36 => if r.len() < 1 { Outcome::Fail } else { Outcome::Done(OpcodeValue::Plain(Opcode::ISTORE(r[0])), r.skip(1)) },
            0x37 => if r.len() < 1 { Outcome::Fail } else { Outcome::Done(OpcodeValue::Plain(Opcode::LSTORE(r[0])), r.skip(1)) },
            0x38 => if r.len() < 1 { Outcome::Fail } else { Outcome::Done(OpcodeValue::Plain(Opcode::FSTORE(r[0])), r.skip(1)) },
            0x39 => Outcome::Done(OpcodeValue::Plain(Opcode::DSTORE), r),
            0x3a => if r.len() < 1 { Outcome::Fail } else { Outcome::Done(OpcodeValue::Plain(Opcode::ASTORE(r[0])), r.skip(1)) },
            0x3b => Outcome::Done(OpcodeValue::Plain(Opcode::ISTORE_0), r),
            0x3c => Outcome::Done(OpcodeValue::Plain(Opcode::ISTORE_1), r),
            0x3d => Outcome::Done(OpcodeValue::Plain(Opcode::ISTORE_2), r),
            0x3e => Outcome::Done(OpcodeValue::Plain(Opcode::ISTORE_3), r),
            0x3f => Outcome::Done(OpcodeValue::Plain(Opcode::LSTORE_0), r),
            0x40 => Outcome::Done(OpcodeValue::Plain(Opcode::LSTORE_1), r),
            0x41 => Outcome::Done(OpcodeValue::Plain(Opcode::LSTORE_2), r),
            0x42 => Outcome::Done(OpcodeValue::Plain(Opcode::LSTORE_3), r),
            0x43 => Outcome::Done(OpcodeValue::Plain(Opcode::FSTORE_0), r),
            0x44 => Outcome::Done(OpcodeValue::Plain(Opcode::FSTORE_1), r),
            0x45 => Outcome::Done(OpcodeValue::Plain(Opcode::FSTORE_2), r),
            0x46 => Outcome::Done(OpcodeValue::Plain(Opcode::FSTORE_3), r),
            0x47 => Outcome::Done(OpcodeValue::Plain(Opcode::DSTORE_0), r),
            0x48 => Outcome::Done(OpcodeValue::Plain(Opcode::DSTORE_1), r),
            0x49 => Outcome::Done(OpcodeValue::Plain(Opcode::DSTORE_2), r),
            0x4a => Outcome::Done(OpcodeValue::Plain(Opcode::DSTORE_3), r),
            0x4b => Outcome::Done(OpcodeValue::Plain(Opcode::ASTORE_0), r),
            0x4c => Outcome::Done(OpcodeValue::Plain(Opcode::ASTORE_1), r),
            0x4d => Outcome::Done(OpcodeValue::Plain(Opcode::ASTORE_2), r),
            0x4e => Outcome::Done(OpcodeValue::Plain(Opcode::ASTORE_3), r),
            0x4f => Outcome::Done(OpcodeValue::Plain(Opcode::IASTORE), r),
            0x50 => Outcome::Done(OpcodeValue::Plain(Opcode::LASTORE), r),
            0x51 => Outcome::Done(OpcodeValue::Plain(Opcode::FASTORE), r),
            0x52 => Outcome::Done(OpcodeValue::Plain(Opcode::DASTORE), r),
            0x53 => Outcome::Done(OpcodeValue::Plain(Opcode::AASTORE), r),
            0x54 => Outcome::Done(OpcodeValue::Plain(Opcode::BASTORE), r),
            0x55 => Outcome::Done(OpcodeValue::Plain(Opcode::CASTORE), r),
            0x56 => Outcome::Done(OpcodeValue::Plain(Opcode::SASTORE), r),
            0x57 => Outcome::Done(OpcodeValue::Plain(Opcode::POP), r),
            0x58 => Outcome::Done(OpcodeValue::Plain(Opcode::POP2), r),
            0x59 => Outcome::Done(OpcodeValue::Plain(Opcode::DUP), r),
            0x5a => Outcome::Done(OpcodeValue::Plain(Opcode::DUP_X1), r),
            0x5b => Outcome::Done(OpcodeValue::Plain(Opcode::DUP_X2), r),
            0x5c => Outcome::Done(OpcodeValue::Plain(Opcode::DUP2), r),
            0x5d => Outcome::Done(OpcodeValue::Plain(Opcode::DUP2_X1), r),
            0x5e => Outcome::Done(OpcodeValue::Plain(Opcode::DUP2_X2), r),
            0x5f => Outcome::Done(OpcodeValue::Plain(Opcode::SWAP), r),
            0x60 => Outcome::Done(OpcodeValue::Plain(Opcode::IADD), r),
            0x61 => Outcome::Done(OpcodeValue::Plain(Opcode::LADD), r),
            0x62 => Outcome::Done(OpcodeValue::Plain(Opcode::FADD), r),
            0x63 => Outcome::Done(OpcodeValue::Plain(Opcode::DADD), r),
            0x64 => Outcome::Done(OpcodeValue::Plain(Opcode::ISUB), r),
            0x65 => Outcome::Done(OpcodeValue::Plain(Opcode::LSUB), r),
            0x66 => Outcome::Done(OpcodeValue::Plain(Opcode::FSUB), r),
            0x67 => Outcome::Done(OpcodeValue::Plain(Opcode::DSUB), r),
            0x68 => Outcome::Done(OpcodeValue::Plain(Opcode::IMUL), r),
            0x69 => Outcome::Done(OpcodeValue::Plain(Opcode::LMUL), r),
            0x6a => Outcome::Done(OpcodeValue::Plain(Opcode::FMUL), r),
            0x6b => Outcome::Done(OpcodeValue::Plain(Opcode::DMUL), r),
            0x6c => Outcome::Done(OpcodeValue::Plain(Opcode::IDIV), r),
            0x6d => Outcome::Done(OpcodeValue::Plain(Opcode::LDIV), r),
            0x6e => Outcome::Done(OpcodeValue::Plain(Opcode::FDIV), r),
            0x6f => Outcome::Done(OpcodeValue::Plain(Opcode::DDIV), r),
            0x70 => Outcome::Done(OpcodeValue::Plain(Opcode::IREM), r),
            0x71 => Outcome::Done(OpcodeValue::Plain(Opcode::LREM), r),
            0x72 => Outcome::Done(OpcodeValue::Plain(Opcode::FREM), r),
            0x73 => Outcome::Done(OpcodeValue::Plain(Opcode::DREM), r),
            0x74 => Outcome::Done(OpcodeValue::Plain(Opcode::INEG), r),
            0x75 => Outcome::Done(OpcodeValue::Plain(Opcode::LNEG), r),
            0x76 => Outcome::Done(OpcodeValue::Plain(Opcode::FNEG), r),
            0x77 => Outcome::Done(OpcodeValue::Plain(Opcode::DNEG), r),
            0x78 => Outcome::Done(OpcodeValue::Plain(Opcode::ISHL), r),
            0x79 => Outcome::Done(OpcodeValue::Plain(Opcode::LSHL), r),
            0x7a => Outcome::Done(OpcodeValue::Plain(Opcode::ISHR), r),
            0x7b => Outcome::Done(OpcodeValue::Plain(Opcode::LSHR), r),
            0x7c => Outcome::Done(OpcodeValue::Plain(Opcode::IUSHR), r),
            0x7d => Outcome::Done(OpcodeValue::Plain(Opcode::LUSHR), r),
            0x7e => Outcome::Done(OpcodeValue::Plain(Opcode::IAND), r),
            0x7f => Outcome::Done(OpcodeValue::Plain(Opcode::LAND), r),
            0x80 => Outcome::Done(OpcodeValue::Plain(Opcode::IOR), r),
            0x81 => Outcome::Done(OpcodeValue::Plain(Opcode::LOR), r),
            0x82 => Outcome::Done(OpcodeValue::Plain(Opcode::IXOR), r),
            0x83 => Outcome::Done(OpcodeValue::Plain(Opcode::LXOR), r),
            0x84 => if r.len() < 2 { Outcome::Fail } else { Outcome::Done(OpcodeValue::Plain(Opcode::IINC(r[0], u8_as_i8(r[1]))), r.skip(2)) },
            0x85 => Outcome::Done(OpcodeValue::Plain(Opcode::I2L), r),
            0x86 => Outcome::Done(OpcodeValue::Plain(Opcode::I2F), r),
            0x87 => Outcome::Done(OpcodeValue::Plain(Opcode::I2D), r),
            0x88 => Outcome::Done(OpcodeValue::Plain(Opcode::L2I), r),
            0x89 => Outcome::Done(OpcodeValue::Plain(Opcode::L2F), r),
            0x8a => Outcome::Done(OpcodeValue::Plain(Opcode::L2D), r),
            0x8b => Outcome::Done(OpcodeValue::Plain(Opcode::F2I), r),
            0x8c => Outcome::Done(OpcodeValue::Plain(Opcode::F2L), r),
            0x8d => Outcome::Done(OpcodeValue::Plain(Opcode::F2D), r),
            0x8e => Outcome::Done(OpcodeValue::Plain(Opcode::D2I), r),
            0x8f => Outcome::Done(OpcodeValue::Plain(Opcode::D2L), r),
            0x90 => Outcome::Done(OpcodeValue::Plain(Opcode::D2F), r),
            0x91 => Outcome::Done(OpcodeValue::Plain(Opcode::I2B), r),
            0x92 => Outcome::Done(OpcodeValue::Plain(Opcode::I2C), r),
            0x93 => Outcome::Done(OpcodeValue::Plain(Opcode::I2S), r),
            0x94 => Outcome::Done(OpcodeValue::Plain(Opcode::LCMP), r),
            0x95 => Outcome::Done(OpcodeValue::Plain(Opcode::FCMPL), r),
            0x96 => Outcome::Done(OpcodeValue::Plain(Opcode::FCMPG), r),
            0x97 => Outcome::Done(OpcodeValue::Plain(Opcode::DCMPL), r),
            0x98 => Outcome::Done(OpcodeValue::Plain(Opcode::DCMPG), r),
            0x99 => if r.len() < 2 { Outcome::Fail } else { Outcome::Done(OpcodeValue::Plain(Opcode::IFEQ(u16_as_i16(peek_u16(r)))), r.skip(2)) },
            0x9a => if r.len() < 2 { Outcome::Fail } else { Outcome::Done(OpcodeValue::Plain(Opcode::IFNE(u16_as_i16(peek_u16(r)))), r.skip(2)) },
            0x9b => if r.len() < 2 { Outcome::Fail } else { Outcome::Done(OpcodeValue::Plain(Opcode::IFLT(u16_as_i16(peek_u16(r)))), r.skip(2)) },
            0x9c => if r.len() < 2 { Outcome::Fail } else { Outcome::Done(OpcodeValue::Plain(Opcode::IFGE(u16_as_i16(peek_u16(r)))), r.skip(2)) },
            0x9d => if r.len() < 2 { Outcome::Fail } else { Outcome::Done(OpcodeValue::Plain(Opcode::IFGT(u16_as_i16(peek_u16(r)))), r.skip(2)) },
            0x9e => if r.len() < 2 { Outcome::Fail } else { Outcome::Done(OpcodeValue::Plain(Opcode::IFLE(u16_as_i16(peek_u16(r)))), r.skip(2)) },
            0x9f => if r.len() < 2 { Outcome::Fail } else { Outcome::Done(OpcodeValue::Plain(Opcode::IF_ICMPEQ(u16_as_i16(peek_u16(r)))), r.skip(2)) },
            0xa0 => if r.len() < 2 { Outcome::Fail } else { Outcome::Done(OpcodeValue::Plain(Opcode::IF_ICMPNE(u16_as_i16(peek_u16(r)))), r.skip(2)) },
            0xa1 => if r.len() < 2 { Outcome::Fail } else { Outcome::Done(OpcodeValue::Plain(Opcode::IF_ICMPLT(u16_as_i16(peek_u16(r)))), r.skip(2)) },
            0xa2 => if r.len() < 2 { Outcome::Fail } else { Outcome::Done(OpcodeValue::Plain(Opcode::IF_ICMPGE(u16_as_i16(peek_u16(r)))), r.skip(2)) },
            0xa3 => if r.len() < 2 { Outcome::Fail } else { Outcome::Done(OpcodeValue::Plain(Opcode::IF_ICMPGT(u16_as_i16(peek_u16(r)))), r.skip(2)) },
            0xa4 => if r.len() < 2 { Outcome::Fail } else { Outcome::Done(OpcodeValue::Plain(Opcode::IF_ICMPLE(u16_as_i16(peek_u16(r)))), r.skip(2)) },
            0xa5 => if r.len() < 2 { Outcome::Fail } else { Outcome::Done(OpcodeValue::Plain(Opcode::IF_ACMPEQ(u16_as_i16(peek_u16(r)))), r.skip(2)) },
            0xa6 => if r.len() < 2 { Outcome::Fail } else { Outcome::Done(OpcodeValue::Plain(Opcode::IF_ACMPNE(u16_as_i16(peek_u16(r)))), r.skip(2)) },
            0xa7 => if r.len() < 2 { Outcome::Fail } else { Outcome::Done(OpcodeValue::Plain(Opcode::GOTO(u16_as_i16(peek_u16(r)))), r.skip(2)) },
            0xa8 => Outcome::Done(OpcodeValue::Plain(Opcode::JSR), r),
            0xa9 => Outcome::Done(OpcodeValue::Plain(Opcode::RET), r),
            0xaa => spec_table_switch(r, pc),
            0xab => Outcome::Done(OpcodeValue::Plain(Opcode::LOOKUPSWITCH), r),
            0xac => Outcome::Done(OpcodeValue::Plain(Opcode::IRETURN), r),
            0xad => Outcome::Done(OpcodeValue::Plain(Opcode::LRETURN), r),
            0xae => Outcome::Done(OpcodeValue::Plain(Opcode::FRETURN), r),
            0xaf => Outcome::Done(OpcodeValue::Plain(Opcode::DRETURN), r),
            0xb0 => Outcome::Done(OpcodeValue::Plain(Opcode::ARETURN), r),
            0xb1 => Outcome::Done(OpcodeValue::Plain(Opcode::RETURN), r),
            0xb2 => if r.len() < 2 { Outcome::Fail } else { Outcome::Done(OpcodeValue::Plain(Opcode::GETSTATIC(peek_u16(r))), r.skip(2)) },
            0xb3 => if r.len() < 2 { Outcome::Fail } else { Outcome::Done(OpcodeValue::Plain(Opcode::PUTSTATIC(peek_u16(r))), r.skip(2)) },
            0xb4 => if r.len() < 2 { Outcome::Fail } else { Outcome::Done(OpcodeValue::Plain(Opcode::GETFIELD(peek_u16(r))), r.skip(2)) },
            0xb5 => if r.len() < 2 { Outcome::Fail } else { Outcome::Done(OpcodeValue::Plain(Opcode::PUTFIELD(peek_u16(r))), r.skip(2)) },
            0xb6 => if r.len() < 2 { Outcome::Fail } else { Outcome::Done(OpcodeValue::Plain(Opcode::INVOKEVIRTUAL(peek_u16(r))), r.skip(2)) },
            0xb7 => if r.len() < 2 { Outcome::Fail } else { Outcome::Done(OpcodeValue::Plain(Opcode::INVOKESPECIAL(peek_u16(r))), r.skip(2)) },
            0xb8 => if r.len() < 2 { Outcome::Fail } else { Outcome::Done(OpcodeValue::Plain(Opcode::INVOKESTATIC(peek_u16(r))), r.skip(2)) },
            0xb9 => if r.len() < 4 { Outcome::Fail } else { Outcome::Done(OpcodeValue::Plain(Opcode::INVOKEINTERFACE(peek_u16(r), r[2], r[3])), r.skip(4)) },
            0xba => Outcome::Done(OpcodeValue::Plain(Opcode::INVOKEDYNAMIC), r),
            0xbb => if r.len() < 2 { Outcome::Fail } else { Outcome::Done(OpcodeValue::Plain(Opcode::NEW(peek_u16(r))), r.skip(2)) },
            0xbc => if r.len() < 1 { Outcome::Fail } else { Outcome::Done(OpcodeValue::Plain(Opcode::NEWARRAY(r[0])), r.skip(1)) },
            0xbd => if r.len() < 2 { Outcome::Fail } else { Outcome::Done(OpcodeValue::Plain(Opcode::ANEWARRAY(peek_u16(r))), r.skip(2)) },
            0xbe => Outcome::Done(OpcodeValue::Plain(Opcode::ARRAYLENGTH), r),
            0xbf => Outcome::Done(OpcodeValue::Plain(Opcode::ATHROW), r),
            0xc0 => if r.len() < 2 { Outcome::Fail } else { Outcome::Done(OpcodeValue::Plain(Opcode::CHECKCAST(peek_u16(r))), r.skip(2)) },
            0xc1 => if r.len() < 2 { Outcome::Fail } else { Outcome::Done(OpcodeValue::Plain(Opcode::INSTANCEOF(peek_u16(r))), r.skip(2)) },
            0xc2 => Outcome::Done(OpcodeValue::Plain(Opcode::MONITORENTER), r),
            0xc3 => Outcome::Done(OpcodeValue::Plain(Opcode::MONITOREXIT), r),
            0xc4 => Outcome::Done(OpcodeValue::Plain(Opcode::WIDE), r),
            0xc5 => Outcome::Done(OpcodeValue::Plain(Opcode::MULTIANEWARRAY), r),
            0xc6 => if r.len() < 2 { Outcome::Fail } else { Outcome::Done(OpcodeValue::Plain(Opcode::IFNULL(u16_as_i16(peek_u16(r)))), r.skip(2)) },
            0xc7 => if r.len() < 2 { Outcome::Fail } else { Outcome::Done(OpcodeValue::Plain(Opcode::IFNONNULL(u16_as_i16(peek_u16(r)))), r.skip(2)) },
            0xc8 => Outcome::Done(OpcodeValue::Plain(Opcode::GOTO_W), r),
            0xc9 => Outcome::Done(OpcodeValue::Plain(Opcode::JSR_W), r),
            0xca => Outcome::Done(OpcodeValue::Plain(Opcode::BREAKPOINT), r),
            0xfe => Outcome::Done(OpcodeValue::Plain(Opcode::IMPDEP1), r),
            0xff => Outcome::Done(OpcodeValue::Plain(Opcode::IMPDEP2), r),
            _ => Outcome::Fail,
        }
    }
}

/// Reads the operands of a `tableswitch` at `pc`, after its opcode byte.
fn decode_table_switch(bytes: &mut Bytes, pc: i32) -> (r: Result<TableSwitch, ParseError>)
    ensures
        spec_table_switch(bytes_view(*old(bytes)), pc) matches Outcome::Done(v, rest) ==> (r matches Ok(
            t,
        ) && Opcode::TABLESWITCH(t)@ == v && bytes_view(*final(bytes)) == rest),
        !(spec_table_switch(bytes_view(*old(bytes)), pc) is Done) ==> r is Err,
        is_suffix(bytes_view(*final(bytes)), bytes_view(*old(bytes))),
{
    let ghost s0 = bytes_view(*bytes);
    let rem: i32 = if pc >= 0 {
        pc % 4
    } else {
        -(((-(pc as i64)) % 4) as i32)
    };
    let pad_len: i32 = 3 - rem;
    assert(pad_len == table_pad(pc));
    if bytes_len(bytes) < pad_len as usize {
        return Err(ParseError::UnexpectedEnd);
    }
    bytes_advance(bytes, pad_len as usize);
    let ghost t = bytes_view(*bytes);
    proof {
        lemma_suffix(s0, s0, s0, pad_len as int);
    }
    let default = read_u32(bytes)?;
    let low = read_u32(bytes)?;
    let high = read_u32(bytes)?;
    proof {
        assert(t.skip(4).skip(4) =~= t.skip(8));
        assert(t.skip(8).skip(4) =~= t.skip(12));
        lemma_suffix(t, t, t, 12);
        lemma_suffix(bytes_view(*bytes), t, s0, 0);
    }
    if high < low || high - low == u32::MAX {
        return Err(ParseError::UnexpectedEnd);
    }
    let mut idx: u32 = low;
    let len: u32 = high - low + 1;
    let ghost t12 = bytes_view(*bytes);
    let mut pairs: Vec<(u32, u32)> = Vec::new();
    let mut k: u32 = 0;
    while k < len
        invariant
            s0 == bytes_view(*old(bytes)),
            k == len ==> high != u32::MAX,
            s0.len() >= table_pad(pc),
            t == s0.skip(table_pad(pc)),
            t.len() >= 12,
            default == peek_u32(t),
            low == peek_u32(t.skip(4)),
            high == peek_u32(t.skip(8)),
            low <= high,
            high - low < u32::MAX,
            len == high - low + 1,
            t12 == t.skip(12),
            k <= len,
            idx == low + k,
            spec_table_pairs(t12, low as int, len as int) == prepend(
                pairs@,
                spec_table_pairs(bytes_view(*bytes), low + k, len - k),
            ),
            is_suffix(bytes_view(*bytes), s0),
        decreases len - k,
    {
        let ghost cur = bytes_view(*bytes);
        let ghost prev = pairs@;
        let offset = match read_u32(bytes) {
            Ok(v) => v,
            Err(e) => return Err(e),
        };
        proof {
            lemma_suffix(cur, cur, cur, 4);
            lemma_suffix(bytes_view(*bytes), cur, s0, 0);
            lemma_prepend_push(prev, (idx, offset), spec_table_pairs(bytes_view(*bytes), low + k + 1, len - k - 1));
        }
        pairs.push((idx, offset));
        k = k + 1;
        if k == len && high == u32::MAX {
            return Err(ParseError::UnexpectedEnd);
        }
        idx = idx + 1;
    }
    assert(pairs@ + Seq::<(u32, u32)>::empty() =~= pairs@);
    Ok(TableSwitch { default, low, high, pairs })
}

/// An instruction is only decoded from at least one byte.
pub proof fn lemma_decode_nonempty(s: Seq<u8>, pc: i32)
    ensures
        spec_decode(s, pc) is Done ==> s.len() >= 1,
{
    reveal(spec_decode);
}

impl Opcode {
    /// Reads one instruction at `pc` from the front of `bytes`. It succeeds exactly when
    /// the bytes start with an instruction (`spec_decode`), and then the bytes of that
    /// instruction are consumed.
    #[verifier::rlimit(100)]
    pub fn decode(bytes: &mut Bytes, pc: i32) -> (r: Result<Opcode, ParseError>)
        ensures
            spec_decode(bytes_view(*old(bytes)), pc) matches Outcome::Done(v, rest) ==> (r matches Ok(
                o,
            ) && o@ == v && bytes_view(*final(bytes)) == rest),
            !(spec_decode(bytes_view(*old(bytes)), pc) is Done) ==> r is Err,
            is_suffix(bytes_view(*final(bytes)), bytes_view(*old(bytes))),
    {
        reveal(spec_decode);
        let ghost s0 = bytes_view(*bytes);
        proof {
            lemma_suffix(s0, s0, s0, 0);
            lemma_suffix(s0, s0, s0, 1);
        }
        let instruction = read_u8(bytes)?;
        let ghost r = bytes_view(*bytes);
        proof {
            lemma_suffix(r, r, r, 1);
            lemma_suffix(r, r, r, 2);
            lemma_suffix(r, r, r, 4);
            lemma_suffix(r, r, r, 0);
            lemma_suffix(r.skip(1), r, s0, 0);
            lemma_suffix(r.skip(2), r, s0, 0);
            lemma_suffix(r.skip(4), r, s0, 0);
            lemma_suffix(r, r, s0, 0);
        }
        let op = match instruction {
            0x00 => Opcode::NOP,
            0x01 => Opcode::ACONST_NULL,
            0x02 => Opcode::ICONST_M1,
            0x03 => Opcode::ICONST_0,
            0x04 => Opcode::ICONST_1,
            0x05 => Opcode::ICONST_2,
            0x06 => Opcode::ICONST_3,
            0x07 => Opcode::ICONST_4,
            0x08 => Opcode::ICONST_5,
            0x09 => Opcode::LCONST_0,
            0x0a => Opcode::LCONST_1,
            0x0b => Opcode::FCONST_0,
            0x0c => Opcode::FCONST_1,
            0x0d => Opcode::FCONST_2,
            0x0e => Opcode::DCONST_0,
            0x0f => Opcode::DCONST_1,
            0x10 => Opcode::BIPUSH(read_i8(bytes)?),
            0x11 => Opcode::SIPUSH(read_i16(bytes)?),
            0x12 => Opcode::LDC(read_u8(bytes)?),
            0x13 => Opcode::LDC_W(read_u16(bytes)?),
            0x14 => Opcode::LDC2_W(read_u16(bytes)?),
            0x15 => Opcode::ILOAD(read_u8(bytes)?),
            0x16 => Opcode::LLOAD(read_u8(bytes)?),
            0x17 => Opcode::FLOAD(read_u8(bytes)?),
            0x18 => Opcode::DLOAD,
            0x19 => Opcode::ALOAD(read_u8(bytes)?),
            0x1a => Opcode::ILOAD_0,
            0x1b => Opcode::ILOAD_1,
            0x1c => Opcode::ILOAD_2,
            0x1d => Opcode::ILOAD_3,
            0x1e => Opcode::LLOAD_0,
            0x1f => Opcode::LLOAD_1,
            0x20 => Opcode::LLOAD_2,
            0x21 => Opcode::LLOAD_3,
            0x22 => Opcode::FLOAD_0,
            0x23 => Opcode::FLOAD_1,
            0x24 => Opcode::FLOAD_2,
            0x25 => Opcode::FLOAD_3,
            0x26 => Opcode::DLOAD_0,
            0x27 => Opcode::DLOAD_1,
            0x28 => Opcode::DLOAD_2,
            0x29 => Opcode::DLOAD_3,
            0x2a => Opcode::ALOAD_0,
            0x2b => Opcode::ALOAD_1,
            0x2c => Opcode::ALOAD_2,
            0x2d => Opcode::ALOAD_3,
            0x2e => Opcode::IALOAD,
            0x2f => Opcode::LALOAD,
            0x30 => Opcode::FALOAD,
            0x31 => Opcode::DALOAD,
            0x32 => Opcode::AALOAD,
            0x33 => Opcode::BALOAD,
            0x34 => Opcode::CALOAD,
            0x35 => Opcode::SALOAD,
            0x36 => Opcode::ISTORE(read_u8(bytes)?),
            0x37 => Opcode::LSTORE(read_u8(bytes)?),
            0x38 => Opcode::FSTORE(read_u8(bytes)?),
            0x39 => Opcode::DSTORE,
            0x3a => Opcode::ASTORE(read_u8(bytes)?),
            0x3b => Opcode::ISTORE_0,
            0x3c => Opcode::ISTORE_1,
            0x3d => Opcode::ISTORE_2,
            0x3e => Opcode::ISTORE_3,
            0x3f => Opcode::LSTORE_0,
            0x40 => Opcode::LSTORE_1,
            0x41 => Opcode::LSTORE_2,
            0x42 => Opcode::LSTORE_3,
            0x43 => Opcode::FSTORE_0,
            0x44 => Opcode::FSTORE_1,
            0x45 => Opcode::FSTORE_2,
            0x46 => Opcode::FSTORE_3,
            0x47 => Opcode::DSTORE_0,
            0x48 => Opcode::DSTORE_1,
            0x49 => Opcode::DSTORE_2,
            0x4a => Opcode::DSTORE_3,
            0x4b => Opcode::ASTORE_0,
            0x4c => Opcode::ASTORE_1,
            0x4d => Opcode::ASTORE_2,
            0x4e => Opcode::ASTORE_3,
            0x4f => Opcode::IASTORE,
            0x50 => Opcode::LASTORE,
            0x51 => Opcode::FASTORE,
            0x52 => Opcode::DASTORE,
            0x53 => Opcode::AASTORE,
            0x54 => Opcode::BASTORE,
            0x55 => Opcode::CASTORE,
            0x56 => Opcode::SASTORE,
            0x57 => Opcode::POP,
            0x58 => Opcode::POP2,
            0x59 => Opcode::DUP,
            0x5a => Opcode::DUP_X1,
            0x5b => Opcode::DUP_X2,
            0x5c => Opcode::DUP2,
            0x5d => Opcode::DUP2_X1,
            0x5e => Opcode::DUP2_X2,
            0x5f => Opcode::SWAP,
            0x60 => Opcode::IADD,
            0x61 => Opcode::LADD,
            0x62 => Opcode::FADD,
            0x63 => Opcode::DADD,
            0x64 => Opcode::ISUB,
            0x65 => Opcode::LSUB,
            0x66 => Opcode::FSUB,
            0x67 => Opcode::DSUB,
            0x68 => Opcode::IMUL,
            0x69 => Opcode::LMUL,
            0x6a => Opcode::FMUL,
            0x6b => Opcode::DMUL,
            0x6c => Opcode::IDIV,
            0x6d => Opcode::LDIV,
            0x6e => Opcode::FDIV,
            0x6f => Opcode::DDIV,
            0x70 => Opcode::IREM,
            0x71 => Opcode::LREM,
            0x72 => Opcode::FREM,
            0x73 => Opcode::DREM,
            0x74 => Opcode::INEG,
            0x75 => Opcode::LNEG,
            0x76 => Opcode::FNEG,
            0x77 => Opcode::DNEG,
            0x78 => Opcode::ISHL,
            0x79 => Opcode::LSHL,
            0x7a => Opcode::ISHR,
            0x7b => Opcode::LSHR,
            0x7c => Opcode::IUSHR,
            0x7d => Opcode::LUSHR,
            0x7e => Opcode::IAND,
            0x7f => Opcode::LAND,
            0x80 => Opcode::IOR,
            0x81 => Opcode::LOR,
            0x82 => Opcode::IXOR,
            0x83 => Opcode::LXOR,
            0x84 => {
                let (a, c) = read_u8_i8(bytes)?;
                Opcode::IINC(a, c)
            },
            0x85 => Opcode::I2L,
            0x86 => Opcode::I2F,
            0x87 => Opcode::I2D,
            0x88 => Opcode::L2I,
            0x89 => Opcode::L2F,
            0x8a => Opcode::L2D,
            0x8b => Opcode::F2I,
            0x8c => Opcode::F2L,
            0x8d => Opcode::F2D,
            0x8e => Opcode::D2I,
            0x8f => Opcode::D2L,
            0x90 => Opcode::D2F,
            0x91 => Opcode::I2B,
            0x92 => Opcode::I2C,
            0x93 => Opcode::I2S,
            0x94 => Opcode::LCMP,
            0x95 => Opcode::FCMPL,
            0x96 => Opcode::FCMPG,
            0x97 => Opcode::DCMPL,
            0x98 => Opcode::DCMPG,
            0x99 => Opcode::IFEQ(read_i16(bytes)?),
            0x9a => Opcode::IFNE(read_i16(bytes)?),
            0x9b => Opcode::IFLT(read_i16(bytes)?),
            0x9c => Opcode::IFGE(read_i16(bytes)?),
            0x9d => Opcode::IFGT(read_i16(bytes)?),
            0x9e => Opcode::IFLE(read_i16(bytes)?),
            0x9f => Opcode::IF_ICMPEQ(read_i16(bytes)?),
            0xa0 => Opcode::IF_ICMPNE(read_i16(bytes)?),
            0xa1 => Opcode::IF_ICMPLT(read_i16(bytes)?),
            0xa2 => Opcode::IF_ICMPGE(read_i16(bytes)?),
            0xa3 => Opcode::IF_ICMPGT(read_i16(bytes)?),
            0xa4 => Opcode::IF_ICMPLE(read_i16(bytes)?),
            0xa5 => Opcode::IF_ACMPEQ(read_i16(bytes)?),
            0xa6 => Opcode::IF_ACMPNE(read_i16(bytes)?),
            0xa7 => Opcode::GOTO(read_i16(bytes)?),
            0xa8 => Opcode::JSR,
            0xa9 => Opcode::RET,
            0xaa => Opcode::TABLESWITCH(decode_table_switch(bytes, pc)?),
            0xab => Opcode::LOOKUPSWITCH,
            0xac => Opcode::IRETURN,
            0xad => Opcode::LRETURN,
            0xae => Opcode::FRETURN,
            0xaf => Opcode::DRETURN,
            0xb0 => Opcode::ARETURN,
            0xb1 => Opcode::RETURN,
            0xb2 => Opcode::GETSTATIC(read_u16(bytes)?),
            0xb3 => Opcode::PUTSTATIC(read_u16(bytes)?),
            0xb4 => Opcode::GETFIELD(read_u16(bytes)?),
            0xb5 => Opcode::PUTFIELD(read_u16(bytes)?),
            0xb6 => Opcode::INVOKEVIRTUAL(read_u16(bytes)?),
            0xb7 => Opcode::INVOKESPECIAL(read_u16(bytes)?),
            0xb8 => Opcode::INVOKESTATIC(read_u16(bytes)?),
            0xb9 => {
                let (a, c, d) = read_u16_u8_u8(bytes)?;
                Opcode::INVOKEINTERFACE(a, c, d)
            },
            0xba => Opcode::INVOKEDYNAMIC,
            0xbb => Opcode::NEW(read_u16(bytes)?),
            0xbc => Opcode::NEWARRAY(read_u8(bytes)?),
            0xbd => Opcode::ANEWARRAY(read_u16(bytes)?),
            0xbe => Opcode::ARRAYLENGTH,
            0xbf => Opcode::ATHROW,
            0xc0 => Opcode::CHECKCAST(read_u16(bytes)?),
            0xc1 => Opcode::INSTANCEOF(read_u16(bytes)?),
            0xc2 => Opcode::MONITORENTER,
            0xc3 => Opcode::MONITOREXIT,
            0xc4 => Opcode::WIDE,
            0xc5 => Opcode::MULTIANEWARRAY,
            0xc6 => Opcode::IFNULL(read_i16(bytes)?),
            0xc7 => Opcode::IFNONNULL(read_i16(bytes)?),
            0xc8 => Opcode::GOTO_W,
            0xc9 => Opcode::JSR_W,
            0xca => Opcode::BREAKPOINT,
            0xfe => Opcode::IMPDEP1,
            0xff => Opcode::IMPDEP2,
            e => return Err(ParseError::UnknownOpcode(e)),
        };
        Ok(op)
    }
}

} // verus!
