use bytes::Bytes;
use kate::arith::ArithOp;
use kate::error::ExecError;
use kate::instruction::{decode_instruction, read_instruction, Instruction};
use kate::opcode::Opcode;
use kate::parser::Parser;
use kate::reader::{bytes_advance, bytes_first, bytes_from_slice, bytes_len, read_u16, try_get_i16, try_get_u16, try_get_u32};
use kate::result::ParseError;

#[test]
fn decodes_push_and_increment() {
    let mut b = Bytes::from_static(&[0x10, 0xff, 0x84, 0x03, 0xfe]);
    assert!(matches!(Opcode::decode(&mut b, 0), Ok(Opcode::BIPUSH(-1))));
    assert!(matches!(Opcode::decode(&mut b, 2), Ok(Opcode::IINC(3, -2))));
    assert_eq!(b.len(), 0);
}

#[test]
fn decodes_table_switch_after_padding() {
    let mut data = vec![0xaa, 0, 0, 0];
    for v in [16u32, 1, 2, 32, 48] {
        data.extend_from_slice(&v.to_be_bytes());
    }
    let mut b = Bytes::from(data);
    match Opcode::decode(&mut b, 0) {
        Ok(Opcode::TABLESWITCH(t)) => {
            assert_eq!(t.default, 16);
            assert_eq!(t.low, 1);
            assert_eq!(t.high, 2);
            assert_eq!(t.pairs, vec![(1, 32), (2, 48)]);
        }
        other => panic!("{:?}", other),
    }
    assert_eq!(b.len(), 0);
}

#[test]
fn truncated_operand_is_an_error() {
    let mut b = Bytes::from_static(&[0x11, 0x01]);
    assert!(matches!(Opcode::decode(&mut b, 0), Err(ParseError::UnexpectedEnd)));
}

#[test]
fn unknown_opcode_is_an_error() {
    let mut b = Bytes::from_static(&[0xcb]);
    assert!(matches!(Opcode::decode(&mut b, 0), Err(ParseError::UnknownOpcode(0xcb))));
}

#[test]
fn decodes_instruction_to_handler() {
    let mut b = Bytes::from_static(&[0x60, 0x00]);
    match decode_instruction(&mut b, 0) {
        Ok(ins) => match *ins {
            Instruction::IntArith(a) => assert_eq!(a.op, ArithOp::Iadd),
            other => panic!("{:?}", other),
        },
        Err(e) => panic!("{:?}", e),
    }
    assert_eq!(b.len(), 1);
}

#[test]
fn reader_wrappers_consume_bytes() {
    let mut b = bytes_from_slice(&[0x01, 0x02, 0xff, 0xfe, 0, 0, 0, 7]);
    assert_eq!(bytes_len(&b), 8);
    assert_eq!(bytes_first(&b), Some(1));
    assert_eq!(bytes_len(&b), 8);
    assert_eq!(try_get_u16(&mut b), Some(0x0102));
    assert_eq!(try_get_i16(&mut b), Some(-2));
    assert_eq!(bytes_len(&b), 4);
    assert_eq!(try_get_u32(&mut b), Some(7));
    assert_eq!(try_get_u16(&mut b), None);
    assert_eq!(bytes_first(&b), None);
}

#[test]
fn read_past_end_is_an_error() {
    let mut b = bytes_from_slice(&[0x01]);
    assert_eq!(read_u16(&mut b), Err(ParseError::UnexpectedEnd));
    let mut c = bytes_from_slice(&[1, 2, 3, 4]);
    bytes_advance(&mut c, 3);
    assert_eq!(bytes_first(&c), Some(4));
}

#[test]
fn parser_refuses_wrong_magic() {
    let mut p = Parser::new(&[0x00, 0x01, 0x02, 0x03, 0, 0, 0, 52]);
    assert!(matches!(p.parse(), Err(ParseError::InvalidMagic(0x0001_0203))));
}

#[test]
fn parser_refuses_truncated_file() {
    let mut p = Parser::new(&[0xca, 0xfe, 0xba, 0xbe, 0, 0]);
    assert!(matches!(p.parse(), Err(ParseError::UnexpectedEnd)));
}

#[test]
fn parser_refuses_empty_pool_count() {
    let mut p = Parser::new(&[0xca, 0xfe, 0xba, 0xbe, 0, 0, 0, 52, 0, 0]);
    assert!(p.parse().is_err());
}

#[test]
fn parser_refuses_unknown_constant_tag() {
    let mut p = Parser::new(&[0xca, 0xfe, 0xba, 0xbe, 0, 0, 0, 52, 0, 2, 2, 0, 0]);
    assert!(p.parse().is_err());
}

#[test]
fn decode_instruction_reads_one_byte_indices() {
    let mut b = Bytes::from_static(&[0x13, 0x07, 0x99]);
    match decode_instruction(&mut b, 0) {
        Ok(ins) => assert!(matches!(*ins, Instruction::Ldc(l) if l.index == 7)),
        Err(e) => panic!("{:?}", e),
    }
    assert_eq!(b.len(), 1);
    let mut b = Bytes::from_static(&[0x18, 0x02]);
    match decode_instruction(&mut b, 0) {
        Ok(ins) => assert!(matches!(*ins, Instruction::LoadLocal(l) if l.index == 2)),
        Err(e) => panic!("{:?}", e),
    }
    let mut b = Bytes::from_static(&[0x39, 0x04]);
    match decode_instruction(&mut b, 0) {
        Ok(ins) => assert!(matches!(*ins, Instruction::StoreLocal(s) if s.index == 4 && s.store_next)),
        Err(e) => panic!("{:?}", e),
    }
    let mut b = Bytes::from_static(&[0x13]);
    assert!(matches!(decode_instruction(&mut b, 0), Err(ExecError::Truncated)));
}

#[test]
fn decode_instruction_refuses_what_it_has_no_instruction_for() {
    for op in [0x5au8, 0x84, 0x94, 0xa5, 0xaa, 0xb9, 0xc0, 0xc8, 0xcb] {
        let data = [op, 0, 0, 0, 0, 0, 0, 0, 0, 0, 0, 0, 0, 0, 0, 0];
        let mut b = Bytes::copy_from_slice(&data);
        assert!(matches!(decode_instruction(&mut b, 0), Err(ExecError::Unsupported(x)) if x == op));
    }
    let mut b = Bytes::from_static(&[0x5a]);
    assert!(matches!(read_instruction(&mut b, 0), Ok(_)));
    let mut b = Bytes::new();
    assert!(matches!(decode_instruction(&mut b, 0), Err(ExecError::Truncated)));
}
