//! Decoder and format-view behaviour on concrete words.

use rv32sim::formats::{
    encode_btype, encode_itype, encode_jtype, encode_rtype, encode_stype, encode_utype,
};
use rv32sim::parser::Format;
use rv32sim::instruction::{Error, Instruction};
use rv32sim::parser::{decode_op, Op};

#[test]
fn decode_rtype_table() {
    assert_eq!(decode_op(0b0110011, 0x0, 0x00), Some(Op::add));
    assert_eq!(decode_op(0b0110011, 0x0, 0x20), Some(Op::sub));
    assert_eq!(decode_op(0b0110011, 0x4, 0x00), Some(Op::xor));
    assert_eq!(decode_op(0b0110011, 0x6, 0x00), Some(Op::or));
    assert_eq!(decode_op(0b0110011, 0x7, 0x00), Some(Op::and));
    assert_eq!(decode_op(0b0110011, 0x1, 0x00), Some(Op::sll));
    assert_eq!(decode_op(0b0110011, 0x5, 0x00), Some(Op::srl));
    assert_eq!(decode_op(0b0110011, 0x5, 0x20), Some(Op::sra));
    assert_eq!(decode_op(0b0110011, 0x2, 0x00), Some(Op::slt));
    assert_eq!(decode_op(0b0110011, 0x3, 0x00), Some(Op::sltu));
}

#[test]
fn decode_itype_table() {
    assert_eq!(decode_op(0b0010011, 0x0, 0x55), Some(Op::addi));
    assert_eq!(decode_op(0b0010011, 0x4, 0x00), Some(Op::xori));
    assert_eq!(decode_op(0b0010011, 0x6, 0x7f), Some(Op::ori));
    assert_eq!(decode_op(0b0010011, 0x7, 0x00), Some(Op::andi));
    assert_eq!(decode_op(0b0010011, 0x1, 0x00), Some(Op::slli));
    assert_eq!(decode_op(0b0010011, 0x5, 0x00), Some(Op::srli));
    assert_eq!(decode_op(0b0010011, 0x5, 0x20), Some(Op::srai));
    assert_eq!(decode_op(0b0010011, 0x2, 0x13), Some(Op::slti));
    assert_eq!(decode_op(0b0010011, 0x3, 0x00), Some(Op::sltiu));
    assert_eq!(decode_op(0b0000011, 0x0, 0x00), Some(Op::lb));
    assert_eq!(decode_op(0b0000011, 0x1, 0x00), Some(Op::lh));
    assert_eq!(decode_op(0b0000011, 0x2, 0x00), Some(Op::lw));
    assert_eq!(decode_op(0b0000011, 0x4, 0x00), Some(Op::lbu));
    assert_eq!(decode_op(0b0000011, 0x5, 0x00), Some(Op::lhu));
    assert_eq!(decode_op(0b1100111, 0x0, 0x00), Some(Op::jalr));
    assert_eq!(decode_op(0b1110011, 0x0, 0x0), Some(Op::ecall));
    assert_eq!(decode_op(0b1110011, 0x0, 0x1), Some(Op::ebreak));
}

#[test]
fn decode_other_formats_table() {
    assert_eq!(decode_op(0b0100011, 0x0, 0x00), Some(Op::sb));
    assert_eq!(decode_op(0b0100011, 0x1, 0x00), Some(Op::sh));
    assert_eq!(decode_op(0b0100011, 0x2, 0x00), Some(Op::sw));
    assert_eq!(decode_op(0b1100011, 0x0, 0x00), Some(Op::beq));
    assert_eq!(decode_op(0b1100011, 0x1, 0x00), Some(Op::bne));
    assert_eq!(decode_op(0b1100011, 0x4, 0x00), Some(Op::blt));
    assert_eq!(decode_op(0b1100011, 0x5, 0x00), Some(Op::bge));
    assert_eq!(decode_op(0b1100011, 0x6, 0x00), Some(Op::bltu));
    assert_eq!(decode_op(0b1100011, 0x7, 0x00), Some(Op::bgeu));
    assert_eq!(decode_op(0b0110111, 0x3, 0x11), Some(Op::lui));
    assert_eq!(decode_op(0b0010111, 0x0, 0x00), Some(Op::auipc));
    assert_eq!(decode_op(0b1101111, 0x7, 0x7f), Some(Op::jal));
}

#[test]
fn decode_unknown_triples() {
    assert_eq!(decode_op(0b0000000, 0x0, 0x00), None);
    assert_eq!(decode_op(0b1111111, 0x0, 0x00), None);
    // Shift-immediate rows pin funct7; other funct7 values fall out of
    // the table.
    assert_eq!(decode_op(0b0010011, 0x1, 0x20), None);
    assert_eq!(decode_op(0b0010011, 0x5, 0x01), None);
    // R-type rows pin funct7 too.
    assert_eq!(decode_op(0b0110011, 0x0, 0x01), None);
    // Loads only define funct3 0, 1, 2, 4, 5.
    assert_eq!(decode_op(0b0000011, 0x3, 0x00), None);
    // Branches only define funct3 0, 1, 4, 5, 6, 7.
    assert_eq!(decode_op(0b1100011, 0x2, 0x00), None);
    // jalr pins funct3 0.
    assert_eq!(decode_op(0b1100111, 0x1, 0x00), None);
}

#[test]
fn op_formats() {
    assert_eq!(Op::add.format(), Format::R);
    assert_eq!(Op::addi.format(), Format::I);
    assert_eq!(Op::lw.format(), Format::I);
    assert_eq!(Op::sw.format(), Format::S);
    assert_eq!(Op::beq.format(), Format::B);
    assert_eq!(Op::lui.format(), Format::U);
    assert_eq!(Op::auipc.format(), Format::U);
    assert_eq!(Op::jal.format(), Format::J);
    assert_eq!(Op::jalr.format(), Format::I);
    assert_eq!(Op::ecall.format(), Format::I);
}

#[test]
fn from_bytes_decodes_addi() {
    // addi x1, x0, 5 assembles to 0x00500093.
    let w = encode_itype(0b0010011, 1, 0x0, 0, 5);
    assert_eq!(w, 0x00500093);
    let inst = Instruction::from_bytes(w.to_le_bytes()).unwrap();
    assert_eq!(inst.op(), Op::addi);
    let f = inst.format();
    assert_eq!(f.opcode(), 0b0010011);
    assert_eq!(f.rd(), Some(1));
    assert_eq!(f.rs1(), Some(0));
    assert_eq!(f.rs2(), None);
    assert_eq!(f.immediate_value(), Some(5));
}

#[test]
fn from_bytes_rejects_unknown_word() {
    let r = Instruction::from_bytes([0, 0, 0, 0]);
    assert_eq!(r, Err(Error::UnknownInstruction(0)));
}

#[test]
fn itype_immediate_round_trips() {
    for imm in [-2048, -1, 0, 1, 5, 2047] {
        let w = encode_itype(0b0010011, 1, 0x0, 2, imm);
        let inst = Instruction::from_bytes(w.to_le_bytes()).unwrap();
        assert_eq!(inst.format().immediate_value(), Some(imm));
    }
}

#[test]
fn stype_immediate_round_trips() {
    for imm in [-2048, -7, 0, 3, 2047] {
        let w = encode_stype(0b0100011, 0x2, 1, 2, imm);
        let inst = Instruction::from_bytes(w.to_le_bytes()).unwrap();
        assert_eq!(inst.op(), Op::sw);
        assert_eq!(inst.format().immediate_value(), Some(imm));
    }
}

#[test]
fn btype_immediate_round_trips() {
    for imm in [-4096, -2, 0, 8, 4094] {
        let w = encode_btype(0b1100011, 0x0, 1, 2, imm);
        let inst = Instruction::from_bytes(w.to_le_bytes()).unwrap();
        assert_eq!(inst.op(), Op::beq);
        assert_eq!(inst.format().immediate_value(), Some(imm));
    }
}

#[test]
fn utype_immediate_places_high_bits() {
    let w = encode_utype(0b0110111, 1, 0x10);
    let inst = Instruction::from_bytes(w.to_le_bytes()).unwrap();
    assert_eq!(inst.op(), Op::lui);
    assert_eq!(inst.format().immediate_value(), Some(0x10000));
    // The top field bit is the sign bit of the placed immediate.
    let w = encode_utype(0b0110111, 1, 0xFFFFF);
    let inst = Instruction::from_bytes(w.to_le_bytes()).unwrap();
    assert_eq!(inst.format().immediate_value(), Some(-4096));
}

#[test]
fn jtype_immediate_round_trips() {
    for imm in [-1048576, -16, 0, 2, 16, 1048574] {
        let w = encode_jtype(0b1101111, 1, imm);
        let inst = Instruction::from_bytes(w.to_le_bytes()).unwrap();
        assert_eq!(inst.op(), Op::jal);
        assert_eq!(inst.format().immediate_value(), Some(imm));
    }
}

#[test]
fn rtype_fields_round_trip() {
    let w = encode_rtype(0b0110011, 3, 0x0, 4, 5, 0x20);
    let inst = Instruction::from_bytes(w.to_le_bytes()).unwrap();
    assert_eq!(inst.op(), Op::sub);
    let f = inst.format();
    assert_eq!(f.rd(), Some(3));
    assert_eq!(f.rs1(), Some(4));
    assert_eq!(f.rs2(), Some(5));
    assert_eq!(f.immediate_value(), None);
}

#[test]
fn parse_program_decodes_in_order() {
    let mut bytes: Vec<u8> = Vec::new();
    bytes.extend_from_slice(&encode_itype(0b0010011, 1, 0x0, 0, 5).to_le_bytes());
    bytes.extend_from_slice(&encode_itype(0b0010011, 2, 0x0, 1, 7).to_le_bytes());
    let program = Instruction::parse_program(&bytes[..]).unwrap();
    assert_eq!(program.len(), 2);
    assert_eq!(program[0].op(), Op::addi);
    assert_eq!(program[1].format().rd(), Some(2));
}

#[test]
fn parse_program_ignores_short_tail() {
    let mut bytes: Vec<u8> = Vec::new();
    bytes.extend_from_slice(&encode_itype(0b0010011, 1, 0x0, 0, 5).to_le_bytes());
    bytes.extend_from_slice(&[0x13, 0x00]);
    let program = Instruction::parse_program(&bytes[..]).unwrap();
    assert_eq!(program.len(), 1);
}

#[test]
fn parse_program_reports_first_unknown_chunk() {
    let mut bytes: Vec<u8> = Vec::new();
    bytes.extend_from_slice(&encode_itype(0b0010011, 1, 0x0, 0, 5).to_le_bytes());
    bytes.extend_from_slice(&[0x7f, 0, 0, 0]);
    let r = Instruction::parse_program(&bytes[..]);
    assert_eq!(r, Err(Error::UnknownInstruction(0x7f)));
}
