//! The RV32I operation set and the decoder from `(opcode, funct3, funct7)`
//! triples to operations.

use vstd::prelude::*;

verus! {

/// The six RISC-V instruction encodings, distinguished by which operand
/// fields and immediate layout are present.
#[derive(Debug, Clone, Copy, PartialEq, Eq, Structural)]
pub enum Format {
    R,
    I,
    S,
    B,
    U,
    J,
}

/// The closed enumeration of RV32I mnemonics this simulator understands.
#[allow(non_camel_case_types)]
#[derive(Debug, Clone, Copy, PartialEq, Eq, Structural)]
pub enum Op {
    add,
    sub,
    xor,
    or,
    and,
    sll,
    srl,
    sra,
    slt,
    sltu,
    addi,
    xori,
    ori,
    andi,
    slli,
    srli,
    srai,
    slti,
    sltiu,
    lb,
    lh,
    lw,
    lbu,
    lhu,
    sb,
    sh,
    sw,
    beq,
    bne,
    blt,
    bge,
    bltu,
    bgeu,
    lui,
    auipc,
    jal,
    jalr,
    ecall,
    ebreak,
}

/// The decode table as a mathematical function. An entry that pins all
/// three fields (the R-type rows, the immediate shifts, `ecall`/`ebreak`)
/// shadows entries that pin fewer; triples outside the table map to `None`.
pub open spec fn spec_decode_op(opcode: u8, funct3: u8, funct7: u8) -> Option<Op> {
    if opcode == 0b0110011 {
        if funct3 == 0x0 && funct7 == 0x00 {
            Some(Op::add)
        } else if funct3 == 0x0 && funct7 == 0x20 {
            Some(Op::sub)
        } else if funct3 == 0x4 && funct7 == 0x00 {
            Some(Op::xor)
        } else if funct3 == 0x6 && funct7 == 0x00 {
            Some(Op::or)
        } else if funct3 == 0x7 && funct7 == 0x00 {
            Some(Op::and)
        } else if funct3 == 0x1 && funct7 == 0x00 {
            Some(Op::sll)
        } else if funct3 == 0x5 && funct7 == 0x00 {
            Some(Op::srl)
        } else if funct3 == 0x5 && funct7 == 0x20 {
            Some(Op::sra)
        } else if funct3 == 0x2 && funct7 == 0x00 {
            Some(Op::slt)
        } else if funct3 == 0x3 && funct7 == 0x00 {
            Some(Op::sltu)
        } else {
            None
        }
    } else if opcode == 0b0010011 {
        if funct3 == 0x0 {
            Some(Op::addi)
        } else if funct3 == 0x4 {
            Some(Op::xori)
        } else if funct3 == 0x6 {
            Some(Op::ori)
        } else if funct3 == 0x7 {
            Some(Op::andi)
        } else if funct3 == 0x1 && funct7 == 0x00 {
            Some(Op::slli)
        } else if funct3 == 0x5 && funct7 == 0x00 {
            Some(Op::srli)
        } else if funct3 == 0x5 && funct7 == 0x20 {
            Some(Op::srai)
        } else if funct3 == 0x2 {
            Some(Op::slti)
        } else if funct3 == 0x3 {
            Some(Op::sltiu)
        } else {
            None
        }
    } else if opcode == 0b0000011 {
        if funct3 == 0x0 {
            Some(Op::lb)
        } else if funct3 == 0x1 {
            Some(Op::lh)
        } else if funct3 == 0x2 {
            Some(Op::lw)
        } else if funct3 == 0x4 {
            Some(Op::lbu)
        } else if funct3 == 0x5 {
            Some(Op::lhu)
        } else {
            None
        }
    } else if opcode == 0b0100011 {
        if funct3 == 0x0 {
            Some(Op::sb)
        } else if funct3 == 0x1 {
            Some(Op::sh)
        } else if funct3 == 0x2 {
            Some(Op::sw)
        } else {
            None
        }
    } else if opcode == 0b1100011 {
        if funct3 == 0x0 {
            Some(Op::beq)
        } else if funct3 == 0x1 {
            Some(Op::bne)
        } else if funct3 == 0x4 {
            Some(Op::blt)
        } else if funct3 == 0x5 {
            Some(Op::bge)
        } else if funct3 == 0x6 {
            Some(Op::bltu)
        } else if funct3 == 0x7 {
            Some(Op::bgeu)
        } else {
            None
        }
    } else if opcode == 0b0110111 {
        Some(Op::lui)
    } else if opcode == 0b0010111 {
        Some(Op::auipc)
    } else if opcode == 0b1101111 {
        Some(Op::jal)
    } else if opcode == 0b1100111 {
        if funct3 == 0x0 {
            Some(Op::jalr)
        } else {
            None
        }
    } else if opcode == 0b1110011 {
        if funct3 == 0x0 && funct7 == 0x0 {
            Some(Op::ecall)
        } else if funct3 == 0x0 && funct7 == 0x1 {
            Some(Op::ebreak)
        } else {
            None
        }
    } else {
        None
    }
}

/// The encoding family each operation belongs to.
pub open spec fn spec_format(op: Op) -> Format {
    match op {
        Op::add | Op::sub | Op::xor | Op::or | Op::and | Op::sll | Op::srl | Op::sra | Op::slt
            | Op::sltu => Format::R,
        Op::addi | Op::xori | Op::ori | Op::andi | Op::slli | Op::srli | Op::srai | Op::slti
            | Op::sltiu => Format::I,
        Op::lb | Op::lh | Op::lw | Op::lbu | Op::lhu => Format::I,
        Op::sb | Op::sh | Op::sw => Format::S,
        Op::beq | Op::bne | Op::blt | Op::bge | Op::bltu | Op::bgeu => Format::B,
        Op::lui | Op::auipc => Format::U,
        Op::jal => Format::J,
        Op::jalr | Op::ecall | Op::ebreak => Format::I,
    }
}

impl Op {
    /// The encoding family of this operation.
    pub fn format(self) -> (f: Format)
        ensures
            f == spec_format(self),
    {
        match self {
            Op::add | Op::sub | Op::xor | Op::or | Op::and | Op::sll | Op::srl | Op::sra
                | Op::slt | Op::sltu => Format::R,
            Op::addi | Op::xori | Op::ori | Op::andi | Op::slli | Op::srli | Op::srai | Op::slti
                | Op::sltiu => Format::I,
            Op::lb | Op::lh | Op::lw | Op::lbu | Op::lhu => Format::I,
            Op::sb | Op::sh | Op::sw => Format::S,
            Op::beq | Op::bne | Op::blt | Op::bge | Op::bltu | Op::bgeu => Format::B,
            Op::lui | Op::auipc => Format::U,
            Op::jal => Format::J,
            Op::jalr | Op::ecall | Op::ebreak => Format::I,
        }
    }
}

/// Decode an `(opcode, funct3, funct7)` triple. Returns `Some` exactly for
/// the triples of the RV32I table; everything else is an unknown
/// instruction and yields `None`.
pub fn decode_op(opcode: u8, funct3: u8, funct7: u8) -> (r: Option<Op>)
    ensures
        r == spec_decode_op(opcode, funct3, funct7),
{
    match (opcode, funct3, funct7) {
        (0b0110011, 0x0, 0x00) => Some(Op::add),
        (0b0110011, 0x0, 0x20) => Some(Op::sub),
        (0b0110011, 0x4, 0x00) => Some(Op::xor),
        (0b0110011, 0x6, 0x00) => Some(Op::or),
        (0b0110011, 0x7, 0x00) => Some(Op::and),
        (0b0110011, 0x1, 0x00) => Some(Op::sll),
        (0b0110011, 0x5, 0x00) => Some(Op::srl),
        (0b0110011, 0x5, 0x20) => Some(Op::sra),
        (0b0110011, 0x2, 0x00) => Some(Op::slt),
        (0b0110011, 0x3, 0x00) => Some(Op::sltu),
        (0b0010011, 0x0, _) => Some(Op::addi),
        (0b0010011, 0x4, _) => Some(Op::xori),
        (0b0010011, 0x6, _) => Some(Op::ori),
        (0b0010011, 0x7, _) => Some(Op::andi),
        (0b0010011, 0x1, 0x00) => Some(Op::slli),
        (0b0010011, 0x5, 0x00) => Some(Op::srli),
        (0b0010011, 0x5, 0x20) => Some(Op::srai),
        (0b0010011, 0x2, _) => Some(Op::slti),
        (0b0010011, 0x3, _) => Some(Op::sltiu),
        (0b0000011, 0x0, _) => Some(Op::lb),
        (0b0000011, 0x1, _) => Some(Op::lh),
        (0b0000011, 0x2, _) => Some(Op::lw),
        (0b0000011, 0x4, _) => Some(Op::lbu),
        (0b0000011, 0x5, _) => Some(Op::lhu),
        (0b0100011, 0x0, _) => Some(Op::sb),
        (0b0100011, 0x1, _) => Some(Op::sh),
        (0b0100011, 0x2, _) => Some(Op::sw),
        (0b1100011, 0x0, _) => Some(Op::beq),
        (0b1100011, 0x1, _) => Some(Op::bne),
        (0b1100011, 0x4, _) => Some(Op::blt),
        (0b1100011, 0x5, _) => Some(Op::bge),
        (0b1100011, 0x6, _) => Some(Op::bltu),
        (0b1100011, 0x7, _) => Some(Op::bgeu),
        (0b0110111, _, _) => Some(Op::lui),
        (0b0010111, _, _) => Some(Op::auipc),
        (0b1101111, _, _) => Some(Op::jal),
        (0b1100111, 0x0, _) => Some(Op::jalr),
        (0b1110011, 0x0, 0x0) => Some(Op::ecall),
        (0b1110011, 0x0, 0x1) => Some(Op::ebreak),
        _ => None,
    }
}

} // verus!
