//! Decoded instructions: a typed operation paired with the format view of
//! its raw word, built from little-endian bytes.

use vstd::prelude::*;

use crate::formats::{
    spec_format_view, spec_funct3, spec_funct7, spec_opcode, spec_raw_of, InstructionFormat, RType,
};
use crate::parser::{spec_decode_op, spec_format, Op};

verus! {

/// Decode-time failure: some 4-byte chunk held a `(opcode, funct3, funct7)`
/// triple outside the RV32I table. Carries the offending opcode field.
#[derive(Debug, Clone, Copy, PartialEq, Eq, Structural)]
pub enum Error {
    UnknownInstruction(u8),
}

/// A decoded instruction: the operation together with the operand view of
/// the raw word it came from.
#[derive(Debug, Clone, Copy, PartialEq, Eq, Structural)]
pub struct Instruction {
    pub op: Op,
    pub format: InstructionFormat,
}

/// The 32-bit word formed by four bytes in little-endian order.
pub open spec fn le_word(b0: u8, b1: u8, b2: u8, b3: u8) -> u32 {
    (b0 + 0x100 * b1 + 0x1_0000 * b2 + 0x100_0000 * b3) as u32
}

/// The 32-bit word at byte offset `4 * chunk` of `bytes`, little-endian.
pub open spec fn word_at(bytes: Seq<u8>, chunk: int) -> u32 {
    le_word(
        bytes[4 * chunk],
        bytes[4 * chunk + 1],
        bytes[4 * chunk + 2],
        bytes[4 * chunk + 3],
    )
}

/// Decoding one word: `Some` exactly when the word's triple is in the
/// RV32I table, and then the operation is paired with the view of the word
/// under the operation's format.
pub open spec fn spec_decode_word(w: u32) -> Option<Instruction> {
    match spec_decode_op(spec_opcode(w) as u8, spec_funct3(w) as u8, spec_funct7(w) as u8) {
        Some(op) => Some(Instruction { op, format: spec_format_view(spec_format(op), w) }),
        None => None,
    }
}

/// Decoding a prefix of `n` 4-byte chunks, in order; the first chunk
/// outside the table decides the error.
pub open spec fn spec_parse_program(bytes: Seq<u8>, n: nat) -> Result<Seq<Instruction>, Error>
    decreases n,
{
    if n == 0 {
        Ok(Seq::empty())
    } else {
        match spec_parse_program(bytes, (n - 1) as nat) {
            Err(e) => Err(e),
            Ok(s) => {
                let w = word_at(bytes, n - 1);
                match spec_decode_word(w) {
                    Some(inst) => Ok(s.push(inst)),
                    None => Err(Error::UnknownInstruction(spec_opcode(w) as u8)),
                }
            },
        }
    }
}

impl Instruction {
    /// A decoded instruction is internally consistent: its format view is
    /// the view of its own raw word under its operation's format.
    pub open spec fn wf(self) -> bool {
        self.format == spec_format_view(spec_format(self.op), spec_raw_of(self.format))
    }

    /// Decode one instruction from its four little-endian bytes.
    pub fn from_bytes(bytes: [u8; 4]) -> (r: Result<Instruction, Error>)
        ensures
            ({
                let w = le_word(bytes[0], bytes[1], bytes[2], bytes[3]);
                match r {
                    Ok(inst) => spec_decode_word(w) == Some(inst),
                    Err(e) => spec_decode_word(w) is None && e == Error::UnknownInstruction(
                        (spec_opcode(w) as u8),
                    ),
                }
            }),
    {
        let raw: u32 = (bytes[0] as u32) + 0x100 * (bytes[1] as u32) + 0x1_0000 * (bytes[2] as u32)
            + 0x100_0000 * (bytes[3] as u32);

        let rtype = RType { raw };
        let opcode = rtype.opcode();
        let funct3 = rtype.funct3();
        let funct7 = rtype.funct7();

        proof {
            crate::formats::lemma_field_bounds(raw);
        }
        match crate::parser::decode_op(opcode, funct3, funct7) {
            Some(op) => Ok(Instruction { op, format: op.format().decode(raw) }),
            None => Err(Error::UnknownInstruction(opcode)),
        }
    }

    /// Decode a whole program image, 4 bytes at a time, in order. A tail
    /// shorter than 4 bytes is ignored.
    pub fn parse_program(program: &[u8]) -> (r: Result<Vec<Instruction>, Error>)
        ensures
            ({
                let s = spec_parse_program(program@, (program@.len() / 4) as nat);
                match r {
                    Ok(v) => s matches Ok(sv) && v@ == sv,
                    Err(e) => s == Err::<Seq<Instruction>, Error>(e),
                }
            }),
    {
        let n: usize = program.len() / 4;
        proof {
            assert(4 * (program@.len() / 4) <= program@.len()) by (nonlinear_arith);
        }
        let mut out: Vec<Instruction> = Vec::new();
        let mut i: usize = 0;
        while i < n
            invariant
                i <= n,
                n == program@.len() / 4,
                4 * n <= program@.len(),
                program@.len() <= usize::MAX,
                spec_parse_program(program@, i as nat) == Ok::<Seq<Instruction>, Error>(out@),
            decreases n - i,
        {
            let b0 = program[4 * i];
            let b1 = program[4 * i + 1];
            let b2 = program[4 * i + 2];
            let b3 = program[4 * i + 3];
            match Instruction::from_bytes([b0, b1, b2, b3]) {
                Ok(inst) => {
                    out.push(inst);
                },
                Err(e) => {
                    proof {
                        assert(spec_parse_program(program@, (i + 1) as nat) == Err::<
                            Seq<Instruction>,
                            Error,
                        >(e));
                        lemma_parse_error_persists(program@, (i + 1) as nat, (program@.len()
                            / 4) as nat, e);
                    }
                    return Err(e);
                },
            }
            i = i + 1;
        }
        Ok(out)
    }

    /// The decoded operation.
    pub fn op(&self) -> (r: Op)
        ensures
            r == self.op,
    {
        self.op
    }

    /// The operand view of the raw word.
    pub fn format(&self) -> (r: InstructionFormat)
        ensures
            r == self.format,
    {
        self.format
    }

}

/// Once a chunk fails to decode, parsing any longer prefix fails the same
/// way.
proof fn lemma_parse_error_persists(bytes: Seq<u8>, n: nat, m: nat, e: Error)
    requires
        n <= m,
        spec_parse_program(bytes, n) == Err::<Seq<Instruction>, Error>(e),
    ensures
        spec_parse_program(bytes, m) == Err::<Seq<Instruction>, Error>(e),
    decreases m,
{
    if m > n {
        lemma_parse_error_persists(bytes, n, (m - 1) as nat, e);
    }
}

} // verus!
