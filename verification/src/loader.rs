//! Loading a program: the load-time error taxonomy, loadable segments as
//! plain values, and decoding a text range of the memory image into an
//! instruction table keyed by virtual address.
//!
//! The ELF container itself is read by an unverified front end, which
//! hands these functions the entry point, the loadable segments and the
//! text range as plain values.

use std::collections::HashMap;

use vstd::prelude::*;

use crate::instruction::{le_word, spec_decode_word, Instruction};
use crate::memory::Memory;

verus! {

broadcast use vstd::std_specs::hash::group_hash_axioms;

/// A load-time failure.
#[derive(Debug, Clone, PartialEq, Eq)]
pub enum Error {
    /// The file is not built for RISC-V.
    NotRISCV,
    /// The file is not ELF32.
    NotELF32,
    /// The file contains no section header.
    NoSectionHeader,
    /// The file contains no segment header.
    NoSegmentHeader,
    /// No section of the given name exists.
    SectionNotFound(String),
    /// The container could not be parsed; carries a description.
    ParseError(String),
    /// A 4-byte chunk of the text did not decode.
    InstructionParseError(crate::instruction::Error),
    /// A segment or section reaches past the end of the memory image;
    /// carries its virtual address.
    SegmentOutOfBounds(u32),
    /// Any other failure, described in words.
    Unknown(String),
}

/// One loadable segment: its virtual address and its byte payload.
pub struct Segment {
    pub vaddr: u32,
    pub data: Vec<u8>,
}

/// The 32-bit little-endian word at byte address `a` of `mem`.
pub open spec fn word_at_addr(mem: Seq<u8>, a: int) -> u32 {
    le_word(mem[a], mem[a + 1], mem[a + 2], mem[a + 3])
}

/// Decoding the first `n` chunks of the text range into a table keyed by
/// virtual address. The first chunk outside the decode table decides the
/// error.
pub open spec fn spec_load_table(mem: Seq<u8>, base: u32, n: nat) -> Result<
    Map<u32, Instruction>,
    Error,
>
    decreases n,
{
    if n == 0 {
        Ok(Map::empty())
    } else {
        match spec_load_table(mem, base, (n - 1) as nat) {
            Err(e) => Err(e),
            Ok(t) => {
                let a = base + 4 * (n - 1);
                let w = word_at_addr(mem, a);
                match spec_decode_word(w) {
                    Some(inst) => Ok(t.insert((a as u32), inst)),
                    None => Err(
                        Error::InstructionParseError(
                            crate::instruction::Error::UnknownInstruction(
                                (crate::formats::spec_opcode(w) as u8),
                            ),
                        ),
                    ),
                }
            },
        }
    }
}

/// Decode the text range `[text_addr, text_addr + text_size)` of the
/// memory image into an instruction table, 4 bytes at a time, starting at
/// `text_addr`. A tail shorter than 4 bytes is ignored. A range past the
/// end of the image is a load-time error.
pub fn load_section(text_addr: u32, text_size: u32, memory: &Memory) -> (r: Result<
    HashMap<u32, Instruction>,
    Error,
>)
    requires
        memory.inv(),
    ensures
        ({
            let n = (text_size / 4) as nat;
            if text_addr + text_size > memory@.len() {
                r == Err::<HashMap<u32, Instruction>, Error>(Error::SegmentOutOfBounds(text_addr))
            } else {
                match r {
                    Ok(h) => spec_load_table(memory@, text_addr, n) == Ok::<
                        Map<u32, Instruction>,
                        Error,
                    >(h@),
                    Err(e) => spec_load_table(memory@, text_addr, n) == Err::<
                        Map<u32, Instruction>,
                        Error,
                    >(e),
                }
            }
        }),
{
    let mem_len = memory.len();
    if (text_addr as u64) + (text_size as u64) > (mem_len as u64) {
        return Err(Error::SegmentOutOfBounds(text_addr));
    }
    let n: u32 = text_size / 4;
    let mut table: HashMap<u32, Instruction> = HashMap::new();
    let mut i: u32 = 0;
    while i < n
        invariant
            i <= n,
            n == text_size / 4,
            text_addr + text_size <= memory@.len(),
            memory.inv(),
            spec_load_table(memory@, text_addr, i as nat) == Ok::<Map<u32, Instruction>, Error>(
                table@,
            ),
        decreases n - i,
    {
        proof {
            assert(4 * (text_size / 4) <= text_size) by (nonlinear_arith);
            assert(4 * i + 4 <= 4 * n);
        }
        let addr: u32 = text_addr + 4 * i;
        let b0 = memory.byte_at(addr);
        let b1 = memory.byte_at(addr + 1);
        let b2 = memory.byte_at(addr + 2);
        let b3 = memory.byte_at(addr + 3);
        match Instruction::from_bytes([b0, b1, b2, b3]) {
            Ok(inst) => {
                table.insert(addr, inst);
            },
            Err(e) => {
                proof {
                    assert(spec_load_table(memory@, text_addr, (i + 1) as nat) == Err::<
                        Map<u32, Instruction>,
                        Error,
                    >(Error::InstructionParseError(e)));
                    lemma_table_error_persists(
                        memory@,
                        text_addr,
                        (i + 1) as nat,
                        n as nat,
                        Error::InstructionParseError(e),
                    );
                }
                return Err(Error::InstructionParseError(e));
            },
        }
        i = i + 1;
    }
    Ok(table)
}

/// Once a chunk fails to decode, loading any longer prefix of the text
/// fails the same way.
proof fn lemma_table_error_persists(mem: Seq<u8>, base: u32, n: nat, m: nat, e: Error)
    requires
        n <= m,
        spec_load_table(mem, base, n) == Err::<Map<u32, Instruction>, Error>(e),
    ensures
        spec_load_table(mem, base, m) == Err::<Map<u32, Instruction>, Error>(e),
    decreases m,
{
    if m > n {
        lemma_table_error_persists(mem, base, n, (m - 1) as nat, e);
    }
}

} // verus!
