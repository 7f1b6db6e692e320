//! Per-format instruction semantics. Each handler takes the operand
//! values the driver extracted, updates the destination slot or the
//! memory image, and returns an optional next-PC: `Some` requests an
//! explicit jump, `None` the default advance by 4.
//!
//! Register values are 32-bit two's-complement; arithmetic wraps, shift
//! amounts are masked to their low five bits, and effective addresses are
//! the wrapped sum `rs1 + imm` read as unsigned.

use vstd::prelude::*;

use crate::machine::MachineError;
use crate::memory::{
    oob_addr, sign16, sign32, sign8, store16, store32, word16_at, word32_at, Memory,
};
use crate::parser::{spec_format, Format, Op};

verus! {

// ---------------------------------------------------------------------------
// Two's-complement reinterpretation between signed and unsigned 32 bits.
// ---------------------------------------------------------------------------

/// The unsigned bit pattern of a signed 32-bit value.
pub open spec fn u32_of_i32(x: i32) -> u32 {
    if x >= 0 {
        x as u32
    } else {
        ((x + 0x1_0000_0000) as u32)
    }
}

/// The signed reading of an unsigned 32-bit bit pattern.
pub open spec fn i32_of_u32(x: u32) -> i32 {
    if x < 0x8000_0000 {
        x as i32
    } else {
        ((x - 0x1_0000_0000) as i32)
    }
}

/// Reinterpret a signed register value as its unsigned bit pattern.
pub fn to_u32(x: i32) -> (r: u32)
    ensures
        r == u32_of_i32(x),
{
    if x >= 0 {
        x as u32
    } else {
        ((x as i64) + 0x1_0000_0000) as u32
    }
}

/// Reinterpret an unsigned bit pattern as a signed register value.
pub fn to_i32(x: u32) -> (r: i32)
    ensures
        r == i32_of_u32(x),
{
    if x < 0x8000_0000 {
        x as i32
    } else {
        ((x as i64) - 0x1_0000_0000) as i32
    }
}

/// Masking with 0x1f keeps a shift amount below the register width.
proof fn lemma_shamt_bound(x: u32)
    by (bit_vector)
    ensures
        x & 0x1f < 32,
{
}

/// The shift amount encoded in a register or immediate value: its low
/// five bits.
pub open spec fn shamt_of(x: i32) -> u32 {
    u32_of_i32(x) & 0x1f
}

/// The effective address of a load or store: the wrapped signed sum
/// `rs1 + imm`, read as unsigned.
pub open spec fn ea_of(rs1: i32, imm: i32) -> u32 {
    u32_of_i32(vstd::wrapping::i32_specs::wrapping_add(rs1, imm))
}

/// The link value written by `jal` and `jalr`: the address of the next
/// instruction, as a signed register value.
pub open spec fn link_of(pc: u32) -> i32 {
    i32_of_u32(vstd::wrapping::u32_specs::wrapping_add(pc, 4))
}

/// The target of a PC-relative branch or jump: the wrapped signed sum
/// `pc + imm`, read as unsigned.
pub open spec fn branch_target(pc: u32, imm: i32) -> u32 {
    u32_of_i32(vstd::wrapping::i32_specs::wrapping_add(i32_of_u32(pc), imm))
}

// ---------------------------------------------------------------------------
// R-type.
// ---------------------------------------------------------------------------

/// The destination value of an R-type operation.
pub open spec fn spec_rtype_result(op: Op, rs1: i32, rs2: i32) -> i32 {
    match op {
        Op::add => vstd::wrapping::i32_specs::wrapping_add(rs1, rs2),
        Op::sub => vstd::wrapping::i32_specs::wrapping_sub(rs1, rs2),
        Op::xor => rs1 ^ rs2,
        Op::or => rs1 | rs2,
        Op::and => rs1 & rs2,
        Op::sll => i32_of_u32(u32_of_i32(rs1) << shamt_of(rs2)),
        Op::srl => i32_of_u32(u32_of_i32(rs1) >> shamt_of(rs2)),
        Op::sra => rs1 >> shamt_of(rs2),
        Op::slt => if rs1 < rs2 {
            1
        } else {
            0
        },
        Op::sltu => if u32_of_i32(rs1) < u32_of_i32(rs2) {
            1
        } else {
            0
        },
        _ => 0,
    }
}

/// Execute an R-type operation: two's-complement ALU work on the two
/// source values, the result into `rd`, never a jump and never an error.
pub fn execute_rtype(op: &Op, rd: &mut i32, rs1: i32, rs2: i32) -> (r: Result<
    Option<u32>,
    MachineError,
>)
    requires
        spec_format(*op) == Format::R,
    ensures
        r == Ok::<Option<u32>, MachineError>(None),
        *final(rd) == spec_rtype_result(*op, rs1, rs2),
{
    match op {
        Op::add => {
            *rd = rs1.wrapping_add(rs2);
        },
        Op::sub => {
            *rd = rs1.wrapping_sub(rs2);
        },
        Op::xor => {
            *rd = rs1 ^ rs2;
        },
        Op::or => {
            *rd = rs1 | rs2;
        },
        Op::and => {
            *rd = rs1 & rs2;
        },
        Op::sll => {
            let sh = to_u32(rs2) & 0x1f;
            proof {
                lemma_shamt_bound(u32_of_i32(rs2));
            }
            *rd = to_i32(to_u32(rs1) << sh);
        },
        Op::srl => {
            let sh = to_u32(rs2) & 0x1f;
            proof {
                lemma_shamt_bound(u32_of_i32(rs2));
            }
            *rd = to_i32(to_u32(rs1) >> sh);
        },
        Op::sra => {
            let sh = to_u32(rs2) & 0x1f;
            proof {
                lemma_shamt_bound(u32_of_i32(rs2));
            }
            *rd = rs1 >> sh;
        },
        Op::slt => {
            *rd = if rs1 < rs2 {
                1
            } else {
                0
            };
        },
        Op::sltu => {
            *rd = if to_u32(rs1) < to_u32(rs2) {
                1
            } else {
                0
            };
        },
        _ => {
            proof {
                assert(false);
            }
        },
    }
    Ok(None)
}

// ---------------------------------------------------------------------------
// I-type: immediate ALU work, loads, `jalr`, and the system operations.
// ---------------------------------------------------------------------------

/// The outcome of an I-type operation: the step result and the new value
/// of the destination slot, which keeps `rd_old` whenever the operation
/// fails.
pub open spec fn spec_itype(
    op: Op,
    pc: u32,
    rd_old: i32,
    rs1: i32,
    imm: i32,
    mem: Seq<u8>,
) -> (Result<Option<u32>, MachineError>, i32) {
    let ea = ea_of(rs1, imm);
    match op {
        Op::addi => (Ok(None), vstd::wrapping::i32_specs::wrapping_add(rs1, imm)),
        Op::xori => (Ok(None), rs1 ^ imm),
        Op::ori => (Ok(None), rs1 | imm),
        Op::andi => (Ok(None), rs1 & imm),
        Op::slli => (Ok(None), i32_of_u32(u32_of_i32(rs1) << shamt_of(imm))),
        Op::srli => (Ok(None), i32_of_u32(u32_of_i32(rs1) >> shamt_of(imm))),
        Op::srai => (Ok(None), rs1 >> shamt_of(imm)),
        Op::slti => (
            Ok(None),
            if rs1 < imm {
                1
            } else {
                0
            },
        ),
        Op::sltiu => (
            Ok(None),
            if u32_of_i32(rs1) < u32_of_i32(imm) {
                1
            } else {
                0
            },
        ),
        Op::lb => if ea < mem.len() {
            (Ok(None), (sign8(mem[ea as int] as int) as i32))
        } else {
            (Err(MachineError::MemoryError(ea)), rd_old)
        },
        Op::lbu => if ea < mem.len() {
            (Ok(None), (mem[ea as int] as i32))
        } else {
            (Err(MachineError::MemoryError(ea)), rd_old)
        },
        Op::lh => if ea + 2 <= mem.len() {
            (Ok(None), (sign16(word16_at(mem, ea as int)) as i32))
        } else {
            (Err(MachineError::MemoryError(oob_addr(ea, mem.len() as int))), rd_old)
        },
        Op::lhu => if ea + 2 <= mem.len() {
            (Ok(None), (word16_at(mem, ea as int) as i32))
        } else {
            (Err(MachineError::MemoryError(oob_addr(ea, mem.len() as int))), rd_old)
        },
        Op::lw => if ea + 4 <= mem.len() {
            (Ok(None), (sign32(word32_at(mem, ea as int)) as i32))
        } else {
            (Err(MachineError::MemoryError(oob_addr(ea, mem.len() as int))), rd_old)
        },
        Op::jalr => (Ok(Some(ea)), link_of(pc)),
        Op::ecall => (Err(MachineError::UnimplementedError(pc)), rd_old),
        Op::ebreak => (Err(MachineError::UnimplementedError(pc)), rd_old),
        _ => (Ok(None), rd_old),
    }
}

/// Execute an I-type operation. Loads fetch from the effective address
/// `rs1 + imm` and fail with the first offending address when any touched
/// byte is out of range, leaving `rd` unchanged; `jalr` links `pc + 4`
/// into `rd` and jumps to the effective address (its low bit is kept, as
/// the ISA's clearing of it is deliberately not applied here); `ecall`
/// and `ebreak` are recognised but not implemented and fail.
pub fn execute_itype(
    op: &Op,
    pc: u32,
    rd: &mut i32,
    rs1: i32,
    imm: i32,
    memory: &Memory,
) -> (r: Result<Option<u32>, MachineError>)
    requires
        spec_format(*op) == Format::I,
        memory.inv(),
    ensures
        ({
            let (res, rdv) = spec_itype(*op, pc, *old(rd), rs1, imm, memory@);
            r == res && *final(rd) == rdv
        }),
{
    match op {
        Op::addi => {
            *rd = rs1.wrapping_add(imm);
            Ok(None)
        },
        Op::xori => {
            *rd = rs1 ^ imm;
            Ok(None)
        },
        Op::ori => {
            *rd = rs1 | imm;
            Ok(None)
        },
        Op::andi => {
            *rd = rs1 & imm;
            Ok(None)
        },
        Op::slli => {
            let sh = to_u32(imm) & 0x1f;
            proof {
                lemma_shamt_bound(u32_of_i32(imm));
            }
            *rd = to_i32(to_u32(rs1) << sh);
            Ok(None)
        },
        Op::srli => {
            let sh = to_u32(imm) & 0x1f;
            proof {
                lemma_shamt_bound(u32_of_i32(imm));
            }
            *rd = to_i32(to_u32(rs1) >> sh);
            Ok(None)
        },
        Op::srai => {
            let sh = to_u32(imm) & 0x1f;
            proof {
                lemma_shamt_bound(u32_of_i32(imm));
            }
            *rd = rs1 >> sh;
            Ok(None)
        },
        Op::slti => {
            *rd = if rs1 < imm {
                1
            } else {
                0
            };
            Ok(None)
        },
        Op::sltiu => {
            *rd = if to_u32(rs1) < to_u32(imm) {
                1
            } else {
                0
            };
            Ok(None)
        },
        Op::lb => {
            let addr = to_u32(rs1.wrapping_add(imm));
            match memory.read_i8(addr) {
                Ok(v) => {
                    *rd = v as i32;
                    Ok(None)
                },
                Err(e) => Err(e),
            }
        },
        Op::lbu => {
            let addr = to_u32(rs1.wrapping_add(imm));
            match memory.read_u8(addr) {
                Ok(v) => {
                    *rd = v as i32;
                    Ok(None)
                },
                Err(e) => Err(e),
            }
        },
        Op::lh => {
            let addr = to_u32(rs1.wrapping_add(imm));
            match memory.read_i16(addr) {
                Ok(v) => {
                    *rd = v as i32;
                    Ok(None)
                },
                Err(e) => Err(e),
            }
        },
        Op::lhu => {
            let addr = to_u32(rs1.wrapping_add(imm));
            match memory.read_u16(addr) {
                Ok(v) => {
                    *rd = v as i32;
                    Ok(None)
                },
                Err(e) => Err(e),
            }
        },
        Op::lw => {
            let addr = to_u32(rs1.wrapping_add(imm));
            match memory.read_i32(addr) {
                Ok(v) => {
                    *rd = v;
                    Ok(None)
                },
                Err(e) => Err(e),
            }
        },
        Op::jalr => {
            *rd = to_i32(pc.wrapping_add(4));
            let addr = to_u32(rs1.wrapping_add(imm));
            Ok(Some(addr))
        },
        Op::ecall => Err(MachineError::UnimplementedError(pc)),
        Op::ebreak => Err(MachineError::UnimplementedError(pc)),
        _ => {
            proof {
                assert(false);
            }
            Ok(None)
        },
    }
}

// ---------------------------------------------------------------------------
// S-type: stores.
// ---------------------------------------------------------------------------

/// The outcome of a store: the step result and the new memory image,
/// which stays unchanged whenever the store fails.
pub open spec fn spec_stype(op: Op, rs1: i32, rs2: i32, imm: i32, mem: Seq<u8>) -> (Result<
    Option<u32>,
    MachineError,
>, Seq<u8>) {
    let ea = ea_of(rs1, imm);
    let bits = u32_of_i32(rs2);
    match op {
        Op::sb => if ea < mem.len() {
            (Ok(None), mem.update(ea as int, ((bits % 0x100) as u8)))
        } else {
            (Err(MachineError::MemoryError(ea)), mem)
        },
        Op::sh => if ea + 2 <= mem.len() {
            (Ok(None), store16(mem, ea as int, ((bits % 0x1_0000) as u16)))
        } else {
            (Err(MachineError::MemoryError(ea)), mem)
        },
        Op::sw => if ea + 4 <= mem.len() {
            (Ok(None), store32(mem, ea as int, bits))
        } else {
            (Err(MachineError::MemoryError(ea)), mem)
        },
        _ => (Ok(None), mem),
    }
}

/// Execute a store: the low 8, 16 or 32 bits of `rs2` go to the effective
/// address `rs1 + imm`, little-endian. A range reaching past the image
/// fails with the start address and leaves memory unchanged.
pub fn execute_stype(op: &Op, rs1: i32, rs2: i32, imm: i32, memory: &mut Memory) -> (r: Result<
    Option<u32>,
    MachineError,
>)
    requires
        spec_format(*op) == Format::S,
        old(memory).inv(),
    ensures
        final(memory).inv(),
        ({
            let (res, m2) = spec_stype(*op, rs1, rs2, imm, old(memory)@);
            r == res && final(memory)@ == m2
        }),
{
    let addr = to_u32(rs1.wrapping_add(imm));
    match op {
        Op::sb => {
            let v = to_u32(rs2);
            match memory.write_u8(addr, (v % 0x100) as u8) {
                Ok(_) => Ok(None),
                Err(e) => Err(e),
            }
        },
        Op::sh => {
            let v = to_u32(rs2);
            match memory.write_u16(addr, (v % 0x1_0000) as u16) {
                Ok(_) => Ok(None),
                Err(e) => Err(e),
            }
        },
        Op::sw => {
            let v = to_u32(rs2);
            match memory.write_u32(addr, v) {
                Ok(_) => Ok(None),
                Err(e) => Err(e),
            }
        },
        _ => {
            proof {
                assert(false);
            }
            Ok(None)
        },
    }
}

/// The number of bytes a store writes.
pub open spec fn store_width(op: Op) -> int {
    match op {
        Op::sb => 1,
        Op::sh => 2,
        Op::sw => 4,
        _ => 0,
    }
}

/// A store leaves every byte outside its written range unchanged, and a
/// failing store leaves the whole image unchanged.
pub proof fn lemma_store_frame(op: Op, rs1: i32, rs2: i32, imm: i32, mem: Seq<u8>)
    requires
        spec_format(op) == Format::S,
    ensures
        ({
            let (res, m2) = spec_stype(op, rs1, rs2, imm, mem);
            let ea = ea_of(rs1, imm) as int;
            &&& m2.len() == mem.len()
            &&& forall|j: int|
                0 <= j < mem.len() && !(ea <= j < ea + store_width(op)) ==> m2[j] == mem[j]
            &&& (res matches Err(_) ==> m2 == mem)
        }),
{
    let ea = ea_of(rs1, imm);
    let bits = u32_of_i32(rs2);
    match op {
        Op::sb => {
            if ea < mem.len() {
                crate::memory::lemma_store8_frame(mem, ea as int, ((bits % 0x100) as u8));
            }
        },
        Op::sh => {
            if ea + 2 <= mem.len() {
                crate::memory::lemma_store16_frame(mem, ea as int, ((bits % 0x1_0000) as u16));
            }
        },
        Op::sw => {
            if ea + 4 <= mem.len() {
                crate::memory::lemma_store32_frame(mem, ea as int, bits);
            }
        },
        _ => {},
    }
}

// ---------------------------------------------------------------------------
// B-type: conditional branches.
// ---------------------------------------------------------------------------

/// Whether a branch condition holds on the two source values.
pub open spec fn spec_branch_taken(op: Op, rs1: i32, rs2: i32) -> bool {
    match op {
        Op::beq => rs1 == rs2,
        Op::bne => rs1 != rs2,
        Op::blt => rs1 < rs2,
        Op::bge => rs1 >= rs2,
        Op::bltu => u32_of_i32(rs1) < u32_of_i32(rs2),
        Op::bgeu => u32_of_i32(rs1) >= u32_of_i32(rs2),
        _ => false,
    }
}

/// The next-PC request of a branch: the PC-relative target when the
/// condition holds, the default advance otherwise.
pub open spec fn spec_btype_target(op: Op, pc: u32, rs1: i32, rs2: i32, imm: i32) -> Option<u32> {
    if spec_branch_taken(op, rs1, rs2) {
        Some(branch_target(pc, imm))
    } else {
        None
    }
}

/// Execute a conditional branch. Never an error; the registers and memory
/// are untouched.
pub fn execute_btype(op: &Op, pc: u32, rs1: i32, rs2: i32, imm: i32) -> (r: Result<
    Option<u32>,
    MachineError,
>)
    requires
        spec_format(*op) == Format::B,
    ensures
        r == Ok::<Option<u32>, MachineError>(spec_btype_target(*op, pc, rs1, rs2, imm)),
{
    let taken: bool = match op {
        Op::beq => rs1 == rs2,
        Op::bne => rs1 != rs2,
        Op::blt => rs1 < rs2,
        Op::bge => rs1 >= rs2,
        Op::bltu => to_u32(rs1) < to_u32(rs2),
        Op::bgeu => to_u32(rs1) >= to_u32(rs2),
        _ => {
            proof {
                assert(false);
            }
            false
        },
    };
    if taken {
        let target = to_u32(to_i32(pc).wrapping_add(imm));
        Ok(Some(target))
    } else {
        Ok(None)
    }
}

// ---------------------------------------------------------------------------
// J-type: `jal`.
// ---------------------------------------------------------------------------

/// Execute `jal`: link `pc + 4` into `rd` and jump to the PC-relative
/// target.
pub fn execute_jtype(op: &Op, pc: u32, rd: &mut i32, imm: i32) -> (r: Result<
    Option<u32>,
    MachineError,
>)
    requires
        spec_format(*op) == Format::J,
    ensures
        r == Ok::<Option<u32>, MachineError>(Some(branch_target(pc, imm))),
        *final(rd) == link_of(pc),
{
    match op {
        Op::jal => {
            *rd = to_i32(pc.wrapping_add(4));
            let target = to_u32(to_i32(pc).wrapping_add(imm));
            Ok(Some(target))
        },
        _ => {
            proof {
                assert(false);
            }
            Ok(None)
        },
    }
}

// ---------------------------------------------------------------------------
// U-type: `lui` and `auipc`.
// ---------------------------------------------------------------------------

/// The destination value of an upper-immediate operation. The immediate
/// already carries its 20 field bits at positions 31:12.
pub open spec fn spec_utype_result(op: Op, pc: u32, imm: i32) -> i32 {
    match op {
        Op::lui => imm,
        Op::auipc => vstd::wrapping::i32_specs::wrapping_add(i32_of_u32(pc), imm),
        _ => 0,
    }
}

/// Execute an upper-immediate operation: `lui` places the immediate,
/// `auipc` adds it to the current PC. Never a jump, never an error.
pub fn execute_utype(op: &Op, pc: u32, rd: &mut i32, imm: i32) -> (r: Result<
    Option<u32>,
    MachineError,
>)
    requires
        spec_format(*op) == Format::U,
    ensures
        r == Ok::<Option<u32>, MachineError>(None),
        *final(rd) == spec_utype_result(*op, pc, imm),
{
    match op {
        Op::lui => {
            *rd = imm;
        },
        Op::auipc => {
            *rd = to_i32(pc).wrapping_add(imm);
        },
        _ => {
            proof {
                assert(false);
            }
        },
    }
    Ok(None)
}

// ---------------------------------------------------------------------------
// Algebraic laws of the per-operation semantics.
// ---------------------------------------------------------------------------

/// `addi rd, rs1, 0` is a move: it never fails, requests no jump, and
/// writes exactly the value of `rs1`.
pub proof fn lemma_addi_zero_is_mv(pc: u32, rd_old: i32, rs1: i32, mem: Seq<u8>)
    ensures
        spec_itype(Op::addi, pc, rd_old, rs1, 0, mem) == (
            Ok::<Option<u32>, MachineError>(None),
            rs1,
        ),
{
}

/// `sub rd, x, x` and `xor rd, x, x` both yield 0, for any x.
pub proof fn lemma_self_cancellation(x: i32)
    ensures
        spec_rtype_result(Op::sub, x, x) == 0,
        spec_rtype_result(Op::xor, x, x) == 0,
{
    assert(x ^ x == 0) by (bit_vector);
}

/// With a zero immediate, `auipc` yields the current PC's bit pattern and
/// `lui` yields 0.
pub proof fn lemma_upper_immediate_zero(pc: u32)
    ensures
        spec_utype_result(Op::lui, pc, 0) == 0,
        u32_of_i32(spec_utype_result(Op::auipc, pc, 0)) == pc,
{
}

} // verus!
