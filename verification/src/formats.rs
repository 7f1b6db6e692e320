//! The six immediate-layout views (R, I, S, B, U, J) over a 32-bit
//! instruction word: field accessors, immediate reassembly, and
//! sign-extension, plus assemblers that place the fields back into a word.
//!
//! All accessors are total on any 32-bit input; no validation happens here.

use vstd::prelude::*;

use crate::parser::Format;

verus! {

// ---------------------------------------------------------------------------
// Field extraction, as mathematical functions of the raw word.
// ---------------------------------------------------------------------------

pub open spec fn spec_opcode(w: u32) -> u32 {
    w & 0x7f
}

pub open spec fn spec_rd(w: u32) -> u32 {
    (w >> 7) & 0x1f
}

pub open spec fn spec_funct3(w: u32) -> u32 {
    (w >> 12) & 0x7
}

pub open spec fn spec_rs1(w: u32) -> u32 {
    (w >> 15) & 0x1f
}

pub open spec fn spec_rs2(w: u32) -> u32 {
    (w >> 20) & 0x1f
}

pub open spec fn spec_funct7(w: u32) -> u32 {
    (w >> 25) & 0x7f
}

/// The 12 immediate bits of an I-type word, still unsigned.
pub open spec fn i_imm_field(w: u32) -> u32 {
    (w >> 20) & 0xfff
}

/// The 12 immediate bits of an S-type word (`imm[11:5]` from bits 31:25,
/// `imm[4:0]` from bits 11:7), still unsigned.
pub open spec fn s_imm_field(w: u32) -> u32 {
    ((w >> 7) & 0x1f) | (((w >> 25) & 0x7f) << 5)
}

/// The 13 immediate bits of a B-type word (`imm[12|10:5|4:1|11]`,
/// `imm[0] = 0`), still unsigned.
pub open spec fn b_imm_field(w: u32) -> u32 {
    (((w >> 7) & 0x1) << 11) | (((w >> 8) & 0xf) << 1) | (((w >> 25) & 0x3f) << 5) | (((w >> 31)
        & 0x1) << 12)
}

/// The 20 immediate bits of a U-type word, bits 31:12, still unshifted.
pub open spec fn u_imm_field(w: u32) -> u32 {
    (w >> 12) & 0xfffff
}

/// The 21 immediate bits of a J-type word (`imm[20|10:1|11|19:12]`,
/// `imm[0] = 0`), still unsigned.
pub open spec fn j_imm_field(w: u32) -> u32 {
    (((w >> 12) & 0xff) << 12) | (((w >> 20) & 0x1) << 11) | (((w >> 21) & 0x3ff) << 1) | (((w
        >> 31) & 0x1) << 20)
}

/// Every extracted field is bounded by the width of its bit range.
pub proof fn lemma_field_bounds(w: u32)
    by (bit_vector)
    ensures
        spec_opcode(w) < 0x80,
        spec_rd(w) < 32,
        spec_funct3(w) < 8,
        spec_rs1(w) < 32,
        spec_rs2(w) < 32,
        spec_funct7(w) < 0x80,
        i_imm_field(w) < 0x1000,
        s_imm_field(w) < 0x1000,
        b_imm_field(w) < 0x2000,
        b_imm_field(w) % 2 == 0,
        u_imm_field(w) < 0x100000,
        j_imm_field(w) < 0x200000,
        j_imm_field(w) % 2 == 0,
{
}

// ---------------------------------------------------------------------------
// Sign extension and the signed immediate of each format.
// ---------------------------------------------------------------------------

/// Interpret the `full`-width unsigned value `v` as a two's-complement
/// signed number: values at or above `half` (the sign-bit weight) wrap to
/// negatives.
pub open spec fn sign_val(v: u32, half: u32, full: u32) -> int {
    if v < half {
        v as int
    } else {
        v - full
    }
}

pub open spec fn spec_imm_i(w: u32) -> int {
    sign_val(i_imm_field(w), 0x800, 0x1000)
}

pub open spec fn spec_imm_s(w: u32) -> int {
    sign_val(s_imm_field(w), 0x800, 0x1000)
}

pub open spec fn spec_imm_b(w: u32) -> int {
    sign_val(b_imm_field(w), 0x1000, 0x2000)
}

/// The U immediate is the 20 field bits placed at positions 31:12 of the
/// result, low 12 bits zero, read as a signed 32-bit value.
pub open spec fn spec_imm_u(w: u32) -> int {
    let v = u_imm_field(w) * 0x1000;
    if v < 0x8000_0000 {
        v as int
    } else {
        v - 0x1_0000_0000
    }
}

pub open spec fn spec_imm_j(w: u32) -> int {
    sign_val(j_imm_field(w), 0x100000, 0x200000)
}

/// The signed immediate carried by a word of the given format, if any.
pub open spec fn spec_immediate_of(fmt: Format, w: u32) -> Option<int> {
    match fmt {
        Format::R => None,
        Format::I => Some(spec_imm_i(w)),
        Format::S => Some(spec_imm_s(w)),
        Format::B => Some(spec_imm_b(w)),
        Format::U => Some(spec_imm_u(w)),
        Format::J => Some(spec_imm_j(w)),
    }
}

/// Widen the `full`-width unsigned value `v` to a signed 32-bit integer,
/// treating `half` as the weight of its sign bit.
fn sign_extend(v: u32, half: u32, full: u32) -> (r: i32)
    requires
        0 < half < 0x4000_0000,
        full == 2 * half,
        v < full,
    ensures
        r as int == sign_val(v, half, full),
{
    if v < half {
        v as i32
    } else {
        (v as i32) - (full as i32)
    }
}

// ---------------------------------------------------------------------------
// The executable views.
// ---------------------------------------------------------------------------

#[derive(Debug, Clone, Copy, PartialEq, Eq, Structural)]
pub struct RType {
    pub raw: u32,
}

#[derive(Debug, Clone, Copy, PartialEq, Eq, Structural)]
pub struct IType {
    pub raw: u32,
}

#[derive(Debug, Clone, Copy, PartialEq, Eq, Structural)]
pub struct SType {
    pub raw: u32,
}

#[derive(Debug, Clone, Copy, PartialEq, Eq, Structural)]
pub struct UType {
    pub raw: u32,
}

#[derive(Debug, Clone, Copy, PartialEq, Eq, Structural)]
pub struct BType {
    pub raw: u32,
}

#[derive(Debug, Clone, Copy, PartialEq, Eq, Structural)]
pub struct JType {
    pub raw: u32,
}

/// A raw word seen through the operand layout of one encoding family.
#[derive(Debug, Clone, Copy, PartialEq, Eq, Structural)]
pub enum InstructionFormat {
    R(RType),
    I(IType),
    S(SType),
    U(UType),
    B(BType),
    J(JType),
}

/// The raw 32-bit word behind a format view.
pub open spec fn spec_raw_of(f: InstructionFormat) -> u32 {
    match f {
        InstructionFormat::R(x) => x.raw,
        InstructionFormat::I(x) => x.raw,
        InstructionFormat::S(x) => x.raw,
        InstructionFormat::U(x) => x.raw,
        InstructionFormat::B(x) => x.raw,
        InstructionFormat::J(x) => x.raw,
    }
}

/// The view of a raw word through an encoding family, as a value.
pub open spec fn spec_format_view(fmt: Format, raw: u32) -> InstructionFormat {
    match fmt {
        Format::R => InstructionFormat::R(RType { raw }),
        Format::I => InstructionFormat::I(IType { raw }),
        Format::S => InstructionFormat::S(SType { raw }),
        Format::B => InstructionFormat::B(BType { raw }),
        Format::U => InstructionFormat::U(UType { raw }),
        Format::J => InstructionFormat::J(JType { raw }),
    }
}

impl Format {
    /// View a raw word through this encoding family.
    pub fn decode(self, raw: u32) -> (f: InstructionFormat)
        ensures
            f == spec_format_view(self, raw),
            spec_raw_of(f) == raw,
    {
        match self {
            Format::R => InstructionFormat::R(RType { raw }),
            Format::I => InstructionFormat::I(IType { raw }),
            Format::S => InstructionFormat::S(SType { raw }),
            Format::B => InstructionFormat::B(BType { raw }),
            Format::U => InstructionFormat::U(UType { raw }),
            Format::J => InstructionFormat::J(JType { raw }),
        }
    }
}

/// Extract bits 6:0 of `w` as an executable value.
fn extract_opcode(w: u32) -> (r: u8)
    ensures
        r == spec_opcode(w),
{
    proof {
        lemma_field_bounds(w);
    }
    (w & 0x7f) as u8
}

/// Extract bits 11:7 of `w` as an executable value.
fn extract_rd(w: u32) -> (r: u8)
    ensures
        r == spec_rd(w),
{
    proof {
        lemma_field_bounds(w);
    }
    ((w >> 7) & 0x1f) as u8
}

/// Extract bits 14:12 of `w` as an executable value.
fn extract_funct3(w: u32) -> (r: u8)
    ensures
        r == spec_funct3(w),
{
    proof {
        lemma_field_bounds(w);
    }
    ((w >> 12) & 0x7) as u8
}

/// Extract bits 19:15 of `w` as an executable value.
fn extract_rs1(w: u32) -> (r: u8)
    ensures
        r == spec_rs1(w),
{
    proof {
        lemma_field_bounds(w);
    }
    ((w >> 15) & 0x1f) as u8
}

/// Extract bits 24:20 of `w` as an executable value.
fn extract_rs2(w: u32) -> (r: u8)
    ensures
        r == spec_rs2(w),
{
    proof {
        lemma_field_bounds(w);
    }
    ((w >> 20) & 0x1f) as u8
}

/// Extract bits 31:25 of `w` as an executable value.
fn extract_funct7(w: u32) -> (r: u8)
    ensures
        r == spec_funct7(w),
{
    proof {
        lemma_field_bounds(w);
    }
    ((w >> 25) & 0x7f) as u8
}

impl RType {
    pub fn opcode(&self) -> (r: u8)
        ensures
            r == spec_opcode(self.raw),
    {
        extract_opcode(self.raw)
    }

    pub fn rd(&self) -> (r: u8)
        ensures
            r == spec_rd(self.raw),
    {
        extract_rd(self.raw)
    }

    pub fn funct3(&self) -> (r: u8)
        ensures
            r == spec_funct3(self.raw),
    {
        extract_funct3(self.raw)
    }

    pub fn rs1(&self) -> (r: u8)
        ensures
            r == spec_rs1(self.raw),
    {
        extract_rs1(self.raw)
    }

    pub fn rs2(&self) -> (r: u8)
        ensures
            r == spec_rs2(self.raw),
    {
        extract_rs2(self.raw)
    }

    pub fn funct7(&self) -> (r: u8)
        ensures
            r == spec_funct7(self.raw),
    {
        extract_funct7(self.raw)
    }
}

impl IType {
    pub fn opcode(&self) -> (r: u8)
        ensures
            r == spec_opcode(self.raw),
    {
        extract_opcode(self.raw)
    }

    pub fn rd(&self) -> (r: u8)
        ensures
            r == spec_rd(self.raw),
    {
        extract_rd(self.raw)
    }

    pub fn funct3(&self) -> (r: u8)
        ensures
            r == spec_funct3(self.raw),
    {
        extract_funct3(self.raw)
    }

    pub fn rs1(&self) -> (r: u8)
        ensures
            r == spec_rs1(self.raw),
    {
        extract_rs1(self.raw)
    }

    /// The raw 12 immediate bits, unsigned.
    pub fn imm(&self) -> (r: u32)
        ensures
            r == i_imm_field(self.raw),
    {
        (self.raw >> 20) & 0xfff
    }
}

impl SType {
    pub fn opcode(&self) -> (r: u8)
        ensures
            r == spec_opcode(self.raw),
    {
        extract_opcode(self.raw)
    }

    pub fn funct3(&self) -> (r: u8)
        ensures
            r == spec_funct3(self.raw),
    {
        extract_funct3(self.raw)
    }

    pub fn rs1(&self) -> (r: u8)
        ensures
            r == spec_rs1(self.raw),
    {
        extract_rs1(self.raw)
    }

    pub fn rs2(&self) -> (r: u8)
        ensures
            r == spec_rs2(self.raw),
    {
        extract_rs2(self.raw)
    }

    /// `imm[4:0]`, from bits 11:7.
    pub fn imm1(&self) -> (r: u32)
        ensures
            r == (self.raw >> 7) & 0x1f,
    {
        (self.raw >> 7) & 0x1f
    }

    /// `imm[11:5]`, from bits 31:25.
    pub fn imm2(&self) -> (r: u32)
        ensures
            r == (self.raw >> 25) & 0x7f,
    {
        (self.raw >> 25) & 0x7f
    }
}

impl UType {
    pub fn opcode(&self) -> (r: u8)
        ensures
            r == spec_opcode(self.raw),
    {
        extract_opcode(self.raw)
    }

    pub fn rd(&self) -> (r: u8)
        ensures
            r == spec_rd(self.raw),
    {
        extract_rd(self.raw)
    }

    /// The raw 20 immediate bits, from bits 31:12, unshifted.
    pub fn imm(&self) -> (r: u32)
        ensures
            r == u_imm_field(self.raw),
    {
        (self.raw >> 12) & 0xfffff
    }
}

impl BType {
    pub fn opcode(&self) -> (r: u8)
        ensures
            r == spec_opcode(self.raw),
    {
        extract_opcode(self.raw)
    }

    pub fn funct3(&self) -> (r: u8)
        ensures
            r == spec_funct3(self.raw),
    {
        extract_funct3(self.raw)
    }

    pub fn rs1(&self) -> (r: u8)
        ensures
            r == spec_rs1(self.raw),
    {
        extract_rs1(self.raw)
    }

    pub fn rs2(&self) -> (r: u8)
        ensures
            r == spec_rs2(self.raw),
    {
        extract_rs2(self.raw)
    }

    /// `imm[11]`, from bit 7.
    pub fn imm1(&self) -> (r: u32)
        ensures
            r == (self.raw >> 7) & 0x1,
    {
        (self.raw >> 7) & 0x1
    }

    /// `imm[4:1]`, from bits 11:8.
    pub fn imm2(&self) -> (r: u32)
        ensures
            r == (self.raw >> 8) & 0xf,
    {
        (self.raw >> 8) & 0xf
    }

    /// `imm[10:5]`, from bits 30:25.
    pub fn imm3(&self) -> (r: u32)
        ensures
            r == (self.raw >> 25) & 0x3f,
    {
        (self.raw >> 25) & 0x3f
    }

    /// `imm[12]`, from bit 31.
    pub fn imm4(&self) -> (r: u32)
        ensures
            r == (self.raw >> 31) & 0x1,
    {
        (self.raw >> 31) & 0x1
    }
}

impl JType {
    pub fn opcode(&self) -> (r: u8)
        ensures
            r == spec_opcode(self.raw),
    {
        extract_opcode(self.raw)
    }

    pub fn rd(&self) -> (r: u8)
        ensures
            r == spec_rd(self.raw),
    {
        extract_rd(self.raw)
    }

    /// `imm[19:12]`, from bits 19:12.
    pub fn imm1(&self) -> (r: u32)
        ensures
            r == (self.raw >> 12) & 0xff,
    {
        (self.raw >> 12) & 0xff
    }

    /// `imm[11]`, from bit 20.
    pub fn imm2(&self) -> (r: u32)
        ensures
            r == (self.raw >> 20) & 0x1,
    {
        (self.raw >> 20) & 0x1
    }

    /// `imm[10:1]`, from bits 30:21.
    pub fn imm3(&self) -> (r: u32)
        ensures
            r == (self.raw >> 21) & 0x3ff,
    {
        (self.raw >> 21) & 0x3ff
    }

    /// `imm[20]`, from bit 31.
    pub fn imm4(&self) -> (r: u32)
        ensures
            r == (self.raw >> 31) & 0x1,
    {
        (self.raw >> 31) & 0x1
    }
}

/// The reassembled B immediate bits equal `b_imm_field` of the word.
proof fn lemma_b_reassembly(w: u32)
    by (bit_vector)
    ensures
        (((w >> 7) & 0x1) << 11) | (((w >> 8) & 0xf) << 1) | (((w >> 25) & 0x3f) << 5) | (((w
            >> 31) & 0x1) << 12) == b_imm_field(w),
{
}

/// The reassembled J immediate bits equal `j_imm_field` of the word.
proof fn lemma_j_reassembly(w: u32)
    by (bit_vector)
    ensures
        (((w >> 12) & 0xff) << 12) | (((w >> 20) & 0x1) << 11) | (((w >> 21) & 0x3ff) << 1) | (((w
            >> 31) & 0x1) << 20) == j_imm_field(w),
{
}

/// The reassembled S immediate bits equal `s_imm_field` of the word.
proof fn lemma_s_reassembly(w: u32)
    by (bit_vector)
    ensures
        ((w >> 7) & 0x1f) | (((w >> 25) & 0x7f) << 5) == s_imm_field(w),
{
}

impl InstructionFormat {
    /// The raw word behind this view.
    pub fn raw(&self) -> (r: u32)
        ensures
            r == spec_raw_of(*self),
    {
        match self {
            InstructionFormat::R(x) => x.raw,
            InstructionFormat::I(x) => x.raw,
            InstructionFormat::S(x) => x.raw,
            InstructionFormat::U(x) => x.raw,
            InstructionFormat::B(x) => x.raw,
            InstructionFormat::J(x) => x.raw,
        }
    }

    pub fn opcode(&self) -> (r: u8)
        ensures
            r == spec_opcode(spec_raw_of(*self)),
    {
        match self {
            InstructionFormat::R(x) => x.opcode(),
            InstructionFormat::I(x) => x.opcode(),
            InstructionFormat::S(x) => x.opcode(),
            InstructionFormat::U(x) => x.opcode(),
            InstructionFormat::B(x) => x.opcode(),
            InstructionFormat::J(x) => x.opcode(),
        }
    }

    /// The destination register field, for the formats that carry one.
    pub fn rd(&self) -> (r: Option<u8>)
        ensures
            match *self {
                InstructionFormat::R(_) | InstructionFormat::I(_) | InstructionFormat::U(_)
                    | InstructionFormat::J(_) => r == Some(
                    (spec_rd(spec_raw_of(*self)) as u8),
                ),
                InstructionFormat::S(_) | InstructionFormat::B(_) => r is None,
            },
    {
        match self {
            InstructionFormat::R(x) => Some(x.rd()),
            InstructionFormat::I(x) => Some(x.rd()),
            InstructionFormat::S(_) => None,
            InstructionFormat::U(x) => Some(x.rd()),
            InstructionFormat::B(_) => None,
            InstructionFormat::J(x) => Some(x.rd()),
        }
    }

    /// The first source register field, for the formats that carry one.
    pub fn rs1(&self) -> (r: Option<u8>)
        ensures
            match *self {
                InstructionFormat::R(_) | InstructionFormat::I(_) | InstructionFormat::S(_)
                    | InstructionFormat::B(_) => r == Some((spec_rs1(spec_raw_of(*self)) as u8)),
                InstructionFormat::U(_) | InstructionFormat::J(_) => r is None,
            },
    {
        match self {
            InstructionFormat::R(x) => Some(x.rs1()),
            InstructionFormat::I(x) => Some(x.rs1()),
            InstructionFormat::S(x) => Some(x.rs1()),
            InstructionFormat::U(_) => None,
            InstructionFormat::B(x) => Some(x.rs1()),
            InstructionFormat::J(_) => None,
        }
    }

    /// The second source register field, for the formats that carry one.
    pub fn rs2(&self) -> (r: Option<u8>)
        ensures
            match *self {
                InstructionFormat::R(_) | InstructionFormat::S(_) | InstructionFormat::B(_) => r
                    == Some((spec_rs2(spec_raw_of(*self)) as u8)),
                InstructionFormat::I(_) | InstructionFormat::U(_) | InstructionFormat::J(_) => r
                    is None,
            },
    {
        match self {
            InstructionFormat::R(x) => Some(x.rs2()),
            InstructionFormat::I(_) => None,
            InstructionFormat::S(x) => Some(x.rs2()),
            InstructionFormat::U(_) => None,
            InstructionFormat::B(x) => Some(x.rs2()),
            InstructionFormat::J(_) => None,
        }
    }

    /// The sign-extended immediate, for the formats that carry one. R-type
    /// words have none.
    pub fn immediate_value(&self) -> (r: Option<i32>)
        ensures
            match *self {
                InstructionFormat::R(_) => r is None,
                InstructionFormat::I(x) => r matches Some(v) && v as int == spec_imm_i(x.raw),
                InstructionFormat::S(x) => r matches Some(v) && v as int == spec_imm_s(x.raw),
                InstructionFormat::B(x) => r matches Some(v) && v as int == spec_imm_b(x.raw),
                InstructionFormat::U(x) => r matches Some(v) && v as int == spec_imm_u(x.raw),
                InstructionFormat::J(x) => r matches Some(v) && v as int == spec_imm_j(x.raw),
            },
    {
        match self {
            InstructionFormat::R(_) => None,
            InstructionFormat::I(x) => {
                proof {
                    lemma_field_bounds(x.raw);
                }
                Some(sign_extend(x.imm(), 0x800, 0x1000))
            },
            InstructionFormat::S(x) => {
                let value = x.imm1() | (x.imm2() << 5);
                proof {
                    lemma_s_reassembly(x.raw);
                    lemma_field_bounds(x.raw);
                }
                Some(sign_extend(value, 0x800, 0x1000))
            },
            InstructionFormat::U(x) => {
                proof {
                    lemma_field_bounds(x.raw);
                }
                let value = x.imm() * 0x1000;
                if value < 0x8000_0000 {
                    Some(value as i32)
                } else {
                    Some(((value as i64) - 0x1_0000_0000) as i32)
                }
            },
            InstructionFormat::B(x) => {
                let value = (x.imm1() << 11) | (x.imm2() << 1) | (x.imm3() << 5) | (x.imm4()
                    << 12);
                proof {
                    lemma_b_reassembly(x.raw);
                    lemma_field_bounds(x.raw);
                }
                Some(sign_extend(value, 0x1000, 0x2000))
            },
            InstructionFormat::J(x) => {
                let value = (x.imm1() << 12) | (x.imm2() << 11) | (x.imm3() << 1) | (x.imm4()
                    << 20);
                proof {
                    lemma_j_reassembly(x.raw);
                    lemma_field_bounds(x.raw);
                }
                Some(sign_extend(value, 0x100000, 0x200000))
            },
        }
    }
}

// ---------------------------------------------------------------------------
// Assembly: placing fields back into a word. Each assembler's contract
// states the round trip: extracting a field of the built word gives back
// the value that was placed, and the signed immediate disassembles to the
// integer that was assembled, whenever it fits the encoding's width.
// ---------------------------------------------------------------------------

proof fn lemma_encode_r(o: u32, d: u32, f3: u32, s1: u32, s2: u32, f7: u32)
    by (bit_vector)
    requires
        o < 0x80,
        d < 32,
        f3 < 8,
        s1 < 32,
        s2 < 32,
        f7 < 0x80,
    ensures
        ({
            let w = o | (d << 7) | (f3 << 12) | (s1 << 15) | (s2 << 20) | (f7 << 25);
            spec_opcode(w) == o && spec_rd(w) == d && spec_funct3(w) == f3 && spec_rs1(w) == s1
                && spec_rs2(w) == s2 && spec_funct7(w) == f7
        }),
{
}

/// Build an R-type word from its six fields.
pub fn encode_rtype(opcode: u8, rd: u8, funct3: u8, rs1: u8, rs2: u8, funct7: u8) -> (w: u32)
    requires
        opcode < 0x80,
        rd < 32,
        funct3 < 8,
        rs1 < 32,
        rs2 < 32,
        funct7 < 0x80,
    ensures
        spec_opcode(w) == opcode,
        spec_rd(w) == rd,
        spec_funct3(w) == funct3,
        spec_rs1(w) == rs1,
        spec_rs2(w) == rs2,
        spec_funct7(w) == funct7,
{
    proof {
        lemma_encode_r(opcode as u32, rd as u32, funct3 as u32, rs1 as u32, rs2 as u32,
            funct7 as u32);
    }
    (opcode as u32) | ((rd as u32) << 7) | ((funct3 as u32) << 12) | ((rs1 as u32) << 15) | ((
    rs2 as u32) << 20) | ((funct7 as u32) << 25)
}

proof fn lemma_encode_i(o: u32, d: u32, f3: u32, s1: u32, iu: u32)
    by (bit_vector)
    requires
        o < 0x80,
        d < 32,
        f3 < 8,
        s1 < 32,
        iu < 0x1000,
    ensures
        ({
            let w = o | (d << 7) | (f3 << 12) | (s1 << 15) | (iu << 20);
            spec_opcode(w) == o && spec_rd(w) == d && spec_funct3(w) == f3 && spec_rs1(w) == s1
                && i_imm_field(w) == iu
        }),
{
}

/// Build an I-type word; the immediate round-trips whenever it fits 12
/// signed bits.
pub fn encode_itype(opcode: u8, rd: u8, funct3: u8, rs1: u8, imm: i32) -> (w: u32)
    requires
        opcode < 0x80,
        rd < 32,
        funct3 < 8,
        rs1 < 32,
        -0x800 <= imm < 0x800,
    ensures
        spec_opcode(w) == opcode,
        spec_rd(w) == rd,
        spec_funct3(w) == funct3,
        spec_rs1(w) == rs1,
        spec_imm_i(w) == imm,
{
    let iu: u32 = if imm >= 0 {
        imm as u32
    } else {
        (imm + 0x1000) as u32
    };
    proof {
        lemma_encode_i(opcode as u32, rd as u32, funct3 as u32, rs1 as u32, iu);
    }
    (opcode as u32) | ((rd as u32) << 7) | ((funct3 as u32) << 12) | ((rs1 as u32) << 15) | (iu
        << 20)
}

proof fn lemma_encode_s(o: u32, f3: u32, s1: u32, s2: u32, iu: u32)
    by (bit_vector)
    requires
        o < 0x80,
        f3 < 8,
        s1 < 32,
        s2 < 32,
        iu < 0x1000,
    ensures
        ({
            let w = o | ((iu & 0x1f) << 7) | (f3 << 12) | (s1 << 15) | (s2 << 20) | ((iu >> 5)
                << 25);
            spec_opcode(w) == o && spec_funct3(w) == f3 && spec_rs1(w) == s1 && spec_rs2(w) == s2
                && s_imm_field(w) == iu
        }),
{
}

/// Build an S-type word; the immediate round-trips whenever it fits 12
/// signed bits.
pub fn encode_stype(opcode: u8, funct3: u8, rs1: u8, rs2: u8, imm: i32) -> (w: u32)
    requires
        opcode < 0x80,
        funct3 < 8,
        rs1 < 32,
        rs2 < 32,
        -0x800 <= imm < 0x800,
    ensures
        spec_opcode(w) == opcode,
        spec_funct3(w) == funct3,
        spec_rs1(w) == rs1,
        spec_rs2(w) == rs2,
        spec_imm_s(w) == imm,
{
    let iu: u32 = if imm >= 0 {
        imm as u32
    } else {
        (imm + 0x1000) as u32
    };
    proof {
        lemma_encode_s(opcode as u32, funct3 as u32, rs1 as u32, rs2 as u32, iu);
    }
    (opcode as u32) | ((iu & 0x1f) << 7) | ((funct3 as u32) << 12) | ((rs1 as u32) << 15) | ((
    rs2 as u32) << 20) | ((iu >> 5) << 25)
}

proof fn lemma_encode_b(o: u32, f3: u32, s1: u32, s2: u32, iu: u32)
    by (bit_vector)
    requires
        o < 0x80,
        f3 < 8,
        s1 < 32,
        s2 < 32,
        iu < 0x2000,
        iu % 2 == 0,
    ensures
        ({
            let w = o | (((iu >> 11) & 0x1) << 7) | (((iu >> 1) & 0xf) << 8) | (f3 << 12) | (s1
                << 15) | (s2 << 20) | (((iu >> 5) & 0x3f) << 25) | (((iu >> 12) & 0x1) << 31);
            spec_opcode(w) == o && spec_funct3(w) == f3 && spec_rs1(w) == s1 && spec_rs2(w) == s2
                && b_imm_field(w) == iu
        }),
{
}

/// Build a B-type word; the even immediate round-trips whenever it fits 13
/// signed bits.
pub fn encode_btype(opcode: u8, funct3: u8, rs1: u8, rs2: u8, imm: i32) -> (w: u32)
    requires
        opcode < 0x80,
        funct3 < 8,
        rs1 < 32,
        rs2 < 32,
        -0x1000 <= imm < 0x1000,
        imm % 2 == 0,
    ensures
        spec_opcode(w) == opcode,
        spec_funct3(w) == funct3,
        spec_rs1(w) == rs1,
        spec_rs2(w) == rs2,
        spec_imm_b(w) == imm,
{
    let iu: u32 = if imm >= 0 {
        imm as u32
    } else {
        (imm + 0x2000) as u32
    };
    proof {
        lemma_encode_b(opcode as u32, funct3 as u32, rs1 as u32, rs2 as u32, iu);
    }
    (opcode as u32) | (((iu >> 11) & 0x1) << 7) | (((iu >> 1) & 0xf) << 8) | ((funct3 as u32)
        << 12) | ((rs1 as u32) << 15) | ((rs2 as u32) << 20) | (((iu >> 5) & 0x3f) << 25) | (((iu
        >> 12) & 0x1) << 31)
}

proof fn lemma_encode_u(o: u32, d: u32, iu: u32)
    by (bit_vector)
    requires
        o < 0x80,
        d < 32,
        iu < 0x100000,
    ensures
        ({
            let w = o | (d << 7) | (iu << 12);
            spec_opcode(w) == o && spec_rd(w) == d && u_imm_field(w) == iu
        }),
{
}

/// Build a U-type word from the raw 20-bit field; disassembly places the
/// field at bits 31:12 and reads the word as signed.
pub fn encode_utype(opcode: u8, rd: u8, imm20: u32) -> (w: u32)
    requires
        opcode < 0x80,
        rd < 32,
        imm20 < 0x100000,
    ensures
        spec_opcode(w) == opcode,
        spec_rd(w) == rd,
        u_imm_field(w) == imm20,
        spec_imm_u(w) == if imm20 < 0x80000 {
            imm20 * 0x1000
        } else {
            imm20 * 0x1000 - 0x1_0000_0000
        },
{
    proof {
        lemma_encode_u(opcode as u32, rd as u32, imm20);
    }
    (opcode as u32) | ((rd as u32) << 7) | (imm20 << 12)
}

proof fn lemma_encode_j(o: u32, d: u32, iu: u32)
    by (bit_vector)
    requires
        o < 0x80,
        d < 32,
        iu < 0x200000,
        iu % 2 == 0,
    ensures
        ({
            let w = o | (d << 7) | (((iu >> 12) & 0xff) << 12) | (((iu >> 11) & 0x1) << 20) | (((
            iu >> 1) & 0x3ff) << 21) | (((iu >> 20) & 0x1) << 31);
            spec_opcode(w) == o && spec_rd(w) == d && j_imm_field(w) == iu
        }),
{
}

/// Build a J-type word; the even immediate round-trips whenever it fits 21
/// signed bits.
pub fn encode_jtype(opcode: u8, rd: u8, imm: i32) -> (w: u32)
    requires
        opcode < 0x80,
        rd < 32,
        -0x100000 <= imm < 0x100000,
        imm % 2 == 0,
    ensures
        spec_opcode(w) == opcode,
        spec_rd(w) == rd,
        spec_imm_j(w) == imm,
{
    let iu: u32 = if imm >= 0 {
        imm as u32
    } else {
        (imm + 0x200000) as u32
    };
    proof {
        lemma_encode_j(opcode as u32, rd as u32, iu);
    }
    (opcode as u32) | ((rd as u32) << 7) | (((iu >> 12) & 0xff) << 12) | (((iu >> 11) & 0x1)
        << 20) | (((iu >> 1) & 0x3ff) << 21) | (((iu >> 20) & 0x1) << 31)
}

} // verus!
