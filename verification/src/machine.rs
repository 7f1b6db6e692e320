//! The virtual machine: 32 integer registers, a program counter, a byte
//! image of memory, and the decoded instruction table, driven by the
//! fetch-decode-execute-writeback cycle.
//!
//! After every retired instruction, register 0 reads as 0: any write to
//! it is discarded before the program counter advances.

use std::collections::HashMap;

use vstd::prelude::*;

use crate::executor;
use crate::formats::{
    spec_imm_b, spec_imm_i, spec_imm_j, spec_imm_s, spec_imm_u, spec_raw_of, spec_rd, spec_rs1,
    spec_rs2, InstructionFormat,
};
use crate::instruction::Instruction;
use crate::loader;
use crate::loader::spec_load_table;
use crate::memory::{spec_overlay, zero_image, Memory};

verus! {

broadcast use vstd::std_specs::hash::group_hash_axioms;

/// The size of the flat virtual memory image in bytes (4 MiB).
pub const MEMORY_SIZE: usize = 4 * 1024 * 1024;

/// A fatal condition while building or running the machine.
#[derive(Debug, Clone, PartialEq, Eq)]
pub enum MachineError {
    /// The program counter points to an address with no decoded
    /// instruction.
    AddressError(u32),
    /// A load or store reached a byte outside the memory image; carries
    /// the first offending virtual address.
    MemoryError(u32),
    /// Loading the program image or decoding its text failed.
    ElfError(loader::Error),
    /// An `ecall` or `ebreak` was reached; both are recognised but not
    /// implemented. Carries the program counter of the instruction.
    UnimplementedError(u32),
}

/// The mathematical state of the machine: program counter, register
/// values, memory image, and the instruction table keyed by virtual
/// address.
pub ghost struct MachineView {
    pub pc: u32,
    pub regs: Seq<i32>,
    pub mem: Seq<u8>,
    pub itable: Map<u32, Instruction>,
}

impl MachineView {
    /// Well-formed machine state: 32 registers with register 0 reading
    /// as 0, a full-size memory image, and every table entry leaving
    /// room for its 4 bytes.
    pub open spec fn wf(self) -> bool {
        &&& self.regs.len() == 32
        &&& self.regs[0] == 0
        &&& self.mem.len() == MEMORY_SIZE
        &&& forall|a: u32| self.itable.contains_key(a) ==> a + 4 <= MEMORY_SIZE
        &&& forall|a: u32| self.itable.contains_key(a) ==> (#[trigger] self.itable[a]).wf()
    }
}

/// The registers at construction: all zero except the stack pointer
/// (register 2), which starts at the top of memory, 16-byte aligned.
pub open spec fn spec_initial_regs() -> Seq<i32> {
    Seq::new(
        32,
        |i: int|
            if i == 2 {
                0x40_0000i32
            } else {
                0i32
            },
    )
}

/// The program counter after a retired instruction: the requested target
/// of a jump, or the default advance by 4.
pub open spec fn spec_next_pc(pc: u32, jump: Option<u32>) -> u32 {
    match jump {
        Some(t) => t,
        None => vstd::wrapping::u32_specs::wrapping_add(pc, 4),
    }
}

/// The machine state after a retired instruction: the destination slot
/// takes its new value, register 0 is forced back to 0, memory takes its
/// new image, and the program counter advances.
pub open spec fn spec_retire(
    m: MachineView,
    rd: u32,
    rdv: i32,
    mem2: Seq<u8>,
    jump: Option<u32>,
) -> MachineView {
    MachineView {
        pc: spec_next_pc(m.pc, jump),
        regs: m.regs.update(rd as int, rdv).update(0, 0),
        mem: mem2,
        itable: m.itable,
    }
}

/// As `spec_retire`, for the formats that write no register; register 0
/// is still forced back to 0.
pub open spec fn spec_retire_no_rd(m: MachineView, mem2: Seq<u8>, jump: Option<u32>) -> MachineView {
    MachineView {
        pc: spec_next_pc(m.pc, jump),
        regs: m.regs.update(0, 0),
        mem: mem2,
        itable: m.itable,
    }
}

/// One fetch-execute-writeback step as a mathematical function. An
/// address outside the instruction table, an out-of-range memory access
/// or a reached `ecall`/`ebreak` is an error and leaves the state as it
/// was.
pub open spec fn spec_step(m: MachineView) -> Result<MachineView, MachineError> {
    if !m.itable.contains_key(m.pc) {
        Err(MachineError::AddressError(m.pc))
    } else {
        let inst = m.itable[m.pc];
        let w = spec_raw_of(inst.format);
        match inst.format {
            InstructionFormat::R(_) => {
                let rs1 = m.regs[spec_rs1(w) as int];
                let rs2 = m.regs[spec_rs2(w) as int];
                Ok(
                    spec_retire(
                        m,
                        spec_rd(w),
                        executor::spec_rtype_result(inst.op, rs1, rs2),
                        m.mem,
                        None,
                    ),
                )
            },
            InstructionFormat::I(_) => {
                let rs1 = m.regs[spec_rs1(w) as int];
                let rd_old = m.regs[spec_rd(w) as int];
                let imm = spec_imm_i(w) as i32;
                let (res, rdv) = executor::spec_itype(inst.op, m.pc, rd_old, rs1, imm, m.mem);
                match res {
                    Ok(jump) => Ok(spec_retire(m, spec_rd(w), rdv, m.mem, jump)),
                    Err(e) => Err(e),
                }
            },
            InstructionFormat::S(_) => {
                let rs1 = m.regs[spec_rs1(w) as int];
                let rs2 = m.regs[spec_rs2(w) as int];
                let imm = spec_imm_s(w) as i32;
                let (res, mem2) = executor::spec_stype(inst.op, rs1, rs2, imm, m.mem);
                match res {
                    Ok(jump) => Ok(spec_retire_no_rd(m, mem2, jump)),
                    Err(e) => Err(e),
                }
            },
            InstructionFormat::U(_) => {
                let imm = spec_imm_u(w) as i32;
                Ok(
                    spec_retire(
                        m,
                        spec_rd(w),
                        executor::spec_utype_result(inst.op, m.pc, imm),
                        m.mem,
                        None,
                    ),
                )
            },
            InstructionFormat::B(_) => {
                let rs1 = m.regs[spec_rs1(w) as int];
                let rs2 = m.regs[spec_rs2(w) as int];
                let imm = spec_imm_b(w) as i32;
                Ok(
                    spec_retire_no_rd(
                        m,
                        m.mem,
                        executor::spec_btype_target(inst.op, m.pc, rs1, rs2, imm),
                    ),
                )
            },
            InstructionFormat::J(_) => {
                let imm = spec_imm_j(w) as i32;
                Ok(
                    spec_retire(
                        m,
                        spec_rd(w),
                        executor::link_of(m.pc),
                        m.mem,
                        Some(executor::branch_target(m.pc, imm)),
                    ),
                )
            },
        }
    }
}

/// The next-PC request of the instruction at the current program
/// counter, for a step that retires: `Some` for a jump or a taken
/// branch, `None` for the default advance.
pub open spec fn spec_jump_request(m: MachineView) -> Option<u32> {
    if !m.itable.contains_key(m.pc) {
        None
    } else {
        let inst = m.itable[m.pc];
        let w = spec_raw_of(inst.format);
        match inst.format {
            InstructionFormat::R(_) => None,
            InstructionFormat::I(_) => {
                let rs1 = m.regs[spec_rs1(w) as int];
                let rd_old = m.regs[spec_rd(w) as int];
                let imm = spec_imm_i(w) as i32;
                match executor::spec_itype(inst.op, m.pc, rd_old, rs1, imm, m.mem) {
                    (Ok(jump), _) => jump,
                    (Err(_), _) => None,
                }
            },
            InstructionFormat::S(_) => None,
            InstructionFormat::U(_) => None,
            InstructionFormat::B(_) => {
                let rs1 = m.regs[spec_rs1(w) as int];
                let rs2 = m.regs[spec_rs2(w) as int];
                executor::spec_btype_target(inst.op, m.pc, rs1, rs2, (spec_imm_b(w) as i32))
            },
            InstructionFormat::J(_) => Some(
                executor::branch_target(m.pc, (spec_imm_j(w) as i32)),
            ),
        }
    }
}

/// After every retired instruction, register 0 reads as 0.
pub proof fn lemma_step_keeps_x0_zero(m: MachineView)
    requires
        m.regs.len() == 32,
        spec_step(m) matches Ok(_),
    ensures
        spec_step(m)->Ok_0.regs[0] == 0,
{
    if m.itable.contains_key(m.pc) {
        crate::formats::lemma_field_bounds(spec_raw_of(m.itable[m.pc].format));
    }
}

/// A retired instruction that requested no jump advances the program
/// counter by exactly 4 — so a 4-aligned program counter stays 4-aligned
/// — and one that requested a jump lands exactly on its target.
pub proof fn lemma_step_pc_advance(m: MachineView)
    requires
        m.wf(),
        spec_step(m) matches Ok(_),
    ensures
        ({
            let m2 = spec_step(m)->Ok_0;
            match spec_jump_request(m) {
                None => m2.pc == m.pc + 4 && (m.pc % 4 == 0 ==> m2.pc % 4 == 0),
                Some(t) => m2.pc == t,
            }
        }),
{
    assert(m.itable.contains_key(m.pc));
    assert(m.pc + 4 <= MEMORY_SIZE);
}

/// Running `n` steps from `m`; the first failing step decides the error.
pub open spec fn spec_run(m: MachineView, n: nat) -> Result<MachineView, MachineError>
    decreases n,
{
    if n == 0 {
        Ok(m)
    } else {
        match spec_step(m) {
            Ok(m2) => spec_run(m2, (n - 1) as nat),
            Err(e) => Err(e),
        }
    }
}

/// Running one more step runs the previous steps first.
pub proof fn lemma_run_succ(m: MachineView, n: nat)
    ensures
        spec_run(m, n + 1) == (match spec_run(m, n) {
            Ok(p) => spec_step(p),
            Err(e) => Err(e),
        }),
    decreases n,
{
    if n == 0 {
        assert(spec_run(m, 0) == Ok::<MachineView, MachineError>(m));
        match spec_step(m) {
            Ok(m2) => {
                assert(spec_run(m2, 0) == Ok::<MachineView, MachineError>(m2));
            },
            Err(_) => {},
        }
    } else {
        match spec_step(m) {
            Ok(m2) => {
                lemma_run_succ(m2, (n - 1) as nat);
            },
            Err(_) => {},
        }
    }
}

/// The whole construction as a mathematical function: overlay the
/// loadable segments on a zeroed image, decode the text range, zero the
/// registers but for the stack pointer, and start at the entry point.
pub open spec fn spec_build(
    entry_point: u32,
    segs: Seq<loader::Segment>,
    text_addr: u32,
    text_size: u32,
) -> Result<MachineView, loader::Error> {
    match spec_overlay(zero_image(MEMORY_SIZE as nat), segs, segs.len()) {
        Err(e) => Err(e),
        Ok(mem) => {
            if text_addr + text_size > MEMORY_SIZE {
                Err(loader::Error::SegmentOutOfBounds(text_addr))
            } else {
                match loader::spec_load_table(mem, text_addr, (text_size / 4) as nat) {
                    Err(e) => Err(e),
                    Ok(t) => Ok(
                        MachineView {
                            pc: entry_point,
                            regs: spec_initial_regs(),
                            mem,
                            itable: t,
                        },
                    ),
                }
            }
        },
    }
}

/// Every key of a decoded table lies inside the text range it was
/// decoded from.
proof fn lemma_table_keys(mem: Seq<u8>, base: u32, n: nat)
    requires
        base + 4 * n <= 0x1_0000_0000,
        spec_load_table(mem, base, n) matches Ok(_),
    ensures
        forall|a: u32|
            spec_load_table(mem, base, n)->Ok_0.contains_key(a) ==> base <= a && a + 4 <= base + 4
                * n,
        forall|a: u32|
            spec_load_table(mem, base, n)->Ok_0.contains_key(a) ==> (#[trigger] spec_load_table(
                mem,
                base,
                n,
            )->Ok_0[a]).wf(),
    decreases n,
{
    if n > 0 {
        match spec_load_table(mem, base, (n - 1) as nat) {
            Ok(_) => {
                lemma_table_keys(mem, base, (n - 1) as nat);
            },
            Err(_) => {},
        }
    }
}

/// The virtual CPU plus its memory image and decoded program.
#[derive(Debug)]
pub struct Machine {
    pc: u32,
    registers: Vec<i32>,
    instructions: HashMap<u32, Instruction>,
    memory: Memory,
}

impl View for Machine {
    type V = MachineView;

    closed spec fn view(&self) -> MachineView {
        MachineView {
            pc: self.pc,
            regs: self.registers@,
            mem: self.memory@,
            itable: self.instructions@,
        }
    }
}

impl Machine {
    /// The executable state is well-formed exactly when its mathematical
    /// view is.
    pub open spec fn wf(&self) -> bool {
        self@.wf()
    }

    /// Build a machine from the values the ELF front end supplies: the
    /// entry point, the loadable segments, and the address and size of
    /// the text section to decode. Overlays the segments on a zeroed
    /// 4 MiB image, decodes the text 4 bytes at a time, zeroes the
    /// registers, points the stack pointer at the 16-byte-aligned top of
    /// memory, and starts at the entry point.
    pub fn new(
        entry_point: u32,
        segments: &Vec<loader::Segment>,
        text_addr: u32,
        text_size: u32,
    ) -> (r: Result<Machine, MachineError>)
        ensures
            ({
                let b = spec_build(entry_point, segments@, text_addr, text_size);
                match r {
                    Ok(m) => b == Ok::<MachineView, loader::Error>(m@) && m.wf(),
                    Err(e) => e matches MachineError::ElfError(le) && b == Err::<
                        MachineView,
                        loader::Error,
                    >(le),
                }
            }),
    {
        let memory = match Memory::load_image(MEMORY_SIZE, segments) {
            Ok(m) => m,
            Err(e) => {
                return Err(MachineError::ElfError(e));
            },
        };
        let instructions = match loader::load_section(text_addr, text_size, &memory) {
            Ok(t) => t,
            Err(e) => {
                return Err(MachineError::ElfError(e));
            },
        };
        let mut registers: Vec<i32> = vec![0i32; 32];
        let stack_top: i32 = MEMORY_SIZE as i32;
        let sp: i32 = stack_top & !0xF;
        proof {
            assert(0x40_0000i32 & !0xFi32 == 0x40_0000i32) by (bit_vector);
        }
        registers[2] = sp;
        proof {
            assert(registers@ =~= spec_initial_regs());
            lemma_table_keys(memory@, text_addr, (text_size / 4) as nat);
            assert(4 * ((text_size / 4) as nat) <= text_size) by (nonlinear_arith);
        }
        Ok(Machine { pc: entry_point, registers, instructions, memory })
    }

    /// The current program counter.
    pub fn pc(&self) -> (r: u32)
        ensures
            r == self@.pc,
    {
        self.pc
    }

    /// The current value of a register.
    pub fn get_register(&self, index: u8) -> (r: i32)
        requires
            index < 32,
            self.wf(),
        ensures
            r == self@.regs[index as int],
    {
        self.registers[index as usize]
    }

    /// Write a register slot; the register 0 hardwire is the driver's
    /// business, not this function's.
    fn set_register(&mut self, index: u8, value: i32)
        requires
            index < 32,
            old(self)@.regs.len() == 32,
        ensures
            final(self)@.pc == old(self)@.pc,
            final(self)@.mem == old(self)@.mem,
            final(self)@.itable == old(self)@.itable,
            final(self)@.regs == old(self)@.regs.update(index as int, value),
    {
        self.registers[index as usize] = value;
    }

    /// Fetch, execute and retire the instruction at the current program
    /// counter: look it up in the table, extract its operands, dispatch
    /// on its format, discard any write to register 0, and advance the
    /// program counter — to the requested target of a jump, by 4
    /// otherwise. A failing step leaves the machine unchanged.
    pub fn execute_next_instruction(&mut self) -> (r: Result<(), MachineError>)
        requires
            old(self).wf(),
        ensures
            final(self).wf(),
            match r {
                Ok(_) => spec_step(old(self)@) == Ok::<MachineView, MachineError>(final(self)@),
                Err(e) => spec_step(old(self)@) == Err::<MachineView, MachineError>(e)
                    && final(self)@ == old(self)@,
            },
    {
        let pc = self.pc;
        let inst: Instruction = match self.instructions.get(&pc) {
            Some(i) => *i,
            None => {
                return Err(MachineError::AddressError(pc));
            },
        };
        let format = inst.format();
        let op = inst.op();
        proof {
            crate::formats::lemma_field_bounds(spec_raw_of(inst.format));
        }

        let jump: Option<u32> = match format {
            InstructionFormat::R(rtype) => {
                let rs1 = self.get_register(rtype.rs1());
                let rs2 = self.get_register(rtype.rs2());
                let rd_index = rtype.rd();
                let mut rd = self.get_register(rd_index);
                let j = match executor::execute_rtype(&op, &mut rd, rs1, rs2) {
                    Ok(j) => j,
                    Err(e) => {
                        return Err(e);
                    },
                };
                self.set_register(rd_index, rd);
                j
            },
            InstructionFormat::I(itype) => {
                let rs1 = self.get_register(itype.rs1());
                let rd_index = itype.rd();
                let mut rd = self.get_register(rd_index);
                let imm = match format.immediate_value() {
                    Some(v) => v,
                    None => {
                        proof {
                            assert(false);
                        }
                        0
                    },
                };
                let j = match executor::execute_itype(&op, pc, &mut rd, rs1, imm, &self.memory) {
                    Ok(j) => j,
                    Err(e) => {
                        return Err(e);
                    },
                };
                self.set_register(rd_index, rd);
                j
            },
            InstructionFormat::S(stype) => {
                let rs1 = self.get_register(stype.rs1());
                let rs2 = self.get_register(stype.rs2());
                let imm = match format.immediate_value() {
                    Some(v) => v,
                    None => {
                        proof {
                            assert(false);
                        }
                        0
                    },
                };
                match executor::execute_stype(&op, rs1, rs2, imm, &mut self.memory) {
                    Ok(j) => j,
                    Err(e) => {
                        return Err(e);
                    },
                }
            },
            InstructionFormat::U(utype) => {
                let rd_index = utype.rd();
                let mut rd = self.get_register(rd_index);
                let imm = match format.immediate_value() {
                    Some(v) => v,
                    None => {
                        proof {
                            assert(false);
                        }
                        0
                    },
                };
                let j = match executor::execute_utype(&op, pc, &mut rd, imm) {
                    Ok(j) => j,
                    Err(e) => {
                        return Err(e);
                    },
                };
                self.set_register(rd_index, rd);
                j
            },
            InstructionFormat::B(btype) => {
                let rs1 = self.get_register(btype.rs1());
                let rs2 = self.get_register(btype.rs2());
                let imm = match format.immediate_value() {
                    Some(v) => v,
                    None => {
                        proof {
                            assert(false);
                        }
                        0
                    },
                };
                match executor::execute_btype(&op, pc, rs1, rs2, imm) {
                    Ok(j) => j,
                    Err(e) => {
                        return Err(e);
                    },
                }
            },
            InstructionFormat::J(jtype) => {
                let rd_index = jtype.rd();
                let mut rd = self.get_register(rd_index);
                let imm = match format.immediate_value() {
                    Some(v) => v,
                    None => {
                        proof {
                            assert(false);
                        }
                        0
                    },
                };
                let j = match executor::execute_jtype(&op, pc, &mut rd, imm) {
                    Ok(j) => j,
                    Err(e) => {
                        return Err(e);
                    },
                };
                self.set_register(rd_index, rd);
                j
            },
        };

        // Hardwire register 0 back to 0 before the program counter moves.
        self.set_register(0, 0);

        match jump {
            Some(target) => {
                self.pc = target;
            },
            None => {
                self.pc = pc + 4;
            },
        }
        Ok(())
    }

    /// Step repeatedly until the program counter does not change across a
    /// step — the halt heuristic for a single-instruction self-loop — or
    /// until `max_steps` instructions have retired. Returns `Ok(true)`
    /// when the self-loop was observed, `Ok(false)` when the budget ran
    /// out first; a fatal error propagates out.
    pub fn execute_until_loop(&mut self, max_steps: u64) -> (r: Result<bool, MachineError>)
        requires
            old(self).wf(),
        ensures
            final(self).wf(),
            match r {
                Ok(halted) => if halted {
                    exists|n: nat, prev: MachineView|
                        n < max_steps && spec_run(old(self)@, n) == Ok::<MachineView, MachineError>(
                            prev,
                        ) && spec_step(prev) == Ok::<MachineView, MachineError>(final(self)@)
                            && prev.pc == final(self)@.pc
                } else {
                    spec_run(old(self)@, max_steps as nat) == Ok::<MachineView, MachineError>(
                        final(self)@,
                    )
                },
                Err(e) => exists|n: nat|
                    n <= max_steps && spec_run(old(self)@, n) == Err::<MachineView, MachineError>(
                        e,
                    ),
            },
    {
        let mut steps: u64 = 0;
        while steps < max_steps
            invariant
                self.wf(),
                steps <= max_steps,
                spec_run(old(self)@, steps as nat) == Ok::<MachineView, MachineError>(self@),
            decreases max_steps - steps,
        {
            let ghost pre = self@;
            let current_pc = self.pc();
            match self.execute_next_instruction() {
                Ok(_) => {},
                Err(e) => {
                    proof {
                        lemma_run_succ(old(self)@, steps as nat);
                        assert(spec_run(old(self)@, (steps + 1) as nat) == Err::<
                            MachineView,
                            MachineError,
                        >(e));
                    }
                    return Err(e);
                },
            }
            proof {
                lemma_run_succ(old(self)@, steps as nat);
            }
            steps = steps + 1;
            if self.pc() == current_pc {
                proof {
                    assert(spec_run(old(self)@, (steps - 1) as nat) == Ok::<
                        MachineView,
                        MachineError,
                    >(pre) && spec_step(pre) == Ok::<MachineView, MachineError>(self@) && pre.pc
                        == self@.pc);
                }
                return Ok(true);
            }
        }
        Ok(false)
    }
}

} // verus!
