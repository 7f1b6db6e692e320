//! End-to-end programs on the virtual machine, run until the
//! single-instruction self-loop halt heuristic fires.

use rv32sim::formats::{encode_btype, encode_itype, encode_jtype, encode_rtype, encode_utype,
    encode_stype};
use rv32sim::loader::{Error, Segment};
use rv32sim::machine::{Machine, MachineError};

const OP_ALU: u8 = 0b0110011;
const OP_ALUI: u8 = 0b0010011;
const OP_LOAD: u8 = 0b0000011;
const OP_STORE: u8 = 0b0100011;
const OP_BRANCH: u8 = 0b1100011;
const OP_LUI: u8 = 0b0110111;
const OP_JAL: u8 = 0b1101111;
const OP_SYSTEM: u8 = 0b1110011;

fn self_loop() -> u32 {
    // jal x0, 0: jumps to itself, so the PC stops moving.
    encode_jtype(OP_JAL, 0, 0)
}

fn program_bytes(words: &[u32]) -> Vec<u8> {
    let mut bytes = Vec::new();
    for w in words {
        bytes.extend_from_slice(&w.to_le_bytes());
    }
    bytes
}

fn machine_at(vaddr: u32, words: &[u32]) -> Machine {
    let data = program_bytes(words);
    let size = data.len() as u32;
    let segments = vec![Segment { vaddr, data }];
    Machine::new(vaddr, &segments, vaddr, size).unwrap()
}

fn run(m: &mut Machine) {
    assert_eq!(m.execute_until_loop(10_000).unwrap(), true);
}

#[test]
fn addi_chain() {
    let mut m = machine_at(0, &[
        encode_itype(OP_ALUI, 1, 0x0, 0, 5),
        encode_itype(OP_ALUI, 2, 0x0, 1, 7),
        self_loop(),
    ]);
    run(&mut m);
    assert_eq!(m.get_register(1), 5);
    assert_eq!(m.get_register(2), 12);
    assert_eq!(m.get_register(0), 0);
}

#[test]
fn writes_to_x0_are_ignored() {
    let mut m = machine_at(0, &[
        encode_itype(OP_ALUI, 0, 0x0, 0, 42),
        self_loop(),
    ]);
    run(&mut m);
    assert_eq!(m.get_register(0), 0);
}

#[test]
fn branch_taken_skips_instruction() {
    let mut m = machine_at(0, &[
        encode_itype(OP_ALUI, 1, 0x0, 0, 1),
        encode_itype(OP_ALUI, 2, 0x0, 0, 1),
        encode_btype(OP_BRANCH, 0x0, 1, 2, 8),
        encode_itype(OP_ALUI, 3, 0x0, 0, 99),
        encode_itype(OP_ALUI, 4, 0x0, 0, 7),
        self_loop(),
    ]);
    run(&mut m);
    assert_eq!(m.get_register(3), 0);
    assert_eq!(m.get_register(4), 7);
}

#[test]
fn branch_not_taken_falls_through() {
    let mut m = machine_at(0, &[
        encode_itype(OP_ALUI, 1, 0x0, 0, 1),
        encode_itype(OP_ALUI, 2, 0x0, 0, 2),
        encode_btype(OP_BRANCH, 0x0, 1, 2, 8),
        encode_itype(OP_ALUI, 3, 0x0, 0, 99),
        self_loop(),
    ]);
    run(&mut m);
    assert_eq!(m.get_register(3), 99);
}

#[test]
fn store_load_round_trip() {
    // x2 = 0xDEADBEEF via lui/addi; sw x2, 0(x1); lw x3, 0(x1).
    let mut m = machine_at(0, &[
        encode_utype(OP_LUI, 1, 0x10),
        encode_utype(OP_LUI, 2, 0xDEADC),
        encode_itype(OP_ALUI, 2, 0x0, 2, -273),
        encode_stype(OP_STORE, 0x2, 1, 2, 0),
        encode_itype(OP_LOAD, 3, 0x2, 1, 0),
        self_loop(),
    ]);
    run(&mut m);
    assert_eq!(m.get_register(1), 0x10000);
    assert_eq!(m.get_register(2), 0xDEADBEEFu32 as i32);
    assert_eq!(m.get_register(3), 0xDEADBEEFu32 as i32);
}

#[test]
fn jal_links_and_jumps() {
    let nop = encode_itype(OP_ALUI, 0, 0x0, 0, 0);
    let mut m = machine_at(0x1000, &[
        encode_jtype(OP_JAL, 1, 16),
        nop,
        nop,
        nop,
        self_loop(),
    ]);
    run(&mut m);
    assert_eq!(m.get_register(1), 0x1004);
    assert_eq!(m.pc(), 0x1010);
}

#[test]
fn shift_amount_is_masked_to_five_bits() {
    let mut m = machine_at(0, &[
        encode_itype(OP_ALUI, 1, 0x0, 0, 1),
        encode_itype(OP_ALUI, 2, 0x0, 0, 33),
        encode_rtype(OP_ALU, 3, 0x1, 1, 2, 0x00),
        self_loop(),
    ]);
    run(&mut m);
    assert_eq!(m.get_register(3), 2);
}

#[test]
fn alu_operations_compute() {
    let mut m = machine_at(0, &[
        encode_itype(OP_ALUI, 1, 0x0, 0, -6),
        encode_itype(OP_ALUI, 2, 0x0, 0, 3),
        encode_rtype(OP_ALU, 3, 0x0, 1, 2, 0x00),  // add: -3
        encode_rtype(OP_ALU, 4, 0x0, 1, 2, 0x20),  // sub: -9
        encode_rtype(OP_ALU, 5, 0x2, 1, 2, 0x00),  // slt: 1
        encode_rtype(OP_ALU, 6, 0x3, 1, 2, 0x00),  // sltu: 0 (-6 is huge unsigned)
        encode_rtype(OP_ALU, 7, 0x5, 1, 2, 0x20),  // sra: -1
        encode_itype(OP_ALUI, 8, 0x3, 0, -1),      // sltiu x8, x0, -1: 1
        self_loop(),
    ]);
    run(&mut m);
    assert_eq!(m.get_register(3), -3);
    assert_eq!(m.get_register(4), -9);
    assert_eq!(m.get_register(5), 1);
    assert_eq!(m.get_register(6), 0);
    assert_eq!(m.get_register(7), -1);
    assert_eq!(m.get_register(8), 1);
}

#[test]
fn auipc_adds_pc() {
    let nop = encode_itype(OP_ALUI, 0, 0x0, 0, 0);
    // auipc x1, 0 at address 0x100 yields 0x100; auipc x2, 1 at 0x104
    // yields 0x1104.
    let mut m = machine_at(0x100, &[
        encode_utype(0b0010111, 1, 0),
        encode_utype(0b0010111, 2, 1),
        nop,
        self_loop(),
    ]);
    run(&mut m);
    assert_eq!(m.get_register(1), 0x100);
    assert_eq!(m.get_register(2), 0x1104);
}

#[test]
fn byte_and_half_loads_sign_extend() {
    let mut m = machine_at(0, &[
        encode_utype(OP_LUI, 1, 0x10),
        encode_itype(OP_ALUI, 2, 0x0, 0, -1),     // x2 = 0xFFFFFFFF
        encode_stype(OP_STORE, 0x0, 1, 2, 0),     // sb: memory[0x10000] = 0xFF
        encode_itype(OP_LOAD, 3, 0x0, 1, 0),      // lb: -1
        encode_itype(OP_LOAD, 4, 0x4, 1, 0),      // lbu: 255
        encode_stype(OP_STORE, 0x1, 1, 2, 4),     // sh at +4
        encode_itype(OP_LOAD, 5, 0x1, 1, 4),      // lh: -1
        encode_itype(OP_LOAD, 6, 0x5, 1, 4),      // lhu: 0xFFFF
        self_loop(),
    ]);
    run(&mut m);
    assert_eq!(m.get_register(3), -1);
    assert_eq!(m.get_register(4), 255);
    assert_eq!(m.get_register(5), -1);
    assert_eq!(m.get_register(6), 0xFFFF);
}

#[test]
fn absent_pc_fails_with_address_error() {
    let mut m = machine_at(0, &[self_loop()]);
    // Jump the machine off the table by stepping at a PC with no
    // instruction: build a program whose first instruction jumps to an
    // address outside the text.
    let mut far = machine_at(0, &[encode_jtype(OP_JAL, 0, 0x100), self_loop()]);
    assert_eq!(far.execute_next_instruction(), Ok(()));
    assert_eq!(far.execute_next_instruction(), Err(MachineError::AddressError(0x100)));
    // The self-loop machine halts cleanly.
    assert_eq!(m.execute_until_loop(10).unwrap(), true);
}

#[test]
fn load_outside_memory_fails_with_memory_error() {
    let mut m = machine_at(0, &[
        encode_itype(OP_ALUI, 1, 0x0, 0, -1),
        encode_itype(OP_LOAD, 5, 0x2, 1, 0),
        self_loop(),
    ]);
    let r = m.execute_until_loop(10);
    assert_eq!(r.unwrap_err(), MachineError::MemoryError(0xFFFF_FFFF));
    // The failed load leaves x5 unchanged.
    assert_eq!(m.get_register(5), 0);
}

#[test]
fn ecall_is_unimplemented() {
    let mut m = machine_at(0, &[encode_itype(OP_SYSTEM, 0, 0x0, 0, 0), self_loop()]);
    assert_eq!(m.execute_until_loop(10).unwrap_err(), MachineError::UnimplementedError(0));
}

#[test]
fn budget_exhaustion_reports_not_halted() {
    // A two-instruction cycle never passes the self-loop test.
    let mut m = machine_at(0, &[
        encode_jtype(OP_JAL, 0, 4),
        encode_jtype(OP_JAL, 0, -4),
    ]);
    assert_eq!(m.execute_until_loop(100).unwrap(), false);
}

#[test]
fn stack_pointer_starts_at_top_of_memory() {
    let m = machine_at(0, &[self_loop()]);
    assert_eq!(m.get_register(2), 0x40_0000);
}

#[test]
fn construction_rejects_text_outside_memory() {
    let data = program_bytes(&[self_loop()]);
    let segments = vec![Segment { vaddr: 0, data }];
    let r = Machine::new(0, &segments, 0xFFFF_0000, 0x2_0000);
    assert_eq!(
        r.unwrap_err(),
        MachineError::ElfError(Error::SegmentOutOfBounds(0xFFFF_0000))
    );
}

#[test]
fn construction_rejects_unknown_text_word() {
    let data = program_bytes(&[self_loop(), 0x0000_0000]);
    let segments = vec![Segment { vaddr: 0, data }];
    let r = Machine::new(0, &segments, 0, 8);
    assert_eq!(
        r.unwrap_err(),
        MachineError::ElfError(Error::InstructionParseError(
            rv32sim::instruction::Error::UnknownInstruction(0)
        ))
    );
}

#[test]
fn text_with_short_tail_ignores_it() {
    // A text size of 6 decodes a single instruction; the 2-byte tail is
    // dropped, so the table holds exactly one entry and the machine
    // halts on it.
    let data = program_bytes(&[self_loop(), 0xFFFF_FFFF]);
    let segments = vec![Segment { vaddr: 0, data }];
    let mut m = Machine::new(0, &segments, 0, 6).unwrap();
    assert_eq!(m.execute_until_loop(10).unwrap(), true);
    assert_eq!(m.pc(), 0);
}

#[test]
fn addi_zero_moves_register() {
    let mut m = machine_at(0, &[
        encode_itype(OP_ALUI, 1, 0x0, 0, -321),
        encode_itype(OP_ALUI, 3, 0x0, 1, 0),
        self_loop(),
    ]);
    run(&mut m);
    assert_eq!(m.get_register(3), -321);
}

#[test]
fn sub_and_xor_of_a_register_with_itself_yield_zero() {
    let mut m = machine_at(0, &[
        encode_itype(OP_ALUI, 1, 0x0, 0, -77),
        encode_itype(OP_ALUI, 3, 0x0, 0, 1),
        encode_itype(OP_ALUI, 4, 0x0, 0, 1),
        encode_rtype(OP_ALU, 3, 0x0, 1, 1, 0x20),  // sub x3, x1, x1
        encode_rtype(OP_ALU, 4, 0x4, 1, 1, 0x00),  // xor x4, x1, x1
        self_loop(),
    ]);
    run(&mut m);
    assert_eq!(m.get_register(3), 0);
    assert_eq!(m.get_register(4), 0);
}

#[test]
fn lui_zero_yields_zero() {
    let mut m = machine_at(0, &[
        encode_itype(OP_ALUI, 1, 0x0, 0, 55),
        encode_utype(OP_LUI, 1, 0),
        self_loop(),
    ]);
    run(&mut m);
    assert_eq!(m.get_register(1), 0);
}

#[test]
fn last_byte_of_memory_is_usable_but_a_halfword_is_not() {
    // x1 = MEMORY_SIZE - 1 = 0x3FFFFF, the last valid address.
    let mut m = machine_at(0, &[
        encode_utype(OP_LUI, 1, 0x400),
        encode_itype(OP_ALUI, 1, 0x0, 1, -1),
        encode_itype(OP_ALUI, 5, 0x0, 0, 0x5A),
        encode_stype(OP_STORE, 0x0, 1, 5, 0),   // sb at 0x3FFFFF succeeds
        encode_itype(OP_LOAD, 6, 0x4, 1, 0),    // lbu reads it back
        self_loop(),
    ]);
    run(&mut m);
    assert_eq!(m.get_register(6), 0x5A);

    // The same program with a halfword store fails: the two-byte range
    // reaches past the end, and the error carries the start address.
    let mut m = machine_at(0, &[
        encode_utype(OP_LUI, 1, 0x400),
        encode_itype(OP_ALUI, 1, 0x0, 1, -1),
        encode_itype(OP_ALUI, 5, 0x0, 0, 0x5A),
        encode_stype(OP_STORE, 0x1, 1, 5, 0),   // sh at 0x3FFFFF
        self_loop(),
    ]);
    assert_eq!(
        m.execute_until_loop(10).unwrap_err(),
        MachineError::MemoryError(0x3F_FFFF)
    );

    // A halfword load at the same address reports the first byte that is
    // actually out of range.
    let mut m = machine_at(0, &[
        encode_utype(OP_LUI, 1, 0x400),
        encode_itype(OP_ALUI, 1, 0x0, 1, -1),
        encode_itype(OP_LOAD, 5, 0x1, 1, 0),    // lh at 0x3FFFFF
        self_loop(),
    ]);
    assert_eq!(
        m.execute_until_loop(10).unwrap_err(),
        MachineError::MemoryError(0x40_0000)
    );
}
