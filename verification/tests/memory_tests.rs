//! The byte image: segment overlay, bounds checks, and width/signedness
//! round trips.

use rv32sim::loader::{Error, Segment};
use rv32sim::machine::MachineError;
use rv32sim::memory::Memory;

fn image(size: usize) -> Memory {
    Memory::load_image(size, &Vec::new()).unwrap()
}

#[test]
fn load_image_zeroes_and_overlays() {
    let segments = vec![
        Segment { vaddr: 2, data: vec![0xAA, 0xBB] },
        Segment { vaddr: 3, data: vec![0xCC] },
    ];
    let mem = Memory::load_image(8, &segments).unwrap();
    assert_eq!(mem.read_u8(0).unwrap(), 0);
    assert_eq!(mem.read_u8(1).unwrap(), 0);
    assert_eq!(mem.read_u8(2).unwrap(), 0xAA);
    // Overlapping segments overwrite in iteration order.
    assert_eq!(mem.read_u8(3).unwrap(), 0xCC);
    assert_eq!(mem.read_u8(4).unwrap(), 0);
}

#[test]
fn load_image_rejects_overrunning_segment() {
    let segments = vec![Segment { vaddr: 6, data: vec![1, 2, 3] }];
    let r = Memory::load_image(8, &segments);
    assert_eq!(r.unwrap_err(), Error::SegmentOutOfBounds(6));
}

#[test]
fn byte_round_trip() {
    let mut mem = image(16);
    mem.write_u8(5, 0x7F).unwrap();
    assert_eq!(mem.read_u8(5).unwrap(), 0x7F);
    assert_eq!(mem.read_i8(5).unwrap(), 127);
    mem.write_u8(5, 0x80).unwrap();
    assert_eq!(mem.read_u8(5).unwrap(), 0x80);
    assert_eq!(mem.read_i8(5).unwrap(), -128);
}

#[test]
fn halfword_round_trip() {
    let mut mem = image(16);
    mem.write_u16(4, 0xBEEF).unwrap();
    assert_eq!(mem.read_u16(4).unwrap(), 0xBEEF);
    assert_eq!(mem.read_i16(4).unwrap(), -16657);
    // Little-endian byte order.
    assert_eq!(mem.read_u8(4).unwrap(), 0xEF);
    assert_eq!(mem.read_u8(5).unwrap(), 0xBE);
}

#[test]
fn word_round_trip() {
    let mut mem = image(16);
    mem.write_u32(8, 0xDEADBEEF).unwrap();
    assert_eq!(mem.read_u32(8).unwrap(), 0xDEADBEEF);
    assert_eq!(mem.read_i32(8).unwrap(), -559038737);
    assert_eq!(mem.read_u8(8).unwrap(), 0xEF);
    assert_eq!(mem.read_u8(11).unwrap(), 0xDE);
}

#[test]
fn unaligned_access_succeeds_in_range() {
    let mut mem = image(16);
    mem.write_u32(5, 0x0102_0304).unwrap();
    assert_eq!(mem.read_u32(5).unwrap(), 0x0102_0304);
    assert_eq!(mem.read_u16(6).unwrap(), 0x0203);
}

#[test]
fn stores_leave_other_bytes_unchanged() {
    let mut mem = image(16);
    mem.write_u8(0, 0x11).unwrap();
    mem.write_u8(3, 0x22).unwrap();
    mem.write_u16(1, 0xAABB).unwrap();
    assert_eq!(mem.read_u8(0).unwrap(), 0x11);
    assert_eq!(mem.read_u8(3).unwrap(), 0x22);
    mem.write_u32(4, 0x55667788).unwrap();
    assert_eq!(mem.read_u8(3).unwrap(), 0x22);
    assert_eq!(mem.read_u8(8).unwrap(), 0);
}

#[test]
fn byte_succeeds_and_halfword_fails_at_last_address() {
    let mut mem = image(16);
    assert!(mem.write_u8(15, 9).is_ok());
    assert_eq!(mem.read_u8(15).unwrap(), 9);
    // A halfword starting at the last byte reaches past the end: the
    // read fails with the first offending address, the write with its
    // start address.
    assert_eq!(mem.read_u16(15).unwrap_err(), MachineError::MemoryError(16));
    assert_eq!(mem.write_u16(15, 1).unwrap_err(), MachineError::MemoryError(15));
}

#[test]
fn out_of_range_accesses_report_first_offending_address() {
    let mut mem = image(16);
    assert_eq!(mem.read_u8(16).unwrap_err(), MachineError::MemoryError(16));
    assert_eq!(mem.read_u32(14).unwrap_err(), MachineError::MemoryError(16));
    assert_eq!(mem.read_u32(100).unwrap_err(), MachineError::MemoryError(100));
    assert_eq!(mem.write_u32(14, 0).unwrap_err(), MachineError::MemoryError(14));
    // A failed store leaves the image unchanged.
    assert_eq!(mem.read_u16(14).unwrap(), 0);
}
