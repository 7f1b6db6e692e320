//! The flat virtual memory image: a fixed-size, zero-initialised byte
//! vector with bounds-checked little-endian access in byte, halfword and
//! word widths, signed and unsigned, and the loader that overlays segment
//! payloads at their virtual addresses.
//!
//! Alignment is never enforced: an access succeeds as long as every
//! touched byte is in range, and fails with the first offending address
//! otherwise.

use vstd::prelude::*;

use crate::loader::{Error, Segment};
use crate::machine::MachineError;

verus! {

// ---------------------------------------------------------------------------
// Little-endian views of the byte image, and the sign readings.
// ---------------------------------------------------------------------------

/// The unsigned 16-bit value at byte address `a`, little-endian.
pub open spec fn word16_at(mem: Seq<u8>, a: int) -> int {
    mem[a] + 0x100 * mem[a + 1]
}

/// The unsigned 32-bit value at byte address `a`, little-endian.
pub open spec fn word32_at(mem: Seq<u8>, a: int) -> int {
    mem[a] + 0x100 * mem[a + 1] + 0x1_0000 * mem[a + 2] + 0x100_0000 * mem[a + 3]
}

/// An 8-bit value read as two's-complement signed.
pub open spec fn sign8(v: int) -> int {
    if v < 0x80 {
        v
    } else {
        v - 0x100
    }
}

/// A 16-bit value read as two's-complement signed.
pub open spec fn sign16(v: int) -> int {
    if v < 0x8000 {
        v
    } else {
        v - 0x1_0000
    }
}

/// A 32-bit value read as two's-complement signed.
pub open spec fn sign32(v: int) -> int {
    if v < 0x8000_0000 {
        v
    } else {
        v - 0x1_0000_0000
    }
}

/// The image after storing the two little-endian bytes of `v` at `a`.
pub open spec fn store16(mem: Seq<u8>, a: int, v: u16) -> Seq<u8> {
    mem.update(a, ((v % 0x100) as u8)).update(a + 1, ((v / 0x100) as u8))
}

/// The image after storing the four little-endian bytes of `v` at `a`.
pub open spec fn store32(mem: Seq<u8>, a: int, v: u32) -> Seq<u8> {
    mem.update(a, ((v % 0x100) as u8)).update(a + 1, (((v / 0x100) % 0x100) as u8)).update(
        a + 2,
        (((v / 0x1_0000) % 0x100) as u8),
    ).update(a + 3, ((v / 0x100_0000) as u8))
}

/// The first out-of-range address of an access that starts at `addr` and
/// reads or writes upward: `addr` itself if it is already past the end,
/// the end of the image otherwise.
pub open spec fn oob_addr(addr: u32, len: int) -> u32 {
    if addr >= len {
        addr
    } else {
        len as u32
    }
}

/// The image after overlaying `data` at `vaddr`; bytes outside the
/// segment's range keep their old value.
pub open spec fn spec_place(mem: Seq<u8>, vaddr: int, data: Seq<u8>) -> Seq<u8> {
    Seq::new(
        mem.len(),
        |i: int|
            if vaddr <= i < vaddr + data.len() {
                data[i - vaddr]
            } else {
                mem[i]
            },
    )
}

/// Overlaying the first `n` segments, in order; later segments overwrite
/// earlier ones, and a segment reaching past the image is a load-time
/// error.
pub open spec fn spec_overlay(mem: Seq<u8>, segs: Seq<Segment>, n: nat) -> Result<Seq<u8>, Error>
    decreases n,
{
    if n == 0 {
        Ok(mem)
    } else {
        match spec_overlay(mem, segs, (n - 1) as nat) {
            Err(e) => Err(e),
            Ok(m) => {
                let s = segs[n - 1];
                if s.vaddr + s.data@.len() > m.len() {
                    Err(Error::SegmentOutOfBounds(s.vaddr))
                } else {
                    Ok(spec_place(m, s.vaddr as int, s.data@))
                }
            },
        }
    }
}

/// An all-zero image of `n` bytes.
pub open spec fn zero_image(n: nat) -> Seq<u8> {
    Seq::new(n, |i: int| 0u8)
}

/// The fixed-size byte image.
#[derive(Debug)]
pub struct Memory {
    bytes: Vec<u8>,
}

impl View for Memory {
    type V = Seq<u8>;

    closed spec fn view(&self) -> Seq<u8> {
        self.bytes@
    }
}

impl Memory {
    /// The image is small enough that every address near its end still
    /// fits a 32-bit value.
    pub open spec fn inv(&self) -> bool {
        self@.len() <= 0xFFFF_FFFC
    }

    /// Allocate `size` zero bytes and overlay every segment at its
    /// virtual address, in order. A segment extending past `size` is a
    /// load-time error.
    pub fn load_image(size: usize, segments: &Vec<Segment>) -> (r: Result<Memory, Error>)
        requires
            size <= 0xFFFF_FFFC,
        ensures
            ({
                let o = spec_overlay(zero_image(size as nat), segments@, segments@.len());
                match r {
                    Ok(m) => o == Ok::<Seq<u8>, Error>(m@) && m.inv() && m@.len() == size,
                    Err(e) => o == Err::<Seq<u8>, Error>(e),
                }
            }),
    {
        let mut bytes: Vec<u8> = vec![0u8; size];
        proof {
            assert(bytes@ =~= zero_image(size as nat));
        }
        let mut k: usize = 0;
        while k < segments.len()
            invariant
                k <= segments@.len(),
                size <= 0xFFFF_FFFC,
                spec_overlay(zero_image(size as nat), segments@, k as nat) == Ok::<Seq<u8>, Error>(
                    bytes@,
                ),
                bytes@.len() == size,
            decreases segments@.len() - k,
        {
            let seg = &segments[k];
            let start = seg.vaddr as usize;
            let seg_len = seg.data.len();
            if start > size || seg_len > size - start {
                proof {
                    lemma_overlay_error_persists(
                        zero_image(size as nat),
                        segments@,
                        (k + 1) as nat,
                        segments@.len(),
                        Error::SegmentOutOfBounds(seg.vaddr),
                    );
                }
                return Err(Error::SegmentOutOfBounds(seg.vaddr));
            }
            let ghost pre = bytes@;
            let mut j: usize = 0;
            while j < seg_len
                invariant
                    j <= seg_len,
                    seg_len == seg.data@.len(),
                    seg == segments@[k as int],
                    k < segments@.len(),
                    start == seg.vaddr as int,
                    start + seg_len <= size,
                    bytes@.len() == size,
                    pre.len() == size,
                    forall|i: int|
                        0 <= i < size ==> bytes@[i] == (if start <= i < start + j {
                            seg.data@[i - start]
                        } else {
                            pre[i]
                        }),
                decreases seg_len - j,
            {
                let b = seg.data[j];
                bytes[start + j] = b;
                j = j + 1;
            }
            proof {
                assert(bytes@ =~= spec_place(pre, start as int, seg.data@));
            }
            k = k + 1;
        }
        Ok(Memory { bytes })
    }

    /// The number of bytes in the image.
    pub fn len(&self) -> (r: usize)
        ensures
            r == self@.len(),
    {
        self.bytes.len()
    }

    /// The byte at an address already known to be in range.
    pub fn byte_at(&self, addr: u32) -> (r: u8)
        requires
            addr < self@.len(),
        ensures
            r == self@[addr as int],
    {
        self.bytes[addr as usize]
    }

    /// Read one byte, unsigned.
    pub fn read_u8(&self, addr: u32) -> (r: Result<u8, MachineError>)
        ensures
            match r {
                Ok(b) => addr < self@.len() && b == self@[addr as int],
                Err(e) => addr >= self@.len() && e == MachineError::MemoryError(addr),
            },
    {
        if (addr as usize) < self.bytes.len() {
            Ok(self.bytes[addr as usize])
        } else {
            Err(MachineError::MemoryError(addr))
        }
    }

    /// Read one byte, sign-extended.
    pub fn read_i8(&self, addr: u32) -> (r: Result<i8, MachineError>)
        ensures
            match r {
                Ok(b) => addr < self@.len() && b as int == sign8(self@[addr as int] as int),
                Err(e) => addr >= self@.len() && e == MachineError::MemoryError(addr),
            },
    {
        match self.read_u8(addr) {
            Ok(v) => if v < 0x80 {
                Ok(v as i8)
            } else {
                Ok(((v as i16) - 0x100) as i8)
            },
            Err(e) => Err(e),
        }
    }

    /// Read a little-endian halfword, unsigned.
    pub fn read_u16(&self, addr: u32) -> (r: Result<u16, MachineError>)
        requires
            self.inv(),
        ensures
            match r {
                Ok(v) => addr + 2 <= self@.len() && v as int == word16_at(self@, addr as int),
                Err(e) => addr + 2 > self@.len() && e == MachineError::MemoryError(
                    oob_addr(addr, self@.len() as int),
                ),
            },
    {
        let len = self.bytes.len();
        let a = addr as usize;
        if a >= len {
            Err(MachineError::MemoryError(addr))
        } else if a + 1 >= len {
            Err(MachineError::MemoryError(addr + 1))
        } else {
            let lo = self.bytes[a];
            let hi = self.bytes[a + 1];
            Ok((lo as u16) + 0x100 * (hi as u16))
        }
    }

    /// Read a little-endian halfword, sign-extended.
    pub fn read_i16(&self, addr: u32) -> (r: Result<i16, MachineError>)
        requires
            self.inv(),
        ensures
            match r {
                Ok(v) => addr + 2 <= self@.len() && v as int == sign16(
                    word16_at(self@, addr as int),
                ),
                Err(e) => addr + 2 > self@.len() && e == MachineError::MemoryError(
                    oob_addr(addr, self@.len() as int),
                ),
            },
    {
        match self.read_u16(addr) {
            Ok(v) => if v < 0x8000 {
                Ok(v as i16)
            } else {
                Ok(((v as i32) - 0x1_0000) as i16)
            },
            Err(e) => Err(e),
        }
    }

    /// Read a little-endian word, unsigned.
    pub fn read_u32(&self, addr: u32) -> (r: Result<u32, MachineError>)
        requires
            self.inv(),
        ensures
            match r {
                Ok(v) => addr + 4 <= self@.len() && v as int == word32_at(self@, addr as int),
                Err(e) => addr + 4 > self@.len() && e == MachineError::MemoryError(
                    oob_addr(addr, self@.len() as int),
                ),
            },
    {
        let len = self.bytes.len();
        let a = addr as usize;
        if a >= len {
            Err(MachineError::MemoryError(addr))
        } else if a + 1 >= len {
            Err(MachineError::MemoryError(addr + 1))
        } else if a + 2 >= len {
            Err(MachineError::MemoryError(addr + 2))
        } else if a + 3 >= len {
            Err(MachineError::MemoryError(addr + 3))
        } else {
            let b0 = self.bytes[a];
            let b1 = self.bytes[a + 1];
            let b2 = self.bytes[a + 2];
            let b3 = self.bytes[a + 3];
            Ok(
                (b0 as u32) + 0x100 * (b1 as u32) + 0x1_0000 * (b2 as u32) + 0x100_0000 * (
                b3 as u32),
            )
        }
    }

    /// Read a little-endian word, as the signed value of its bit pattern.
    pub fn read_i32(&self, addr: u32) -> (r: Result<i32, MachineError>)
        requires
            self.inv(),
        ensures
            match r {
                Ok(v) => addr + 4 <= self@.len() && v as int == sign32(
                    word32_at(self@, addr as int),
                ),
                Err(e) => addr + 4 > self@.len() && e == MachineError::MemoryError(
                    oob_addr(addr, self@.len() as int),
                ),
            },
    {
        match self.read_u32(addr) {
            Ok(v) => if v < 0x8000_0000 {
                Ok(v as i32)
            } else {
                Ok(((v as i64) - 0x1_0000_0000) as i32)
            },
            Err(e) => Err(e),
        }
    }

    /// Write one byte.
    pub fn write_u8(&mut self, addr: u32, v: u8) -> (r: Result<(), MachineError>)
        ensures
            final(self)@.len() == old(self)@.len(),
            final(self).inv() == old(self).inv(),
            match r {
                Ok(_) => addr < old(self)@.len() && final(self)@ == old(self)@.update(
                    addr as int,
                    v,
                ),
                Err(e) => addr >= old(self)@.len() && final(self)@ == old(self)@ && e
                    == MachineError::MemoryError(addr),
            },
    {
        if (addr as usize) < self.bytes.len() {
            self.bytes[addr as usize] = v;
            Ok(())
        } else {
            Err(MachineError::MemoryError(addr))
        }
    }

    /// Write a halfword, little-endian. A range that reaches past the end
    /// of the image fails with the start address and leaves the image
    /// unchanged.
    pub fn write_u16(&mut self, addr: u32, v: u16) -> (r: Result<(), MachineError>)
        ensures
            final(self)@.len() == old(self)@.len(),
            final(self).inv() == old(self).inv(),
            match r {
                Ok(_) => addr + 2 <= old(self)@.len() && final(self)@ == store16(
                    old(self)@,
                    addr as int,
                    v,
                ),
                Err(e) => addr + 2 > old(self)@.len() && final(self)@ == old(self)@ && e
                    == MachineError::MemoryError(addr),
            },
    {
        let len = self.bytes.len();
        let a = addr as usize;
        if a < len && 1 < len - a {
            self.bytes[a] = (v % 0x100) as u8;
            self.bytes[a + 1] = (v / 0x100) as u8;
            Ok(())
        } else {
            Err(MachineError::MemoryError(addr))
        }
    }

    /// Write a word, little-endian. A range that reaches past the end of
    /// the image fails with the start address and leaves the image
    /// unchanged.
    pub fn write_u32(&mut self, addr: u32, v: u32) -> (r: Result<(), MachineError>)
        ensures
            final(self)@.len() == old(self)@.len(),
            final(self).inv() == old(self).inv(),
            match r {
                Ok(_) => addr + 4 <= old(self)@.len() && final(self)@ == store32(
                    old(self)@,
                    addr as int,
                    v,
                ),
                Err(e) => addr + 4 > old(self)@.len() && final(self)@ == old(self)@ && e
                    == MachineError::MemoryError(addr),
            },
    {
        let len = self.bytes.len();
        let a = addr as usize;
        if a < len && 3 < len - a {
            self.bytes[a] = (v % 0x100) as u8;
            self.bytes[a + 1] = ((v / 0x100) % 0x100) as u8;
            self.bytes[a + 2] = ((v / 0x1_0000) % 0x100) as u8;
            self.bytes[a + 3] = (v / 0x100_0000) as u8;
            Ok(())
        } else {
            Err(MachineError::MemoryError(addr))
        }
    }
}

/// Once a segment fails to fit, overlaying any longer prefix fails the
/// same way.
proof fn lemma_overlay_error_persists(mem: Seq<u8>, segs: Seq<Segment>, n: nat, m: nat, e: Error)
    requires
        n <= m,
        spec_overlay(mem, segs, n) == Err::<Seq<u8>, Error>(e),
    ensures
        spec_overlay(mem, segs, m) == Err::<Seq<u8>, Error>(e),
    decreases m,
{
    if m > n {
        lemma_overlay_error_persists(mem, segs, n, (m - 1) as nat, e);
    }
}

// ---------------------------------------------------------------------------
// Laws of the byte image.
// ---------------------------------------------------------------------------

/// A byte store changes no byte outside the one it writes.
pub proof fn lemma_store8_frame(mem: Seq<u8>, a: int, v: u8)
    requires
        0 <= a < mem.len(),
    ensures
        forall|j: int| 0 <= j < mem.len() && j != a ==> mem.update(a, v)[j] == mem[j],
{
}

/// A halfword store changes no byte outside its two-byte range.
pub proof fn lemma_store16_frame(mem: Seq<u8>, a: int, v: u16)
    requires
        0 <= a,
        a + 2 <= mem.len(),
    ensures
        forall|j: int| 0 <= j < mem.len() && !(a <= j < a + 2) ==> store16(mem, a, v)[j] == mem[j],
{
}

/// A word store changes no byte outside its four-byte range.
pub proof fn lemma_store32_frame(mem: Seq<u8>, a: int, v: u32)
    requires
        0 <= a,
        a + 4 <= mem.len(),
    ensures
        forall|j: int| 0 <= j < mem.len() && !(a <= j < a + 4) ==> store32(mem, a, v)[j] == mem[j],
{
}

/// Storing a byte and reading it back recovers it, unsigned exactly and
/// signed modulo the 8-bit sign reading.
pub proof fn lemma_store8_round_trip(mem: Seq<u8>, a: int, v: u8)
    requires
        0 <= a < mem.len(),
    ensures
        mem.update(a, v)[a] == v,
        sign8(mem.update(a, v)[a] as int) == sign8(v as int),
{
}

/// Storing a halfword and reading it back recovers it, unsigned exactly
/// and signed modulo the 16-bit sign reading.
pub proof fn lemma_store16_round_trip(mem: Seq<u8>, a: int, v: u16)
    requires
        0 <= a,
        a + 2 <= mem.len(),
    ensures
        word16_at(store16(mem, a, v), a) == v,
        sign16(word16_at(store16(mem, a, v), a)) == sign16(v as int),
{
    assert(v as int == (v % 0x100) + 0x100 * (v / 0x100)) by (bit_vector);
}

/// Storing a word and reading it back recovers it, unsigned exactly and
/// signed modulo the 32-bit sign reading.
pub proof fn lemma_store32_round_trip(mem: Seq<u8>, a: int, v: u32)
    requires
        0 <= a,
        a + 4 <= mem.len(),
    ensures
        word32_at(store32(mem, a, v), a) == v,
        sign32(word32_at(store32(mem, a, v), a)) == sign32(v as int),
{
    assert(v as int == (v % 0x100) + 0x100 * ((v / 0x100) % 0x100) + 0x1_0000 * ((v / 0x1_0000)
        % 0x100) + 0x100_0000 * (v / 0x100_0000)) by (bit_vector);
}

} // verus!
