//! DRAM: a flat little-endian byte array starting at a fixed physical base.
//! Accesses of 1, 2, 4 or 8 bytes may be unaligned; they span adjacent bytes.

use crate::bits::{le16, le32, le64};
use vstd::prelude::*;

verus! {

pub const DRAM_BASE: u64 = 0x80000000;

pub const DRAM_SIZE: usize = 0x8000000;

pub struct Memory {
    dram: Vec<u8>,
}

impl Memory {
    /// The DRAM contents as a byte sequence, indexed from `DRAM_BASE`.
    pub closed spec fn view(&self) -> Seq<u8> {
        self.dram@
    }

    pub open spec fn wf(&self) -> bool {
        self@.len() == DRAM_SIZE
    }

    /// `addr` and the following `width` bytes all fall inside DRAM.
    pub open spec fn in_range(addr: u64, width: u64) -> bool {
        DRAM_BASE <= addr && addr + width <= DRAM_BASE + DRAM_SIZE
    }

    pub open spec fn spec_read8(&self, addr: u64) -> u8 {
        self@[addr - DRAM_BASE]
    }

    pub open spec fn spec_read16(&self, addr: u64) -> u16 {
        le16(self@[addr - DRAM_BASE], self@[addr - DRAM_BASE + 1])
    }

    pub open spec fn spec_read32(&self, addr: u64) -> u32 {
        le32(
            self@[addr - DRAM_BASE],
            self@[addr - DRAM_BASE + 1],
            self@[addr - DRAM_BASE + 2],
            self@[addr - DRAM_BASE + 3],
        )
    }

    pub open spec fn spec_read64(&self, addr: u64) -> u64 {
        le64(
            self@[addr - DRAM_BASE],
            self@[addr - DRAM_BASE + 1],
            self@[addr - DRAM_BASE + 2],
            self@[addr - DRAM_BASE + 3],
            self@[addr - DRAM_BASE + 4],
            self@[addr - DRAM_BASE + 5],
            self@[addr - DRAM_BASE + 6],
            self@[addr - DRAM_BASE + 7],
        )
    }

    /// The byte sequence after a 1-byte store at `addr`.
    pub open spec fn spec_write8(&self, addr: u64, value: u8) -> Seq<u8> {
        self@.update(addr - DRAM_BASE, value)
    }

    pub open spec fn spec_write16(&self, addr: u64, value: u16) -> Seq<u8> {
        self@.update(addr - DRAM_BASE, value as u8).update(
            addr - DRAM_BASE + 1,
            (value >> 8u16) as u8,
        )
    }

    pub open spec fn spec_write32(&self, addr: u64, value: u32) -> Seq<u8> {
        self@.update(addr - DRAM_BASE, value as u8).update(
            addr - DRAM_BASE + 1,
            (value >> 8u32) as u8,
        ).update(addr - DRAM_BASE + 2, (value >> 16u32) as u8).update(
            addr - DRAM_BASE + 3,
            (value >> 24u32) as u8,
        )
    }

    pub open spec fn spec_write64(&self, addr: u64, value: u64) -> Seq<u8> {
        self@.update(addr - DRAM_BASE, value as u8).update(
            addr - DRAM_BASE + 1,
            (value >> 8u64) as u8,
        ).update(addr - DRAM_BASE + 2, (value >> 16u64) as u8).update(
            addr - DRAM_BASE + 3,
            (value >> 24u64) as u8,
        ).update(addr - DRAM_BASE + 4, (value >> 32u64) as u8).update(
            addr - DRAM_BASE + 5,
            (value >> 40u64) as u8,
        ).update(addr - DRAM_BASE + 6, (value >> 48u64) as u8).update(
            addr - DRAM_BASE + 7,
            (value >> 56u64) as u8,
        )
    }

    /// Fresh DRAM, zero-filled.
    pub fn new() -> (mem: Memory)
        ensures
            mem.wf(),
            forall|i: int| 0 <= i < DRAM_SIZE ==> mem@[i] == 0u8,
    {
        Memory { dram: vec![0u8; DRAM_SIZE] }
    }

    pub fn read8(&self, addr: u64) -> (r: u8)
        requires
            self.wf(),
            Memory::in_range(addr, 1),
        ensures
            r == self.spec_read8(addr),
    {
        let index: usize = (addr - DRAM_BASE) as usize;
        self.dram[index]
    }

    pub fn read16(&self, addr: u64) -> (r: u16)
        requires
            self.wf(),
            Memory::in_range(addr, 2),
        ensures
            r == self.spec_read16(addr),
    {
        let index: usize = (addr - DRAM_BASE) as usize;
        (self.dram[index] as u16) + (self.dram[index + 1] as u16) * 0x100
    }

    pub fn read32(&self, addr: u64) -> (r: u32)
        requires
            self.wf(),
            Memory::in_range(addr, 4),
        ensures
            r == self.spec_read32(addr),
    {
        let index: usize = (addr - DRAM_BASE) as usize;
        (self.dram[index] as u32) + (self.dram[index + 1] as u32) * 0x100 + (self.dram[index
            + 2] as u32) * 0x10000 + (self.dram[index + 3] as u32) * 0x1000000
    }

    pub fn read64(&self, addr: u64) -> (r: u64)
        requires
            self.wf(),
            Memory::in_range(addr, 8),
        ensures
            r == self.spec_read64(addr),
    {
        let index: usize = (addr - DRAM_BASE) as usize;
        (self.dram[index] as u64) + (self.dram[index + 1] as u64) * 0x100 + (self.dram[index
            + 2] as u64) * 0x10000 + (self.dram[index + 3] as u64) * 0x1000000 + (self.dram[index
            + 4] as u64) * 0x100000000 + (self.dram[index + 5] as u64) * 0x10000000000
            + (self.dram[index + 6] as u64) * 0x1000000000000 + (self.dram[index + 7] as u64)
            * 0x100000000000000
    }

    pub fn write8(&mut self, addr: u64, value: u8)
        requires
            old(self).wf(),
            Memory::in_range(addr, 1),
        ensures
            final(self).wf(),
            final(self)@ == old(self).spec_write8(addr, value),
    {
        let index: usize = (addr - DRAM_BASE) as usize;
        self.dram[index] = value;
    }

    pub fn write16(&mut self, addr: u64, value: u16)
        requires
            old(self).wf(),
            Memory::in_range(addr, 2),
        ensures
            final(self).wf(),
            final(self)@ == old(self).spec_write16(addr, value),
    {
        let index: usize = (addr - DRAM_BASE) as usize;
        self.dram[index] = #[verifier::truncate] (value as u8);
        self.dram[index + 1] = #[verifier::truncate] ((value >> 8u16) as u8);
    }

    pub fn write32(&mut self, addr: u64, value: u32)
        requires
            old(self).wf(),
            Memory::in_range(addr, 4),
        ensures
            final(self).wf(),
            final(self)@ == old(self).spec_write32(addr, value),
    {
        let index: usize = (addr - DRAM_BASE) as usize;
        self.dram[index] = #[verifier::truncate] (value as u8);
        self.dram[index + 1] = #[verifier::truncate] ((value >> 8u32) as u8);
        self.dram[index + 2] = #[verifier::truncate] ((value >> 16u32) as u8);
        self.dram[index + 3] = #[verifier::truncate] ((value >> 24u32) as u8);
    }

    pub fn write64(&mut self, addr: u64, value: u64)
        requires
            old(self).wf(),
            Memory::in_range(addr, 8),
        ensures
            final(self).wf(),
            final(self)@ == old(self).spec_write64(addr, value),
    {
        let index: usize = (addr - DRAM_BASE) as usize;
        self.dram[index] = #[verifier::truncate] (value as u8);
        self.dram[index + 1] = #[verifier::truncate] ((value >> 8u64) as u8);
        self.dram[index + 2] = #[verifier::truncate] ((value >> 16u64) as u8);
        self.dram[index + 3] = #[verifier::truncate] ((value >> 24u64) as u8);
        self.dram[index + 4] = #[verifier::truncate] ((value >> 32u64) as u8);
        self.dram[index + 5] = #[verifier::truncate] ((value >> 40u64) as u8);
        self.dram[index + 6] = #[verifier::truncate] ((value >> 48u64) as u8);
        self.dram[index + 7] = #[verifier::truncate] ((value >> 56u64) as u8);
    }
}

/// Recomposing the little-endian decomposition of a value gives it back.
proof fn lemma_le_decompose(v16: u16, v32: u32, v64: u64)
    by (bit_vector)
    ensures
        (v16 as u8) + ((v16 >> 8u16) as u8) * 0x100 == v16,
        (v32 as u8) + ((v32 >> 8u32) as u8) * 0x100 + ((v32 >> 16u32) as u8) * 0x10000 + ((v32
            >> 24u32) as u8) * 0x1000000 == v32,
        (v64 as u8) + ((v64 >> 8u64) as u8) * 0x100 + ((v64 >> 16u64) as u8) * 0x10000 + ((v64
            >> 24u64) as u8) * 0x1000000 + ((v64 >> 32u64) as u8) * 0x100000000 + ((v64
            >> 40u64) as u8) * 0x10000000000 + ((v64 >> 48u64) as u8) * 0x1000000000000 + ((v64
            >> 56u64) as u8) * 0x100000000000000 == v64,
{
}

/// A store followed by a load of the same width at the same DRAM address
/// yields the stored value, for every access width: if `post` is `m` after
/// the store, then the load out of `post` gives the value back.
pub proof fn lemma_store_load_round_trip(
    m: Memory,
    post: Memory,
    addr: u64,
    b: u8,
    h: u16,
    w: u32,
    d: u64,
)
    requires
        m.wf(),
    ensures
        Memory::in_range(addr, 1) && post@ == m.spec_write8(addr, b) ==> post.spec_read8(addr)
            == b,
        Memory::in_range(addr, 2) && post@ == m.spec_write16(addr, h) ==> post.spec_read16(addr)
            == h,
        Memory::in_range(addr, 4) && post@ == m.spec_write32(addr, w) ==> post.spec_read32(addr)
            == w,
        Memory::in_range(addr, 8) && post@ == m.spec_write64(addr, d) ==> post.spec_read64(addr)
            == d,
{
    lemma_le_decompose(h, w, d);
}

} // verus!
