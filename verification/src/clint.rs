//! Core-local interruptor: the machine timer (`mtime`, `mtimecmp`) and the
//! software-interrupt register (`msip`).

use vstd::prelude::*;

verus! {

pub const CLINT_BASE: u64 = 0x2000000;

pub const CLINT_SIZE: u64 = 0x10000;

pub const MSIP_OFFSET: u64 = 0x0000;

pub const MTIMECMP_OFFSET: u64 = 0x4000;

pub const MTIME_OFFSET: u64 = 0xBFF8;

pub struct Clint {
    pub mtime: u64,
    pub mtimecmp: u64,
    pub msip: bool,
}

impl Clint {
    /// The timer interrupt line: high once `mtime` has reached `mtimecmp`.
    pub open spec fn spec_timer_pending(&self) -> bool {
        self.mtime >= self.mtimecmp
    }

    /// The software interrupt line: high while `msip` is set.
    pub open spec fn spec_software_pending(&self) -> bool {
        self.msip
    }

    pub fn new() -> (clint: Clint)
        ensures
            clint.mtime == 0,
            clint.mtimecmp == 0,
            !clint.msip,
    {
        Clint { mtime: 0, mtimecmp: 0, msip: false }
    }

    pub fn read32(&self, offset: u64) -> (r: u32)
        requires
            offset == MSIP_OFFSET,
        ensures
            r == if self.msip {
                1u32
            } else {
                0u32
            },
    {
        if self.msip {
            1
        } else {
            0
        }
    }

    pub fn read64(&self, offset: u64) -> (r: u64)
        requires
            offset == MTIMECMP_OFFSET || offset == MTIME_OFFSET,
        ensures
            r == if offset == MTIMECMP_OFFSET {
                self.mtimecmp
            } else {
                self.mtime
            },
    {
        if offset == MTIMECMP_OFFSET {
            self.mtimecmp
        } else {
            self.mtime
        }
    }

    pub fn write32(&mut self, offset: u64, value: u32)
        requires
            offset == MSIP_OFFSET,
        ensures
            final(self).msip == (value > 0),
            final(self).mtime == old(self).mtime,
            final(self).mtimecmp == old(self).mtimecmp,
    {
        self.msip = value > 0;
    }

    pub fn write64(&mut self, offset: u64, value: u64)
        requires
            offset == MTIMECMP_OFFSET || offset == MTIME_OFFSET,
        ensures
            final(self).msip == old(self).msip,
            offset == MTIMECMP_OFFSET ==> final(self).mtimecmp == value && final(self).mtime == old(
                self,
            ).mtime,
            offset == MTIME_OFFSET ==> final(self).mtime == value && final(self).mtimecmp == old(
                self,
            ).mtimecmp,
    {
        if offset == MTIMECMP_OFFSET {
            self.mtimecmp = value;
        } else {
            self.mtime = value;
        }
    }

    /// Advances the machine timer by one step, wrapping at the 64-bit limit.
    pub fn tick(&mut self)
        ensures
            final(self).mtime == old(self).mtime.wrapping_add(1),
            final(self).mtimecmp == old(self).mtimecmp,
            final(self).msip == old(self).msip,
    {
        self.mtime = self.mtime.wrapping_add(1);
    }

    pub fn check_timer_interrupt(&self) -> (r: bool)
        ensures
            r == self.spec_timer_pending(),
    {
        self.mtime >= self.mtimecmp
    }

    pub fn check_software_interrupt(&self) -> (r: bool)
        ensures
            r == self.spec_software_pending(),
    {
        self.msip
    }
}

} // verus!
