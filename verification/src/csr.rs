//! Control and status registers: a 12-bit-addressed file of 64-bit values,
//! together with the architectural addresses and bit masks the execute
//! engine uses.

use vstd::prelude::*;

verus! {

pub const MSTATUS: u16 = 0x300;
pub const MISA: u16 = 0x301;
pub const MIE: u16 = 0x304;
pub const MTVEC: u16 = 0x305;
pub const MEPC: u16 = 0x341;
pub const MCAUSE: u16 = 0x342;
pub const MTVAL: u16 = 0x343;
pub const MIP: u16 = 0x344;
pub const MHARTID: u16 = 0xF14;

pub const SSTATUS: u16 = 0x100;
pub const STVEC: u16 = 0x105;
pub const SEPC: u16 = 0x141;
pub const SCAUSE: u16 = 0x142;
pub const STVAL: u16 = 0x143;

pub const MSTATUS_MIE: u64 = 0x8;
pub const MSTATUS_MPIE: u64 = 0x80;
pub const MSTATUS_MPP: u64 = 0x1800;
pub const MSTATUS_SIE: u64 = 0x2;
pub const MSTATUS_SPIE: u64 = 0x20;
pub const MSTATUS_SPP: u64 = 0x100;

pub const SSTATUS_SIE: u64 = 0x2;
pub const SSTATUS_SPIE: u64 = 0x20;
pub const SSTATUS_SPP: u64 = 0x100;

pub const MIP_MSIP: u64 = 0x8;
pub const MIP_MTIP: u64 = 0x80;
pub const MIP_MEIP: u64 = 0x800;

pub const MIE_MSIE: u64 = 0x8;
pub const MIE_MTIE: u64 = 0x80;
pub const MIE_MEIE: u64 = 0x800;

pub const INTERRUPT_BIT: u64 = 0x8000000000000000;

pub const BREAKPOINT: u64 = 3;
pub const ECALL_FROM_U: u64 = 8;
pub const ECALL_FROM_S: u64 = 9;
pub const ECALL_FROM_M: u64 = 11;

pub const INTERRUPT_FROM_SOFTWARE: u64 = 3;
pub const INTERRUPT_FROM_TIMER: u64 = 7;
pub const INTERRUPT_FROM_EXTERNAL: u64 = 11;

/// Number of addressable control and status registers.
pub const CSR_COUNT: usize = 0x10000;

/// The register file itself. Every address reads as zero until written.
pub struct Csr {
    data: Vec<u64>,
}

impl Csr {
    /// The file as a total function from address to value.
    pub closed spec fn view(&self) -> Seq<u64> {
        self.data@
    }

    pub open spec fn wf(&self) -> bool {
        self@.len() == CSR_COUNT
    }

    /// Value currently held at `addr`.
    pub open spec fn spec_read(&self, addr: u16) -> u64 {
        self@[addr as int]
    }

    pub fn new() -> (csr: Csr)
        ensures
            csr.wf(),
            forall|a: u16| csr.spec_read(a) == 0u64,
    {
        let data: Vec<u64> = vec![0u64; CSR_COUNT];
        Csr { data }
    }

    pub fn read(&self, addr: u16) -> (value: u64)
        requires
            self.wf(),
        ensures
            value == self.spec_read(addr),
    {
        self.data[addr as usize]
    }

    pub fn write(&mut self, addr: u16, value: u64)
        requires
            old(self).wf(),
        ensures
            final(self).wf(),
            final(self)@ == old(self)@.update(addr as int, value),
            final(self).spec_read(addr) == value,
            forall|a: u16| a != addr ==> final(self).spec_read(a) == old(self).spec_read(a),
    {
        self.data[addr as usize] = value;
    }
}

} // verus!
