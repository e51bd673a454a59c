//! The hart: register file, program counter, privilege mode, and the
//! fetch/decode/execute engine with trap entry, trap return and interrupt
//! prioritization.

use crate::bits::{
    lemma_i64_round_trip, lemma_s64_cast, lemma_shamt_bounds, lemma_split128_s, lemma_split128_u,
    s64, sext16, sext32, sext8,
};
use crate::bus::{Bus, Fault};
use crate::csr;
use crate::csr::Csr;
use crate::decoder;
use crate::decoder::{
    csr_addr_of, funct3_of, funct7_of, imm_b_u64, imm_i_u64, imm_i_val, imm_j_u64,
    imm_s_u64, imm_u_u64, opcode_of, rd_of, rs1_of, rs2_of,
};
use crate::memory::DRAM_BASE;
use crate::terminal::Terminal;
use vstd::prelude::*;

verus! {

pub const OP_IMM: u32 = 0x13;

pub const OP_IMM_32: u32 = 0x1B;

pub const OP: u32 = 0x33;

pub const OP_32: u32 = 0x3B;

pub const LOAD: u32 = 0x03;

pub const STORE: u32 = 0x23;

pub const BRANCH: u32 = 0x63;

pub const JAL: u32 = 0x6F;

pub const JALR: u32 = 0x67;

pub const LUI: u32 = 0x37;

pub const AUIPC: u32 = 0x17;

pub const SYSTEM: u32 = 0x73;

#[derive(Debug, Clone, Copy, PartialEq, Eq, Structural)]
pub enum PrivilegeMode {
    User,
    Supervisor,
    Machine,
}

impl PrivilegeMode {
    /// The architectural encoding of the mode.
    pub open spec fn spec_code(self) -> u64 {
        match self {
            PrivilegeMode::User => 0,
            PrivilegeMode::Supervisor => 1,
            PrivilegeMode::Machine => 3,
        }
    }

    pub fn code(self) -> (r: u64)
        ensures
            r == self.spec_code(),
    {
        match self {
            PrivilegeMode::User => 0,
            PrivilegeMode::Supervisor => 1,
            PrivilegeMode::Machine => 3,
        }
    }
}

pub struct Cpu<T: Terminal> {
    pub regs: [u64; 32],
    pub csr: Csr,
    pub pc: u64,
    pub mode: PrivilegeMode,
    pub bus: Bus<T>,
    pub halted: bool,
}

/// The register file after writing `v` to register `rd`: a write to `x0`
/// is silently discarded, so `x0` always reads as zero.
pub open spec fn wr(regs: Seq<u64>, rd: int, v: u64) -> Seq<u64> {
    if rd == 0 {
        regs
    } else {
        regs.update(rd, v)
    }
}

/// An instruction that only writes one register: everything but the
/// register file is untouched, and the program counter waits for the step
/// loop to advance it.
pub open spec fn alu_step_rel<T: Terminal>(pre: Cpu<T>, post: Cpu<T>, rd: u32, v: u64) -> bool {
    &&& post.regs@ == wr(pre.regs@, rd as int, v)
    &&& post.csr == pre.csr
    &&& post.pc == pre.pc
    &&& post.mode == pre.mode
    &&& post.bus == pre.bus
    &&& post.halted == pre.halted
}

/// Arithmetic shift right on a 64-bit word.
pub open spec fn sra64(x: u64, sh: u64) -> u64
    recommends
        sh < 64,
{
    ((x as i64) >> sh) as u64
}

/// Arithmetic shift right on the low 32 bits.
pub open spec fn sra32(x: u32, sh: u32) -> u32
    recommends
        sh < 32,
{
    ((x as i32) >> sh) as u32
}

/// Truncating signed division, as RISC-V DIV rounds: toward zero.
pub open spec fn trunc_div(a: int, b: int) -> int
    recommends
        b != 0,
{
    if a == 0 {
        0
    } else if a > 0 && b > 0 {
        a / b
    } else if a < 0 && b < 0 {
        (a * -1) / (b * -1)
    } else if a < 0 {
        ((a * -1) / b) * -1
    } else {
        (a / (b * -1)) * -1
    }
}

/// The remainder that pairs with `trunc_div`: it carries the dividend's sign.
pub open spec fn trunc_rem(a: int, b: int) -> int
    recommends
        b != 0,
{
    if a == 0 {
        0
    } else if a > 0 && b > 0 {
        a % b
    } else if a < 0 && b < 0 {
        ((a * -1) % (b * -1)) * -1
    } else if a < 0 {
        ((a * -1) % b) * -1
    } else {
        a % (b * -1)
    }
}

/// The two's-complement encoding of a signed value that fits 64 bits.
pub open spec fn enc64(v: int) -> u64
    recommends
        -0x8000000000000000 <= v < 0x8000000000000000,
{
    if v >= 0 {
        v as u64
    } else {
        (v + 0x10000000000000000) as u64
    }
}

/// The two's-complement encoding of a signed value in 32 bits, sign-extended.
pub open spec fn enc32x(v: int) -> u64
    recommends
        -0x80000000 <= v < 0x80000000,
{
    if v >= 0 {
        sext32(v as u32)
    } else {
        sext32((v + 0x100000000) as u32)
    }
}

/// RISC-V DIV: division by zero gives all ones; the one overflowing
/// quotient wraps back to the minimum value.
pub open spec fn div_signed(x: u64, y: u64) -> u64 {
    if y == 0 {
        0xFFFFFFFFFFFFFFFF
    } else if x == 0x8000000000000000 && y == 0xFFFFFFFFFFFFFFFF {
        x
    } else {
        enc64(trunc_div(s64(x), s64(y)))
    }
}

/// RISC-V REM: the remainder of division by zero is the dividend.
pub open spec fn rem_signed(x: u64, y: u64) -> u64 {
    if y == 0 {
        x
    } else {
        enc64(trunc_rem(s64(x), s64(y)))
    }
}

/// High 64 bits of the signed 128-bit product.
pub open spec fn mulh_ss(x: u64, y: u64) -> u64 {
    enc64((s64(x) * s64(y)) / 0x10000000000000000)
}

/// High 64 bits of the signed-by-unsigned 128-bit product.
pub open spec fn mulh_su(x: u64, y: u64) -> u64 {
    enc64((s64(x) * y) / 0x10000000000000000)
}

/// High 64 bits of the unsigned 128-bit product.
pub open spec fn mulh_uu(x: u64, y: u64) -> u64 {
    ((x * y) / 0x10000000000000000) as u64
}

/// Zero extension of a byte, a half and a word into a register.
pub open spec fn zext8(b: u8) -> u64 {
    b as u64
}

pub open spec fn zext16(h: u16) -> u64 {
    h as u64
}

pub open spec fn zext32(w: u32) -> u64 {
    w as u64
}

/// RISC-V DIVW on the low 32 bits, sign-extended into the register.
pub open spec fn div32_signed(x: u32, y: u32) -> u64 {
    if y == 0 {
        0xFFFFFFFFFFFFFFFF
    } else if x == 0x80000000 && y == 0xFFFFFFFF {
        sext32(x)
    } else {
        enc32x(trunc_div(crate::bits::s32(x), crate::bits::s32(y)))
    }
}

/// RISC-V REMW on the low 32 bits, sign-extended into the register.
pub open spec fn rem32_signed(x: u32, y: u32) -> u64 {
    if y == 0 {
        sext32(x)
    } else {
        enc32x(trunc_rem(crate::bits::s32(x), crate::bits::s32(y)))
    }
}

/// What an OP-IMM-32 instruction computes: 32-bit arithmetic on the low
/// word, sign-extended. Shifts take the low five bits of the encoded
/// shift amount.
pub open spec fn op_imm32_value(inst: u32, x: u64) -> Option<u64> {
    let imm = imm_i_u64(inst);
    match funct3_of(inst) {
        0u32 => Some(sext32((x as u32).wrapping_add(imm as u32))),
        1u32 => Some(sext32((x as u32) << ((imm & 0x1F) as u32))),
        5u32 => {
            let f7 = (imm >> 5) & 0x7F;
            let sh = (imm & 0x1F) as u32;
            if f7 == 0 {
                Some(sext32((x as u32) >> sh))
            } else if f7 == 0x20 {
                Some(sext32(sra32(x as u32, sh)))
            } else {
                None
            }
        },
        _ => None,
    }
}

/// What an OP-32 instruction computes from the low words of the two
/// register values, sign-extended. `funct7 = 1` selects the M extension.
pub open spec fn op32_value(inst: u32, x: u64, y: u64) -> Option<u64> {
    match (funct3_of(inst), funct7_of(inst)) {
        (0u32, 0u32) => Some(sext32((x as u32).wrapping_add(y as u32))),
        (0u32, 1u32) => Some(sext32((x as u32).wrapping_mul(y as u32))),
        (0u32, 0x20u32) => Some(sext32((x as u32).wrapping_sub(y as u32))),
        (1u32, 0u32) => Some(sext32((x as u32) << ((y & 0x1F) as u32))),
        (4u32, 1u32) => Some(div32_signed(x as u32, y as u32)),
        (5u32, 0u32) => Some(sext32((x as u32) >> ((y & 0x1F) as u32))),
        (5u32, 1u32) => Some(
            if y as u32 == 0 {
                0xFFFFFFFFFFFFFFFFu64
            } else {
                sext32((x as u32) / (y as u32))
            },
        ),
        (5u32, 0x20u32) => Some(sext32(sra32(x as u32, (y & 0x1F) as u32))),
        (6u32, 1u32) => Some(rem32_signed(x as u32, y as u32)),
        (7u32, 1u32) => Some(
            if y as u32 == 0 {
                sext32(x as u32)
            } else {
                sext32((x as u32) % (y as u32))
            },
        ),
        _ => None,
    }
}

/// Whether a branch instruction is taken, or nothing when the condition
/// code is not implemented.
pub open spec fn branch_taken(inst: u32, x: u64, y: u64) -> Option<bool> {
    match funct3_of(inst) {
        0u32 => Some(x == y),
        1u32 => Some(x != y),
        4u32 => Some(s64(x) < s64(y)),
        5u32 => Some(s64(x) >= s64(y)),
        6u32 => Some(x < y),
        7u32 => Some(x >= y),
        _ => None,
    }
}

/// How a load of one byte takes the machine from its pre-state to `post`:
/// the bus read happened at `addr`, and on success the (sign- or zero-)
/// extended byte landed in `rd`.
pub open spec fn load8_rel<T: Terminal>(
    pre_bus: Bus<T>,
    pre_regs: Seq<u64>,
    post: Cpu<T>,
    addr: u64,
    rd: u32,
    signed: bool,
    r: Result<(), Fault>,
) -> bool {
    ||| (exists|v: u8|
        #![auto]
        {
            &&& crate::bus::bus_read8_rel(pre_bus, post.bus, addr, Ok(v))
            &&& r is Ok
            &&& post.regs@ == wr(
                pre_regs,
                rd as int,
                if signed {
                    sext8(v)
                } else {
                    zext8(v)
                },
            )
        })
    ||| (exists|f: Fault|
        #![auto]
        {
            &&& crate::bus::bus_read8_rel(pre_bus, post.bus, addr, Err(f))
            &&& r == Err::<(), Fault>(f)
            &&& post.regs@ == pre_regs
        })
}

/// How a load of one half-word takes the machine to `post`.
pub open spec fn load16_rel<T: Terminal>(
    pre_bus: Bus<T>,
    pre_regs: Seq<u64>,
    post: Cpu<T>,
    addr: u64,
    rd: u32,
    signed: bool,
    r: Result<(), Fault>,
) -> bool {
    ||| (exists|v: u16|
        #![auto]
        {
            &&& crate::bus::bus_read16_rel(pre_bus, post.bus, addr, Ok(v))
            &&& r is Ok
            &&& post.regs@ == wr(
                pre_regs,
                rd as int,
                if signed {
                    sext16(v)
                } else {
                    zext16(v)
                },
            )
        })
    ||| (exists|f: Fault|
        #![auto]
        {
            &&& crate::bus::bus_read16_rel(pre_bus, post.bus, addr, Err(f))
            &&& r == Err::<(), Fault>(f)
            &&& post.regs@ == pre_regs
        })
}

/// How a load of one word takes the machine to `post`.
pub open spec fn load32_rel<T: Terminal>(
    pre_bus: Bus<T>,
    pre_regs: Seq<u64>,
    post: Cpu<T>,
    addr: u64,
    rd: u32,
    signed: bool,
    r: Result<(), Fault>,
) -> bool {
    ||| (exists|v: u32|
        #![auto]
        {
            &&& crate::bus::bus_read32_rel(pre_bus, post.bus, addr, Ok(v))
            &&& r is Ok
            &&& post.regs@ == wr(
                pre_regs,
                rd as int,
                if signed {
                    sext32(v)
                } else {
                    zext32(v)
                },
            )
        })
    ||| (exists|f: Fault|
        #![auto]
        {
            &&& crate::bus::bus_read32_rel(pre_bus, post.bus, addr, Err(f))
            &&& r == Err::<(), Fault>(f)
            &&& post.regs@ == pre_regs
        })
}

/// How a load of one double-word takes the machine to `post`.
pub open spec fn load64_rel<T: Terminal>(
    pre_bus: Bus<T>,
    pre_regs: Seq<u64>,
    post: Cpu<T>,
    addr: u64,
    rd: u32,
    r: Result<(), Fault>,
) -> bool {
    ||| (exists|v: u64|
        #![auto]
        {
            &&& crate::bus::bus_read64_rel(pre_bus, post.bus, addr, Ok(v))
            &&& r is Ok
            &&& post.regs@ == wr(pre_regs, rd as int, v)
        })
    ||| (exists|f: Fault|
        #![auto]
        {
            &&& crate::bus::bus_read64_rel(pre_bus, post.bus, addr, Err(f))
            &&& r == Err::<(), Fault>(f)
            &&& post.regs@ == pre_regs
        })
}

/// The CSR file after trap entry: `MEPC`, `MCAUSE` and `MTVAL` record the
/// trapped PC, the cause and its value; in `MSTATUS`, `MPIE` saves `MIE`,
/// `MIE` is cleared, and `MPP` records the interrupted privilege mode.
pub open spec fn trap_write_csrs(
    pre_csr: Seq<u64>,
    pc: u64,
    mode: PrivilegeMode,
    cause: u64,
    tval: u64,
) -> Seq<u64> {
    let ms0 = pre_csr[csr::MSTATUS as int];
    let ms1 = if ms0 & csr::MSTATUS_MIE != 0 {
        ms0 | csr::MSTATUS_MPIE
    } else {
        ms0 & !csr::MSTATUS_MPIE
    };
    let ms2 = ms1 & !csr::MSTATUS_MIE;
    let ms3 = (ms2 & !csr::MSTATUS_MPP) | (mode.spec_code() * 0x800) as u64;
    pre_csr.update(csr::MEPC as int, pc).update(csr::MCAUSE as int, cause).update(
        csr::MTVAL as int,
        tval,
    ).update(csr::MSTATUS as int, ms3)
}

/// The PC after trap entry: the `MTVEC` base, or for interrupts in
/// vectored mode the base plus four times the cause code.
pub open spec fn trap_target(pre_csr: Seq<u64>, cause: u64) -> u64 {
    let mtvec = pre_csr[csr::MTVEC as int];
    let base = mtvec & !0x3u64;
    if mtvec & 0x3 == 0 {
        base
    } else if cause & csr::INTERRUPT_BIT != 0 {
        base.wrapping_add((4 * (cause & 0x3FF)) as u64)
    } else {
        base
    }
}

/// How trap entry takes a machine with the given pre-state components to
/// `post`: the CSRs record the cause, the mode becomes Machine, and the PC
/// jumps to the `MTVEC` target; registers and devices stand still.
pub open spec fn trap_rel<T: Terminal>(
    pre_regs: Seq<u64>,
    pre_csr: Seq<u64>,
    pre_pc: u64,
    pre_mode: PrivilegeMode,
    pre_bus: Bus<T>,
    pre_halted: bool,
    post: Cpu<T>,
    cause: u64,
    tval: u64,
) -> bool {
    &&& post.csr@ == trap_write_csrs(pre_csr, pre_pc, pre_mode, cause, tval)
    &&& post.pc == trap_target(pre_csr, cause)
    &&& post.mode == PrivilegeMode::Machine
    &&& post.regs@ == pre_regs
    &&& post.bus == pre_bus
    &&& post.halted == pre_halted
}

/// The new CSR value a CSR instruction writes, or nothing when the
/// set/clear variants see a zero mask and skip the write.
pub open spec fn csr_op_write(funct3: u32, t: u64, mask: u64) -> Option<u64> {
    if funct3 == 1 || funct3 == 5 {
        Some(mask)
    } else if funct3 == 2 || funct3 == 6 {
        if mask != 0 {
            Some(t | mask)
        } else {
            None
        }
    } else {
        if mask != 0 {
            Some(t & !mask)
        } else {
            None
        }
    }
}

/// How a SYSTEM instruction takes the machine from its pre-state
/// components to `post`, answering `r = Ok(true)` when it set the PC
/// itself. A non-taken instruction leaves the PC advanced by `advance`,
/// which the step loop sets to the instruction width.
pub open spec fn sys_rel<T: Terminal>(
    pre_regs: Seq<u64>,
    pre_csr: Seq<u64>,
    pre_pc: u64,
    pre_mode: PrivilegeMode,
    pre_bus: Bus<T>,
    pre_halted: bool,
    advance: u64,
    inst: u32,
    post: Cpu<T>,
    r: Result<bool, Fault>,
) -> bool {
    let unchanged = {
        &&& post.regs@ == pre_regs
        &&& post.csr@ == pre_csr
        &&& post.pc == pre_pc
        &&& post.mode == pre_mode
        &&& post.bus == pre_bus
        &&& post.halted == pre_halted
    };
    let f3 = funct3_of(inst);
    if f3 == 0 {
        let f7 = funct7_of(inst);
        let r2 = rs2_of(inst);
        if f7 == 0x00 && r2 == 0x00 {
            let cause = match pre_mode {
                PrivilegeMode::Machine => csr::ECALL_FROM_M,
                PrivilegeMode::Supervisor => csr::ECALL_FROM_S,
                PrivilegeMode::User => csr::ECALL_FROM_U,
            };
            r == Ok::<bool, Fault>(true) && trap_rel(
                pre_regs,
                pre_csr,
                pre_pc,
                pre_mode,
                pre_bus,
                pre_halted,
                post,
                cause,
                0,
            )
        } else if f7 == 0x00 && r2 == 0x01 {
            r == Ok::<bool, Fault>(true) && trap_rel(
                pre_regs,
                pre_csr,
                pre_pc,
                pre_mode,
                pre_bus,
                pre_halted,
                post,
                csr::BREAKPOINT,
                0,
            )
        } else if f7 == 0x18 && r2 == 0x02 {
            let ms0 = pre_csr[csr::MSTATUS as int];
            let ms1 = if ms0 & csr::MSTATUS_MPIE != 0 {
                ms0 | csr::MSTATUS_MIE
            } else {
                ms0 & !csr::MSTATUS_MIE
            };
            let ms2 = ms1 | csr::MSTATUS_MPIE;
            let mpp = (ms2 & csr::MSTATUS_MPP) >> 11u64;
            if mpp == 0 || mpp == 1 || mpp == 3 {
                &&& r == Ok::<bool, Fault>(true)
                &&& post.pc == pre_csr[csr::MEPC as int]
                &&& post.mode == (if mpp == 0 {
                    PrivilegeMode::User
                } else if mpp == 1 {
                    PrivilegeMode::Supervisor
                } else {
                    PrivilegeMode::Machine
                })
                &&& post.csr@ == pre_csr.update(csr::MSTATUS as int, ms2 & !csr::MSTATUS_MPP)
                &&& post.regs@ == pre_regs
                &&& post.bus == pre_bus
                &&& post.halted == pre_halted
            } else {
                r == Err::<bool, Fault>(Fault::InvalidMpp(mpp)) && unchanged
            }
        } else if f7 == 0x08 && r2 == 0x02 {
            let ss0 = pre_csr[csr::SSTATUS as int];
            let ss1 = if ss0 & csr::SSTATUS_SPIE != 0 {
                ss0 | csr::SSTATUS_SIE
            } else {
                ss0 & !csr::SSTATUS_SIE
            };
            let ss2 = ss1 | csr::SSTATUS_SPIE;
            let spp = ss2 & csr::SSTATUS_SPP != 0;
            &&& r == Ok::<bool, Fault>(true)
            &&& post.pc == pre_csr[csr::SEPC as int]
            &&& post.mode == (if spp {
                PrivilegeMode::Supervisor
            } else {
                PrivilegeMode::User
            })
            &&& post.csr@ == pre_csr.update(csr::SSTATUS as int, ss2 & !csr::SSTATUS_SPP)
            &&& post.regs@ == pre_regs
            &&& post.bus == pre_bus
            &&& post.halted == pre_halted
        } else {
            r == Err::<bool, Fault>(Fault::UnsupportedCsrOp(inst)) && unchanged
        }
    } else if f3 == 4 {
        r == Err::<bool, Fault>(Fault::UnsupportedCsrOp(inst)) && unchanged
    } else {
        let addr = csr_addr_of(inst);
        let t = pre_csr[addr as int];
        let mask = if f3 == 1 || f3 == 2 || f3 == 3 {
            pre_regs[rs1_of(inst) as int]
        } else {
            rs1_of(inst) as u64
        };
        &&& r == Ok::<bool, Fault>(false)
        &&& post.csr@ == (match csr_op_write(f3, t, mask) {
            Some(nv) => pre_csr.update(addr as int, nv),
            None => pre_csr,
        })
        &&& post.regs@ == wr(pre_regs, rd_of(inst) as int, t)
        &&& post.pc == pre_pc.wrapping_add(advance)
        &&& post.mode == pre_mode
        &&& post.bus == pre_bus
        &&& post.halted == pre_halted
    }
}

/// The MIP value after mirroring the three device interrupt lines.
pub open spec fn mip_sync(mip: u64, timer: bool, soft: bool, ext: bool) -> u64 {
    let m1 = if timer {
        mip | csr::MIP_MTIP
    } else {
        mip & !csr::MIP_MTIP
    };
    let m2 = if soft {
        m1 | csr::MIP_MSIP
    } else {
        m1 & !csr::MIP_MSIP
    };
    if ext {
        m2 | csr::MIP_MEIP
    } else {
        m2 & !csr::MIP_MEIP
    }
}

/// The cause of the interrupt to take, if any: nothing while `MSTATUS.MIE`
/// is clear; otherwise software, then timer, then external, in that fixed
/// priority, gated by the matching `MIE` bit.
pub open spec fn pending_interrupt(mip: u64, mie: u64, mstatus: u64) -> Option<u64> {
    if mstatus & csr::MSTATUS_MIE == 0 {
        None
    } else if mip & csr::MIP_MSIP != 0 && mie & csr::MIE_MSIE != 0 {
        Some(csr::INTERRUPT_BIT | csr::INTERRUPT_FROM_SOFTWARE)
    } else if mip & csr::MIP_MTIP != 0 && mie & csr::MIE_MTIE != 0 {
        Some(csr::INTERRUPT_BIT | csr::INTERRUPT_FROM_TIMER)
    } else if mip & csr::MIP_MEIP != 0 && mie & csr::MIE_MEIE != 0 {
        Some(csr::INTERRUPT_BIT | csr::INTERRUPT_FROM_EXTERNAL)
    } else {
        None
    }
}

/// What an interrupt poll does: `MIP` is synchronized from the device
/// lines, and if an enabled interrupt is pending the trap is entered.
pub open spec fn interrupt_check_rel<T: Terminal>(pre: Cpu<T>, post: Cpu<T>, r: bool) -> bool {
    let mipp = mip_sync(
        pre.csr.spec_read(csr::MIP),
        pre.bus.clint.spec_timer_pending(),
        pre.bus.clint.spec_software_pending(),
        pre.bus.uart.spec_interrupt_pending(),
    );
    let csr1 = pre.csr@.update(csr::MIP as int, mipp);
    match pending_interrupt(mipp, pre.csr.spec_read(csr::MIE), pre.csr.spec_read(csr::MSTATUS)) {
        Some(cause) => r == true && trap_rel(
            pre.regs@,
            csr1,
            pre.pc,
            pre.mode,
            pre.bus,
            pre.halted,
            post,
            cause,
            0,
        ),
        None => {
            &&& r == false
            &&& post.csr@ == csr1
            &&& post.regs@ == pre.regs@
            &&& post.pc == pre.pc
            &&& post.mode == pre.mode
            &&& post.bus == pre.bus
            &&& post.halted == pre.halted
        },
    }
}

/// What is the first phase of a step: the terminal is drained into the
/// UART, and the machine timer advances by one.
pub open spec fn step_mid_rel<T: Terminal>(pre: Cpu<T>, mid: Cpu<T>) -> bool {
    &&& mid.regs@ == pre.regs@
    &&& mid.csr == pre.csr
    &&& mid.pc == pre.pc
    &&& mid.mode == pre.mode
    &&& mid.halted == pre.halted
    &&& crate::uart::uart_recv_rel(pre.bus.uart, mid.bus.uart)
    &&& mid.bus.clint.mtime == pre.bus.clint.mtime.wrapping_add(1)
    &&& mid.bus.clint.mtimecmp == pre.bus.clint.mtimecmp
    &&& mid.bus.clint.msip == pre.bus.clint.msip
    &&& mid.bus.memory == pre.bus.memory
    &&& mid.bus.reservations@ == pre.bus.reservations@
}

/// How one fetched instruction takes the machine onward: `mid` is the
/// state after the step prelude, `csr1` its CSR file after the MIP
/// synchronization, `b2` the bus after the fetch, and `inst` the fetched
/// word; `post` and `r` are the step's outcome.
pub open spec fn inst_exec_rel<T: Terminal>(
    mid: Cpu<T>,
    csr1: Seq<u64>,
    b2: Bus<T>,
    inst: u32,
    post: Cpu<T>,
    r: Result<(), Fault>,
) -> bool {
    let unchanged = {
        &&& post.regs@ == mid.regs@
        &&& post.csr@ == csr1
        &&& post.pc == mid.pc
        &&& post.mode == mid.mode
        &&& post.bus == b2
        &&& post.halted == mid.halted
    };
    let op = opcode_of(inst);
    let x = mid.regs@[rs1_of(inst) as int];
    let y = mid.regs@[rs2_of(inst) as int];
    if op == OP_IMM || op == OP_IMM_32 || op == OP || op == OP_32 {
        match (if op == OP_IMM {
            op_imm_value(inst, x)
        } else if op == OP_IMM_32 {
            op_imm32_value(inst, x)
        } else if op == OP {
            op_value(inst, x, y)
        } else {
            op32_value(inst, x, y)
        }) {
            Some(v) => {
                &&& r is Ok
                &&& post.regs@ == wr(mid.regs@, rd_of(inst) as int, v)
                &&& post.csr@ == csr1
                &&& post.pc == mid.pc.wrapping_add(4)
                &&& post.mode == mid.mode
                &&& post.bus == b2
                &&& post.halted == mid.halted
            },
            None => r == Err::<(), Fault>(Fault::UnsupportedInstruction(inst)) && unchanged,
        }
    } else if op == LOAD {
        let addr = x.wrapping_add(imm_i_u64(inst));
        &&& post.csr@ == csr1
        &&& post.mode == mid.mode
        &&& post.halted == mid.halted
        &&& post.pc == (if r is Ok {
            mid.pc.wrapping_add(4)
        } else {
            mid.pc
        })
        &&& match funct3_of(inst) {
            0u32 => load8_rel(b2, mid.regs@, post, addr, rd_of(inst), true, r),
            1u32 => load16_rel(b2, mid.regs@, post, addr, rd_of(inst), true, r),
            2u32 => load32_rel(b2, mid.regs@, post, addr, rd_of(inst), true, r),
            3u32 => load64_rel(b2, mid.regs@, post, addr, rd_of(inst), r),
            4u32 => load8_rel(b2, mid.regs@, post, addr, rd_of(inst), false, r),
            5u32 => load16_rel(b2, mid.regs@, post, addr, rd_of(inst), false, r),
            6u32 => load32_rel(b2, mid.regs@, post, addr, rd_of(inst), false, r),
            _ => r == Err::<(), Fault>(Fault::UnsupportedInstruction(inst)) && post.regs@
                == mid.regs@ && post.bus == b2,
        }
    } else if op == STORE {
        let addr = x.wrapping_add(imm_s_u64(inst));
        &&& post.regs@ == mid.regs@
        &&& post.csr@ == csr1
        &&& post.mode == mid.mode
        &&& post.halted == mid.halted
        &&& post.pc == (if r is Ok {
            mid.pc.wrapping_add(4)
        } else {
            mid.pc
        })
        &&& match funct3_of(inst) {
            0u32 => crate::bus::bus_write8_rel(b2, post.bus, addr, y as u8, r),
            1u32 => crate::bus::bus_write16_rel(b2, post.bus, addr, y as u16, r),
            2u32 => crate::bus::bus_write32_rel(b2, post.bus, addr, y as u32, r),
            3u32 => crate::bus::bus_write64_rel(b2, post.bus, addr, y, r),
            _ => r == Err::<(), Fault>(Fault::UnsupportedInstruction(inst)) && post.bus == b2,
        }
    } else if op == BRANCH {
        match branch_taken(inst, x, y) {
            Some(taken) => {
                &&& r is Ok
                &&& post.regs@ == mid.regs@
                &&& post.csr@ == csr1
                &&& post.pc == (if taken {
                    mid.pc.wrapping_add(imm_b_u64(inst))
                } else {
                    mid.pc.wrapping_add(4)
                })
                &&& post.mode == mid.mode
                &&& post.bus == b2
                &&& post.halted == mid.halted
            },
            None => r == Err::<(), Fault>(Fault::UnsupportedInstruction(inst)) && unchanged,
        }
    } else if op == JAL {
        &&& r is Ok
        &&& post.regs@ == wr(mid.regs@, rd_of(inst) as int, mid.pc.wrapping_add(4))
        &&& post.pc == mid.pc.wrapping_add(imm_j_u64(inst))
        &&& post.csr@ == csr1
        &&& post.mode == mid.mode
        &&& post.bus == b2
        &&& post.halted == mid.halted
    } else if op == JALR {
        &&& r is Ok
        &&& post.regs@ == wr(mid.regs@, rd_of(inst) as int, mid.pc.wrapping_add(4))
        &&& post.pc == (x.wrapping_add(imm_i_u64(inst)) & 0xFFFFFFFFFFFFFFFE)
        &&& post.csr@ == csr1
        &&& post.mode == mid.mode
        &&& post.bus == b2
        &&& post.halted == mid.halted
    } else if op == LUI || op == AUIPC {
        let v = if op == LUI {
            imm_u_u64(inst)
        } else {
            mid.pc.wrapping_add(imm_u_u64(inst))
        };
        &&& r is Ok
        &&& post.regs@ == wr(mid.regs@, rd_of(inst) as int, v)
        &&& post.csr@ == csr1
        &&& post.pc == mid.pc.wrapping_add(4)
        &&& post.mode == mid.mode
        &&& post.bus == b2
        &&& post.halted == mid.halted
    } else if op == SYSTEM {
        exists|rb: Result<bool, Fault>|
            #![auto]
            {
                &&& sys_rel(mid.regs@, csr1, mid.pc, mid.mode, b2, mid.halted, 4u64, inst, post, rb)
                &&& r == (match rb {
                    Ok(_) => Ok::<(), Fault>(()),
                    Err(f) => Err::<(), Fault>(f),
                })
            }
    } else {
        r == Err::<(), Fault>(Fault::UnsupportedOpcode(op)) && unchanged
    }
}

/// How one whole step takes the machine from `pre` to `post`: the prelude
/// drains input and ticks the timer; then either a pending enabled
/// interrupt traps, the fetch fails fatally, or the fetched instruction
/// executes.
pub open spec fn step_rel<T: Terminal>(pre: Cpu<T>, post: Cpu<T>, r: Result<(), Fault>) -> bool {
    exists|mid: Cpu<T>|
        #![auto]
        {
            &&& step_mid_rel(pre, mid)
            &&& ({
                let mipp = mip_sync(
                    mid.csr.spec_read(csr::MIP),
                    mid.bus.clint.spec_timer_pending(),
                    mid.bus.clint.spec_software_pending(),
                    mid.bus.uart.spec_interrupt_pending(),
                );
                let csr1 = mid.csr@.update(csr::MIP as int, mipp);
                match pending_interrupt(
                    mipp,
                    mid.csr.spec_read(csr::MIE),
                    mid.csr.spec_read(csr::MSTATUS),
                ) {
                    Some(cause) => r is Ok && trap_rel(
                        mid.regs@,
                        csr1,
                        mid.pc,
                        mid.mode,
                        mid.bus,
                        mid.halted,
                        post,
                        cause,
                        0,
                    ),
                    None => {
                        ||| (exists|b2: Bus<T>, inst: u32|
                            #![auto]
                            {
                                &&& crate::bus::bus_read32_rel(mid.bus, b2, mid.pc, Ok(inst))
                                &&& inst_exec_rel(mid, csr1, b2, inst, post, r)
                            })
                        ||| (exists|b2: Bus<T>, f: Fault|
                            #![auto]
                            {
                                &&& crate::bus::bus_read32_rel(mid.bus, b2, mid.pc, Err(f))
                                &&& r == Err::<(), Fault>(f)
                                &&& post.regs@ == mid.regs@
                                &&& post.csr@ == csr1
                                &&& post.pc == mid.pc
                                &&& post.mode == mid.mode
                                &&& post.bus == b2
                                &&& post.halted == mid.halted
                            })
                    },
                }
            })
        }
}

/// How a bounded run takes the machine from `pre` to `post`: a chain of
/// successful steps, each taken while the hart was not yet halted, at most
/// `max_steps` long. `Ok` is owed exactly when every step succeeded, and
/// then reports the halt flag of a machine that either halted or used the
/// whole budget; `Err` is exactly the fault of one further, failing step.
pub open spec fn run_rel<T: Terminal>(
    pre: Cpu<T>,
    post: Cpu<T>,
    max_steps: u64,
    r: Result<bool, Fault>,
) -> bool {
    exists|tr: Seq<Cpu<T>>|
        #![auto]
        {
            &&& tr.len() >= 1
            &&& tr[0] == pre
            &&& tr.len() - 1 <= max_steps
            &&& (forall|i: int|
                0 <= i < tr.len() - 1 ==> #[trigger] step_rel(tr[i], tr[i + 1], Ok::<(), Fault>(
                    (),
                )))
            &&& (forall|i: int| 0 <= i < tr.len() - 1 ==> !(#[trigger] tr[i]).halted)
            &&& match r {
                Ok(halted) => tr.last() == post && halted == post.halted && (post.halted || tr.len()
                    - 1 == max_steps),
                Err(f) => !tr.last().halted && tr.len() - 1 < max_steps && step_rel(
                    tr.last(),
                    post,
                    Err::<(), Fault>(f),
                ),
            }
        }
}

/// What an OP instruction computes from the two register values, or
/// nothing when the `funct3`/`funct7` combination is not implemented.
/// `funct7 = 1` selects the M extension.
pub open spec fn op_value(inst: u32, x: u64, y: u64) -> Option<u64> {
    match (funct3_of(inst), funct7_of(inst)) {
        (0u32, 0u32) => Some(x.wrapping_add(y)),
        (0u32, 1u32) => Some(x.wrapping_mul(y)),
        (0u32, 0x20u32) => Some(x.wrapping_sub(y)),
        (1u32, 0u32) => Some(x << (y & 0x3F)),
        (1u32, 1u32) => Some(mulh_ss(x, y)),
        (2u32, 0u32) => Some(
            if s64(x) < s64(y) {
                1u64
            } else {
                0u64
            },
        ),
        (2u32, 1u32) => Some(mulh_su(x, y)),
        (3u32, 0u32) => Some(
            if x < y {
                1u64
            } else {
                0u64
            },
        ),
        (3u32, 1u32) => Some(mulh_uu(x, y)),
        (4u32, 0u32) => Some(x ^ y),
        (4u32, 1u32) => Some(div_signed(x, y)),
        (5u32, 0u32) => Some(x >> (y & 0x3F)),
        (5u32, 1u32) => Some(
            if y == 0 {
                0xFFFFFFFFFFFFFFFFu64
            } else {
                x / y
            },
        ),
        (5u32, 0x20u32) => Some(sra64(x, y & 0x3F)),
        (6u32, 0u32) => Some(x | y),
        (6u32, 1u32) => Some(rem_signed(x, y)),
        (7u32, 0u32) => Some(x & y),
        (7u32, 1u32) => Some(
            if y == 0 {
                x
            } else {
                x % y
            },
        ),
        _ => None,
    }
}

/// What an OP-IMM instruction computes from `rs1`'s value, or nothing when
/// the combination is not implemented.
pub open spec fn op_imm_value(inst: u32, x: u64) -> Option<u64> {
    let imm = imm_i_u64(inst);
    match funct3_of(inst) {
        0 => Some(x.wrapping_add(imm)),
        1 => Some(x << (imm & 0x3F)),
        2 => Some(
            if s64(x) < imm_i_val(inst) {
                1u64
            } else {
                0u64
            },
        ),
        3 => Some(
            if x < imm {
                1u64
            } else {
                0u64
            },
        ),
        4 => Some(x ^ imm),
        5 => {
            let f7 = (imm >> 5) & 0x7F;
            let sh = imm & 0x3F;
            if f7 == 0 {
                Some(x >> sh)
            } else if f7 == 0x20 {
                Some(sra64(x, sh))
            } else {
                None
            }
        },
        6 => Some(x | imm),
        _ => Some(x & imm),
    }
}

/// The DRAM bytes after one segment is written: the segment's file bytes
/// land at its virtual address, the rest of its memory size is
/// zero-filled, and every other byte keeps its value.
pub open spec fn apply_segment(mem: Seq<u8>, vaddr: u64, data: Seq<u8>, memsz: u64) -> Seq<u8> {
    Seq::new(
        mem.len(),
        |i: int|
            if vaddr - DRAM_BASE <= i < vaddr - DRAM_BASE + data.len() {
                data[i - (vaddr - DRAM_BASE)]
            } else if vaddr - DRAM_BASE + data.len() <= i < vaddr - DRAM_BASE + memsz {
                0u8
            } else {
                mem[i]
            },
    )
}

/// The whole of a segment, bytes and zero-fill, lies inside DRAM.
pub open spec fn seg_in_dram(s: crate::elf::Segment) -> bool {
    &&& DRAM_BASE <= s.vaddr
    &&& s.vaddr - DRAM_BASE + s.data@.len() <= crate::memory::DRAM_SIZE
    &&& s.vaddr - DRAM_BASE + s.memsz <= crate::memory::DRAM_SIZE
}

/// The DRAM bytes after a list of segments is written in order.
pub open spec fn apply_segments(mem: Seq<u8>, segs: Seq<crate::elf::Segment>) -> Seq<u8>
    decreases segs.len(),
{
    if segs.len() == 0 {
        mem
    } else {
        apply_segment(
            apply_segments(mem, segs.drop_last()),
            segs.last().vaddr,
            segs.last().data@,
            segs.last().memsz,
        )
    }
}

/// Whether a raw program load of `n` words writes address `a`: the words
/// land at the first `n` word-aligned DRAM addresses.
pub open spec fn program_writes(a: u64, n: int) -> bool {
    &&& DRAM_BASE <= a
    &&& a < DRAM_BASE + 4 * n
    &&& (a - DRAM_BASE) % 4 == 0
}

impl<T: Terminal> Cpu<T> {
    pub open spec fn wf(&self) -> bool {
        &&& self.csr.wf()
        &&& self.bus.wf()
    }

    /// A fresh hart: registers cleared, the PC at the DRAM base, machine
    /// mode, with `misa` advertising RV64 with the I, S and U extensions.
    pub fn new(terminal: T) -> (cpu: Cpu<T>)
        ensures
            cpu.wf(),
            cpu.regs@ == Seq::<u64>::new(32, |i: int| 0u64),
            cpu.pc == DRAM_BASE,
            cpu.mode == PrivilegeMode::Machine,
            !cpu.halted,
            cpu.csr.spec_read(csr::MISA) == 0x8000000000140100u64,
            forall|a: u16|
                a != csr::MISA && a != csr::MHARTID ==> cpu.csr.spec_read(a) == 0u64,
            cpu.csr.spec_read(csr::MHARTID) == 0u64,
            cpu.bus.clint.mtime == 0 && cpu.bus.clint.mtimecmp == 0 && !cpu.bus.clint.msip,
            forall|i: int| 0 <= i < crate::memory::DRAM_SIZE ==> cpu.bus.memory@[i] == 0u8,
            cpu.bus.uart.rx_fifo@ == Seq::<u8>::empty() && cpu.bus.uart.tx_fifo@ == Seq::<
                u8,
            >::empty() && cpu.bus.uart.tsr is None && cpu.bus.uart.ier == 0 && cpu.bus.uart.iir
                == 0xC1 && cpu.bus.uart.lsr == 0x60 && cpu.bus.uart.inv(),
            forall|h: u64| #[trigger] cpu.bus.spec_reservation(h) is None,
    {
        let mut csr_file = Csr::new();
        csr_file.write(csr::MISA, 0x8000000000140100);
        csr_file.write(csr::MHARTID, 0);
        let cpu = Cpu {
            regs: [0; 32],
            csr: csr_file,
            pc: DRAM_BASE,
            mode: PrivilegeMode::Machine,
            bus: Bus::new(terminal),
            halted: false,
        };
        proof {
            assert(cpu.regs@ =~= Seq::<u64>::new(32, |i: int| 0u64));
        }
        cpu
    }

    pub fn read_reg(&self, index: usize) -> (r: u64)
        requires
            index < 32,
        ensures
            r == self.regs@[index as int],
    {
        self.regs[index]
    }

    /// Writes a register; a write to `x0` is discarded.
    pub fn write_reg(&mut self, index: usize, value: u64)
        requires
            index < 32,
        ensures
            final(self).regs@ == wr(old(self).regs@, index as int, value),
            final(self).csr == old(self).csr,
            final(self).pc == old(self).pc,
            final(self).mode == old(self).mode,
            final(self).bus == old(self).bus,
            final(self).halted == old(self).halted,
    {
        if index != 0 {
            self.regs[index] = value;
        }
    }

    #[verifier::rlimit(100)]
    pub fn execute_op(&mut self, inst: u32) -> (r: Result<(), Fault>)
        requires
            old(self).wf(),
        ensures
            final(self).wf(),
            match op_value(
                inst,
                old(self).regs@[rs1_of(inst) as int],
                old(self).regs@[rs2_of(inst) as int],
            ) {
                Some(v) => r is Ok && alu_step_rel(*old(self), *final(self), rd_of(inst), v),
                None => r == Err::<(), Fault>(Fault::UnsupportedInstruction(inst)) && *final(self)
                    == *old(self),
            },
    {
        let funct3 = decoder::funct3(inst);
        let funct7 = decoder::funct7(inst);
        let rd = decoder::rd(inst);
        let rs1 = decoder::rs1(inst);
        let rs1_val = self.read_reg(rs1 as usize);
        let rs2 = decoder::rs2(inst);
        let rs2_val = self.read_reg(rs2 as usize);
        proof {
            lemma_shamt_bounds(rs2_val);
            lemma_s64_cast(rs1_val);
            lemma_s64_cast(rs2_val);
        }
        match (funct3, funct7) {
            (0x0, 0x0) => {
                self.write_reg(rd as usize, rs1_val.wrapping_add(rs2_val));
                Ok(())
            },
            (0x0, 0x01) => {
                self.write_reg(rd as usize, rs1_val.wrapping_mul(rs2_val));
                Ok(())
            },
            (0x0, 0x20) => {
                self.write_reg(rd as usize, rs1_val.wrapping_sub(rs2_val));
                Ok(())
            },
            (0x1, 0x0) => {
                let shamt: u64 = rs2_val & 0x3F;
                self.write_reg(rd as usize, rs1_val << shamt);
                Ok(())
            },
            (0x1, 0x01) => {
                let a: i64 = #[verifier::truncate] (rs1_val as i64);
                let b: i64 = #[verifier::truncate] (rs2_val as i64);
                proof {
                    assert((a as int) * (b as int) <= 0x40000000000000000000000000000000 && (
                    a as int) * (b as int) >= -0x40000000000000000000000000000000)
                        by (nonlinear_arith)
                        requires
                            -0x8000000000000000 <= a as int <= 0x7FFFFFFFFFFFFFFF,
                            -0x8000000000000000 <= b as int <= 0x7FFFFFFFFFFFFFFF,
                    ;
                }
                let p: i128 = (a as i128) * (b as i128);
                let hi: i128 = p >> 64u32;
                proof {
                    lemma_split128_s(p);
                    vstd::arithmetic::div_mod::lemma_fundamental_div_mod_converse(
                        p as int,
                        0x10000000000000000,
                        hi as int,
                        (p & 0xFFFFFFFFFFFFFFFF) as int,
                    );
                }
                let hi64: i64 = #[verifier::truncate] (hi as i64);
                proof {
                    assert(-0x8000000000000000 <= hi <= 0x7FFFFFFFFFFFFFFF);
                    lemma_i64_round_trip(hi64);
                    assert((hi64 as u64) == mulh_ss(rs1_val, rs2_val));
                }
                self.write_reg(rd as usize, #[verifier::truncate] (hi64 as u64));
                Ok(())
            },
            (0x2, 0x0) => {
                let result: u64 = if (#[verifier::truncate] (rs1_val as i64))
                    < (#[verifier::truncate] (rs2_val as i64)) {
                    1
                } else {
                    0
                };
                self.write_reg(rd as usize, result);
                Ok(())
            },
            (0x2, 0x01) => {
                let a: i64 = #[verifier::truncate] (rs1_val as i64);
                proof {
                    assert((a as int) * (rs2_val as int) <= 0x7FFFFFFFFFFFFFFFFFFFFFFFFFFFFFFF && (
                    a as int) * (rs2_val as int) >= -0x7FFFFFFFFFFFFFFFFFFFFFFFFFFFFFFF)
                        by (nonlinear_arith)
                        requires
                            -0x8000000000000000 <= a as int <= 0x7FFFFFFFFFFFFFFF,
                            0 <= rs2_val as int <= 0xFFFFFFFFFFFFFFFF,
                    ;
                }
                let p: i128 = (a as i128) * (rs2_val as i128);
                let hi: i128 = p >> 64u32;
                proof {
                    lemma_split128_s(p);
                    vstd::arithmetic::div_mod::lemma_fundamental_div_mod_converse(
                        p as int,
                        0x10000000000000000,
                        hi as int,
                        (p & 0xFFFFFFFFFFFFFFFF) as int,
                    );
                }
                let hi64: i64 = #[verifier::truncate] (hi as i64);
                proof {
                    assert(-0x8000000000000000 <= hi <= 0x7FFFFFFFFFFFFFFF);
                    lemma_i64_round_trip(hi64);
                    assert((hi64 as u64) == mulh_su(rs1_val, rs2_val));
                }
                self.write_reg(rd as usize, #[verifier::truncate] (hi64 as u64));
                Ok(())
            },
            (0x3, 0x0) => {
                let result: u64 = if rs1_val < rs2_val {
                    1
                } else {
                    0
                };
                self.write_reg(rd as usize, result);
                Ok(())
            },
            (0x3, 0x01) => {
                proof {
                    assert((rs1_val as int) * (rs2_val as int)
                        <= 0xFFFFFFFFFFFFFFFFFFFFFFFFFFFFFFFF && (rs1_val as int) * (
                    rs2_val as int) >= 0)
                        by (nonlinear_arith)
                        requires
                            0 <= rs1_val as int <= 0xFFFFFFFFFFFFFFFF,
                            0 <= rs2_val as int <= 0xFFFFFFFFFFFFFFFF,
                    ;
                }
                let p: u128 = (rs1_val as u128) * (rs2_val as u128);
                let hi: u128 = p >> 64u32;
                proof {
                    lemma_split128_u(p);
                    vstd::arithmetic::div_mod::lemma_fundamental_div_mod_converse(
                        p as int,
                        0x10000000000000000,
                        hi as int,
                        (p & 0xFFFFFFFFFFFFFFFF) as int,
                    );
                }
                proof {
                    assert(hi < 0x10000000000000000);
                    assert((hi as u64) == mulh_uu(rs1_val, rs2_val));
                }
                self.write_reg(rd as usize, #[verifier::truncate] (hi as u64));
                Ok(())
            },
            (0x4, 0x0) => {
                self.write_reg(rd as usize, rs1_val ^ rs2_val);
                Ok(())
            },
            (0x4, 0x01) => {
                if rs2_val == 0 {
                    self.write_reg(rd as usize, u64::MAX);
                } else {
                    let a: i64 = #[verifier::truncate] (rs1_val as i64);
                    let b: i64 = #[verifier::truncate] (rs2_val as i64);
                    match a.checked_div(b) {
                        Some(q) => {
                            proof {
                                lemma_i64_round_trip(q);
                                if rs1_val == 0x8000000000000000 && rs2_val == 0xFFFFFFFFFFFFFFFF {
                                    assert(a as int == -0x8000000000000000 && b as int == -1);
                                    assert((a as int) * -1 == 0x8000000000000000 && (b as int) * -1
                                        == 1);
                                    assert(0x8000000000000000int / 1int == 0x8000000000000000int);
                                    assert(false);
                                }
                                assert(q as int == trunc_div(s64(rs1_val), s64(rs2_val)));
                                assert((q as u64) == div_signed(rs1_val, rs2_val));
                            }
                            self.write_reg(rd as usize, #[verifier::truncate] (q as u64));
                        },
                        None => {
                            proof {
                                assert(rs1_val == div_signed(rs1_val, rs2_val));
                            }
                            self.write_reg(rd as usize, rs1_val);
                        },
                    }
                }
                Ok(())
            },
            (0x5, 0x0) => {
                let shamt: u64 = rs2_val & 0x3F;
                self.write_reg(rd as usize, rs1_val >> shamt);
                Ok(())
            },
            (0x5, 0x01) => {
                if rs2_val == 0 {
                    self.write_reg(rd as usize, u64::MAX);
                } else {
                    self.write_reg(rd as usize, rs1_val / rs2_val);
                }
                Ok(())
            },
            (0x5, 0x20) => {
                let shamt: u64 = rs2_val & 0x3F;
                self.write_reg(
                    rd as usize,
                    #[verifier::truncate] (((rs1_val as i64) >> shamt) as u64),
                );
                Ok(())
            },
            (0x6, 0x0) => {
                self.write_reg(rd as usize, rs1_val | rs2_val);
                Ok(())
            },
            (0x6, 0x01) => {
                if rs2_val == 0 {
                    self.write_reg(rd as usize, rs1_val);
                } else {
                    let a: i64 = #[verifier::truncate] (rs1_val as i64);
                    let b: i64 = #[verifier::truncate] (rs2_val as i64);
                    match a.checked_rem(b) {
                        Some(q) => {
                            proof {
                                lemma_i64_round_trip(q);
                                assert((q as u64) == rem_signed(rs1_val, rs2_val));
                            }
                            self.write_reg(rd as usize, #[verifier::truncate] (q as u64));
                        },
                        None => {
                            proof {
                                assert(0u64 == rem_signed(rs1_val, rs2_val));
                            }
                            self.write_reg(rd as usize, 0);
                        },
                    }
                }
                Ok(())
            },
            (0x7, 0x0) => {
                self.write_reg(rd as usize, rs1_val & rs2_val);
                Ok(())
            },
            (0x7, 0x01) => {
                if rs2_val == 0 {
                    self.write_reg(rd as usize, rs1_val);
                } else {
                    self.write_reg(rd as usize, rs1_val % rs2_val);
                }
                Ok(())
            },
            _ => Err(Fault::UnsupportedInstruction(inst)),
        }
    }

    pub fn execute_op_imm(&mut self, inst: u32) -> (r: Result<(), Fault>)
        requires
            old(self).wf(),
        ensures
            final(self).wf(),
            match op_imm_value(inst, old(self).regs@[rs1_of(inst) as int]) {
                Some(v) => r is Ok && alu_step_rel(*old(self), *final(self), rd_of(inst), v),
                None => r == Err::<(), Fault>(Fault::UnsupportedInstruction(inst)) && *final(self)
                    == *old(self),
            },
    {
        let funct3 = decoder::funct3(inst);
        let rd = decoder::rd(inst);
        let rs1 = decoder::rs1(inst);
        let rs1_val = self.read_reg(rs1 as usize);
        let imm = decoder::imm_i(inst);
        let imm64: u64 = #[verifier::truncate] (imm as u64);
        proof {
            lemma_shamt_bounds(imm64);
            lemma_s64_cast(rs1_val);
        }
        match funct3 {
            0 => {
                self.write_reg(rd as usize, rs1_val.wrapping_add(imm64));
                Ok(())
            },
            1 => {
                let shamt: u64 = imm64 & 0x3F;
                self.write_reg(rd as usize, rs1_val << shamt);
                Ok(())
            },
            2 => {
                let result: u64 = if (rs1_val as i64) < (imm as i64) {
                    1
                } else {
                    0
                };
                self.write_reg(rd as usize, result);
                Ok(())
            },
            3 => {
                let result: u64 = if rs1_val < imm64 {
                    1
                } else {
                    0
                };
                self.write_reg(rd as usize, result);
                Ok(())
            },
            4 => {
                self.write_reg(rd as usize, rs1_val ^ imm64);
                Ok(())
            },
            5 => {
                let funct7: u64 = (imm64 >> 5) & 0x7F;
                let shamt: u64 = imm64 & 0x3F;
                if funct7 == 0x00 {
                    self.write_reg(rd as usize, rs1_val >> shamt);
                    Ok(())
                } else if funct7 == 0x20 {
                    self.write_reg(rd as usize, #[verifier::truncate] (((rs1_val as i64) >> shamt) as u64));
                    Ok(())
                } else {
                    Err(Fault::UnsupportedInstruction(inst))
                }
            },
            6 => {
                self.write_reg(rd as usize, rs1_val | imm64);
                Ok(())
            },
            _ => {
                self.write_reg(rd as usize, rs1_val & imm64);
                Ok(())
            },
        }
    }

    pub fn execute_op_imm_32(&mut self, inst: u32) -> (r: Result<(), Fault>)
        requires
            old(self).wf(),
        ensures
            final(self).wf(),
            match op_imm32_value(inst, old(self).regs@[rs1_of(inst) as int]) {
                Some(v) => r is Ok && alu_step_rel(*old(self), *final(self), rd_of(inst), v),
                None => r == Err::<(), Fault>(Fault::UnsupportedInstruction(inst)) && *final(self)
                    == *old(self),
            },
    {
        let funct3 = decoder::funct3(inst);
        let rd = decoder::rd(inst);
        let rs1 = decoder::rs1(inst);
        let rs1_val = self.read_reg(rs1 as usize);
        let rs1_32: u32 = #[verifier::truncate] (rs1_val as u32);
        let imm = decoder::imm_i(inst);
        let imm64: u64 = #[verifier::truncate] (imm as u64);
        let imm32: u32 = #[verifier::truncate] (imm64 as u32);
        match funct3 {
            0x0 => {
                let result: u32 = rs1_32.wrapping_add(imm32);
                self.write_reg(rd as usize, crate::bits::sign_extend32(result));
                Ok(())
            },
            0x1 => {
                let shamt: u32 = (imm64 & 0x1F) as u32;
                proof {
                    lemma_shamt_bounds(imm64);
                }
                self.write_reg(rd as usize, crate::bits::sign_extend32(rs1_32 << shamt));
                Ok(())
            },
            0x5 => {
                let funct7: u64 = (imm64 >> 5) & 0x7F;
                let shamt: u32 = (imm64 & 0x1F) as u32;
                proof {
                    lemma_shamt_bounds(imm64);
                }
                if funct7 == 0x00 {
                    self.write_reg(rd as usize, crate::bits::sign_extend32(rs1_32 >> shamt));
                    Ok(())
                } else if funct7 == 0x20 {
                    let shifted: u32 = #[verifier::truncate] (((rs1_32 as i32) >> shamt) as u32);
                    self.write_reg(rd as usize, crate::bits::sign_extend32(shifted));
                    Ok(())
                } else {
                    Err(Fault::UnsupportedInstruction(inst))
                }
            },
            _ => Err(Fault::UnsupportedInstruction(inst)),
        }
    }

    #[verifier::rlimit(100)]
    pub fn execute_op_32(&mut self, inst: u32) -> (r: Result<(), Fault>)
        requires
            old(self).wf(),
        ensures
            final(self).wf(),
            match op32_value(
                inst,
                old(self).regs@[rs1_of(inst) as int],
                old(self).regs@[rs2_of(inst) as int],
            ) {
                Some(v) => r is Ok && alu_step_rel(*old(self), *final(self), rd_of(inst), v),
                None => r == Err::<(), Fault>(Fault::UnsupportedInstruction(inst)) && *final(self)
                    == *old(self),
            },
    {
        let funct3 = decoder::funct3(inst);
        let funct7 = decoder::funct7(inst);
        let rd = decoder::rd(inst);
        let rs1 = decoder::rs1(inst);
        let rs1_val = self.read_reg(rs1 as usize);
        let rs2 = decoder::rs2(inst);
        let rs2_val = self.read_reg(rs2 as usize);
        let rs1_32: u32 = #[verifier::truncate] (rs1_val as u32);
        let rs2_32: u32 = #[verifier::truncate] (rs2_val as u32);
        proof {
            lemma_shamt_bounds(rs2_val);
            crate::bits::lemma_s32_cast(rs1_32);
            crate::bits::lemma_s32_cast(rs2_32);
        }
        match (funct3, funct7) {
            (0x0, 0x0) => {
                self.write_reg(rd as usize, crate::bits::sign_extend32(rs1_32.wrapping_add(rs2_32)));
                Ok(())
            },
            (0x0, 0x01) => {
                self.write_reg(rd as usize, crate::bits::sign_extend32(rs1_32.wrapping_mul(rs2_32)));
                Ok(())
            },
            (0x0, 0x20) => {
                self.write_reg(rd as usize, crate::bits::sign_extend32(rs1_32.wrapping_sub(rs2_32)));
                Ok(())
            },
            (0x1, 0x0) => {
                let shamt: u32 = (rs2_val & 0x1F) as u32;
                self.write_reg(rd as usize, crate::bits::sign_extend32(rs1_32 << shamt));
                Ok(())
            },
            (0x4, 0x01) => {
                if rs2_32 == 0 {
                    self.write_reg(rd as usize, 0xFFFFFFFFFFFFFFFF);
                } else {
                    let a: i32 = #[verifier::truncate] (rs1_32 as i32);
                    let b: i32 = #[verifier::truncate] (rs2_32 as i32);
                    match a.checked_div(b) {
                        Some(q) => {
                            proof {
                                crate::bits::lemma_i32_ext(q);
                                if rs1_32 == 0x80000000 && rs2_32 == 0xFFFFFFFF {
                                    assert(a as int == -0x80000000 && b as int == -1);
                                    assert((a as int) * -1 == 0x80000000 && (b as int) * -1 == 1);
                                    assert(0x80000000int / 1int == 0x80000000int);
                                    assert(false);
                                }
                                assert(q as int == trunc_div(
                                    crate::bits::s32(rs1_32),
                                    crate::bits::s32(rs2_32),
                                ));
                                assert((q as u64) == div32_signed(rs1_32, rs2_32));
                            }
                            self.write_reg(rd as usize, #[verifier::truncate] (q as u64));
                        },
                        None => {
                            proof {
                                crate::bits::lemma_i32_ext(#[verifier::truncate] (0x80000000u32 as i32));
                                assert(sext32(0x80000000u32) == div32_signed(rs1_32, rs2_32));
                            }
                            self.write_reg(rd as usize, crate::bits::sign_extend32(rs1_32));
                        },
                    }
                }
                Ok(())
            },
            (0x5, 0x0) => {
                let shamt: u32 = (rs2_val & 0x1F) as u32;
                self.write_reg(rd as usize, crate::bits::sign_extend32(rs1_32 >> shamt));
                Ok(())
            },
            (0x5, 0x01) => {
                if rs2_32 == 0 {
                    self.write_reg(rd as usize, 0xFFFFFFFFFFFFFFFF);
                } else {
                    self.write_reg(rd as usize, crate::bits::sign_extend32(rs1_32 / rs2_32));
                }
                Ok(())
            },
            (0x5, 0x20) => {
                let shamt: u32 = (rs2_val & 0x1F) as u32;
                let shifted: u32 = #[verifier::truncate] (((rs1_32 as i32) >> shamt) as u32);
                self.write_reg(rd as usize, crate::bits::sign_extend32(shifted));
                Ok(())
            },
            (0x6, 0x01) => {
                if rs2_32 == 0 {
                    self.write_reg(rd as usize, crate::bits::sign_extend32(rs1_32));
                } else {
                    let a: i32 = #[verifier::truncate] (rs1_32 as i32);
                    let b: i32 = #[verifier::truncate] (rs2_32 as i32);
                    match a.checked_rem(b) {
                        Some(q) => {
                            proof {
                                crate::bits::lemma_i32_ext(q);
                                assert(q as int == trunc_rem(
                                    crate::bits::s32(rs1_32),
                                    crate::bits::s32(rs2_32),
                                ));
                                assert((q as u64) == rem32_signed(rs1_32, rs2_32));
                            }
                            self.write_reg(rd as usize, #[verifier::truncate] (q as u64));
                        },
                        None => {
                            proof {
                                assert(0u64 == rem32_signed(rs1_32, rs2_32));
                            }
                            self.write_reg(rd as usize, 0);
                        },
                    }
                }
                Ok(())
            },
            (0x7, 0x01) => {
                if rs2_32 == 0 {
                    self.write_reg(rd as usize, crate::bits::sign_extend32(rs1_32));
                } else {
                    self.write_reg(rd as usize, crate::bits::sign_extend32(rs1_32 % rs2_32));
                }
                Ok(())
            },
            _ => Err(Fault::UnsupportedInstruction(inst)),
        }
    }

    /// Evaluates a branch and, when it is taken, moves the PC by the
    /// B-form offset; returns whether it was taken.
    pub fn execute_branch(&mut self, inst: u32) -> (r: Result<bool, Fault>)
        requires
            old(self).wf(),
        ensures
            final(self).wf(),
            match branch_taken(
                inst,
                old(self).regs@[rs1_of(inst) as int],
                old(self).regs@[rs2_of(inst) as int],
            ) {
                Some(true) => r == Ok::<bool, Fault>(true) && *final(self) == (Cpu {
                    pc: old(self).pc.wrapping_add(imm_b_u64(inst)),
                    ..*old(self)
                }),
                Some(false) => r == Ok::<bool, Fault>(false) && *final(self) == *old(self),
                None => r == Err::<bool, Fault>(Fault::UnsupportedInstruction(inst)) && *final(self)
                    == *old(self),
            },
    {
        let funct3 = decoder::funct3(inst);
        let rs1 = decoder::rs1(inst);
        let rs1_val = self.read_reg(rs1 as usize);
        let rs2 = decoder::rs2(inst);
        let rs2_val = self.read_reg(rs2 as usize);
        let imm = decoder::imm_b(inst);
        proof {
            lemma_s64_cast(rs1_val);
            lemma_s64_cast(rs2_val);
        }
        let taken: bool = match funct3 {
            0x0 => rs1_val == rs2_val,
            0x1 => rs1_val != rs2_val,
            0x4 => (#[verifier::truncate] (rs1_val as i64)) < (#[verifier::truncate] (rs2_val as i64)),
            0x5 => (#[verifier::truncate] (rs1_val as i64)) >= (#[verifier::truncate] (rs2_val as i64)),
            0x6 => rs1_val < rs2_val,
            0x7 => rs1_val >= rs2_val,
            _ => {
                return Err(Fault::UnsupportedInstruction(inst));
            },
        };
        if taken {
            self.pc = self.pc.wrapping_add(#[verifier::truncate] (imm as u64));
        }
        Ok(taken)
    }

    /// Links the return address and jumps by the J-form offset.
    pub fn execute_jal(&mut self, inst: u32)
        requires
            old(self).wf(),
        ensures
            final(self).wf(),
            final(self).regs@ == wr(
                old(self).regs@,
                rd_of(inst) as int,
                old(self).pc.wrapping_add(4),
            ),
            final(self).pc == old(self).pc.wrapping_add(imm_j_u64(inst)),
            final(self).csr == old(self).csr,
            final(self).mode == old(self).mode,
            final(self).bus == old(self).bus,
            final(self).halted == old(self).halted,
    {
        let rd = decoder::rd(inst);
        let imm = decoder::imm_j(inst);
        let link: u64 = self.pc.wrapping_add(4);
        self.write_reg(rd as usize, link);
        self.pc = self.pc.wrapping_add(#[verifier::truncate] (imm as u64));
    }

    /// Links the return address and jumps to `rs1 + imm` with the lowest
    /// bit cleared.
    pub fn execute_jalr(&mut self, inst: u32)
        requires
            old(self).wf(),
        ensures
            final(self).wf(),
            final(self).regs@ == wr(
                old(self).regs@,
                rd_of(inst) as int,
                old(self).pc.wrapping_add(4),
            ),
            final(self).pc == (old(self).regs@[rs1_of(inst) as int].wrapping_add(imm_i_u64(inst))
                & 0xFFFFFFFFFFFFFFFE),
            final(self).csr == old(self).csr,
            final(self).mode == old(self).mode,
            final(self).bus == old(self).bus,
            final(self).halted == old(self).halted,
    {
        let rd = decoder::rd(inst);
        let rs1 = decoder::rs1(inst);
        let rs1_val = self.read_reg(rs1 as usize);
        let imm = decoder::imm_i(inst);
        let link: u64 = self.pc.wrapping_add(4);
        self.write_reg(rd as usize, link);
        self.pc = rs1_val.wrapping_add(#[verifier::truncate] (imm as u64)) & 0xFFFFFFFFFFFFFFFE;
    }

    /// Loads the U-form immediate.
    pub fn execute_lui(&mut self, inst: u32)
        requires
            old(self).wf(),
        ensures
            final(self).wf(),
            alu_step_rel(*old(self), *final(self), rd_of(inst), imm_u_u64(inst)),
    {
        let rd = decoder::rd(inst);
        let imm = decoder::imm_u(inst);
        self.write_reg(rd as usize, #[verifier::truncate] (imm as u64));
    }

    /// Adds the U-form immediate to the PC.
    pub fn execute_auipc(&mut self, inst: u32)
        requires
            old(self).wf(),
        ensures
            final(self).wf(),
            alu_step_rel(
                *old(self),
                *final(self),
                rd_of(inst),
                old(self).pc.wrapping_add(imm_u_u64(inst)),
            ),
    {
        let rd = decoder::rd(inst);
        let imm = decoder::imm_u(inst);
        let value: u64 = self.pc.wrapping_add(#[verifier::truncate] (imm as u64));
        self.write_reg(rd as usize, value);
    }

    pub fn execute_load(&mut self, inst: u32) -> (r: Result<(), Fault>)
        requires
            old(self).wf(),
        ensures
            final(self).wf(),
            final(self).csr == old(self).csr,
            final(self).pc == old(self).pc,
            final(self).mode == old(self).mode,
            final(self).halted == old(self).halted,
            ({
                let addr = old(self).regs@[rs1_of(inst) as int].wrapping_add(imm_i_u64(inst));
                let pre_bus = old(self).bus;
                let pre_regs = old(self).regs@;
                match funct3_of(inst) {
                    0u32 => load8_rel(pre_bus, pre_regs, *final(self), addr, rd_of(inst), true, r),
                    1u32 => load16_rel(pre_bus, pre_regs, *final(self), addr, rd_of(inst), true, r),
                    2u32 => load32_rel(pre_bus, pre_regs, *final(self), addr, rd_of(inst), true, r),
                    3u32 => load64_rel(pre_bus, pre_regs, *final(self), addr, rd_of(inst), r),
                    4u32 => load8_rel(pre_bus, pre_regs, *final(self), addr, rd_of(inst), false, r),
                    5u32 => load16_rel(pre_bus, pre_regs, *final(self), addr, rd_of(inst), false, r),
                    6u32 => load32_rel(pre_bus, pre_regs, *final(self), addr, rd_of(inst), false, r),
                    _ => r == Err::<(), Fault>(Fault::UnsupportedInstruction(inst)) && *final(self)
                        == *old(self),
                }
            }),
    {
        let funct3 = decoder::funct3(inst);
        let rd = decoder::rd(inst);
        let rs1 = decoder::rs1(inst);
        let rs1_val = self.read_reg(rs1 as usize);
        let imm = decoder::imm_i(inst);
        let addr: u64 = rs1_val.wrapping_add(#[verifier::truncate] (imm as u64));
        match funct3 {
            0x0 => {
                match self.bus.read8(addr) {
                    Ok(v) => {
                        self.write_reg(rd as usize, crate::bits::sign_extend8(v));
                        Ok(())
                    },
                    Err(e) => Err(e),
                }
            },
            0x1 => {
                match self.bus.read16(addr) {
                    Ok(v) => {
                        self.write_reg(rd as usize, crate::bits::sign_extend16(v));
                        Ok(())
                    },
                    Err(e) => Err(e),
                }
            },
            0x2 => {
                match self.bus.read32(addr) {
                    Ok(v) => {
                        self.write_reg(rd as usize, crate::bits::sign_extend32(v));
                        Ok(())
                    },
                    Err(e) => Err(e),
                }
            },
            0x3 => {
                match self.bus.read64(addr) {
                    Ok(v) => {
                        self.write_reg(rd as usize, v);
                        Ok(())
                    },
                    Err(e) => Err(e),
                }
            },
            0x4 => {
                match self.bus.read8(addr) {
                    Ok(v) => {
                        proof {
                            assert(zext8(v) == v as u64);
                        }
                        self.write_reg(rd as usize, v as u64);
                        Ok(())
                    },
                    Err(e) => Err(e),
                }
            },
            0x5 => {
                match self.bus.read16(addr) {
                    Ok(v) => {
                        proof {
                            assert(zext16(v) == v as u64);
                        }
                        self.write_reg(rd as usize, v as u64);
                        Ok(())
                    },
                    Err(e) => Err(e),
                }
            },
            0x6 => {
                match self.bus.read32(addr) {
                    Ok(v) => {
                        proof {
                            assert(zext32(v) == v as u64);
                        }
                        self.write_reg(rd as usize, v as u64);
                        Ok(())
                    },
                    Err(e) => Err(e),
                }
            },
            _ => Err(Fault::UnsupportedInstruction(inst)),
        }
    }

    pub fn execute_store(&mut self, inst: u32) -> (r: Result<(), Fault>)
        requires
            old(self).wf(),
        ensures
            final(self).wf(),
            final(self).regs@ == old(self).regs@,
            final(self).csr == old(self).csr,
            final(self).pc == old(self).pc,
            final(self).mode == old(self).mode,
            final(self).halted == old(self).halted,
            ({
                let addr = old(self).regs@[rs1_of(inst) as int].wrapping_add(imm_s_u64(inst));
                let v = old(self).regs@[rs2_of(inst) as int];
                match funct3_of(inst) {
                    0u32 => crate::bus::bus_write8_rel(
                        old(self).bus,
                        final(self).bus,
                        addr,
                        v as u8,
                        r,
                    ),
                    1u32 => crate::bus::bus_write16_rel(
                        old(self).bus,
                        final(self).bus,
                        addr,
                        v as u16,
                        r,
                    ),
                    2u32 => crate::bus::bus_write32_rel(
                        old(self).bus,
                        final(self).bus,
                        addr,
                        v as u32,
                        r,
                    ),
                    3u32 => crate::bus::bus_write64_rel(old(self).bus, final(self).bus, addr, v, r),
                    _ => r == Err::<(), Fault>(Fault::UnsupportedInstruction(inst)) && *final(self)
                        == *old(self),
                }
            }),
    {
        let funct3 = decoder::funct3(inst);
        let rs1 = decoder::rs1(inst);
        let rs1_val = self.read_reg(rs1 as usize);
        let rs2 = decoder::rs2(inst);
        let rs2_val = self.read_reg(rs2 as usize);
        let imm = decoder::imm_s(inst);
        let addr: u64 = rs1_val.wrapping_add(#[verifier::truncate] (imm as u64));
        match funct3 {
            0x0 => {
                let rr = self.bus.write8(addr, #[verifier::truncate] (rs2_val as u8));
                proof {
                    crate::bus::lemma_bus_write8_rel(
                        old(self).bus,
                        self.bus,
                        addr,
                        rs2_val as u8,
                        rr,
                    );
                }
                rr
            },
            0x1 => {
                let rr = self.bus.write16(addr, #[verifier::truncate] (rs2_val as u16));
                proof {
                    crate::bus::lemma_bus_write16_rel(
                        old(self).bus,
                        self.bus,
                        addr,
                        rs2_val as u16,
                        rr,
                    );
                }
                rr
            },
            0x2 => self.bus.write32(addr, #[verifier::truncate] (rs2_val as u32)),
            0x3 => {
                let rr = self.bus.write64(addr, rs2_val);
                proof {
                    crate::bus::lemma_bus_write64_rel(old(self).bus, self.bus, addr, rs2_val, rr);
                }
                rr
            },
            _ => Err(Fault::UnsupportedInstruction(inst)),
        }
    }

    /// Enters a trap: records the cause, saves and masks the interrupt
    /// enable, remembers the interrupted mode, and jumps to the `MTVEC`
    /// target.
    pub fn trap(&mut self, cause: u64, tval: u64)
        requires
            old(self).wf(),
        ensures
            final(self).wf(),
            trap_rel(
                old(self).regs@,
                old(self).csr@,
                old(self).pc,
                old(self).mode,
                old(self).bus,
                old(self).halted,
                *final(self),
                cause,
                tval,
            ),
    {
        self.csr.write(csr::MEPC, self.pc);
        self.csr.write(csr::MCAUSE, cause);
        self.csr.write(csr::MTVAL, tval);
        let mut mstatus: u64 = self.csr.read(csr::MSTATUS);
        let mie: bool = (mstatus & csr::MSTATUS_MIE) != 0;
        if mie {
            mstatus = mstatus | csr::MSTATUS_MPIE;
        } else {
            mstatus = mstatus & !csr::MSTATUS_MPIE;
        }
        mstatus = mstatus & !csr::MSTATUS_MIE;
        mstatus = mstatus & !csr::MSTATUS_MPP;
        let code: u64 = self.mode.code();
        proof {
            assert(code * 0x800 <= 3 * 0x800);
        }
        mstatus = mstatus | (code * 0x800);
        self.csr.write(csr::MSTATUS, mstatus);
        self.mode = PrivilegeMode::Machine;
        let mtvec: u64 = self.csr.read(csr::MTVEC);
        let tmode: u64 = mtvec & 0x3;
        let base: u64 = mtvec & !0x3u64;
        if tmode == 0 {
            self.pc = base;
        } else {
            if (cause & csr::INTERRUPT_BIT) > 0 {
                proof {
                    assert(cause & 0x3FF <= 0x3FF) by (bit_vector);
                }
                self.pc = base.wrapping_add(4 * (cause & 0x3FF));
            } else {
                self.pc = base;
            }
        }
        proof {
            assert(final(self).csr@ =~= trap_write_csrs(
                old(self).csr@,
                old(self).pc,
                old(self).mode,
                cause,
                tval,
            ));
        }
    }

    /// Fetches the 32-bit instruction word at the PC.
    pub fn fetch(&mut self) -> (r: Result<u32, Fault>)
        requires
            old(self).wf(),
        ensures
            final(self).wf(),
            crate::bus::bus_read32_rel(old(self).bus, final(self).bus, old(self).pc, r),
            final(self).regs@ == old(self).regs@,
            final(self).csr == old(self).csr,
            final(self).pc == old(self).pc,
            final(self).mode == old(self).mode,
            final(self).halted == old(self).halted,
    {
        self.bus.read32(self.pc)
    }

    /// Executes a SYSTEM instruction: the privileged operations and the
    /// CSR read-modify-write family. Returns whether the instruction set
    /// the PC itself.
    #[verifier::rlimit(100)]
    pub fn execute_system(&mut self, inst: u32) -> (r: Result<bool, Fault>)
        requires
            old(self).wf(),
        ensures
            final(self).wf(),
            sys_rel(
                old(self).regs@,
                old(self).csr@,
                old(self).pc,
                old(self).mode,
                old(self).bus,
                old(self).halted,
                0u64,
                inst,
                *final(self),
                r,
            ),
    {
        let funct3 = decoder::funct3(inst);
        let rd = decoder::rd(inst);
        let rs1 = decoder::rs1(inst);
        let rs1_val = self.read_reg(rs1 as usize);
        let addr = decoder::csr_addr(inst);
        if funct3 == 0x0 {
            let funct7 = decoder::funct7(inst);
            let rs2 = decoder::rs2(inst);
            if funct7 == 0x00 && rs2 == 0x00 {
                match self.mode {
                    PrivilegeMode::Machine => self.trap(csr::ECALL_FROM_M, 0),
                    PrivilegeMode::Supervisor => self.trap(csr::ECALL_FROM_S, 0),
                    PrivilegeMode::User => self.trap(csr::ECALL_FROM_U, 0),
                }
                Ok(true)
            } else if funct7 == 0x00 && rs2 == 0x01 {
                self.trap(csr::BREAKPOINT, 0);
                Ok(true)
            } else if funct7 == 0x18 && rs2 == 0x02 {
                let mepc: u64 = self.csr.read(csr::MEPC);
                let mut mstatus: u64 = self.csr.read(csr::MSTATUS);
                let mpie: bool = (mstatus & csr::MSTATUS_MPIE) != 0;
                if mpie {
                    mstatus = mstatus | csr::MSTATUS_MIE;
                } else {
                    mstatus = mstatus & !csr::MSTATUS_MIE;
                }
                mstatus = mstatus | csr::MSTATUS_MPIE;
                let mpp: u64 = (mstatus & csr::MSTATUS_MPP) >> 11u64;
                let new_mode: PrivilegeMode = if mpp == 0 {
                    PrivilegeMode::User
                } else if mpp == 1 {
                    PrivilegeMode::Supervisor
                } else if mpp == 3 {
                    PrivilegeMode::Machine
                } else {
                    return Err(Fault::InvalidMpp(mpp));
                };
                self.pc = mepc;
                self.mode = new_mode;
                mstatus = mstatus & !csr::MSTATUS_MPP;
                self.csr.write(csr::MSTATUS, mstatus);
                Ok(true)
            } else if funct7 == 0x08 && rs2 == 0x02 {
                let sepc: u64 = self.csr.read(csr::SEPC);
                let mut sstatus: u64 = self.csr.read(csr::SSTATUS);
                let spie: bool = (sstatus & csr::SSTATUS_SPIE) != 0;
                if spie {
                    sstatus = sstatus | csr::SSTATUS_SIE;
                } else {
                    sstatus = sstatus & !csr::SSTATUS_SIE;
                }
                sstatus = sstatus | csr::SSTATUS_SPIE;
                let spp: bool = (sstatus & csr::SSTATUS_SPP) != 0;
                self.pc = sepc;
                self.mode = if spp {
                    PrivilegeMode::Supervisor
                } else {
                    PrivilegeMode::User
                };
                sstatus = sstatus & !csr::SSTATUS_SPP;
                self.csr.write(csr::SSTATUS, sstatus);
                Ok(true)
            } else {
                Err(Fault::UnsupportedCsrOp(inst))
            }
        } else if funct3 == 0x1 {
            let old_value: u64 = self.csr.read(addr);
            self.csr.write(addr, rs1_val);
            self.write_reg(rd as usize, old_value);
            Ok(false)
        } else if funct3 == 0x2 {
            let old_value: u64 = self.csr.read(addr);
            if rs1_val != 0 {
                self.csr.write(addr, old_value | rs1_val);
            }
            self.write_reg(rd as usize, old_value);
            Ok(false)
        } else if funct3 == 0x3 {
            let old_value: u64 = self.csr.read(addr);
            if rs1_val != 0 {
                self.csr.write(addr, old_value & !rs1_val);
            }
            self.write_reg(rd as usize, old_value);
            Ok(false)
        } else if funct3 == 0x5 {
            let old_value: u64 = self.csr.read(addr);
            self.csr.write(addr, rs1 as u64);
            self.write_reg(rd as usize, old_value);
            Ok(false)
        } else if funct3 == 0x6 {
            let old_value: u64 = self.csr.read(addr);
            if rs1 != 0 {
                self.csr.write(addr, old_value | (rs1 as u64));
            }
            self.write_reg(rd as usize, old_value);
            Ok(false)
        } else if funct3 == 0x7 {
            let old_value: u64 = self.csr.read(addr);
            if rs1 != 0 {
                self.csr.write(addr, old_value & !(rs1 as u64));
            }
            self.write_reg(rd as usize, old_value);
            Ok(false)
        } else {
            Err(Fault::UnsupportedCsrOp(inst))
        }
    }

    /// Mirrors the device interrupt lines into `MIP`, and enters the trap
    /// for the highest-priority enabled pending interrupt, if any.
    pub fn check_pending_interrupts(&mut self) -> (r: bool)
        requires
            old(self).wf(),
        ensures
            final(self).wf(),
            interrupt_check_rel(*old(self), *final(self), r),
    {
        let mip0: u64 = self.csr.read(csr::MIP);
        let mip1: u64 = if self.bus.check_timer_interrupt() {
            mip0 | csr::MIP_MTIP
        } else {
            mip0 & !csr::MIP_MTIP
        };
        let mip2: u64 = if self.bus.check_software_interrupt() {
            mip1 | csr::MIP_MSIP
        } else {
            mip1 & !csr::MIP_MSIP
        };
        let mip3: u64 = if self.bus.check_uart_interrupt() {
            mip2 | csr::MIP_MEIP
        } else {
            mip2 & !csr::MIP_MEIP
        };
        self.csr.write(csr::MIP, mip3);
        let mstatus: u64 = self.csr.read(csr::MSTATUS);
        if mstatus & csr::MSTATUS_MIE == 0 {
            return false;
        }
        let mip: u64 = self.csr.read(csr::MIP);
        let mie: u64 = self.csr.read(csr::MIE);
        if (mip & csr::MIP_MSIP != 0) && (mie & csr::MIE_MSIE != 0) {
            self.trap(csr::INTERRUPT_BIT | csr::INTERRUPT_FROM_SOFTWARE, 0);
            return true;
        }
        if (mip & csr::MIP_MTIP != 0) && (mie & csr::MIE_MTIE != 0) {
            self.trap(csr::INTERRUPT_BIT | csr::INTERRUPT_FROM_TIMER, 0);
            return true;
        }
        if (mip & csr::MIP_MEIP != 0) && (mie & csr::MIE_MEIE != 0) {
            self.trap(csr::INTERRUPT_BIT | csr::INTERRUPT_FROM_EXTERNAL, 0);
            return true;
        }
        false
    }

    /// One whole step: drain input, tick the timer, poll interrupts, and
    /// fetch and execute one instruction.
    #[verifier::rlimit(100)]
    #[verifier::spinoff_prover]
    pub fn step(&mut self) -> (r: Result<(), Fault>)
        requires
            old(self).wf(),
        ensures
            final(self).wf(),
            step_rel(*old(self), *final(self), r),
    {
        self.bus.receive_uart_input();
        self.bus.tick();
        let ghost mid = *self;
        proof {
            assert(step_mid_rel(*old(self), mid));
        }
        if self.check_pending_interrupts() {
            return Ok(());
        }
        let ghost cpu1 = *self;
        let inst = match self.fetch() {
            Ok(i) => i,
            Err(f) => {
                return Err(f);
            },
        };
        let ghost b2 = self.bus;
        let op = decoder::opcode(inst);
        let res: Result<(), Fault> = match op {
            OP_IMM => self.execute_op_imm(inst),
            OP_IMM_32 => self.execute_op_imm_32(inst),
            OP => self.execute_op(inst),
            OP_32 => self.execute_op_32(inst),
            LOAD => self.execute_load(inst),
            STORE => self.execute_store(inst),
            BRANCH => {
                match self.execute_branch(inst) {
                    Ok(true) => {
                        proof {
                            assert(inst_exec_rel(mid, cpu1.csr@, b2, inst, *self, Ok(())));
                        }
                        return Ok(());
                    },
                    Ok(false) => Ok(()),
                    Err(f) => Err(f),
                }
            },
            JAL => {
                self.execute_jal(inst);
                proof {
                    assert(inst_exec_rel(mid, cpu1.csr@, b2, inst, *self, Ok(())));
                }
                return Ok(());
            },
            JALR => {
                self.execute_jalr(inst);
                proof {
                    assert(inst_exec_rel(mid, cpu1.csr@, b2, inst, *self, Ok(())));
                }
                return Ok(());
            },
            LUI => {
                self.execute_lui(inst);
                Ok(())
            },
            AUIPC => {
                self.execute_auipc(inst);
                Ok(())
            },
            SYSTEM => {
                match self.execute_system(inst) {
                    Ok(true) => {
                        proof {
                            assert(sys_rel(
                                mid.regs@,
                                cpu1.csr@,
                                mid.pc,
                                mid.mode,
                                b2,
                                mid.halted,
                                4u64,
                                inst,
                                *self,
                                Ok::<bool, Fault>(true),
                            ));
                            assert(inst_exec_rel(mid, cpu1.csr@, b2, inst, *self, Ok(())));
                        }
                        return Ok(());
                    },
                    Ok(false) => Ok(()),
                    Err(f) => Err(f),
                }
            },
            _ => Err(Fault::UnsupportedOpcode(op)),
        };
        match res {
            Ok(u) => u,
            Err(f) => {
                proof {
                    if op == SYSTEM {
                        assert(sys_rel(
                            mid.regs@,
                            cpu1.csr@,
                            mid.pc,
                            mid.mode,
                            b2,
                            mid.halted,
                            4u64,
                            inst,
                            *self,
                            Err::<bool, Fault>(f),
                        ));
                    }
                    assert(inst_exec_rel(mid, cpu1.csr@, b2, inst, *self, Err(f)));
                }
                return Err(f);
            },
        }
        self.pc = self.pc.wrapping_add(4);
        proof {
            if op == SYSTEM {
                assert(sys_rel(
                    mid.regs@,
                    cpu1.csr@,
                    mid.pc,
                    mid.mode,
                    b2,
                    mid.halted,
                    4u64,
                    inst,
                    *self,
                    Ok::<bool, Fault>(false),
                ));
            }
            assert(inst_exec_rel(mid, cpu1.csr@, b2, inst, *self, Ok(())));
        }
        Ok(())
    }

    /// Runs the execute loop until the halted flag is raised or a fatal
    /// condition stops the machine, stepping at most `max_steps` times.
    /// Returns whether the hart came to a halt.
    pub fn run(&mut self, max_steps: u64) -> (r: Result<bool, Fault>)
        requires
            old(self).wf(),
        ensures
            final(self).wf(),
            run_rel(*old(self), *final(self), max_steps, r),
    {
        let ghost mut tr: Seq<Cpu<T>> = seq![*old(self)];
        let mut k: u64 = 0;
        while !self.halted && k < max_steps
            invariant
                self.wf(),
                k <= max_steps,
                tr.len() == k + 1,
                tr[0] == *old(self),
                tr.last() == *self,
                forall|i: int|
                    0 <= i < tr.len() - 1 ==> #[trigger] step_rel(tr[i], tr[i + 1], Ok::<
                        (),
                        Fault,
                    >(())),
                forall|i: int| 0 <= i < tr.len() - 1 ==> !(#[trigger] tr[i]).halted,
            decreases max_steps - k,
        {
            let ghost before = *self;
            let res = self.step();
            match res {
                Ok(u) => {
                    proof {
                        assert(res == Ok::<(), Fault>(()));
                        assert(step_rel(before, *self, Ok::<(), Fault>(())));
                        tr = tr.push(*self);
                        assert(tr[tr.len() - 2] == before && tr[tr.len() - 1] == *self);
                        assert(!before.halted);
                    }
                    u
                },
                Err(f) => {
                    proof {
                        assert(step_rel(tr.last(), *self, Err::<(), Fault>(f)));
                    }
                    return Err(f);
                },
            }
            k += 1;
        }
        Ok(self.halted)
    }

    /// Writes the loadable segments through the bus byte by byte,
    /// zero-filling each segment up to its memory size, then sets the PC
    /// to the entry point.
    pub fn load_segments(&mut self, segments: &[crate::elf::Segment], entry: u64) -> (r: Result<
        (),
        Fault,
    >)
        requires
            old(self).wf(),
        ensures
            final(self).wf(),
            final(self).regs@ == old(self).regs@,
            final(self).csr == old(self).csr,
            final(self).mode == old(self).mode,
            final(self).halted == old(self).halted,
            r is Ok ==> final(self).pc == entry,
            r is Err ==> final(self).pc == old(self).pc,
            (forall|i: int| 0 <= i < segments@.len() ==> seg_in_dram(#[trigger] segments@[i]))
                ==> r is Ok && final(self).bus.memory@ == apply_segments(
                old(self).bus.memory@,
                segments@,
            ) && final(self).bus.clint == old(self).bus.clint && final(self).bus.uart == old(
                self,
            ).bus.uart,
    {
        let n: usize = segments.len();
        let mut si: usize = 0;
        while si < n
            invariant
                si <= n,
                n == segments@.len(),
                self.wf(),
                self.regs@ == old(self).regs@,
                self.csr == old(self).csr,
                self.pc == old(self).pc,
                self.mode == old(self).mode,
                self.halted == old(self).halted,
                (forall|i: int| 0 <= i < segments@.len() ==> seg_in_dram(#[trigger] segments@[i]))
                    ==> {
                    &&& self.bus.memory@ == apply_segments(
                        old(self).bus.memory@,
                        segments@.subrange(0, si as int),
                    )
                    &&& self.bus.clint == old(self).bus.clint
                    &&& self.bus.uart == old(self).bus.uart
                },
            decreases n - si,
        {
            let ghost all_in = forall|i: int|
                0 <= i < segments@.len() ==> seg_in_dram(#[trigger] segments@[i]);
            let ghost mem_s = self.bus.memory@;
            let vaddr: u64 = segments[si].vaddr;
            let dlen: usize = segments[si].data.len();
            let mut j: usize = 0;
            proof {
                if all_in {
                    assert(apply_segment(mem_s, vaddr, segments@[si as int].data@.subrange(0, 0), 0)
                        =~= mem_s);
                }
            }
            while j < dlen
                invariant
                    j <= dlen,
                    si < n,
                    n == segments@.len(),
                    dlen == segments@[si as int].data@.len(),
                    vaddr == segments@[si as int].vaddr,
                    self.wf(),
                    self.regs@ == old(self).regs@,
                    self.csr == old(self).csr,
                    self.pc == old(self).pc,
                    self.mode == old(self).mode,
                    self.halted == old(self).halted,
                    all_in == (forall|i: int|
                        0 <= i < segments@.len() ==> seg_in_dram(#[trigger] segments@[i])),
                    all_in ==> {
                        &&& mem_s.len() == crate::memory::DRAM_SIZE
                        &&& self.bus.memory@ == apply_segment(
                            mem_s,
                            vaddr,
                            segments@[si as int].data@.subrange(0, j as int),
                            0,
                        )
                        &&& self.bus.clint == old(self).bus.clint
                        &&& self.bus.uart == old(self).bus.uart
                    },
                decreases dlen - j,
            {
                let byte: u8 = segments[si].data[j];
                let addr: u64 = vaddr.wrapping_add(j as u64);
                let ghost pre_mem = self.bus.memory@;
                let rr = self.bus.write8(addr, byte);
                proof {
                    if all_in {
                        assert(seg_in_dram(segments@[si as int]));
                        assert(addr == vaddr + j);
                        assert(!crate::bus::in_uart(addr));
                        assert(crate::memory::Memory::in_range(addr, 1));
                        assert(rr is Ok);
                        assert(self.bus.memory@ == pre_mem.update(addr - DRAM_BASE, byte));
                        assert(self.bus.memory@ =~= apply_segment(
                            mem_s,
                            vaddr,
                            segments@[si as int].data@.subrange(0, j + 1),
                            0,
                        ));
                    }
                }
                match rr {
                    Ok(u) => u,
                    Err(f) => {
                        return Err(f);
                    },
                }
                j += 1;
            }
            let memsz: usize = #[verifier::truncate] (segments[si].memsz as usize);
            let mut k: usize = dlen;
            proof {
                if all_in {
                    assert(segments@[si as int].data@.subrange(0, dlen as int) =~= segments@[si as int].data@);
                    assert(apply_segment(mem_s, vaddr, segments@[si as int].data@, dlen as u64)
                        =~= apply_segment(mem_s, vaddr, segments@[si as int].data@, 0));
                }
            }
            while k < memsz
                invariant
                    dlen <= k,
                    k <= memsz || k == dlen,
                    si < n,
                    n == segments@.len(),
                    dlen == segments@[si as int].data@.len(),
                    vaddr == segments@[si as int].vaddr,
                    memsz == segments@[si as int].memsz as usize,
                    self.wf(),
                    self.regs@ == old(self).regs@,
                    self.csr == old(self).csr,
                    self.pc == old(self).pc,
                    self.mode == old(self).mode,
                    self.halted == old(self).halted,
                    all_in == (forall|i: int|
                        0 <= i < segments@.len() ==> seg_in_dram(#[trigger] segments@[i])),
                    all_in ==> {
                        &&& mem_s.len() == crate::memory::DRAM_SIZE
                        &&& self.bus.memory@ == apply_segment(
                            mem_s,
                            vaddr,
                            segments@[si as int].data@,
                            k as u64,
                        )
                        &&& self.bus.clint == old(self).bus.clint
                        &&& self.bus.uart == old(self).bus.uart
                    },
                decreases memsz - k,
            {
                let addr: u64 = vaddr.wrapping_add(k as u64);
                let ghost pre_mem = self.bus.memory@;
                let rr = self.bus.write8(addr, 0);
                proof {
                    if all_in {
                        assert(seg_in_dram(segments@[si as int]));
                        assert(segments@[si as int].memsz as usize
                            == segments@[si as int].memsz);
                        assert(addr == vaddr + k);
                        assert(!crate::bus::in_uart(addr));
                        assert(crate::memory::Memory::in_range(addr, 1));
                        assert(rr is Ok);
                        assert(self.bus.memory@ == pre_mem.update(addr - DRAM_BASE, 0u8));
                        assert(self.bus.memory@ =~= apply_segment(
                            mem_s,
                            vaddr,
                            segments@[si as int].data@,
                            (k + 1) as u64,
                        ));
                    }
                }
                match rr {
                    Ok(u) => u,
                    Err(f) => {
                        return Err(f);
                    },
                }
                k += 1;
            }
            proof {
                if all_in {
                    assert(segments@[si as int].memsz as usize == segments@[si as int].memsz);
                    if segments@[si as int].memsz <= dlen {
                        assert(self.bus.memory@ =~= apply_segment(
                            mem_s,
                            vaddr,
                            segments@[si as int].data@,
                            segments@[si as int].memsz,
                        ));
                    }
                    assert(segments@.subrange(0, si + 1).drop_last() =~= segments@.subrange(
                        0,
                        si as int,
                    ));
                    assert(segments@.subrange(0, si + 1).last() == segments@[si as int]);
                }
            }
            si += 1;
        }
        proof {
            if forall|i: int| 0 <= i < segments@.len() ==> seg_in_dram(#[trigger] segments@[i]) {
                assert(segments@.subrange(0, n as int) =~= segments@);
            }
        }
        self.pc = entry;
        Ok(())
    }

    /// Writes a raw instruction sequence little-endian from the DRAM base,
    /// leaving the PC there.
    pub fn load_program(&mut self, program: &[u32])
        requires
            old(self).wf(),
            program@.len() * 4 <= crate::memory::DRAM_SIZE,
        ensures
            final(self).wf(),
            final(self).regs@ == old(self).regs@,
            final(self).csr == old(self).csr,
            final(self).pc == old(self).pc,
            final(self).mode == old(self).mode,
            final(self).halted == old(self).halted,
            final(self).bus.clint == old(self).bus.clint,
            final(self).bus.uart == old(self).bus.uart,
            forall|i: int|
                0 <= i < program@.len() ==> final(self).bus.memory.spec_read32((DRAM_BASE + 4 * i) as u64) == program@[i],
            forall|k: int|
                program@.len() * 4 <= k < crate::memory::DRAM_SIZE ==> final(self).bus.memory@[k]
                    == old(self).bus.memory@[k],
            final(self).bus.reservations@.len() == old(self).bus.reservations@.len(),
            forall|j: int|
                0 <= j < old(self).bus.reservations@.len() ==> (#[trigger] final(self).bus.reservations@[j]).0 == old(self).bus.reservations@[j].0 && final(self).bus.reservations@[j].1 == (match old(self).bus.reservations@[j].1 {
                    Some(a) => if program_writes(a, program@.len() as int) {
                        None
                    } else {
                        Some(a)
                    },
                    None => None::<u64>,
                }),
    {
        let n: usize = program.len();
        let mut i: usize = 0;
        while i < n
            invariant
                n == program@.len(),
                i <= n,
                n * 4 <= crate::memory::DRAM_SIZE,
                self.wf(),
                self.regs@ == old(self).regs@,
                self.csr == old(self).csr,
                self.pc == old(self).pc,
                self.mode == old(self).mode,
                self.halted == old(self).halted,
                self.bus.clint == old(self).bus.clint,
                self.bus.uart == old(self).bus.uart,
                forall|j: int|
                    0 <= j < i ==> self.bus.memory.spec_read32((DRAM_BASE + 4 * j) as u64) == program@[j],
                forall|k: int|
                    i * 4 <= k < crate::memory::DRAM_SIZE ==> self.bus.memory@[k] == old(self).bus.memory@[k],
                self.bus.reservations@.len() == old(self).bus.reservations@.len(),
                forall|j: int|
                    0 <= j < old(self).bus.reservations@.len() ==> (#[trigger] self.bus.reservations@[j]).0
                        == old(self).bus.reservations@[j].0 && self.bus.reservations@[j].1 == (match old(self).bus.reservations@[j].1 {
                        Some(a) => if program_writes(a, i as int) {
                            None
                        } else {
                            Some(a)
                        },
                        None => None::<u64>,
                    }),
            decreases n - i,
        {
            let ghost pre = *self;
            let addr: u64 = DRAM_BASE + (i as u64) * 4;
            let rr = self.bus.write32(addr, program[i]);
            proof {
                crate::memory::lemma_store_load_round_trip(
                    pre.bus.memory,
                    self.bus.memory,
                    addr,
                    0,
                    0,
                    program@[i as int],
                    0,
                );
                assert forall|j: int| 0 <= j < old(self).bus.reservations@.len() implies (
                #[trigger] self.bus.reservations@[j]).0 == old(self).bus.reservations@[j].0
                    && self.bus.reservations@[j].1 == (match old(self).bus.reservations@[j].1 {
                    Some(a) => if program_writes(a, i + 1) {
                        None
                    } else {
                        Some(a)
                    },
                    None => None::<u64>,
                }) by {
                    match old(self).bus.reservations@[j].1 {
                        Some(a) => {
                            if !program_writes(a, i as int) && a != addr && program_writes(
                                a,
                                i + 1,
                            ) {
                                let d = a - DRAM_BASE;
                                vstd::arithmetic::div_mod::lemma_fundamental_div_mod(d, 4);
                                assert(d == 4 * (d / 4));
                                assert(4 * i <= 4 * (d / 4) < 4 * (i + 1));
                                assert(d == 4 * i);
                                assert(false);
                            }
                        },
                        None => {},
                    }
                }
            }
            match rr {
                Ok(u) => u,
                Err(_) => {
                    proof {
                        assert(false);
                    }
                },
            }
            i += 1;
        }
    }
}

/// Register `x0` always reads as zero: a write that names it is
/// discarded, and a write to any other register leaves it untouched.
pub proof fn lemma_x0_reads_zero(regs: Seq<u64>, rd: int, v: u64)
    requires
        0 <= rd < 32,
        regs.len() == 32,
        regs[0] == 0,
    ensures
        wr(regs, rd, v)[0] == 0,
        wr(regs, 0, v) == regs,
{
}

proof fn lemma_trap_mstatus_bits(ms0: u64, code: u64)
    by (bit_vector)
    requires
        code <= 3,
    ensures
        ({
            let ms1 = if ms0 & 0x8 != 0 {
                ms0 | 0x80
            } else {
                ms0 & !0x80
            };
            let ms2 = ms1 & !0x8;
            let ms3 = (ms2 & !0x1800) | (code * 0x800) as u64;
            &&& ms3 & 0x8 == 0
            &&& (ms3 & 0x80 != 0) == (ms0 & 0x8 != 0)
            &&& (ms3 & 0x1800) >> 11u64 == code
            &&& ({
                let mr1 = if ms3 & 0x80 != 0 {
                    ms3 | 0x8
                } else {
                    ms3 & !0x8
                };
                let mr2 = mr1 | 0x80;
                &&& (mr2 & 0x1800) >> 11u64 == code
                &&& ((mr2 & !0x1800) & 0x8 != 0) == (ms0 & 0x8 != 0)
                &&& (mr2 & !0x1800) & 0x80 == 0x80
                &&& (mr2 & !0x1800) & 0x1800 == 0
            })
        }),
{
}

/// After trap entry the CSRs jointly record the cause: `MEPC`, `MCAUSE`
/// and `MTVAL` hold the trapped PC, the cause and its value; in `MSTATUS`,
/// `MPIE` holds the old `MIE`, `MIE` is cleared, and `MPP` holds the
/// interrupted mode's code. The landing PC and the switch to machine mode
/// are part of `trap_rel` itself.
pub proof fn lemma_trap_entry(pre_csr: Seq<u64>, pc: u64, mode: PrivilegeMode, cause: u64, tval: u64)
    requires
        pre_csr.len() == crate::csr::CSR_COUNT,
    ensures
        ({
            let post = trap_write_csrs(pre_csr, pc, mode, cause, tval);
            &&& post[csr::MEPC as int] == pc
            &&& post[csr::MCAUSE as int] == cause
            &&& post[csr::MTVAL as int] == tval
            &&& post[csr::MSTATUS as int] & csr::MSTATUS_MIE == 0
            &&& (post[csr::MSTATUS as int] & csr::MSTATUS_MPIE != 0) == (pre_csr[csr::MSTATUS as int]
                & csr::MSTATUS_MIE != 0)
            &&& (post[csr::MSTATUS as int] & csr::MSTATUS_MPP) >> 11u64 == mode.spec_code()
        }),
{
    lemma_trap_mstatus_bits(pre_csr[csr::MSTATUS as int], mode.spec_code());
}

/// After MRET, `MIE` holds the old `MPIE`, `MPIE` is set, and `MPP` is
/// cleared, in the value `sys_rel` writes back to `MSTATUS`; the decoded
/// mode is part of `sys_rel` itself.
pub proof fn lemma_mret_status(ms0: u64)
    ensures
        ({
            let ms1 = if ms0 & csr::MSTATUS_MPIE != 0 {
                ms0 | csr::MSTATUS_MIE
            } else {
                ms0 & !csr::MSTATUS_MIE
            };
            let ms2 = ms1 | csr::MSTATUS_MPIE;
            let ms3 = ms2 & !csr::MSTATUS_MPP;
            &&& (ms3 & csr::MSTATUS_MIE != 0) == (ms0 & csr::MSTATUS_MPIE != 0)
            &&& ms3 & csr::MSTATUS_MPIE == csr::MSTATUS_MPIE
            &&& ms3 & csr::MSTATUS_MPP == 0
        }),
{
    assert({
        let ms1 = if ms0 & 0x80 != 0 {
            ms0 | 0x8
        } else {
            ms0 & !0x8
        };
        let ms2 = ms1 | 0x80;
        let ms3 = ms2 & !0x1800;
        &&& (ms3 & 0x8 != 0) == (ms0 & 0x80 != 0)
        &&& ms3 & 0x80 == 0x80
        &&& ms3 & 0x1800 == 0
    }) by (bit_vector);
}

/// Writing a CSR with CSRRW and then writing back the value it returned
/// restores the CSR file exactly.
pub proof fn lemma_csrrw_round_trip(csrv: Seq<u64>, addr: u16, x: u64)
    requires
        csrv.len() == crate::csr::CSR_COUNT,
    ensures
        ({
            let t = csrv[addr as int];
            let after1 = match csr_op_write(1, t, x) {
                Some(nv) => csrv.update(addr as int, nv),
                None => csrv,
            };
            let t2 = after1[addr as int];
            let after2 = match csr_op_write(1, t2, t) {
                Some(nv) => after1.update(addr as int, nv),
                None => after1,
            };
            after2 == csrv
        }),
{
    let t = csrv[addr as int];
    assert(csrv.update(addr as int, x).update(addr as int, t) =~= csrv);
}

/// A trap followed by MRET restores the PC, the privilege mode and the
/// interrupt-enable bit; `MPP` is cleared by the return, as the
/// architecture specifies.
pub proof fn lemma_trap_mret_round_trip(
    pre_csr: Seq<u64>,
    pc: u64,
    mode: PrivilegeMode,
    cause: u64,
    tval: u64,
)
    requires
        pre_csr.len() == crate::csr::CSR_COUNT,
    ensures
        ({
            let trapped = trap_write_csrs(pre_csr, pc, mode, cause, tval);
            let ms0 = trapped[csr::MSTATUS as int];
            let ms1 = if ms0 & csr::MSTATUS_MPIE != 0 {
                ms0 | csr::MSTATUS_MIE
            } else {
                ms0 & !csr::MSTATUS_MIE
            };
            let ms2 = ms1 | csr::MSTATUS_MPIE;
            let mpp = (ms2 & csr::MSTATUS_MPP) >> 11u64;
            let ms3 = ms2 & !csr::MSTATUS_MPP;
            &&& trapped[csr::MEPC as int] == pc
            &&& mpp == mode.spec_code()
            &&& (ms3 & csr::MSTATUS_MIE != 0) == (pre_csr[csr::MSTATUS as int] & csr::MSTATUS_MIE
                != 0)
            &&& ms3 & csr::MSTATUS_MPP == 0
        }),
{
    lemma_trap_mstatus_bits(pre_csr[csr::MSTATUS as int], mode.spec_code());
}

/// Trap entry sends the PC only to an MTVEC target: the vector base, or,
/// for a vectored interrupt, the base plus four times a cause code of at
/// most 0x3FF. Together with the per-instruction PC clauses of
/// `inst_exec_rel`, this is the trap half of the claim that the PC stays
/// in DRAM or on an MTVEC target while control flow stays in mapped code.
pub proof fn lemma_trap_target_forms(pre_csr: Seq<u64>, cause: u64)
    ensures
        ({
            let base = pre_csr[csr::MTVEC as int] & !0x3u64;
            trap_target(pre_csr, cause) == base || (exists|code: u64|
                code <= 0x3FF && trap_target(pre_csr, cause) == #[trigger] base.wrapping_add(
                    (4 * code) as u64,
                ))
        }),
{
    assert(cause & 0x3FF <= 0x3FF) by (bit_vector);
}

/// A 64-bit shift takes only the low six bits of the shift amount: two
/// amounts equal in those bits shift alike.
pub proof fn lemma_shift_amount_masked(inst: u32, x: u64, y1: u64, y2: u64)
    requires
        y1 & 0x3F == y2 & 0x3F,
        funct3_of(inst) == 1 || funct3_of(inst) == 5,
        funct7_of(inst) == 0 || funct7_of(inst) == 0x20,
    ensures
        op_value(inst, x, y1) == op_value(inst, x, y2),
{
}

/// The W-form operations read only the low 32 bits of their operands:
/// upper bits of `rs1` and `rs2` are discarded before the 32-bit
/// arithmetic, whose result is then sign-extended.
pub proof fn lemma_op32_low_bits(inst: u32, x1: u64, x2: u64, y1: u64, y2: u64)
    requires
        x1 as u32 == x2 as u32,
        y1 as u32 == y2 as u32,
    ensures
        op_imm32_value(inst, x1) == op_imm32_value(inst, x2),
        op32_value(inst, x1, y1) == op32_value(inst, x2, y2),
{
    assert(y1 as u32 == y2 as u32 ==> y1 & 0x1F == y2 & 0x1F) by (bit_vector);
}

/// Signed comparison reads words in two's complement: the all-ones word
/// stands for minus one and compares below small positives.
pub proof fn lemma_signed_reading()
    ensures
        s64(0xFFFFFFFFFFFFFFFF) == -1,
        s64(0x0000000000000005) == 5,
        s64(0xFFFFFFFFFFFFFFFF) < s64(0x0000000000000005),
{
}

/// JALR lands on an even address: the least-significant bit of the target
/// is cleared.
pub proof fn lemma_jalr_target_even(x: u64, imm: u64)
    ensures
        (x.wrapping_add(imm) & 0xFFFFFFFFFFFFFFFE) & 1 == 0,
{
    let t = x.wrapping_add(imm);
    assert((t & 0xFFFFFFFFFFFFFFFE) & 1 == 0) by (bit_vector);
}

/// Division by zero yields all ones as the quotient and the dividend as
/// the remainder; the minimum value divided by minus one wraps back to
/// itself.
pub proof fn lemma_division_edges(x: u64)
    ensures
        div_signed(x, 0) == 0xFFFFFFFFFFFFFFFF,
        rem_signed(x, 0) == x,
        div_signed(0x8000000000000000, 0xFFFFFFFFFFFFFFFF) == 0x8000000000000000,
{
}

} // verus!
