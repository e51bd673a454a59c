//! The system bus: routes 8/16/32/64-bit accesses to the CLINT, the UART
//! or DRAM, keeps the per-hart load-reservation table, and invalidates a
//! reservation whenever its address is written.

use crate::clint::{Clint, CLINT_BASE, CLINT_SIZE, MSIP_OFFSET, MTIMECMP_OFFSET, MTIME_OFFSET};
use crate::memory::{Memory, DRAM_BASE, DRAM_SIZE};
use crate::terminal::Terminal;
use crate::uart::{
    uart_read8_rel, uart_recv_rel, uart_push_rel, uart_write8_rel, Uart, UART_BASE, UART_SIZE,
};
use vstd::prelude::*;

verus! {

/// A condition that is fatal to the simulated machine: the guest reached
/// state the simulator does not model, and execution cannot continue.
#[derive(Debug, Clone, Copy, PartialEq, Eq, Structural)]
pub enum Fault {
    /// A bus access to an address outside CLINT, UART and DRAM.
    UnmappedAddress(u64),
    /// A CLINT access at an offset that is no register.
    UnknownClintOffset(u64),
    /// A UART access at an offset that is no register.
    UnknownUartOffset(u8),
    /// An opcode no instruction family claims.
    UnsupportedOpcode(u32),
    /// A `funct3`/`funct7` combination outside the implemented set.
    UnsupportedInstruction(u32),
    /// A SYSTEM instruction with an unknown selector.
    UnsupportedCsrOp(u32),
    /// An MRET with an MPP field that encodes no privilege mode.
    InvalidMpp(u64),
}

/// A hart's reservation slot: the hart id and the reserved address, if any.
pub type Reservation = (u64, Option<u64>);

/// The address the reservation table holds for `hart`, reading the first
/// slot with that hart id.
pub open spec fn res_of(rs: Seq<Reservation>, hart: u64) -> Option<u64>
    decreases rs.len(),
{
    if rs.len() == 0 {
        None
    } else if rs[0].0 == hart {
        rs[0].1
    } else {
        res_of(rs.subrange(1, rs.len() as int), hart)
    }
}

/// Each hart id occupies at most one slot.
pub open spec fn uniq_harts(rs: Seq<Reservation>) -> bool {
    forall|i: int, j: int| 0 <= i < j < rs.len() ==> rs[i].0 != rs[j].0
}

proof fn lemma_res_of_skip(rs: Seq<Reservation>, hart: u64, i: int)
    requires
        0 <= i <= rs.len(),
        forall|j: int| 0 <= j < i ==> rs[j].0 != hart,
    ensures
        res_of(rs, hart) == res_of(rs.subrange(i, rs.len() as int), hart),
    decreases i,
{
    if i == 0 {
        assert(rs.subrange(0, rs.len() as int) =~= rs);
    } else {
        assert(rs.subrange(1, rs.len() as int).subrange(i - 1, rs.len() - 1) =~= rs.subrange(
            i,
            rs.len() as int,
        ));
        lemma_res_of_skip(rs.subrange(1, rs.len() as int), hart, i - 1);
    }
}

proof fn lemma_res_of_pointwise(pre: Seq<Reservation>, post: Seq<Reservation>, addr: u64)
    requires
        post.len() == pre.len(),
        forall|i: int|
            0 <= i < pre.len() ==> post[i].0 == pre[i].0 && post[i].1 == (if pre[i].1 == Some(addr) {
                None
            } else {
                pre[i].1
            }),
    ensures
        forall|h: u64|
            #[trigger] res_of(post, h) == (if res_of(pre, h) == Some(addr) {
                None
            } else {
                res_of(pre, h)
            }),
    decreases pre.len(),
{
    if pre.len() > 0 {
        let pre1 = pre.subrange(1, pre.len() as int);
        let post1 = post.subrange(1, post.len() as int);
        lemma_res_of_pointwise(pre1, post1, addr);
        assert forall|h: u64|
            #[trigger] res_of(post, h) == (if res_of(pre, h) == Some(addr) {
                None::<u64>
            } else {
                res_of(pre, h)
            }) by {
            if post[0].0 != h {
                assert(res_of(post, h) == res_of(post1, h));
                assert(res_of(pre, h) == res_of(pre1, h));
            }
        }
    }
}

proof fn lemma_res_of_update(rs: Seq<Reservation>, k: int, v: Option<u64>)
    requires
        uniq_harts(rs),
        0 <= k < rs.len(),
    ensures
        forall|h: u64|
            #[trigger] res_of(rs.update(k, (rs[k].0, v)), h) == (if h == rs[k].0 {
                v
            } else {
                res_of(rs, h)
            }),
    decreases rs.len(),
{
    let post = rs.update(k, (rs[k].0, v));
    let rs1 = rs.subrange(1, rs.len() as int);
    let post1 = post.subrange(1, post.len() as int);
    if k == 0 {
        assert(post1 =~= rs1);
        assert forall|h: u64|
            #[trigger] res_of(post, h) == (if h == rs[k].0 {
                v
            } else {
                res_of(rs, h)
            }) by {
            if h != rs[0].0 {
                assert(res_of(post, h) == res_of(post1, h));
                assert(res_of(rs, h) == res_of(rs1, h));
            }
        }
    } else {
        assert(post1 =~= rs1.update(k - 1, (rs1[k - 1].0, v)));
        lemma_res_of_update(rs1, k - 1, v);
        assert forall|h: u64|
            #[trigger] res_of(post, h) == (if h == rs[k].0 {
                v
            } else {
                res_of(rs, h)
            }) by {
            if h != post[0].0 {
                assert(res_of(post, h) == res_of(post1, h));
                assert(res_of(rs, h) == res_of(rs1, h));
            } else {
                assert(h != rs[k].0);
            }
        }
    }
}

proof fn lemma_res_of_push(rs: Seq<Reservation>, hart: u64, v: Option<u64>)
    requires
        forall|i: int| 0 <= i < rs.len() ==> rs[i].0 != hart,
    ensures
        forall|h: u64|
            #[trigger] res_of(rs.push((hart, v)), h) == (if h == hart {
                v
            } else {
                res_of(rs, h)
            }),
    decreases rs.len(),
{
    let post = rs.push((hart, v));
    if rs.len() == 0 {
        assert(post.subrange(1, post.len() as int) =~= Seq::<Reservation>::empty());
        assert forall|h: u64|
            #[trigger] res_of(post, h) == (if h == hart {
                v
            } else {
                res_of(rs, h)
            }) by {
            if h != hart {
                assert(res_of(post, h) == res_of(post.subrange(1, post.len() as int), h));
            }
        }
    } else {
        let rs1 = rs.subrange(1, rs.len() as int);
        let post1 = post.subrange(1, post.len() as int);
        assert(post1 =~= rs1.push((hart, v)));
        lemma_res_of_push(rs1, hart, v);
        assert forall|h: u64|
            #[trigger] res_of(post, h) == (if h == hart {
                v
            } else {
                res_of(rs, h)
            }) by {
            assert(post[0].0 == rs[0].0);
            if h != post[0].0 {
                assert(res_of(post, h) == res_of(post1, h));
                assert(res_of(rs, h) == res_of(rs1, h));
            }
        }
    }
}

pub open spec fn in_clint(addr: u64) -> bool {
    CLINT_BASE <= addr < CLINT_BASE + CLINT_SIZE
}

pub open spec fn in_uart(addr: u64) -> bool {
    UART_BASE <= addr < UART_BASE + UART_SIZE
}


/// How an 8-bit bus read at `addr` takes the system from `pre` to `post`:
/// UART offsets go to the device (offsets 4 and 6 are no registers), DRAM
/// addresses read memory, and everything else is unmapped. Reads never
/// touch the reservation table.
pub open spec fn bus_read8_rel<T: Terminal>(
    pre: Bus<T>,
    post: Bus<T>,
    addr: u64,
    r: Result<u8, Fault>,
) -> bool {
    &&& post.clint == pre.clint
    &&& post.memory == pre.memory
    &&& post.reservations@ == pre.reservations@
    &&& if in_uart(addr) {
        let off = (addr - UART_BASE) as u8;
        if off == 4 || off == 6 {
            r == Err::<u8, Fault>(Fault::UnknownUartOffset(off)) && post.uart == pre.uart
        } else {
            r matches Ok(v) && uart_read8_rel(pre.uart, post.uart, off, v)
        }
    } else if Memory::in_range(addr, 1) {
        r == Ok::<u8, Fault>(pre.memory.spec_read8(addr)) && post.uart == pre.uart
    } else {
        r == Err::<u8, Fault>(Fault::UnmappedAddress(addr)) && post.uart == pre.uart
    }
}

/// A 16-bit bus read: a UART access reads the one addressed register byte,
/// zero-extended, as the hardware routes every width to a byte register.
pub open spec fn bus_read16_rel<T: Terminal>(
    pre: Bus<T>,
    post: Bus<T>,
    addr: u64,
    r: Result<u16, Fault>,
) -> bool {
    &&& post.clint == pre.clint
    &&& post.memory == pre.memory
    &&& post.reservations@ == pre.reservations@
    &&& if in_uart(addr) {
        let off = (addr - UART_BASE) as u8;
        if off == 4 || off == 6 {
            r == Err::<u16, Fault>(Fault::UnknownUartOffset(off)) && post.uart == pre.uart
        } else {
            r matches Ok(v) && v <= 0xFF && uart_read8_rel(pre.uart, post.uart, off, v as u8)
        }
    } else if Memory::in_range(addr, 2) {
        r == Ok::<u16, Fault>(pre.memory.spec_read16(addr)) && post.uart == pre.uart
    } else {
        r == Err::<u16, Fault>(Fault::UnmappedAddress(addr)) && post.uart == pre.uart
    }
}

/// A 32-bit bus read: the CLINT exposes only `msip` at this width.
pub open spec fn bus_read32_rel<T: Terminal>(
    pre: Bus<T>,
    post: Bus<T>,
    addr: u64,
    r: Result<u32, Fault>,
) -> bool {
    &&& post.clint == pre.clint
    &&& post.memory == pre.memory
    &&& post.reservations@ == pre.reservations@
    &&& if in_clint(addr) {
        let off = (addr - CLINT_BASE) as u64;
        &&& post.uart == pre.uart
        &&& if off == MSIP_OFFSET {
            r == Ok::<u32, Fault>(
                if pre.clint.msip {
                    1u32
                } else {
                    0u32
                },
            )
        } else {
            r == Err::<u32, Fault>(Fault::UnknownClintOffset(off))
        }
    } else if in_uart(addr) {
        let off = (addr - UART_BASE) as u8;
        if off == 4 || off == 6 {
            r == Err::<u32, Fault>(Fault::UnknownUartOffset(off)) && post.uart == pre.uart
        } else {
            r matches Ok(v) && v <= 0xFF && uart_read8_rel(pre.uart, post.uart, off, v as u8)
        }
    } else if Memory::in_range(addr, 4) {
        r == Ok::<u32, Fault>(pre.memory.spec_read32(addr)) && post.uart == pre.uart
    } else {
        r == Err::<u32, Fault>(Fault::UnmappedAddress(addr)) && post.uart == pre.uart
    }
}

/// A 64-bit bus read: the CLINT exposes `mtimecmp` and `mtime` here.
pub open spec fn bus_read64_rel<T: Terminal>(
    pre: Bus<T>,
    post: Bus<T>,
    addr: u64,
    r: Result<u64, Fault>,
) -> bool {
    &&& post.clint == pre.clint
    &&& post.memory == pre.memory
    &&& post.reservations@ == pre.reservations@
    &&& if in_clint(addr) {
        let off = (addr - CLINT_BASE) as u64;
        &&& post.uart == pre.uart
        &&& if off == MTIMECMP_OFFSET {
            r == Ok::<u64, Fault>(pre.clint.mtimecmp)
        } else if off == MTIME_OFFSET {
            r == Ok::<u64, Fault>(pre.clint.mtime)
        } else {
            r == Err::<u64, Fault>(Fault::UnknownClintOffset(off))
        }
    } else if in_uart(addr) {
        let off = (addr - UART_BASE) as u8;
        if off == 4 || off == 6 {
            r == Err::<u64, Fault>(Fault::UnknownUartOffset(off)) && post.uart == pre.uart
        } else {
            r matches Ok(v) && v <= 0xFF && uart_read8_rel(pre.uart, post.uart, off, v as u8)
        }
    } else if Memory::in_range(addr, 8) {
        r == Ok::<u64, Fault>(pre.memory.spec_read64(addr)) && post.uart == pre.uart
    } else {
        r == Err::<u64, Fault>(Fault::UnmappedAddress(addr)) && post.uart == pre.uart
    }
}

/// What every bus write does to the reservation table, whatever its width
/// or destination: any reservation on the written address is cleared slot
/// by slot. `lemma_write_clears_reservations` restates this per hart.
pub open spec fn bus_write_res_rel<T: Terminal>(pre: Bus<T>, post: Bus<T>, addr: u64) -> bool {
    Bus::<T>::invalidate_rel(pre.reservations@, post.reservations@, addr)
}

/// A write to an address leaves no hart holding a reservation on it: after
/// any bus write at `addr`, the reservation a hart held on `addr` is gone,
/// and every other reservation stands untouched.
pub proof fn lemma_write_clears_reservations<T: Terminal>(pre: Bus<T>, post: Bus<T>, addr: u64)
    requires
        bus_write_res_rel(pre, post, addr),
    ensures
        forall|h: u64|
            #[trigger] post.spec_reservation(h) == (if pre.spec_reservation(h) == Some(addr) {
                None::<u64>
            } else {
                pre.spec_reservation(h)
            }),
        forall|h: u64| #[trigger] post.spec_reservation(h) != Some(addr),
{
    lemma_res_of_pointwise(pre.reservations@, post.reservations@, addr);
}

/// An 8-bit bus write: UART offsets 0, 1, 2, 3 and 7 are writable
/// registers, DRAM addresses store the byte, all else is unmapped.
pub open spec fn bus_write8_rel<T: Terminal>(
    pre: Bus<T>,
    post: Bus<T>,
    addr: u64,
    value: u8,
    r: Result<(), Fault>,
) -> bool {
    &&& post.clint == pre.clint
    &&& bus_write_res_rel(pre, post, addr)
    &&& (in_uart(addr) ==> ({
        let off = (addr - UART_BASE) as u8;
        &&& post.memory == pre.memory
        &&& (off == 4 || off == 5 || off == 6 ==> r == Err::<(), Fault>(
            Fault::UnknownUartOffset(off),
        ) && post.uart == pre.uart)
        &&& (!(off == 4 || off == 5 || off == 6) ==> r is Ok && uart_write8_rel(
            pre.uart,
            post.uart,
            off,
            value,
        ))
    }))
    &&& (!in_uart(addr) && Memory::in_range(addr, 1) ==> r is Ok && post.memory@
        == pre.memory.spec_write8(addr, value) && post.uart == pre.uart)
    &&& (!in_uart(addr) && !Memory::in_range(addr, 1) ==> r == Err::<(), Fault>(
        Fault::UnmappedAddress(addr),
    ) && post.memory == pre.memory && post.uart == pre.uart)
}

/// A 16-bit bus write: a UART access writes the low byte to the one
/// addressed register; DRAM stores little-endian.
pub open spec fn bus_write16_rel<T: Terminal>(
    pre: Bus<T>,
    post: Bus<T>,
    addr: u64,
    value: u16,
    r: Result<(), Fault>,
) -> bool {
    &&& post.clint == pre.clint
    &&& bus_write_res_rel(pre, post, addr)
    &&& if in_uart(addr) {
        let off = (addr - UART_BASE) as u8;
        &&& post.memory == pre.memory
        &&& if off == 4 || off == 5 || off == 6 {
            r == Err::<(), Fault>(Fault::UnknownUartOffset(off)) && post.uart == pre.uart
        } else {
            r is Ok && uart_write8_rel(pre.uart, post.uart, off, value as u8)
        }
    } else if Memory::in_range(addr, 2) {
        r is Ok && post.memory@ == pre.memory.spec_write16(addr, value) && post.uart == pre.uart
    } else {
        r == Err::<(), Fault>(Fault::UnmappedAddress(addr)) && post.memory == pre.memory
            && post.uart == pre.uart
    }
}

/// A 32-bit bus write: the CLINT takes `msip` at this width.
pub open spec fn bus_write32_rel<T: Terminal>(
    pre: Bus<T>,
    post: Bus<T>,
    addr: u64,
    value: u32,
    r: Result<(), Fault>,
) -> bool {
    &&& bus_write_res_rel(pre, post, addr)
    &&& if in_clint(addr) {
        let off = (addr - CLINT_BASE) as u64;
        &&& post.memory == pre.memory
        &&& post.uart == pre.uart
        &&& if off == MSIP_OFFSET {
            r is Ok && post.clint.msip == (value > 0) && post.clint.mtime == pre.clint.mtime
                && post.clint.mtimecmp == pre.clint.mtimecmp
        } else {
            r == Err::<(), Fault>(Fault::UnknownClintOffset(off)) && post.clint == pre.clint
        }
    } else if in_uart(addr) {
        let off = (addr - UART_BASE) as u8;
        &&& post.clint == pre.clint
        &&& post.memory == pre.memory
        &&& if off == 4 || off == 5 || off == 6 {
            r == Err::<(), Fault>(Fault::UnknownUartOffset(off)) && post.uart == pre.uart
        } else {
            r is Ok && uart_write8_rel(pre.uart, post.uart, off, value as u8)
        }
    } else if Memory::in_range(addr, 4) {
        r is Ok && post.clint == pre.clint && post.memory@ == pre.memory.spec_write32(addr, value)
            && post.uart == pre.uart
    } else {
        r == Err::<(), Fault>(Fault::UnmappedAddress(addr)) && post.clint == pre.clint
            && post.memory == pre.memory && post.uart == pre.uart
    }
}

/// A 64-bit bus write: the CLINT takes `mtimecmp` and `mtime` here.
pub open spec fn bus_write64_rel<T: Terminal>(
    pre: Bus<T>,
    post: Bus<T>,
    addr: u64,
    value: u64,
    r: Result<(), Fault>,
) -> bool {
    &&& bus_write_res_rel(pre, post, addr)
    &&& if in_clint(addr) {
        let off = (addr - CLINT_BASE) as u64;
        &&& post.memory == pre.memory
        &&& post.uart == pre.uart
        &&& if off == MTIMECMP_OFFSET {
            r is Ok && post.clint.mtimecmp == value && post.clint.mtime == pre.clint.mtime
                && post.clint.msip == pre.clint.msip
        } else if off == MTIME_OFFSET {
            r is Ok && post.clint.mtime == value && post.clint.mtimecmp == pre.clint.mtimecmp
                && post.clint.msip == pre.clint.msip
        } else {
            r == Err::<(), Fault>(Fault::UnknownClintOffset(off)) && post.clint == pre.clint
        }
    } else if in_uart(addr) {
        let off = (addr - UART_BASE) as u8;
        &&& post.clint == pre.clint
        &&& post.memory == pre.memory
        &&& if off == 4 || off == 5 || off == 6 {
            r == Err::<(), Fault>(Fault::UnknownUartOffset(off)) && post.uart == pre.uart
        } else {
            r is Ok && uart_write8_rel(pre.uart, post.uart, off, value as u8)
        }
    } else if Memory::in_range(addr, 8) {
        r is Ok && post.clint == pre.clint && post.memory@ == pre.memory.spec_write64(addr, value)
            && post.uart == pre.uart
    } else {
        r == Err::<(), Fault>(Fault::UnmappedAddress(addr)) && post.clint == pre.clint
            && post.memory == pre.memory && post.uart == pre.uart
    }
}

pub struct Bus<T: Terminal> {
    pub clint: Clint,
    pub memory: Memory,
    pub uart: Uart<T>,
    pub reservations: Vec<Reservation>,
}

impl<T: Terminal> Bus<T> {
    pub open spec fn wf(&self) -> bool {
        &&& self.memory.wf()
        &&& uniq_harts(self.reservations@)
    }

    /// The reservation currently held for `hart`, if any.
    pub open spec fn spec_reservation(&self, hart: u64) -> Option<u64> {
        res_of(self.reservations@, hart)
    }

    /// Every reservation on `addr` is gone in `post`; all others stand.
    pub open spec fn invalidate_rel(pre: Seq<Reservation>, post: Seq<Reservation>, addr: u64) -> bool {
        &&& post.len() == pre.len()
        &&& forall|i: int|
            0 <= i < pre.len() ==> post[i].0 == pre[i].0 && post[i].1 == (if pre[i].1 == Some(addr) {
                None
            } else {
                pre[i].1
            })
    }

    pub fn new(terminal: T) -> (bus: Bus<T>)
        ensures
            bus.wf(),
            bus.clint.mtime == 0 && bus.clint.mtimecmp == 0 && !bus.clint.msip,
            forall|i: int| 0 <= i < DRAM_SIZE ==> bus.memory@[i] == 0u8,
            bus.uart.rx_fifo@ == Seq::<u8>::empty(),
            bus.uart.tx_fifo@ == Seq::<u8>::empty(),
            bus.uart.tsr is None,
            bus.uart.ier == 0 && bus.uart.iir == 0xC1 && bus.uart.lcr == 0 && bus.uart.lsr == 0x60
                && bus.uart.scr == 0,
            bus.uart.terminal == terminal,
            bus.uart.inv(),
            bus.reservations@ == Seq::<Reservation>::empty(),
    {
        Bus {
            clint: Clint::new(),
            memory: Memory::new(),
            uart: Uart::new(terminal),
            reservations: Vec::new(),
        }
    }

    /// Records a reservation for `hart` at `addr`, replacing any earlier one.
    pub fn reserve(&mut self, hart_id: u64, addr: u64)
        requires
            old(self).wf(),
        ensures
            final(self).wf(),
            forall|h: u64|
                #[trigger] final(self).spec_reservation(h) == (if h == hart_id {
                    Some(addr)
                } else {
                    old(self).spec_reservation(h)
                }),
            final(self).clint == old(self).clint,
            final(self).memory == old(self).memory,
            final(self).uart == old(self).uart,
    {
        let n: usize = self.reservations.len();
        let mut i: usize = 0;
        while i < n
            invariant
                n == self.reservations.len(),
                i <= n,
                *self == *old(self),
                old(self).wf(),
                forall|j: int| 0 <= j < i ==> self.reservations@[j].0 != hart_id,
            decreases n - i,
        {
            if self.reservations[i].0 == hart_id {
                proof {
                    lemma_res_of_skip(self.reservations@, hart_id, i as int);
                    lemma_res_of_update(self.reservations@, i as int, Some(addr));
                }
                self.reservations[i] = (hart_id, Some(addr));
                return ;
            }
            i += 1;
        }
        proof {
            lemma_res_of_push(self.reservations@, hart_id, Some(addr));
        }
        self.reservations.push((hart_id, Some(addr)));
    }

    /// Whether `hart` holds a reservation on exactly `addr`.
    pub fn check_reservation(&self, hart_id: u64, addr: u64) -> (r: bool)
        requires
            self.wf(),
        ensures
            r == (self.spec_reservation(hart_id) == Some(addr)),
    {
        let n: usize = self.reservations.len();
        let mut i: usize = 0;
        while i < n
            invariant
                n == self.reservations.len(),
                i <= n,
                forall|j: int| 0 <= j < i ==> self.reservations@[j].0 != hart_id,
            decreases n - i,
        {
            if self.reservations[i].0 == hart_id {
                proof {
                    lemma_res_of_skip(self.reservations@, hart_id, i as int);
                }
                return match self.reservations[i].1 {
                    Some(a) => a == addr,
                    None => false,
                };
            }
            i += 1;
        }
        proof {
            lemma_res_of_skip(self.reservations@, hart_id, n as int);
        }
        false
    }

    /// Drops whatever reservation `hart` holds.
    pub fn clear_reservation(&mut self, hart_id: u64)
        requires
            old(self).wf(),
        ensures
            final(self).wf(),
            forall|h: u64|
                #[trigger] final(self).spec_reservation(h) == (if h == hart_id {
                    None::<u64>
                } else {
                    old(self).spec_reservation(h)
                }),
            final(self).clint == old(self).clint,
            final(self).memory == old(self).memory,
            final(self).uart == old(self).uart,
    {
        let n: usize = self.reservations.len();
        let mut i: usize = 0;
        while i < n
            invariant
                n == self.reservations.len(),
                i <= n,
                *self == *old(self),
                old(self).wf(),
                forall|j: int| 0 <= j < i ==> self.reservations@[j].0 != hart_id,
            decreases n - i,
        {
            if self.reservations[i].0 == hart_id {
                proof {
                    lemma_res_of_skip(self.reservations@, hart_id, i as int);
                    lemma_res_of_update(self.reservations@, i as int, None);
                }
                self.reservations[i] = (hart_id, None);
                return ;
            }
            i += 1;
        }
        proof {
            lemma_res_of_skip(self.reservations@, hart_id, n as int);
        }
    }

    /// Clears every reservation that names the written address.
    pub fn invalidate_reservations(&mut self, addr: u64)
        requires
            old(self).wf(),
        ensures
            final(self).wf(),
            Bus::<T>::invalidate_rel(old(self).reservations@, final(self).reservations@, addr),
            forall|h: u64|
                #[trigger] final(self).spec_reservation(h) == (if old(self).spec_reservation(h)
                    == Some(addr) {
                    None::<u64>
                } else {
                    old(self).spec_reservation(h)
                }),
            final(self).clint == old(self).clint,
            final(self).memory == old(self).memory,
            final(self).uart == old(self).uart,
    {
        let n: usize = self.reservations.len();
        let mut i: usize = 0;
        while i < n
            invariant
                n == self.reservations.len(),
                i <= n,
                uniq_harts(self.reservations@),
                self.memory.wf(),
                self.clint == old(self).clint,
                self.memory == old(self).memory,
                self.uart == old(self).uart,
                forall|j: int|
                    0 <= j < i ==> self.reservations@[j].0 == old(self).reservations@[j].0
                        && self.reservations@[j].1 == (if old(self).reservations@[j].1 == Some(addr) {
                        None
                    } else {
                        old(self).reservations@[j].1
                    }),
                forall|j: int|
                    i <= j < n ==> self.reservations@[j] == old(self).reservations@[j],
            decreases n - i,
        {
            let slot: Reservation = self.reservations[i];
            match slot.1 {
                Some(a) => {
                    if a == addr {
                        self.reservations[i] = (slot.0, None);
                    }
                },
                None => {},
            }
            i += 1;
        }
        proof {
            lemma_res_of_pointwise(old(self).reservations@, self.reservations@, addr);
        }
    }

    #[verifier::rlimit(50)]
    pub fn read8(&mut self, addr: u64) -> (r: Result<u8, Fault>)
        requires
            old(self).wf(),
        ensures
            final(self).wf(),
            bus_read8_rel(*old(self), *final(self), addr, r),
    {
        if addr >= UART_BASE && addr < UART_BASE + UART_SIZE {
            let off: u8 = (addr - UART_BASE) as u8;
            if off == 4 || off == 6 {
                Err(Fault::UnknownUartOffset(off))
            } else {
                Ok(self.uart.read8(off))
            }
        } else if addr >= DRAM_BASE && addr - DRAM_BASE <= (DRAM_SIZE - 1) as u64 {
            Ok(self.memory.read8(addr))
        } else {
            Err(Fault::UnmappedAddress(addr))
        }
    }

    #[verifier::rlimit(50)]
    pub fn read16(&mut self, addr: u64) -> (r: Result<u16, Fault>)
        requires
            old(self).wf(),
        ensures
            final(self).wf(),
            bus_read16_rel(*old(self), *final(self), addr, r),
    {
        if addr >= UART_BASE && addr < UART_BASE + UART_SIZE {
            let off: u8 = (addr - UART_BASE) as u8;
            if off == 4 || off == 6 {
                Err(Fault::UnknownUartOffset(off))
            } else {
                Ok(self.uart.read8(off) as u16)
            }
        } else if addr >= DRAM_BASE && addr - DRAM_BASE <= (DRAM_SIZE - 2) as u64 {
            Ok(self.memory.read16(addr))
        } else {
            Err(Fault::UnmappedAddress(addr))
        }
    }

    #[verifier::rlimit(50)]
    pub fn read32(&mut self, addr: u64) -> (r: Result<u32, Fault>)
        requires
            old(self).wf(),
        ensures
            final(self).wf(),
            bus_read32_rel(*old(self), *final(self), addr, r),
    {
        if addr >= CLINT_BASE && addr < CLINT_BASE + CLINT_SIZE {
            let off: u64 = addr - CLINT_BASE;
            if off == MSIP_OFFSET {
                Ok(self.clint.read32(off))
            } else {
                Err(Fault::UnknownClintOffset(off))
            }
        } else if addr >= UART_BASE && addr < UART_BASE + UART_SIZE {
            let off: u8 = (addr - UART_BASE) as u8;
            if off == 4 || off == 6 {
                Err(Fault::UnknownUartOffset(off))
            } else {
                Ok(self.uart.read8(off) as u32)
            }
        } else if addr >= DRAM_BASE && addr - DRAM_BASE <= (DRAM_SIZE - 4) as u64 {
            Ok(self.memory.read32(addr))
        } else {
            Err(Fault::UnmappedAddress(addr))
        }
    }

    #[verifier::rlimit(50)]
    pub fn read64(&mut self, addr: u64) -> (r: Result<u64, Fault>)
        requires
            old(self).wf(),
        ensures
            final(self).wf(),
            bus_read64_rel(*old(self), *final(self), addr, r),
    {
        if addr >= CLINT_BASE && addr < CLINT_BASE + CLINT_SIZE {
            let off: u64 = addr - CLINT_BASE;
            if off == MTIMECMP_OFFSET || off == MTIME_OFFSET {
                Ok(self.clint.read64(off))
            } else {
                Err(Fault::UnknownClintOffset(off))
            }
        } else if addr >= UART_BASE && addr < UART_BASE + UART_SIZE {
            let off: u8 = (addr - UART_BASE) as u8;
            if off == 4 || off == 6 {
                Err(Fault::UnknownUartOffset(off))
            } else {
                Ok(self.uart.read8(off) as u64)
            }
        } else if addr >= DRAM_BASE && addr - DRAM_BASE <= (DRAM_SIZE - 8) as u64 {
            Ok(self.memory.read64(addr))
        } else {
            Err(Fault::UnmappedAddress(addr))
        }
    }

    #[verifier::rlimit(100)]
    #[verifier::spinoff_prover]
    pub fn write8(&mut self, addr: u64, value: u8) -> (r: Result<(), Fault>)
        requires
            old(self).wf(),
        ensures
            final(self).wf(),
            final(self).clint == old(self).clint,
            bus_write_res_rel(*old(self), *final(self), addr),
            in_uart(addr) ==> ({
                let off = (addr - UART_BASE) as u8;
                &&& final(self).memory == old(self).memory
                &&& (off == 4 || off == 5 || off == 6 ==> r == Err::<(), Fault>(
                    Fault::UnknownUartOffset(off),
                ) && final(self).uart == old(self).uart)
                &&& (!(off == 4 || off == 5 || off == 6) ==> r is Ok && uart_write8_rel(
                    old(self).uart,
                    final(self).uart,
                    off,
                    value,
                ))
            }),
            !in_uart(addr) && Memory::in_range(addr, 1) ==> r is Ok && final(self).memory@
                == old(self).memory.spec_write8(addr, value) && final(self).uart == old(self).uart,
            !in_uart(addr) && !Memory::in_range(addr, 1) ==> r == Err::<(), Fault>(
                Fault::UnmappedAddress(addr),
            ) && final(self).memory == old(self).memory && final(self).uart == old(self).uart,
    {
        self.invalidate_reservations(addr);
        if addr >= UART_BASE && addr < UART_BASE + UART_SIZE {
            let off: u8 = (addr - UART_BASE) as u8;
            if off == 4 || off == 5 || off == 6 {
                Err(Fault::UnknownUartOffset(off))
            } else {
                self.uart.write8(off, value);
                Ok(())
            }
        } else if addr >= DRAM_BASE && addr - DRAM_BASE <= (DRAM_SIZE - 1) as u64 {
            self.memory.write8(addr, value);
            Ok(())
        } else {
            Err(Fault::UnmappedAddress(addr))
        }
    }

    #[verifier::rlimit(50)]
    #[verifier::spinoff_prover]
    pub fn write16(&mut self, addr: u64, value: u16) -> (r: Result<(), Fault>)
        requires
            old(self).wf(),
        ensures
            final(self).wf(),
            final(self).clint == old(self).clint,
            bus_write_res_rel(*old(self), *final(self), addr),
            in_uart(addr) ==> ({
                let off = (addr - UART_BASE) as u8;
                &&& final(self).memory == old(self).memory
                &&& (off == 4 || off == 5 || off == 6 ==> r == Err::<(), Fault>(
                    Fault::UnknownUartOffset(off),
                ) && final(self).uart == old(self).uart)
                &&& (!(off == 4 || off == 5 || off == 6) ==> r is Ok && uart_write8_rel(
                    old(self).uart,
                    final(self).uart,
                    off,
                    value as u8,
                ))
            }),
            !in_uart(addr) && Memory::in_range(addr, 2) ==> r is Ok && final(self).memory@
                == old(self).memory.spec_write16(addr, value) && final(self).uart == old(self).uart,
            !in_uart(addr) && !Memory::in_range(addr, 2) ==> r == Err::<(), Fault>(
                Fault::UnmappedAddress(addr),
            ) && final(self).memory == old(self).memory && final(self).uart == old(self).uart,
    {
        self.invalidate_reservations(addr);
        if addr >= UART_BASE && addr < UART_BASE + UART_SIZE {
            let off: u8 = (addr - UART_BASE) as u8;
            if off == 4 || off == 5 || off == 6 {
                Err(Fault::UnknownUartOffset(off))
            } else {
                self.uart.write8(off, #[verifier::truncate] (value as u8));
                Ok(())
            }
        } else if addr >= DRAM_BASE && addr - DRAM_BASE <= (DRAM_SIZE - 2) as u64 {
            self.memory.write16(addr, value);
            Ok(())
        } else {
            Err(Fault::UnmappedAddress(addr))
        }
    }

    #[verifier::rlimit(50)]
    pub fn write32(&mut self, addr: u64, value: u32) -> (r: Result<(), Fault>)
        requires
            old(self).wf(),
        ensures
            final(self).wf(),
            bus_write32_rel(*old(self), *final(self), addr, value, r),
    {
        self.invalidate_reservations(addr);
        if addr >= CLINT_BASE && addr < CLINT_BASE + CLINT_SIZE {
            let off: u64 = addr - CLINT_BASE;
            if off == MSIP_OFFSET {
                self.clint.write32(off, value);
                Ok(())
            } else {
                Err(Fault::UnknownClintOffset(off))
            }
        } else if addr >= UART_BASE && addr < UART_BASE + UART_SIZE {
            let off: u8 = (addr - UART_BASE) as u8;
            if off == 4 || off == 5 || off == 6 {
                Err(Fault::UnknownUartOffset(off))
            } else {
                self.uart.write8(off, #[verifier::truncate] (value as u8));
                Ok(())
            }
        } else if addr >= DRAM_BASE && addr - DRAM_BASE <= (DRAM_SIZE - 4) as u64 {
            self.memory.write32(addr, value);
            Ok(())
        } else {
            Err(Fault::UnmappedAddress(addr))
        }
    }

    #[verifier::rlimit(50)]
    #[verifier::spinoff_prover]
    pub fn write64(&mut self, addr: u64, value: u64) -> (r: Result<(), Fault>)
        requires
            old(self).wf(),
        ensures
            final(self).wf(),
            bus_write_res_rel(*old(self), *final(self), addr),
            in_clint(addr) ==> ({
                let off = (addr - CLINT_BASE) as u64;
                &&& final(self).memory == old(self).memory
                &&& final(self).uart == old(self).uart
                &&& (off == MTIMECMP_OFFSET ==> r is Ok && final(self).clint.mtimecmp == value
                    && final(self).clint.mtime == old(self).clint.mtime && final(self).clint.msip
                    == old(self).clint.msip)
                &&& (off == MTIME_OFFSET ==> r is Ok && final(self).clint.mtime == value && final(self).clint.mtimecmp == old(self).clint.mtimecmp && final(self).clint.msip == old(self).clint.msip)
                &&& (off != MTIMECMP_OFFSET && off != MTIME_OFFSET ==> r == Err::<(), Fault>(
                    Fault::UnknownClintOffset(off),
                ) && final(self).clint == old(self).clint)
            }),
            !in_clint(addr) && in_uart(addr) ==> ({
                let off = (addr - UART_BASE) as u8;
                &&& final(self).clint == old(self).clint
                &&& final(self).memory == old(self).memory
                &&& (off == 4 || off == 5 || off == 6 ==> r == Err::<(), Fault>(
                    Fault::UnknownUartOffset(off),
                ) && final(self).uart == old(self).uart)
                &&& (!(off == 4 || off == 5 || off == 6) ==> r is Ok && uart_write8_rel(
                    old(self).uart,
                    final(self).uart,
                    off,
                    value as u8,
                ))
            }),
            !in_clint(addr) && !in_uart(addr) && Memory::in_range(addr, 8) ==> r is Ok && final(self).clint == old(self).clint && final(self).memory@ == old(self).memory.spec_write64(
                addr,
                value,
            ) && final(self).uart == old(self).uart,
            !in_clint(addr) && !in_uart(addr) && !Memory::in_range(addr, 8) ==> r == Err::<
                (),
                Fault,
            >(Fault::UnmappedAddress(addr)) && final(self).clint == old(self).clint && final(self).memory == old(self).memory && final(self).uart == old(self).uart,
    {
        self.invalidate_reservations(addr);
        if addr >= CLINT_BASE && addr < CLINT_BASE + CLINT_SIZE {
            let off: u64 = addr - CLINT_BASE;
            if off == MTIMECMP_OFFSET || off == MTIME_OFFSET {
                self.clint.write64(off, value);
                Ok(())
            } else {
                Err(Fault::UnknownClintOffset(off))
            }
        } else if addr >= UART_BASE && addr < UART_BASE + UART_SIZE {
            let off: u8 = (addr - UART_BASE) as u8;
            if off == 4 || off == 5 || off == 6 {
                Err(Fault::UnknownUartOffset(off))
            } else {
                self.uart.write8(off, #[verifier::truncate] (value as u8));
                Ok(())
            }
        } else if addr >= DRAM_BASE && addr - DRAM_BASE <= (DRAM_SIZE - 8) as u64 {
            self.memory.write64(addr, value);
            Ok(())
        } else {
            Err(Fault::UnmappedAddress(addr))
        }
    }

    /// Advances the machine timer by one step.
    pub fn tick(&mut self)
        ensures
            final(self).clint.mtime == old(self).clint.mtime.wrapping_add(1),
            final(self).clint.mtimecmp == old(self).clint.mtimecmp,
            final(self).clint.msip == old(self).clint.msip,
            final(self).memory == old(self).memory,
            final(self).uart == old(self).uart,
            final(self).reservations@ == old(self).reservations@,
    {
        self.clint.tick();
    }

    pub fn check_timer_interrupt(&self) -> (r: bool)
        ensures
            r == self.clint.spec_timer_pending(),
    {
        self.clint.check_timer_interrupt()
    }

    pub fn check_software_interrupt(&self) -> (r: bool)
        ensures
            r == self.clint.spec_software_pending(),
    {
        self.clint.check_software_interrupt()
    }

    pub fn check_uart_interrupt(&self) -> (r: bool)
        ensures
            r == self.uart.spec_interrupt_pending(),
    {
        self.uart.check_interrupt()
    }

    /// Injects one byte into the UART RX FIFO, as a host test harness does.
    pub fn push_uart_input(&mut self, data: u8)
        ensures
            uart_push_rel(old(self).uart, final(self).uart, data),
            final(self).clint == old(self).clint,
            final(self).memory == old(self).memory,
            final(self).reservations@ == old(self).reservations@,
    {
        self.uart.push_input(data);
    }

    /// Drains at most one byte from the host terminal into the UART.
    pub fn receive_uart_input(&mut self)
        ensures
            uart_recv_rel(old(self).uart, final(self).uart),
            final(self).clint == old(self).clint,
            final(self).memory == old(self).memory,
            final(self).reservations@ == old(self).reservations@,
    {
        self.uart.receive_input();
    }
}

/// Assembles the 8-bit write relation from the facts `Bus::write8`
/// states one by one.
pub proof fn lemma_bus_write8_rel<T: Terminal>(
    pre: Bus<T>,
    post: Bus<T>,
    addr: u64,
    value: u8,
    r: Result<(), Fault>,
)
    requires
        post.clint == pre.clint,
        bus_write_res_rel(pre, post, addr),
        in_uart(addr) ==> ({
            let off = (addr - UART_BASE) as u8;
            &&& post.memory == pre.memory
            &&& (off == 4 || off == 5 || off == 6 ==> r == Err::<(), Fault>(
                Fault::UnknownUartOffset(off),
            ) && post.uart == pre.uart)
            &&& (!(off == 4 || off == 5 || off == 6) ==> r is Ok && uart_write8_rel(
                pre.uart,
                post.uart,
                off,
                value,
            ))
        }),
        !in_uart(addr) && Memory::in_range(addr, 1) ==> r is Ok && post.memory@
            == pre.memory.spec_write8(addr, value) && post.uart == pre.uart,
        !in_uart(addr) && !Memory::in_range(addr, 1) ==> r == Err::<(), Fault>(
            Fault::UnmappedAddress(addr),
        ) && post.memory == pre.memory && post.uart == pre.uart,
    ensures
        bus_write8_rel(pre, post, addr, value, r),
{
}

/// Assembles the 16-bit write relation from the facts `Bus::write16`
/// states one by one.
pub proof fn lemma_bus_write16_rel<T: Terminal>(
    pre: Bus<T>,
    post: Bus<T>,
    addr: u64,
    value: u16,
    r: Result<(), Fault>,
)
    requires
        post.clint == pre.clint,
        bus_write_res_rel(pre, post, addr),
        in_uart(addr) ==> ({
            let off = (addr - UART_BASE) as u8;
            &&& post.memory == pre.memory
            &&& (off == 4 || off == 5 || off == 6 ==> r == Err::<(), Fault>(
                Fault::UnknownUartOffset(off),
            ) && post.uart == pre.uart)
            &&& (!(off == 4 || off == 5 || off == 6) ==> r is Ok && uart_write8_rel(
                pre.uart,
                post.uart,
                off,
                value as u8,
            ))
        }),
        !in_uart(addr) && Memory::in_range(addr, 2) ==> r is Ok && post.memory@
            == pre.memory.spec_write16(addr, value) && post.uart == pre.uart,
        !in_uart(addr) && !Memory::in_range(addr, 2) ==> r == Err::<(), Fault>(
            Fault::UnmappedAddress(addr),
        ) && post.memory == pre.memory && post.uart == pre.uart,
    ensures
        bus_write16_rel(pre, post, addr, value, r),
{
}

/// Assembles the 64-bit write relation from the facts `Bus::write64`
/// states one by one.
pub proof fn lemma_bus_write64_rel<T: Terminal>(
    pre: Bus<T>,
    post: Bus<T>,
    addr: u64,
    value: u64,
    r: Result<(), Fault>,
)
    requires
        bus_write_res_rel(pre, post, addr),
        in_clint(addr) ==> ({
            let off = (addr - CLINT_BASE) as u64;
            &&& post.memory == pre.memory
            &&& post.uart == pre.uart
            &&& (off == MTIMECMP_OFFSET ==> r is Ok && post.clint.mtimecmp == value
                && post.clint.mtime == pre.clint.mtime && post.clint.msip == pre.clint.msip)
            &&& (off == MTIME_OFFSET ==> r is Ok && post.clint.mtime == value
                && post.clint.mtimecmp == pre.clint.mtimecmp && post.clint.msip
                == pre.clint.msip)
            &&& (off != MTIMECMP_OFFSET && off != MTIME_OFFSET ==> r == Err::<(), Fault>(
                Fault::UnknownClintOffset(off),
            ) && post.clint == pre.clint)
        }),
        !in_clint(addr) && in_uart(addr) ==> ({
            let off = (addr - UART_BASE) as u8;
            &&& post.clint == pre.clint
            &&& post.memory == pre.memory
            &&& (off == 4 || off == 5 || off == 6 ==> r == Err::<(), Fault>(
                Fault::UnknownUartOffset(off),
            ) && post.uart == pre.uart)
            &&& (!(off == 4 || off == 5 || off == 6) ==> r is Ok && uart_write8_rel(
                pre.uart,
                post.uart,
                off,
                value as u8,
            ))
        }),
        !in_clint(addr) && !in_uart(addr) && Memory::in_range(addr, 8) ==> r is Ok && post.clint
            == pre.clint && post.memory@ == pre.memory.spec_write64(addr, value) && post.uart
            == pre.uart,
        !in_clint(addr) && !in_uart(addr) && !Memory::in_range(addr, 8) ==> r == Err::<(), Fault>(
            Fault::UnmappedAddress(addr),
        ) && post.clint == pre.clint && post.memory == pre.memory && post.uart == pre.uart,
    ensures
        bus_write64_rel(pre, post, addr, value, r),
{
}

} // verus!
