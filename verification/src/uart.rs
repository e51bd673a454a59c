//! 16550-subset UART: 16-byte RX and TX FIFOs, a one-byte transmit shift
//! register, and the IER/IIR/LCR/LSR/SCR registers, with the interrupt line
//! the bus exposes to the CPU.

use crate::terminal::Terminal;
use std::collections::VecDeque;
use vstd::prelude::*;

verus! {

pub const UART_BASE: u64 = 0x10000000;

pub const UART_SIZE: u64 = 8;

pub const UART_RBR: u8 = 0;

pub const UART_THR: u8 = 0;

pub const UART_IER: u8 = 1;

pub const UART_IIR: u8 = 2;

pub const UART_FCR: u8 = 2;

pub const UART_LCR: u8 = 3;

pub const UART_LSR: u8 = 5;

pub const UART_SCR: u8 = 7;

pub const LSR_DR: u8 = 0x1;

pub const LSR_THRE: u8 = 0x20;

pub const LSR_TEMT: u8 = 0x40;

pub const IER_RX_ENABLE: u8 = 0x1;

pub const IER_TX_ENABLE: u8 = 0x2;

pub const IIR_NO_INTERRUPT: u8 = 0x01;

pub const IIR_TX_INTERRUPT: u8 = 0x02;

pub const IIR_RX_INTERRUPT: u8 = 0x04;

pub const IIR_FIFO_ENABLED: u8 = 0xC0;

/// FIFO capacity: a push on a full queue drops the byte.
pub const FIFO_CAPACITY: usize = 16;

pub struct Uart<T: Terminal> {
    pub rx_fifo: VecDeque<u8>,
    pub tx_fifo: VecDeque<u8>,
    pub tsr: Option<u8>,
    pub ier: u8,
    pub iir: u8,
    pub lcr: u8,
    pub lsr: u8,
    pub scr: u8,
    pub terminal: T,
}

/// LSR after one recomputation: the data-ready, transmit-holding-empty and
/// transmitter-empty bits are set from the FIFO and shift-register state;
/// the remaining bits keep their old value.
pub open spec fn lsr_after(lsr: u8, rx_ne: bool, tx_empty: bool, tsr_empty: bool) -> u8 {
    let l1 = if rx_ne {
        lsr | LSR_DR
    } else {
        lsr & !LSR_DR
    };
    if tx_empty {
        if tsr_empty {
            (l1 | LSR_THRE) | LSR_TEMT
        } else {
            (l1 | LSR_THRE) & !LSR_TEMT
        }
    } else {
        l1 & !(LSR_THRE | LSR_TEMT)
    }
}

/// The LSR value that exactly mirrors the device state, all other bits zero.
pub open spec fn lsr_value(rx_ne: bool, tx_empty: bool, tsr_empty: bool) -> u8 {
    ((if rx_ne {
        1int
    } else {
        0int
    }) + (if tx_empty {
        0x20int + (if tsr_empty {
            0x40int
        } else {
            0int
        })
    } else {
        0int
    })) as u8
}

/// The IIR value after one recomputation: receive interrupts outrank
/// transmit interrupts; the FIFO-enabled bits are always advertised.
pub open spec fn iir_value(ier: u8, rx_ne: bool, tx_empty: bool) -> u8 {
    if ier & IER_RX_ENABLE != 0 && rx_ne {
        0xC4
    } else if ier & IER_TX_ENABLE != 0 && tx_empty {
        0xC2
    } else {
        0xC1
    }
}

/// Facts about the LSR and IIR bit patterns: recomputation is idempotent,
/// it leaves only the three status bits set when the rest were clear, and
/// the interrupt line is the complement of the no-interrupt bit.
pub proof fn lemma_lsr_bits(l: u8, a: bool, b: bool, c: bool)
    by (bit_vector)
    ensures
        lsr_after(lsr_after(l, a, b, c), a, b, c) == lsr_after(l, a, b, c),
        l & 0x9E == 0 ==> lsr_after(l, a, b, c) == lsr_value(a, b, c),
        lsr_value(a, b, c) & 0x9E == 0,
        lsr_value(a, b, c) & LSR_DR != 0 <==> a,
        lsr_value(a, b, c) & LSR_THRE != 0 <==> b,
        lsr_value(a, b, c) & LSR_TEMT != 0 <==> (b && c),
        0xC4u8 & 0x01 == 0 && 0xC2u8 & 0x01 == 0 && 0xC1u8 & 0x01 == 1,
{
}

/// How one register read at `offset` takes the UART from `pre` to `post`,
/// returning `r`: reading RBR pops the RX FIFO (zero when empty) and
/// refreshes LSR and IIR; reading LSR refreshes it first; the other
/// readable registers are returned unchanged.
pub open spec fn uart_read8_rel<T: Terminal>(pre: Uart<T>, post: Uart<T>, offset: u8, r: u8) -> bool {
    &&& post.tx_fifo@ == pre.tx_fifo@
    &&& post.tsr == pre.tsr
    &&& post.same_cfg(&pre)
    &&& post.terminal == pre.terminal
    &&& (offset == 0 && pre.rx_fifo@.len() > 0 ==> {
        &&& r == pre.rx_fifo@[0]
        &&& post.rx_fifo@ == pre.rx_fifo@.subrange(1, pre.rx_fifo@.len() as int)
        &&& post.lsr == lsr_after(
            pre.lsr,
            post.rx_fifo@.len() > 0,
            pre.spec_tx_empty(),
            pre.spec_tsr_empty(),
        )
        &&& post.iir == iir_value(pre.ier, post.rx_fifo@.len() > 0, pre.spec_tx_empty())
    })
    &&& (offset == 0 && pre.rx_fifo@.len() == 0 ==> {
        &&& r == 0
        &&& post.rx_fifo@ == pre.rx_fifo@
        &&& post.lsr == lsr_after(pre.lsr, false, pre.spec_tx_empty(), pre.spec_tsr_empty())
        &&& post.iir == pre.iir
    })
    &&& (offset == 1 ==> r == pre.ier && post == pre)
    &&& (offset == 2 ==> r == pre.iir && post == pre)
    &&& (offset == 3 ==> r == pre.lcr && post == pre)
    &&& (offset == 5 ==> {
        &&& r == post.lsr
        &&& post.lsr == lsr_after(
            pre.lsr,
            pre.spec_rx_ne(),
            pre.spec_tx_empty(),
            pre.spec_tsr_empty(),
        )
        &&& post.rx_fifo@ == pre.rx_fifo@
        &&& post.iir == pre.iir
    })
    &&& (offset == 7 ==> r == pre.scr && post == pre)
    &&& (pre.inv() ==> post.inv())
}

/// How one register write at `offset` takes the UART from `pre` to `post`:
/// a THR write queues the byte (dropped when the FIFO is full) and sends at
/// most one byte out through the shift register; an IER write keeps the
/// high nibble; an FCR write clears the FIFOs its bits 1 and 2 name; LCR
/// and SCR are plain storage.
pub open spec fn uart_write8_rel<T: Terminal>(
    pre: Uart<T>,
    post: Uart<T>,
    offset: u8,
    value: u8,
) -> bool {
    &&& post.rx_fifo@ == (if offset == 2 && value & 0x2 != 0 {
        Seq::<u8>::empty()
    } else {
        pre.rx_fifo@
    })
    &&& (offset == 0 ==> ({
        let pushed = if pre.tx_fifo@.len() < FIFO_CAPACITY {
            pre.tx_fifo@.push(value)
        } else {
            pre.tx_fifo@
        };
        let l1 = if pre.tx_fifo@.len() < FIFO_CAPACITY {
            lsr_after(pre.lsr, pre.spec_rx_ne(), false, pre.spec_tsr_empty())
        } else {
            pre.lsr
        };
        &&& post.tsr is None
        &&& post.same_cfg(&pre)
        &&& (if pre.tsr is Some {
            post.tx_fifo@ == pushed && post.lsr == l1
        } else {
            post.tx_fifo@ == pushed.subrange(1, pushed.len() as int) && post.lsr == lsr_after(
                l1,
                pre.spec_rx_ne(),
                post.tx_fifo@.len() == 0,
                true,
            )
        })
        &&& post.iir == iir_value(pre.ier, pre.spec_rx_ne(), post.tx_fifo@.len() == 0)
        &&& (pre.inv() ==> post.inv())
    }))
    &&& (offset == 1 ==> {
        &&& post.ier == (pre.ier & 0xF0) | (value & 0x0F)
        &&& post.iir == iir_value(post.ier, pre.spec_rx_ne(), pre.spec_tx_empty())
        &&& post.tx_fifo@ == pre.tx_fifo@
        &&& post.tsr == pre.tsr
        &&& post.lsr == pre.lsr
        &&& post.lcr == pre.lcr
        &&& post.scr == pre.scr
        &&& post.terminal == pre.terminal
        &&& (pre.inv() ==> post.inv())
    })
    &&& (offset == 2 ==> {
        &&& post.tx_fifo@ == (if value & 0x4 != 0 {
            Seq::<u8>::empty()
        } else {
            pre.tx_fifo@
        })
        &&& post.tsr == pre.tsr
        &&& post.lsr == pre.lsr
        &&& post.iir == pre.iir
        &&& post.same_cfg(&pre)
        &&& post.terminal == pre.terminal
        &&& (pre.inv() && value & 0x6 == 0 ==> post.inv())
    })
    &&& (offset == 3 ==> post == (Uart { lcr: value, ..pre }))
    &&& (offset == 7 ==> post == (Uart { scr: value, ..pre }))
}

/// How injecting one input byte takes the UART from `pre` to `post`: the
/// byte joins the RX FIFO unless it is full, and LSR and IIR are refreshed
/// on success.
pub open spec fn uart_push_rel<T: Terminal>(pre: Uart<T>, post: Uart<T>, data: u8) -> bool {
    &&& (pre.rx_fifo@.len() < FIFO_CAPACITY ==> {
        &&& post.rx_fifo@ == pre.rx_fifo@.push(data)
        &&& post.lsr == lsr_after(pre.lsr, true, pre.spec_tx_empty(), pre.spec_tsr_empty())
        &&& post.iir == iir_value(pre.ier, true, pre.spec_tx_empty())
    })
    &&& (pre.rx_fifo@.len() >= FIFO_CAPACITY ==> post == pre)
    &&& post.tx_fifo@ == pre.tx_fifo@
    &&& post.tsr == pre.tsr
    &&& post.same_cfg(&pre)
    &&& post.terminal == pre.terminal
    &&& (pre.inv() ==> post.inv())
}

/// How draining the terminal takes the UART from `pre` to `post`: either
/// nothing was ready and the device is unchanged, or one byte arrived and
/// joined the RX FIFO as a push.
pub open spec fn uart_recv_rel<T: Terminal>(pre: Uart<T>, post: Uart<T>) -> bool {
    &&& post.tx_fifo@ == pre.tx_fifo@
    &&& post.tsr == pre.tsr
    &&& post.same_cfg(&pre)
    &&& ((post.rx_fifo@ == pre.rx_fifo@ && post.lsr == pre.lsr && post.iir == pre.iir) || (
    pre.rx_fifo@.len() < FIFO_CAPACITY && exists|b: u8|
        {
            &&& post.rx_fifo@ == pre.rx_fifo@.push(b)
            &&& post.lsr == lsr_after(pre.lsr, true, pre.spec_tx_empty(), pre.spec_tsr_empty())
            &&& post.iir == iir_value(pre.ier, true, pre.spec_tx_empty())
        }))
    &&& (pre.inv() ==> post.inv())
}

impl<T: Terminal> Uart<T> {
    pub open spec fn spec_rx_ne(&self) -> bool {
        self.rx_fifo@.len() > 0
    }

    pub open spec fn spec_tx_empty(&self) -> bool {
        self.tx_fifo@.len() == 0
    }

    pub open spec fn spec_tsr_empty(&self) -> bool {
        self.tsr is None
    }

    /// The interrupt line, as the bus reads it.
    pub open spec fn spec_interrupt_pending(&self) -> bool {
        self.iir & IIR_NO_INTERRUPT == 0
    }

    /// The line-status and interrupt-identification registers mirror the
    /// FIFO and shift-register state, the FIFOs respect their bound, and
    /// the shift register rests empty: transmission drains it before any
    /// register operation returns.
    pub open spec fn inv(&self) -> bool {
        &&& self.rx_fifo@.len() <= FIFO_CAPACITY
        &&& self.tx_fifo@.len() <= FIFO_CAPACITY
        &&& self.tsr is None
        &&& self.lsr == lsr_value(self.spec_rx_ne(), self.spec_tx_empty(), self.spec_tsr_empty())
        &&& self.iir == iir_value(self.ier, self.spec_rx_ne(), self.spec_tx_empty())
    }

    /// The scratch, line-control and interrupt-enable registers are as in `b`.
    pub open spec fn same_cfg(&self, b: &Self) -> bool {
        &&& self.ier == b.ier
        &&& self.lcr == b.lcr
        &&& self.scr == b.scr
    }

    pub fn new(terminal: T) -> (uart: Uart<T>)
        ensures
            uart.rx_fifo@ == Seq::<u8>::empty(),
            uart.tx_fifo@ == Seq::<u8>::empty(),
            uart.tsr is None,
            uart.ier == 0,
            uart.iir == 0xC1,
            uart.lcr == 0,
            uart.lsr == 0x60,
            uart.scr == 0,
            uart.terminal == terminal,
            uart.inv(),
    {
        let uart = Uart {
            rx_fifo: VecDeque::new(),
            tx_fifo: VecDeque::new(),
            tsr: None,
            ier: 0,
            iir: IIR_FIFO_ENABLED | IIR_NO_INTERRUPT,
            lcr: 0,
            lsr: LSR_TEMT | LSR_THRE,
            scr: 0,
            terminal,
        };
        proof {
            lemma_lsr_bits(0, false, true, true);
            assert(0xC0u8 | 0x01u8 == 0xC1u8) by (bit_vector);
            assert(0x40u8 | 0x20u8 == 0x60u8) by (bit_vector);
            assert(lsr_value(false, true, true) == 0x60u8);
            assert(iir_value(0, false, true) == 0xC1u8) by (bit_vector);
        }
        uart
    }

    /// Recomputes the line-status register from the FIFO and TSR state.
    pub fn update_lsr(&mut self)
        ensures
            final(self).lsr == lsr_after(
                old(self).lsr,
                old(self).spec_rx_ne(),
                old(self).spec_tx_empty(),
                old(self).spec_tsr_empty(),
            ),
            final(self).rx_fifo@ == old(self).rx_fifo@,
            final(self).tx_fifo@ == old(self).tx_fifo@,
            final(self).tsr == old(self).tsr,
            final(self).iir == old(self).iir,
            final(self).same_cfg(old(self)),
            final(self).terminal == old(self).terminal,
    {
        if self.rx_fifo.len() > 0 {
            self.lsr = self.lsr | LSR_DR;
        } else {
            self.lsr = self.lsr & !LSR_DR;
        }
        if self.tx_fifo.len() == 0 {
            self.lsr = self.lsr | LSR_THRE;
            if self.tsr.is_none() {
                self.lsr = self.lsr | LSR_TEMT;
            } else {
                self.lsr = self.lsr & !LSR_TEMT;
            }
        } else {
            self.lsr = self.lsr & !(LSR_THRE | LSR_TEMT);
        }
    }

    /// Recomputes the interrupt-identification register, receive first.
    pub fn update_iir(&mut self)
        ensures
            final(self).iir == iir_value(
                old(self).ier,
                old(self).spec_rx_ne(),
                old(self).spec_tx_empty(),
            ),
            final(self).rx_fifo@ == old(self).rx_fifo@,
            final(self).tx_fifo@ == old(self).tx_fifo@,
            final(self).tsr == old(self).tsr,
            final(self).lsr == old(self).lsr,
            final(self).same_cfg(old(self)),
            final(self).terminal == old(self).terminal,
    {
        if self.ier & IER_RX_ENABLE != 0 && self.rx_fifo.len() > 0 {
            self.iir = 0xC4;
        } else if self.ier & IER_TX_ENABLE != 0 && self.tx_fifo.len() == 0 {
            self.iir = 0xC2;
        } else {
            self.iir = 0xC1;
        }
    }

    /// Appends to the TX FIFO unless it is full; a successful push
    /// recomputes the LSR.
    pub fn tx_fifo_push(&mut self, data: u8)
        ensures
            old(self).tx_fifo@.len() < FIFO_CAPACITY ==> {
                &&& final(self).tx_fifo@ == old(self).tx_fifo@.push(data)
                &&& final(self).lsr == lsr_after(
                    old(self).lsr,
                    old(self).spec_rx_ne(),
                    false,
                    old(self).spec_tsr_empty(),
                )
            },
            old(self).tx_fifo@.len() >= FIFO_CAPACITY ==> *final(self) == *old(self),
            final(self).rx_fifo@ == old(self).rx_fifo@,
            final(self).tsr == old(self).tsr,
            final(self).iir == old(self).iir,
            final(self).same_cfg(old(self)),
            final(self).terminal == old(self).terminal,
    {
        if self.tx_fifo.len() < FIFO_CAPACITY {
            self.tx_fifo.push_back(data);
            self.update_lsr();
        }
    }

    /// Removes the TX FIFO front, then recomputes the LSR.
    pub fn tx_fifo_pop(&mut self) -> (r: Option<u8>)
        ensures
            old(self).tx_fifo@.len() > 0 ==> {
                &&& r == Some(old(self).tx_fifo@[0])
                &&& final(self).tx_fifo@ == old(self).tx_fifo@.subrange(
                    1,
                    old(self).tx_fifo@.len() as int,
                )
            },
            old(self).tx_fifo@.len() == 0 ==> r is None && final(self).tx_fifo@ == old(
                self,
            ).tx_fifo@,
            final(self).lsr == lsr_after(
                old(self).lsr,
                old(self).spec_rx_ne(),
                final(self).tx_fifo@.len() == 0,
                old(self).spec_tsr_empty(),
            ),
            final(self).rx_fifo@ == old(self).rx_fifo@,
            final(self).tsr == old(self).tsr,
            final(self).iir == old(self).iir,
            final(self).same_cfg(old(self)),
            final(self).terminal == old(self).terminal,
    {
        let res = self.tx_fifo.pop_front();
        self.update_lsr();
        res
    }

    /// Appends to the RX FIFO unless it is full; a successful push
    /// recomputes the LSR and the IIR.
    pub fn rx_fifo_push(&mut self, data: u8)
        ensures
            old(self).rx_fifo@.len() < FIFO_CAPACITY ==> {
                &&& final(self).rx_fifo@ == old(self).rx_fifo@.push(data)
                &&& final(self).lsr == lsr_after(
                    old(self).lsr,
                    true,
                    old(self).spec_tx_empty(),
                    old(self).spec_tsr_empty(),
                )
                &&& final(self).iir == iir_value(old(self).ier, true, old(self).spec_tx_empty())
            },
            old(self).rx_fifo@.len() >= FIFO_CAPACITY ==> *final(self) == *old(self),
            final(self).tx_fifo@ == old(self).tx_fifo@,
            final(self).tsr == old(self).tsr,
            final(self).same_cfg(old(self)),
            final(self).terminal == old(self).terminal,
    {
        if self.rx_fifo.len() < FIFO_CAPACITY {
            self.rx_fifo.push_back(data);
            self.update_lsr();
            self.update_iir();
        }
    }

    /// Removes the RX FIFO front, then recomputes the LSR.
    pub fn rx_fifo_pop(&mut self) -> (r: Option<u8>)
        ensures
            old(self).rx_fifo@.len() > 0 ==> {
                &&& r == Some(old(self).rx_fifo@[0])
                &&& final(self).rx_fifo@ == old(self).rx_fifo@.subrange(
                    1,
                    old(self).rx_fifo@.len() as int,
                )
            },
            old(self).rx_fifo@.len() == 0 ==> r is None && final(self).rx_fifo@ == old(
                self,
            ).rx_fifo@,
            final(self).lsr == lsr_after(
                old(self).lsr,
                final(self).rx_fifo@.len() > 0,
                old(self).spec_tx_empty(),
                old(self).spec_tsr_empty(),
            ),
            final(self).tx_fifo@ == old(self).tx_fifo@,
            final(self).tsr == old(self).tsr,
            final(self).iir == old(self).iir,
            final(self).same_cfg(old(self)),
            final(self).terminal == old(self).terminal,
    {
        let res = self.rx_fifo.pop_front();
        self.update_lsr();
        res
    }

    /// Moves one byte from the TX FIFO through the shift register out to
    /// the terminal; at most one byte is emitted.
    pub fn transmit(&mut self)
        ensures
            final(self).tsr is None,
            final(self).rx_fifo@ == old(self).rx_fifo@,
            final(self).iir == old(self).iir,
            final(self).same_cfg(old(self)),
            old(self).tsr is Some ==> final(self).tx_fifo@ == old(self).tx_fifo@ && final(self).lsr
                == old(self).lsr,
            old(self).tsr is None && old(self).tx_fifo@.len() > 0 ==> {
                &&& final(self).tx_fifo@ == old(self).tx_fifo@.subrange(
                    1,
                    old(self).tx_fifo@.len() as int,
                )
                &&& final(self).lsr == lsr_after(
                    old(self).lsr,
                    old(self).spec_rx_ne(),
                    final(self).tx_fifo@.len() == 0,
                    true,
                )
            },
            old(self).tsr is None && old(self).tx_fifo@.len() == 0 ==> {
                &&& final(self).tx_fifo@ == old(self).tx_fifo@
                &&& final(self).lsr == lsr_after(old(self).lsr, old(self).spec_rx_ne(), true, true)
                &&& final(self).terminal == old(self).terminal
            },
    {
        if self.tsr.is_none() {
            let popped = self.tx_fifo_pop();
            self.tsr = popped;
        }
        match self.tsr {
            Some(data) => {
                self.terminal.write(data);
                self.tsr = None;
            },
            None => {},
        }
    }

    /// Drains at most one byte from the terminal into the RX FIFO.
    pub fn receive_input(&mut self)
        ensures
            uart_recv_rel(*old(self), *final(self)),
    {
        proof {
            lemma_lsr_bits(old(self).lsr, true, old(self).spec_tx_empty(), old(self).spec_tsr_empty());
            lemma_lsr_bits(
                old(self).lsr,
                old(self).spec_rx_ne(),
                old(self).spec_tx_empty(),
                old(self).spec_tsr_empty(),
            );
        }
        let input = self.terminal.read();
        match input {
            Some(data) => self.rx_fifo_push(data),
            None => {},
        }
    }

    /// Injects one input byte directly, as a host test harness does.
    pub fn push_input(&mut self, data: u8)
        ensures
            uart_push_rel(*old(self), *final(self), data),
    {
        proof {
            lemma_lsr_bits(self.lsr, true, self.spec_tx_empty(), self.spec_tsr_empty());
            lemma_lsr_bits(self.lsr, self.spec_rx_ne(), self.spec_tx_empty(), self.spec_tsr_empty());
        }
        self.rx_fifo_push(data);
    }

    /// Reads one register byte. Offsets 4 and 6 are not part of the device.
    pub fn read8(&mut self, offset: u8) -> (r: u8)
        requires
            offset == 0 || offset == 1 || offset == 2 || offset == 3 || offset == 5 || offset == 7,
        ensures
            uart_read8_rel(*old(self), *final(self), offset, r),
    {
        proof {
            lemma_lsr_bits(
                self.lsr,
                self.spec_rx_ne(),
                self.spec_tx_empty(),
                self.spec_tsr_empty(),
            );
            lemma_lsr_bits(
                self.lsr,
                self.rx_fifo@.len() > 1,
                self.spec_tx_empty(),
                self.spec_tsr_empty(),
            );
        }
        match offset {
            0 => {
                let data = self.rx_fifo_pop();
                match data {
                    Some(d) => {
                        self.update_lsr();
                        self.update_iir();
                        d
                    },
                    None => 0,
                }
            },
            1 => self.ier,
            2 => self.iir,
            3 => self.lcr,
            5 => {
                self.update_lsr();
                self.lsr
            },
            _ => self.scr,
        }
    }

    /// Writes one register byte. Offsets 4, 5 and 6 are not writable.
    pub fn write8(&mut self, offset: u8, value: u8)
        requires
            offset == 0 || offset == 1 || offset == 2 || offset == 3 || offset == 7,
        ensures
            uart_write8_rel(*old(self), *final(self), offset, value),
    {
        match offset {
            0 => {
                proof {
                    lemma_lsr_bits(
                        self.lsr,
                        self.spec_rx_ne(),
                        self.spec_tx_empty(),
                        self.spec_tsr_empty(),
                    );
                    lemma_lsr_bits(self.lsr, self.spec_rx_ne(), false, self.spec_tsr_empty());
                    lemma_lsr_bits(
                        lsr_value(self.spec_rx_ne(), false, self.spec_tsr_empty()),
                        self.spec_rx_ne(),
                        self.tx_fifo@.len() == 0,
                        true,
                    );
                }
                self.tx_fifo_push(value);
                self.transmit();
                self.update_iir();
            },
            1 => {
                self.ier = (self.ier & 0xF0) | (value & 0x0F);
                self.update_iir();
            },
            2 => {
                proof {
                    assert(value & 0x6 == 0 ==> value & 0x2 == 0 && value & 0x4 == 0)
                        by (bit_vector);
                }
                if value & 0x2 != 0 {
                    self.rx_fifo.clear();
                }
                if value & 0x4 != 0 {
                    self.tx_fifo.clear();
                }
            },
            3 => {
                self.lcr = value;
            },
            _ => {
                self.scr = value;
            },
        }
    }

    /// Whether the UART is asserting its interrupt line.
    pub fn check_interrupt(&self) -> (r: bool)
        ensures
            r == self.spec_interrupt_pending(),
    {
        self.iir & IIR_NO_INTERRUPT == 0
    }
}

/// In every consistent UART state the line-status bits read the device
/// state back exactly: DR holds iff the RX FIFO has data, THRE iff the TX
/// FIFO is empty, and TEMT iff the TX FIFO and the shift register are both
/// empty; the interrupt line is up iff an enabled source is pending, the
/// receive side taking priority in the IIR.
pub proof fn lemma_lsr_reflects_state<T: Terminal>(u: Uart<T>)
    requires
        u.inv(),
    ensures
        u.lsr & LSR_DR != 0 <==> u.rx_fifo@.len() > 0,
        u.lsr & LSR_THRE != 0 <==> u.tx_fifo@.len() == 0,
        u.lsr & LSR_TEMT != 0 <==> (u.tx_fifo@.len() == 0 && u.tsr is None),
        u.lsr & LSR_TEMT != 0 <==> u.tx_fifo@.len() == 0,
        u.spec_interrupt_pending() <==> ((u.ier & IER_RX_ENABLE != 0 && u.rx_fifo@.len() > 0) || (
        u.ier & IER_TX_ENABLE != 0 && u.tx_fifo@.len() == 0)),
{
    lemma_lsr_bits(u.lsr, u.spec_rx_ne(), u.spec_tx_empty(), u.spec_tsr_empty());
}

} // verus!
