//! A 64-bit RISC-V instruction-set simulator: RV64I with the M extension,
//! machine/supervisor/user privilege modes, trap handling, a core-local
//! interruptor (CLINT), a 16550-style UART, and a 64-bit little-endian ELF
//! segment loader.

pub mod bits;
pub mod bus;
pub mod csr;
pub mod decoder;
pub mod elf;
pub mod clint;
pub mod cpu;
pub mod memory;
pub mod terminal;
pub mod uart;

pub use bus::Bus;
pub use cpu::Cpu;
pub use csr::Csr;
