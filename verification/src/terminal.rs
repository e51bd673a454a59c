//! The two-method host terminal contract the UART talks to. `read` is
//! non-blocking: it yields a byte only when the host has already produced
//! one. Nothing is assumed about either method; what a terminal does with
//! the bytes is the host's business.

use vstd::prelude::*;

verus! {

pub trait Terminal {
    /// Hands one output byte to the host.
    fn write(&mut self, data: u8);

    /// Fetches one input byte from the host, if one is ready.
    fn read(&mut self) -> Option<u8>;
}

} // verus!
