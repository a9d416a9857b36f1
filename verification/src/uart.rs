//! The 16550-style UART as the kernel refers to it: the device's base
//! address and its line-control divisor. The register accesses themselves
//! are the shell's work.

use vstd::prelude::*;

verus! {

/// The divisor the UART is initialized with.
pub const UART_DIVISOR: u16 = 592;

pub struct Uart {
    pub base_address: usize,
}

impl Uart {
    pub fn new(base_address: usize) -> (r: Uart)
        ensures
            r.base_address == base_address,
    {
        Uart { base_address }
    }

    pub fn get_base_address(&self) -> (r: usize)
        ensures
            r == self.base_address,
    {
        self.base_address
    }
}

} // verus!
