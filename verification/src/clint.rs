//! The core-local interruptor: per-hart timer compare registers and the
//! monotonic timer. The kernel computes the register addresses and the next
//! deadline; the shell performs the loads and stores.

use vstd::prelude::*;

verus! {

pub const CLINT_BASE: usize = 0x200_0000;

/// How far past the current time the timer is re-armed.
pub const TIMER_INTERVAL: u64 = 0x50_0000;

pub struct clint_controller {
    pub base_addr: usize,
}

impl clint_controller {
    pub fn new(base: usize) -> (r: clint_controller)
        ensures
            r.base_addr == base,
    {
        clint_controller { base_addr: base }
    }

    /// Address of hart `hartid`'s mtimecmp register.
    pub fn mtimecmp_addr(&self, hartid: usize) -> (r: usize)
        requires
            self.base_addr + 0x4000 + 8 * hartid <= usize::MAX,
        ensures
            r == self.base_addr + 0x4000 + 8 * hartid,
    {
        self.base_addr + 0x4000 + 8 * hartid
    }

    /// Address of the mtime register.
    pub fn mtime_addr(&self) -> (r: usize)
        requires
            self.base_addr + 0xbff8 <= usize::MAX,
        ensures
            r == self.base_addr + 0xbff8,
    {
        self.base_addr + 0xbff8
    }

    /// The deadline a timer interrupt re-arms to, given the mtime just read.
    pub fn next_deadline(&self, mtime: u64) -> (r: u64)
        requires
            mtime + TIMER_INTERVAL <= u64::MAX,
        ensures
            r == mtime + TIMER_INTERVAL,
    {
        mtime + TIMER_INTERVAL
    }
}

} // verus!
