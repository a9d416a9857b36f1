//! Per-hart CPU state as the kernel sees it: trap frames, privilege modes,
//! the satp composition, and a plain-value model of the interrupt-enable
//! CSRs (`mie`, `sie`) that the lock policy and the scheduler manipulate.

use vstd::prelude::*;

verus! {

/// The platform runs up to four harts.
pub const MAX_HARTS: usize = 4;

/// Privilege mode of a hart. `Machine_IRH` marks "inside the M-mode trap
/// handler", which the scheduler and the semaphore fast path test for.
#[derive(Clone, Copy, Debug, PartialEq, Eq, Structural)]
pub enum Mode {
    User,
    Supervisor,
    Machine,
    Machine_IRH,
}

/// Saved CPU state at trap entry: one statically allocated per hart, and one
/// embedded in every task. `trap_stack` holds the address of the private trap
/// stack; `mie_buf` is the save slot used by the Cli/Sti ecalls.
#[derive(Clone, Copy, Debug)]
pub struct TrapFrame {
    pub regs: [usize; 32],
    pub fregs: [usize; 32],
    pub satp: usize,
    pub trap_stack: usize,
    pub hartid: usize,
    pub cur_mode: Mode,
    pub cpuid: usize,
    pub mie_buf: usize,
}

impl TrapFrame {
    pub fn new() -> (r: TrapFrame)
        ensures
            forall|j: int| 0 <= j < 32 ==> r.regs[j] == 0,
            forall|j: int| 0 <= j < 32 ==> r.fregs[j] == 0,
            r.satp == 0,
            r.trap_stack == 0,
            r.hartid == 0,
            r.cur_mode == Mode::Machine,
            r.cpuid == 0,
            r.mie_buf == 0,
    {
        TrapFrame {
            regs: [0; 32],
            fregs: [0; 32],
            satp: 0,
            trap_stack: 0,
            hartid: 0,
            cur_mode: Mode::Machine,
            cpuid: 0,
            mie_buf: 0,
        }
    }

    /// Copy every field from `src`.
    pub fn copy_from(&mut self, src: &TrapFrame)
        ensures
            *final(self) == *src,
    {
        *self = *src;
    }

    /// Copy every field from `src` but keep this frame's own trap stack.
    pub fn refresh_from(&mut self, src: &TrapFrame)
        ensures
            *final(self) == (TrapFrame { trap_stack: old(self).trap_stack, ..*src }),
    {
        let self_trap_stack = self.trap_stack;
        *self = *src;
        self.trap_stack = self_trap_stack;
    }
}

/// The paging mode field of satp.
#[derive(Clone, Copy, Debug, PartialEq, Eq, Structural)]
pub enum SATP_mode {
    Bare,
    Sv39,
    Sv48,
    Sv57,
    Sv64,
}

impl SATP_mode {
    /// The encoding of this mode in satp bits 63:60.
    pub fn val(self) -> (r: u64)
        ensures
            r == self.spec_val(),
    {
        match self {
            SATP_mode::Bare => 0,
            SATP_mode::Sv39 => 8,
            SATP_mode::Sv48 => 9,
            SATP_mode::Sv57 => 10,
            SATP_mode::Sv64 => 11,
        }
    }

    pub open spec fn spec_val(self) -> u64 {
        match self {
            SATP_mode::Bare => 0,
            SATP_mode::Sv39 => 8,
            SATP_mode::Sv48 => 9,
            SATP_mode::Sv57 => 10,
            SATP_mode::Sv64 => 11,
        }
    }
}

pub open spec fn spec_make_satp(satp_mode: SATP_mode, asid_val: usize, root_addr: usize) -> u64 {
    (satp_mode.spec_val() << 60) | ((asid_val as u64) << 44) | ((root_addr as u64) >> 12)
}

/// Compose a satp value: mode in bits 63:60, ASID in bits 59:44, and the
/// physical page number of the root table in the low bits.
pub fn make_satp(satp_mode: SATP_mode, asid_val: usize, root_addr: usize) -> (r: u64)
    requires
        asid_val < 0x1_0000,
    ensures
        r == spec_make_satp(satp_mode, asid_val, root_addr),
{
    (satp_mode.val() << 60) | ((asid_val as u64) << 44) | ((root_addr as u64) >> 12)
}

/// The interrupt-enable CSRs of one hart, as plain values. The lock policy
/// (`crate::lock`) and the scheduler state exactly how these change; the
/// hardware-facing shell mirrors each change onto the real `mie`/`sie`.
#[derive(Clone, Copy, Debug, PartialEq, Eq, Structural)]
pub struct hart_csrs {
    pub mie: usize,
    pub sie: usize,
}

impl hart_csrs {
    pub fn new() -> (r: hart_csrs)
        ensures
            r.mie == 0,
            r.sie == 0,
    {
        hart_csrs { mie: 0, sie: 0 }
    }
}

/// Read the mode last recorded for `hartid` in its kernel trap frame.
pub fn get_cpu_mode(frames: &Vec<TrapFrame>, hartid: usize) -> (r: Mode)
    requires
        hartid < frames.len(),
    ensures
        r == frames[hartid as int].cur_mode,
{
    frames[hartid].cur_mode
}

/// Record the mode `hartid` is now running in.
pub fn set_cpu_mode(frames: &mut Vec<TrapFrame>, new_mode: Mode, hartid: usize)
    requires
        hartid < old(frames).len(),
    ensures
        final(frames)@ == old(frames)@.update(
            hartid as int,
            TrapFrame { cur_mode: new_mode, ..old(frames)[hartid as int] },
        ),
{
    let frame = &mut frames[hartid];
    frame.cur_mode = new_mode;
}

pub open spec fn spec_max(a: int, b: int) -> int {
    if a >= b {
        a
    } else {
        b
    }
}

/// The value `busy_delay`'s counter holds after `k` iterations.
pub open spec fn busy_iter(i: int, k: nat) -> int
    decreases k,
{
    if k == 0 {
        i
    } else {
        let p = busy_iter(i, (k - 1) as nat);
        if (k - 1) % 2 == 0 {
            p + 3
        } else {
            p / 2
        }
    }
}

/// Spin for a fixed number of arithmetic steps; used by tasks to pass time.
pub fn busy_delay(i: usize) -> (r: usize)
    requires
        i + 3 <= usize::MAX,
    ensures
        r == busy_iter(i as int, 10_000_000),
{
    let mut ret = i;
    let mut k: usize = 0;
    while k < 10_000_000
        invariant
            k <= 10_000_000,
            i + 3 <= usize::MAX,
            ret == busy_iter(i as int, k as nat),
            if k % 2 == 0 {
                ret <= spec_max(i as int, 6)
            } else {
                ret <= spec_max(i as int, 6) + 3
            },
        decreases 10_000_000 - k,
    {
        if k % 2 == 0 {
            ret = ret + 3;
        } else {
            ret = ret / 2;
        }
        k = k + 1;
    }
    ret
}

} // verus!
