//! The platform-level interrupt controller as the kernel drives it: context
//! indices for each (hart, privilege) pair and the register addresses and
//! masks of the operations the kernel uses. The register file itself is
//! memory-mapped hardware; the shell performs the accesses these functions
//! compute.

use crate::cpu::Mode;
use crate::error::{KError, KErrorType};
use vstd::prelude::*;

verus! {

pub const PLIC_BASE: usize = 0x0c00_0000;

pub const MAX_INTCNT: usize = 53;

/// The external interrupt sources the kernel knows by name.
#[derive(Clone, Copy, Debug, PartialEq, Eq, Structural)]
pub enum extint_name {
    UNDEF,
    UART0,
}

/// One external interrupt source: its name, PLIC source id, and priority.
#[derive(Clone, Copy, Debug, PartialEq, Eq, Structural)]
pub struct extint_src {
    pub name: extint_name,
    pub src_id: usize,
    pub prio: usize,
}

impl extint_src {
    pub fn new() -> (r: extint_src)
        ensures
            r.name is UNDEF,
            r.src_id == 0,
            r.prio == 0,
    {
        extint_src { name: extint_name::UNDEF, src_id: 0, prio: 0 }
    }

    pub fn get_name(&self) -> (r: extint_name)
        ensures
            r == self.name,
    {
        self.name
    }

    pub fn set_name(&mut self, v: extint_name)
        ensures
            *final(self) == (extint_src { name: v, ..*old(self) }),
    {
        self.name = v;
    }

    pub fn get_src_id(&self) -> (r: usize)
        ensures
            r == self.src_id,
    {
        self.src_id
    }

    pub fn set_src_id(&mut self, v: usize)
        ensures
            *final(self) == (extint_src { src_id: v, ..*old(self) }),
    {
        self.src_id = v;
    }

    pub fn get_prio(&self) -> (r: usize)
        ensures
            r == self.prio,
    {
        self.prio
    }

    pub fn set_prio(&mut self, v: usize)
        ensures
            *final(self) == (extint_src { prio: v, ..*old(self) }),
    {
        self.prio = v;
    }
}

/// PLIC contexts: machine contexts of hart H at even index 2H, supervisor
/// contexts at the following odd index.
#[derive(Clone, Copy, Debug, PartialEq, Eq, Structural)]
pub enum plic_ctx {
    CORE0_M,
    CORE1_M,
    CORE2_M,
    CORE3_M,
    CORE0_S,
    CORE1_S,
    CORE2_S,
    CORE3_S,
}

impl plic_ctx {
    pub open spec fn spec_index(self) -> usize {
        match self {
            plic_ctx::CORE0_M => 0,
            plic_ctx::CORE1_M => 2,
            plic_ctx::CORE2_M => 4,
            plic_ctx::CORE3_M => 6,
            plic_ctx::CORE0_S => 1,
            plic_ctx::CORE1_S => 3,
            plic_ctx::CORE2_S => 5,
            plic_ctx::CORE3_S => 7,
        }
    }

    pub fn index(&self) -> (r: usize)
        ensures
            r == self.spec_index(),
            r < 8,
    {
        match self {
            plic_ctx::CORE0_M => 0,
            plic_ctx::CORE1_M => 2,
            plic_ctx::CORE2_M => 4,
            plic_ctx::CORE3_M => 6,
            plic_ctx::CORE0_S => 1,
            plic_ctx::CORE1_S => 3,
            plic_ctx::CORE2_S => 5,
            plic_ctx::CORE3_S => 7,
        }
    }

    /// Number of contexts on this platform.
    pub fn max_ctx() -> (r: usize)
        ensures
            r == 8,
    {
        8
    }
}

/// The PLIC context a hart traps into: its machine context when it runs in
/// M mode or the M-mode handler, its supervisor context otherwise.
pub fn id2plic_ctx(hartid: usize, current_mode: Mode) -> (r: plic_ctx)
    requires
        hartid < 4,
    ensures
        (current_mode is Machine || current_mode is Machine_IRH) ==> r.spec_index() == 2 * hartid,
        !(current_mode is Machine || current_mode is Machine_IRH) ==> r.spec_index() == 2 * hartid
            + 1,
{
    match current_mode {
        Mode::Machine | Mode::Machine_IRH => {
            if hartid == 0 {
                plic_ctx::CORE0_M
            } else if hartid == 1 {
                plic_ctx::CORE1_M
            } else if hartid == 2 {
                plic_ctx::CORE2_M
            } else {
                plic_ctx::CORE3_M
            }
        },
        _ => {
            if hartid == 0 {
                plic_ctx::CORE0_S
            } else if hartid == 1 {
                plic_ctx::CORE1_S
            } else if hartid == 2 {
                plic_ctx::CORE2_S
            } else {
                plic_ctx::CORE3_S
            }
        },
    }
}

/// One 32-bit store the shell must perform on the controller.
#[derive(Clone, Copy, Debug, PartialEq, Eq, Structural)]
pub struct mmio_write {
    pub addr: usize,
    pub val: u32,
}

/// One read-modify-write the shell must perform: OR `set_mask` into the
/// register at `addr`.
#[derive(Clone, Copy, Debug, PartialEq, Eq, Structural)]
pub struct mmio_setbits {
    pub addr: usize,
    pub set_mask: u32,
}

/// The controller's register map and a software mirror of the priorities the
/// kernel has programmed.
pub struct plic_controller {
    pub base: usize,
    pub prio_base: usize,
    pub pend_base: usize,
    pub enable_base: usize,
    pub thres_base: usize,
    pub prio: Vec<u32>,
}

impl plic_controller {
    pub fn new(new_base: usize) -> (r: plic_controller)
        requires
            new_base + 0x40_0000 <= usize::MAX,
        ensures
            r.base == new_base,
            r.prio_base == new_base,
            r.pend_base == new_base + 0x1000,
            r.enable_base == new_base + 0x2000,
            r.thres_base == new_base + 0x20_0000,
            r.prio@.len() == 54,
            forall|i: int| 0 <= i < 54 ==> r.prio@[i] == 0,
    {
        plic_controller {
            base: new_base,
            prio_base: new_base,
            pend_base: new_base + 0x1000,
            enable_base: new_base + 0x2000,
            thres_base: new_base + 0x20_0000,
            prio: vec![0u32; 54],
        }
    }

    /// Program a source's priority: record it in the mirror and hand back
    /// the store to perform, at `prio_base + 4*src`. Priorities above 7 are
    /// refused with EINVAL.
    pub fn set_prio(&mut self, src: &extint_src, new_prio: u32) -> (r: Result<mmio_write, KError>)
        requires
            src.src_id < 54,
            old(self).prio@.len() == 54,
            old(self).prio_base + 4 * src.src_id <= usize::MAX,
        ensures
            new_prio > 7 <==> r is Err,
            r is Err ==> r->Err_0.er_type == KErrorType::EINVAL && *final(self) == *old(self),
            r is Ok ==> final(self).prio@ == old(self).prio@.update(src.src_id as int, new_prio)
                && *final(self) == (plic_controller { prio: final(self).prio, ..*old(self) })
                && r->Ok_0 == (mmio_write {
                addr: (old(self).prio_base + 4 * src.src_id) as usize,
                val: new_prio,
            }),
    {
        if new_prio > 7 {
            return Err(KError::new(KErrorType::EINVAL, "plic.rs", "set_prio", 0));
        }
        let usz_src = src.get_src_id();
        self.prio[usz_src] = new_prio;
        Ok(mmio_write { addr: self.prio_base + 4 * usz_src, val: new_prio })
    }

    /// Check a priority read back from the controller against the mirror:
    /// EFAULT on disagreement, the value otherwise.
    pub fn get_prio(&self, src: &extint_src, mmio_val: u32) -> (r: Result<u32, KError>)
        requires
            src.src_id < 54,
            self.prio@.len() == 54,
        ensures
            r is Ok <==> mmio_val == self.prio@[src.src_id as int],
            r is Ok ==> r->Ok_0 == self.prio@[src.src_id as int],
            r is Err ==> r->Err_0.er_type == KErrorType::EFAULT,
    {
        let reg_val = self.prio[src.get_src_id()];
        if mmio_val != reg_val {
            Err(KError::new(KErrorType::EFAULT, "plic.rs", "get_prio", 0))
        } else {
            Ok(reg_val)
        }
    }

    /// Whether `src` is pending in the pending word read from
    /// `pend_base + 4*(src/32)`.
    pub fn get_pending(&self, src: &extint_src, pend_reg: u32) -> (r: bool)
        requires
            src.src_id < 54,
        ensures
            r == (pend_reg & (1u32 << (src.src_id % 32) as u32) != 0),
    {
        let mask: u32 = 1u32 << (src.get_src_id() % 32) as u32;
        pend_reg & mask != 0
    }

    /// The bit to OR into a context's enable register for `src`.
    pub fn enable(&self, ctx: plic_ctx, src: &extint_src) -> (r: mmio_setbits)
        requires
            src.src_id < 54,
            self.enable_base + ctx.spec_index() * 0x80 + src.src_id / 32 <= usize::MAX,
        ensures
            r.addr == self.enable_base + ctx.spec_index() * 0x80 + src.src_id / 32,
            r.set_mask == 1u32 << (src.src_id % 32) as u32,
    {
        let usz_ctx = ctx.index();
        let usz_src: usize = src.get_src_id() / 32;
        let mask: u32 = 1u32 << (src.get_src_id() % 32) as u32;
        mmio_setbits { addr: self.enable_base + (usz_ctx * 0x80 + usz_src), set_mask: mask }
    }

    /// Program a context's threshold: the store goes to
    /// `thres_base + 0x1000*ctx`. Thresholds above 7 are refused with EFAULT.
    pub fn set_thres(&self, ctx: plic_ctx, new_thres: u32) -> (r: Result<mmio_write, KError>)
        requires
            self.thres_base + ctx.spec_index() * 0x1000 <= usize::MAX,
        ensures
            new_thres > 7 <==> r is Err,
            r is Err ==> r->Err_0.er_type == KErrorType::EFAULT,
            r is Ok ==> r->Ok_0 == (mmio_write {
                addr: (self.thres_base + ctx.spec_index() * 0x1000) as usize,
                val: new_thres,
            }),
    {
        if new_thres > 7 {
            return Err(KError::new(KErrorType::EFAULT, "plic.rs", "set_thres", 0));
        }
        let usz_ctx = ctx.index();
        Ok(mmio_write { addr: self.thres_base + usz_ctx * 0x1000, val: new_thres })
    }

    /// Where a context claims interrupts: one word past its threshold.
    pub fn claim(&self, ctx: &plic_ctx) -> (r: usize)
        requires
            self.thres_base + ctx.spec_index() * 0x1000 + 4 <= usize::MAX,
        ensures
            r == self.thres_base + ctx.spec_index() * 0x1000 + 4,
    {
        let usz_ctx = ctx.index();
        self.thres_base + usz_ctx * 0x1000 + 4
    }

    /// The store that completes a claimed interrupt: the claimed id written
    /// back to the claim register.
    pub fn complete(&self, ctx: &plic_ctx, src: u32) -> (r: mmio_write)
        requires
            self.thres_base + ctx.spec_index() * 0x1000 + 4 <= usize::MAX,
        ensures
            r.addr == self.thres_base + ctx.spec_index() * 0x1000 + 4,
            r.val == src,
    {
        let usz_ctx = ctx.index();
        mmio_write { addr: self.thres_base + usz_ctx * 0x1000 + 4, val: src }
    }
}

} // verus!
