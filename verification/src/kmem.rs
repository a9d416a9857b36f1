//! Kernel-memory bookkeeping: where the kernel heap starts, how many frames
//! back it, whether the global heap allocator has been brought up, and the
//! kernel's satp value.

use crate::error::{KError, KErrorType};
use vstd::prelude::*;

verus! {

/// The default number of frames carved out for the kernel heap.
pub const KHEAP_PGCNT: usize = 256;

/// Process-wide kernel-memory state. In the running kernel this is a set of
/// singletons; here it is explicit and threaded through the allocator, which
/// initializes the heap on its first successful allocation.
#[derive(Clone, Copy, Debug, PartialEq, Eq, Structural)]
pub struct kmem {
    pub kheap_start: usize,
    pub kheap_pgcnt: usize,
    pub heap_inited: bool,
    pub kern_satp: u64,
}

impl kmem {
    pub fn new() -> (r: kmem)
        ensures
            r.kheap_start == 0,
            r.kheap_pgcnt == KHEAP_PGCNT,
            !r.heap_inited,
            r.kern_satp == 0,
    {
        kmem { kheap_start: 0, kheap_pgcnt: KHEAP_PGCNT, heap_inited: false, kern_satp: 0 }
    }

    pub fn get_kheap_start(&self) -> (r: usize)
        ensures
            r == self.kheap_start,
    {
        self.kheap_start
    }

    pub fn set_kheap_start(&mut self, new_start: usize)
        ensures
            *final(self) == (kmem { kheap_start: new_start, ..*old(self) }),
    {
        self.kheap_start = new_start;
    }

    pub fn get_kheap_pgcnt(&self) -> (r: usize)
        ensures
            r == self.kheap_pgcnt,
    {
        self.kheap_pgcnt
    }

    pub fn get_ksatp(&self) -> (r: u64)
        ensures
            r == self.kern_satp,
    {
        self.kern_satp
    }

    pub fn set_ksatp(&mut self, new_satp: u64)
        ensures
            *final(self) == (kmem { kern_satp: new_satp, ..*old(self) }),
    {
        self.kern_satp = new_satp;
    }

    /// Carve the kernel heap out of the normal zone — the allocator's first
    /// successful allocation, which also brings the heap allocator up — and
    /// take one more frame to hold the kernel's root page table. Returns the
    /// address of that frame.
    pub fn init(&mut self, zones: &mut Vec<crate::zone::mem_zone>) -> (r: Result<usize, KError>)
        requires
            old(zones)@.len() == 3,
            old(zones)@[1].wf_naive(),
            old(zones)@[1].nalloc().pagetree is None,
            old(self).kheap_pgcnt >= 1,
            !old(self).heap_inited,
        ensures
            final(zones)@.len() == 3,
            final(zones)@[1].nalloc().same_geometry(old(zones)@[1].nalloc()),
            forall|z: int| 0 <= z < 3 && z != 1 ==> final(zones)@[z] == old(zones)@[z],
            // The carve-out succeeds exactly when the pool can fit the heap
            // run and still has a frame for the root table afterwards.
            r is Ok <==> ({
                let m0 = old(zones)@[1].nalloc().marks@;
                let pg = old(self).kheap_pgcnt as int;
                &&& crate::page::spec_first_fit(m0, pg) is Some
                &&& crate::page::spec_first_fit(
                    crate::page::marks_set(
                        m0,
                        crate::page::spec_first_fit(m0, pg)->0,
                        pg,
                        crate::page::pgalloc_flags::PF_TAKEN,
                    ),
                    1,
                ) is Some
            }),
            r is Ok ==> ({
                &&& final(self).heap_inited
                &&& final(self).kheap_start % 4096 == 0
                &&& final(zones)@[1].wf_naive()
                &&& final(zones)@[1].nalloc().pagetree is Some
                &&& r->Ok_0 % 4096 == 0
            }),
            r is Err ==> r->Err_0.er_type == KErrorType::ENOMEM,
    {
        let pgcnt = self.kheap_pgcnt;
        let kheap = crate::zone::kmalloc_page(zones, self, crate::zone::zone_type::ZONE_NORMAL, pgcnt);
        match kheap {
            Ok(_) => {},
            Err(e) => {
                return Err(e);
            },
        }
        let root_page = crate::zone::kmalloc_page(
            zones,
            self,
            crate::zone::zone_type::ZONE_NORMAL,
            1,
        );
        match root_page {
            Ok(p) => Ok(p),
            Err(e) => Err(e),
        }
    }
}

} // verus!
