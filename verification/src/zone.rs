//! Memory zones: each zone owns a contiguous physical region and the
//! allocator laid over it. `kmalloc_page`/`kfree_page` are the kernel's
//! entry points into the zone table.

use crate::error::{KError, KErrorType};
use crate::kmem::kmem;
use crate::page::{empty_allocator, naive_allocator, PAGE_SIZE};
use vstd::prelude::*;

verus! {

#[derive(Clone, Copy, Debug, PartialEq, Eq, Structural)]
pub enum AllocatorSelector {
    EmptyAllocator,
    NaiveAllocator,
}

/// The allocators a zone can carry.
pub enum Allocators {
    EmptyAllocator(empty_allocator),
    NaiveAllocator(naive_allocator),
}

/// What a zone expects of its allocator: the per-impl preconditions of the
/// three operations.
pub trait page_allocator: Sized {
    spec fn init_req(&self, zone_start: usize, zone_end: usize, zone_size: usize) -> bool;

    spec fn alloc_req(&self, heap: kmem, pg_cnt: usize) -> bool;

    spec fn free_req(&self) -> bool;

    fn allocator_init(&mut self, zone_start: usize, zone_end: usize, zone_size: usize) -> (r:
        Result<(usize, usize), KError>)
        requires
            old(self).init_req(zone_start, zone_end, zone_size),
    ;

    fn alloc_pages(&mut self, heap: &mut kmem, pg_cnt: usize) -> (r: Result<usize, KError>)
        requires
            old(self).alloc_req(*old(heap), pg_cnt),
    ;

    fn free_pages(&mut self, addr: usize) -> (r: Result<(), KError>)
        requires
            old(self).free_req(),
    ;
}

impl page_allocator for naive_allocator {
    open spec fn init_req(&self, zone_start: usize, zone_end: usize, zone_size: usize) -> bool {
        &&& self.pagetree is None
        &&& zone_start <= zone_end
        &&& zone_size == zone_end - zone_start
        &&& zone_end + 4096 <= usize::MAX
    }

    open spec fn alloc_req(&self, heap: kmem, pg_cnt: usize) -> bool {
        &&& self.wf()
        &&& pg_cnt >= 1
        &&& self.pagetree is None ==> pg_cnt == heap.kheap_pgcnt
    }

    open spec fn free_req(&self) -> bool {
        self.wf()
    }

    fn allocator_init(&mut self, zone_start: usize, zone_end: usize, zone_size: usize) -> (r:
        Result<(usize, usize), KError>) {
        self.allocator_init(zone_start, zone_end, zone_size)
    }

    fn alloc_pages(&mut self, heap: &mut kmem, pg_cnt: usize) -> (r: Result<usize, KError>) {
        self.alloc_pages(heap, pg_cnt)
    }

    fn free_pages(&mut self, addr: usize) -> (r: Result<(), KError>) {
        self.free_pages(addr)
    }
}

impl page_allocator for empty_allocator {
    open spec fn init_req(&self, zone_start: usize, zone_end: usize, zone_size: usize) -> bool {
        true
    }

    open spec fn alloc_req(&self, heap: kmem, pg_cnt: usize) -> bool {
        true
    }

    open spec fn free_req(&self) -> bool {
        true
    }

    fn allocator_init(&mut self, zone_start: usize, zone_end: usize, zone_size: usize) -> (r:
        Result<(usize, usize), KError>) {
        self.allocator_init(zone_start, zone_end, zone_size)
    }

    fn alloc_pages(&mut self, heap: &mut kmem, pg_cnt: usize) -> (r: Result<usize, KError>) {
        self.alloc_pages(heap, pg_cnt)
    }

    fn free_pages(&mut self, addr: usize) -> (r: Result<(), KError>) {
        self.free_pages(addr)
    }
}

impl Allocators {
    pub fn allocator_init(&mut self, zone_start: usize, zone_end: usize, zone_size: usize) -> (r:
        Result<(usize, usize), KError>)
        requires
            *old(self) is NaiveAllocator ==> (*old(self))->NaiveAllocator_0.init_req(
                zone_start,
                zone_end,
                zone_size,
            ),
        ensures
            *old(self) is NaiveAllocator <==> *final(self) is NaiveAllocator,
            *old(self) is NaiveAllocator ==> naive_allocator::init_post(
                (*old(self))->NaiveAllocator_0,
                (*final(self))->NaiveAllocator_0,
                zone_start,
                zone_end,
                zone_size,
                r,
            ),
            *old(self) is EmptyAllocator ==> *final(self) == *old(self) && r == Ok::<
                (usize, usize),
                KError,
            >((0, 0)),
    {
        match self {
            Allocators::EmptyAllocator(alloc) => alloc.allocator_init(
                zone_start,
                zone_end,
                zone_size,
            ),
            Allocators::NaiveAllocator(alloc) => alloc.allocator_init(
                zone_start,
                zone_end,
                zone_size,
            ),
        }
    }

    pub fn alloc_pages(&mut self, heap: &mut kmem, pg_cnt: usize) -> (r: Result<usize, KError>)
        requires
            *old(self) is NaiveAllocator ==> (*old(self))->NaiveAllocator_0.alloc_req(
                *old(heap),
                pg_cnt,
            ),
        ensures
            *old(self) is NaiveAllocator <==> *final(self) is NaiveAllocator,
            *old(self) is NaiveAllocator ==> naive_allocator::alloc_post(
                (*old(self))->NaiveAllocator_0,
                *old(heap),
                pg_cnt,
                (*final(self))->NaiveAllocator_0,
                *final(heap),
                r,
            ),
            *old(self) is EmptyAllocator ==> *final(self) == *old(self)
                && *final(heap) == *old(heap) && r is Err
                && r->Err_0.er_type == KErrorType::ENOSYS,
    {
        match self {
            Allocators::EmptyAllocator(alloc) => alloc.alloc_pages(heap, pg_cnt),
            Allocators::NaiveAllocator(alloc) => alloc.alloc_pages(heap, pg_cnt),
        }
    }

    pub fn free_pages(&mut self, addr: usize) -> (r: Result<(), KError>)
        requires
            *old(self) is NaiveAllocator ==> (*old(self))->NaiveAllocator_0.free_req(),
        ensures
            *old(self) is NaiveAllocator <==> *final(self) is NaiveAllocator,
            *old(self) is NaiveAllocator ==> naive_allocator::free_post(
                (*old(self))->NaiveAllocator_0,
                (*final(self))->NaiveAllocator_0,
                addr,
                r,
            ),
            *old(self) is EmptyAllocator ==> *final(self) == *old(self) && r is Err
                && r->Err_0.er_type == KErrorType::ENOSYS,
    {
        match self {
            Allocators::EmptyAllocator(alloc) => alloc.free_pages(addr),
            Allocators::NaiveAllocator(alloc) => alloc.free_pages(addr),
        }
    }
}

/// The kinds of zone the kernel carves physical memory into.
#[derive(Clone, Copy, Debug, PartialEq, Eq, Structural)]
pub enum zone_type {
    ZONE_UNDEF,
    ZONE_NORMAL,
    ZONE_VIRTIO,
}

impl zone_type {
    pub fn as_str(&self) -> (r: &'static str)
        ensures
            self is ZONE_NORMAL ==> r@ == "ZONE_NORMAL"@,
            self is ZONE_VIRTIO ==> r@ == "ZONE_VIRTIO"@,
            self is ZONE_UNDEF ==> r@ == "ZONE_UNDEF"@,
    {
        match self {
            zone_type::ZONE_NORMAL => "ZONE_NORMAL",
            zone_type::ZONE_VIRTIO => "ZONE_VIRTIO",
            zone_type::ZONE_UNDEF => "ZONE_UNDEF",
        }
    }

    pub open spec fn spec_val(self) -> usize {
        match self {
            zone_type::ZONE_UNDEF => 0,
            zone_type::ZONE_NORMAL => 1,
            zone_type::ZONE_VIRTIO => 2,
        }
    }

    /// Index of this zone in the zone table.
    pub fn val(&self) -> (r: usize)
        ensures
            r == self.spec_val(),
            r < 3,
    {
        match self {
            zone_type::ZONE_UNDEF => 0,
            zone_type::ZONE_NORMAL => 1,
            zone_type::ZONE_VIRTIO => 2,
        }
    }

    /// How many zone kinds there are, and so how long the zone table is.
    pub fn type_cnt() -> (r: usize)
        ensures
            r == 3,
    {
        3
    }
}

/// One zone: its bounds, kind, and allocator (none until `init`).
pub struct mem_zone {
    pub begin_addr: usize,
    pub end_addr: usize,
    pub zone_size: usize,
    pub types: zone_type,
    pub pg_allocator: Option<Allocators>,
}

impl mem_zone {
    pub fn new() -> (r: mem_zone)
        ensures
            r.begin_addr == 0,
            r.end_addr == 0,
            r.zone_size == 0,
            r.types is ZONE_UNDEF,
            r.pg_allocator is None,
    {
        mem_zone {
            begin_addr: 0,
            end_addr: 0,
            zone_size: 0,
            types: zone_type::ZONE_UNDEF,
            pg_allocator: None,
        }
    }

    /// A zone whose allocator is the naive one, brought up and well-formed.
    pub open spec fn wf_naive(self) -> bool {
        &&& self.pg_allocator is Some
        &&& self.pg_allocator->0 is NaiveAllocator
        &&& self.pg_allocator->0->NaiveAllocator_0.wf()
    }

    pub open spec fn nalloc(self) -> naive_allocator {
        self.pg_allocator->0->NaiveAllocator_0
    }

    /// Bring the zone up over `[start, end)` with the chosen allocator and
    /// return `(meta_begin, mem_begin)`. With the naive allocator a region of
    /// fewer than 3 frames is refused with ENOMEM and the zone keeps no
    /// allocator.
    pub fn init(
        &mut self,
        start: usize,
        end: usize,
        ztype: zone_type,
        selector: AllocatorSelector,
    ) -> (r: Result<(usize, usize), KError>)
        requires
            start <= end,
            end + 4096 <= usize::MAX,
        ensures
            final(self).begin_addr == start,
            final(self).end_addr == end,
            final(self).zone_size == end - start,
            final(self).types == ztype,
            selector is EmptyAllocator ==> r == Ok::<(usize, usize), KError>((0, 0))
                && final(self).pg_allocator is Some
                && final(self).pg_allocator->0 is EmptyAllocator,
            selector is NaiveAllocator && end - start < 3 * 4096 ==> r is Err
                && r->Err_0.er_type == KErrorType::ENOMEM && final(self).pg_allocator is None,
            selector is NaiveAllocator && end - start >= 3 * 4096 ==> final(self).wf_naive()
                && naive_allocator::init_post(
                final(self).nalloc(),
                final(self).nalloc(),
                start,
                end,
                (end - start) as usize,
                r,
            ) && final(self).nalloc().pagetree is None,
    {
        self.begin_addr = start;
        self.end_addr = end;
        self.zone_size = end - start;
        self.types = ztype;
        self.pg_allocator = None;
        let mut allocator = match selector {
            AllocatorSelector::EmptyAllocator => Allocators::EmptyAllocator(
                empty_allocator::new(),
            ),
            AllocatorSelector::NaiveAllocator => Allocators::NaiveAllocator(
                naive_allocator::new(),
            ),
        };
        let init_ret = allocator.allocator_init(start, end, self.zone_size);
        let r = match init_ret {
            Ok(v) => v,
            Err(e) => {
                return Err(e);
            },
        };
        self.pg_allocator = Some(allocator);
        Ok(r)
    }

    pub fn get_size(&self) -> (r: Result<usize, KError>)
        ensures
            self.begin_addr > self.end_addr ==> r is Err && r->Err_0.er_type
                == KErrorType::ENOMEM,
            self.begin_addr <= self.end_addr ==> r == Ok::<usize, KError>(
                (self.end_addr - self.begin_addr) as usize,
            ),
    {
        if self.begin_addr > self.end_addr {
            Err(KError::new(KErrorType::ENOMEM, "zone.rs", "get_size", 0))
        } else {
            Ok(self.end_addr - self.begin_addr)
        }
    }

    /// Allocate from this zone's allocator; ENOSYS if the zone has none.
    pub fn alloc_pages(&mut self, heap: &mut kmem, pg_cnt: usize) -> (r: Result<usize, KError>)
        requires
            old(self).wf_naive() ==> old(self).nalloc().alloc_req(*old(heap), pg_cnt),
            old(self).pg_allocator is Some && old(self).pg_allocator->0 is NaiveAllocator
                ==> old(self).wf_naive(),
        ensures
            *final(self) == (mem_zone { pg_allocator: final(self).pg_allocator, ..*old(self) }),
            old(self).wf_naive() ==> final(self).wf_naive() && naive_allocator::alloc_post(
                old(self).nalloc(),
                *old(heap),
                pg_cnt,
                final(self).nalloc(),
                *final(heap),
                r,
            ),
            !old(self).wf_naive() ==> r is Err && r->Err_0.er_type == KErrorType::ENOSYS
                && *final(self) == *old(self) && *final(heap) == *old(heap),
    {
        match self.pg_allocator {
            Some(ref mut alloc) => alloc.alloc_pages(heap, pg_cnt),
            None => Err(KError::new(KErrorType::ENOSYS, "zone.rs", "alloc_pages", 0)),
        }
    }

    /// Free into this zone's allocator; ENOSYS if the zone has none.
    pub fn free_pages(&mut self, addr: usize) -> (r: Result<(), KError>)
        requires
            old(self).pg_allocator is Some && old(self).pg_allocator->0 is NaiveAllocator
                ==> old(self).wf_naive(),
        ensures
            *final(self) == (mem_zone { pg_allocator: final(self).pg_allocator, ..*old(self) }),
            old(self).wf_naive() ==> final(self).wf_naive() && naive_allocator::free_post(
                old(self).nalloc(),
                final(self).nalloc(),
                addr,
                r,
            ),
            !old(self).wf_naive() ==> r is Err && r->Err_0.er_type == KErrorType::ENOSYS
                && *final(self) == *old(self),
    {
        match self.pg_allocator {
            Some(ref mut alloc) => alloc.free_pages(addr),
            None => Err(KError::new(KErrorType::ENOSYS, "zone.rs", "free_pages", 0)),
        }
    }
}

/// Allocate `pg_cnt` frames from the zone of kind `ztype`.
pub fn kmalloc_page(
    zones: &mut Vec<mem_zone>,
    heap: &mut kmem,
    ztype: zone_type,
    pg_cnt: usize,
) -> (r: Result<usize, KError>)
    requires
        old(zones).len() == 3,
        old(zones)[ztype.spec_val() as int].wf_naive() ==> old(
            zones,
        )[ztype.spec_val() as int].nalloc().alloc_req(*old(heap), pg_cnt),
        old(zones)[ztype.spec_val() as int].pg_allocator is Some && old(
            zones,
        )[ztype.spec_val() as int].pg_allocator->0 is NaiveAllocator ==> old(
            zones,
        )[ztype.spec_val() as int].wf_naive(),
    ensures
        final(zones).len() == 3,
        forall|z: int|
            0 <= z < 3 && z != ztype.spec_val() ==> final(zones)[z] == old(zones)[z],
        ({
            let pre = old(zones)[ztype.spec_val() as int];
            let post = final(zones)[ztype.spec_val() as int];
            &&& post == (mem_zone { pg_allocator: post.pg_allocator, ..pre })
            &&& pre.wf_naive() ==> post.wf_naive() && naive_allocator::alloc_post(
                pre.nalloc(),
                *old(heap),
                pg_cnt,
                post.nalloc(),
                *final(heap),
                r,
            )
            &&& !pre.wf_naive() ==> r is Err && r->Err_0.er_type == KErrorType::ENOSYS && post
                == pre && *final(heap) == *old(heap)
        }),
{
    let idx = ztype.val();
    let zone = &mut zones[idx];
    zone.alloc_pages(heap, pg_cnt)
}

/// Free one frame back into the zone of kind `ztype`.
pub fn kfree_page(zones: &mut Vec<mem_zone>, ztype: zone_type, addr: usize) -> (r: Result<
    (),
    KError,
>)
    requires
        old(zones).len() == 3,
        old(zones)[ztype.spec_val() as int].pg_allocator is Some && old(
            zones,
        )[ztype.spec_val() as int].pg_allocator->0 is NaiveAllocator ==> old(
            zones,
        )[ztype.spec_val() as int].wf_naive(),
    ensures
        final(zones).len() == 3,
        forall|z: int|
            0 <= z < 3 && z != ztype.spec_val() ==> final(zones)[z] == old(zones)[z],
        ({
            let pre = old(zones)[ztype.spec_val() as int];
            let post = final(zones)[ztype.spec_val() as int];
            &&& post == (mem_zone { pg_allocator: post.pg_allocator, ..pre })
            &&& pre.wf_naive() ==> post.wf_naive() && naive_allocator::free_post(
                pre.nalloc(),
                post.nalloc(),
                addr,
                r,
            )
            &&& !pre.wf_naive() ==> r is Err && r->Err_0.er_type == KErrorType::ENOSYS && post
                == pre
        }),
{
    let idx = ztype.val();
    let zone = &mut zones[idx];
    zone.free_pages(addr)
}

} // verus!
