//! Core of a small RISC-V (RV64, Sv39) multi-hart kernel, modelled over plain
//! values so that every decision the kernel makes is stated and proved.
//!
//! Hardware access (CSRs, MMIO, the context-restore assembly) is out of scope
//! here: the functions below compute what the kernel would do, and the thin
//! unverified shell around the crate performs the resulting actions.

use vstd::prelude::*;

pub mod allocator;
pub mod clint;
pub mod cpu;
pub mod ecall;
pub mod error;
pub mod irq;
pub mod ksemaphore;
pub mod kthread;
pub mod kmem;
pub mod lock;
pub mod page;
pub mod plic;
pub mod trap;
pub mod uart;
pub mod vm;
pub mod zone;

verus! {

/// Frames are 4 KiB throughout.
pub const PAGE_SIZE: usize = 4096;

/// Round `n` up to the next frame boundary.
pub fn align_up_4k(n: usize) -> (r: usize)
    requires
        n + 4096 <= usize::MAX,
    ensures
        r == spec_align_up_4k(n as int),
{
    proof {
        lemma_align_up_4k(n as int);
    }
    (n + 4096 - 1) & !(4096 - 1)
}

/// Round `n` down to a frame boundary.
pub fn align_down_4k(n: usize) -> (r: usize)
    ensures
        r == spec_align_down_4k(n as int),
{
    proof {
        lemma_align_down_4k(n as int);
    }
    n & !(4096 - 1)
}

pub open spec fn spec_align_up_4k(n: int) -> int {
    ((n + 4095) / 4096) * 4096
}

pub open spec fn spec_align_down_4k(n: int) -> int {
    (n / 4096) * 4096
}

proof fn lemma_align_up_4k(n: int)
    requires
        0 <= n,
        n + 4096 <= usize::MAX,
    ensures
        ((n + 4096 - 1) as usize & !4095usize) == spec_align_up_4k(n),
{
    let m = (n + 4095) as usize;
    assert((m & !4095usize) == (m / 4096) * 4096) by (bit_vector);
    assert((m / 4096) * 4096 == spec_align_up_4k(n));
}

proof fn lemma_align_down_4k(n: int)
    requires
        0 <= n <= usize::MAX,
    ensures
        (n as usize & !4095usize) == spec_align_down_4k(n),
{
    let m = n as usize;
    assert((m & !4095usize) == (m / 4096) * 4096) by (bit_vector);
}

/// The linker-script surface the boot assembly hands the kernel: the bounds
/// of each image section, the stack and heap regions, and the MMIO window.
#[derive(Clone, Copy, Debug, PartialEq, Eq, Structural)]
pub struct kernel_layout {
    pub heap_start: usize,
    pub heap_end: usize,
    pub text_start: usize,
    pub text_end: usize,
    pub rodata_start: usize,
    pub rodata_end: usize,
    pub data_start: usize,
    pub data_end: usize,
    pub bss_start: usize,
    pub bss_end: usize,
    pub stack_start: usize,
    pub stack_end: usize,
    pub virtio_start: usize,
    pub virtio_end: usize,
}

/// One section's bounds are usable for identity mapping.
pub open spec fn range_ok(begin: int, end: int) -> bool {
    &&& 0 <= begin <= end
    &&& end + 4096 <= usize::MAX
    &&& end <= 0x80_0000_0000
}

/// A layout the kernel can boot over: every range inside the Sv39 space,
/// and a heap region of at least a megabyte beyond the metadata so the heap
/// carve-out and the page tables fit.
pub open spec fn layout_ok(l: kernel_layout) -> bool {
    &&& range_ok(l.heap_start as int, l.heap_end as int)
    &&& range_ok(l.text_start as int, l.text_end as int)
    &&& range_ok(l.rodata_start as int, l.rodata_end as int)
    &&& range_ok(l.data_start as int, l.data_end as int)
    &&& range_ok(l.bss_start as int, l.bss_end as int)
    &&& range_ok(l.stack_end as int, l.stack_start as int)
    &&& range_ok(l.virtio_start as int, l.virtio_end as int)
    &&& l.heap_end - l.heap_start >= 0x10_0000
    &&& l.heap_end + 4096 <= 0x80_0000_0000
    &&& l.heap_end + 8192 <= usize::MAX
}

/// The kernel's whole software state, built by `kinit` and owned by the
/// shell: zones and heap bookkeeping, the kernel page table and the address
/// of the frame standing behind it, per-hart trap frames, ecall slots and
/// interrupt-enable mirrors, the IRQ rings, the UART semaphore, and the
/// task pool.
pub struct kernel {
    pub zones: Vec<zone::mem_zone>,
    pub heap: kmem::kmem,
    pub pageroot: vm::PageTable,
    pub pageroot_addr: usize,
    pub kernel_trap_frame: Vec<cpu::TrapFrame>,
    pub secall_frame: Vec<ecall::ecall_args>,
    pub csrs: Vec<cpu::hart_csrs>,
    pub irq_buffer: irq::soft_irq_buf,
    pub sem_uart: ksemaphore::kt_semaphore,
    pub kthread_pool: kthread::task_pool,
}

/// A booted kernel: its allocator serves the normal zone past the heap
/// bootstrap, its page table is well formed, every per-hart table has one
/// slot per hart and each trap frame records its own hart, and the pool and
/// IRQ rings are ready for dispatch.
pub open spec fn kernel_ready(k: kernel) -> bool {
    &&& vm::zone_normal_ready(k.zones@)
    &&& k.heap.heap_inited
    &&& vm::table_wf(k.pageroot, 2)
    &&& k.kernel_trap_frame.len() == cpu::MAX_HARTS
    &&& k.secall_frame.len() == cpu::MAX_HARTS
    &&& k.csrs.len() == cpu::MAX_HARTS
    &&& forall|h: int|
        0 <= h < cpu::MAX_HARTS ==> (#[trigger] k.kernel_trap_frame[h]).cpuid == h
    &&& k.irq_buffer.wf()
    &&& k.kthread_pool.wf()
    &&& forall|h: int|
        0 <= h < cpu::MAX_HARTS ==> (#[trigger] k.kthread_pool.pool[h]) is Some
            && k.kthread_pool.next_task[h] == Some(0usize) && k.kthread_pool.current_task[h]
            == Some(0usize)
}

/// Boot-strap the kernel over the given memory layout: bring the normal
/// zone's allocator up, carve out the heap, build the kernel page table,
/// identity-map the image sections, the heap, the metadata, the MMIO
/// windows and one two-frame trap stack per hart, compose the kernel satp,
/// and initialize the task pool with a fallback task per hart running
/// `fallback_func`. The shell then writes satp and the CSRs and releases
/// the other harts.
#[verifier::rlimit(100)]
#[verifier::spinoff_prover]
pub fn kinit(layout: &kernel_layout, fallback_func: usize) -> (r: Result<kernel, error::KError>)
    requires
        layout_ok(*layout),
    ensures
        r is Err ==> r->Err_0.er_type == error::KErrorType::ENOMEM || r->Err_0.er_type
            == error::KErrorType::EINVAL,
        r is Ok ==> kernel_ready(r->Ok_0),
        r is Ok ==> r->Ok_0.heap.kern_satp == cpu::spec_make_satp(
            cpu::SATP_mode::Sv39,
            0,
            r->Ok_0.pageroot_addr,
        ),
{
    let mut zones: Vec<zone::mem_zone> = Vec::new();
    zones.push(zone::mem_zone::new());
    zones.push(zone::mem_zone::new());
    zones.push(zone::mem_zone::new());

    let normal_init = zones[1].init(
        layout.heap_start,
        layout.heap_end,
        zone::zone_type::ZONE_NORMAL,
        zone::AllocatorSelector::NaiveAllocator,
    );
    let (meta_begin, mem_begin) = match normal_init {
        Ok(v) => v,
        Err(e) => {
            return Err(e);
        },
    };
    let undef_init = zones[0].init(
        0,
        0,
        zone::zone_type::ZONE_UNDEF,
        zone::AllocatorSelector::EmptyAllocator,
    );
    match undef_init {
        Ok(_) => {},
        Err(e) => {
            return Err(e);
        },
    }
    proof {
        lemma_zone_pool_bounds(zones@[1].nalloc(), *layout);
    }

    let mut heap = kmem::kmem::new();
    let pageroot_addr = match heap.init(&mut zones) {
        Ok(p) => p,
        Err(e) => {
            return Err(e);
        },
    };
    let mut pageroot = vm::PageTable::new();

    proof {
        assert((6u64 & 0xe) == 6 && (10u64 & 0xe) == 10 && (6u64 & !0x3ffu64) == 0 && (10u64
            & !0x3ffu64) == 0) by (bit_vector);
    }
    let rw = vm::EntryBits::ReadWrite.val();
    let rx = vm::EntryBits::ReadExecute.val();

    ident_map_checked(&mut pageroot, &mut zones, &mut heap, layout.text_start, layout.text_end, rx)?;
    let kheap_begin = heap.get_kheap_start();
    let kheap_pgcnt = heap.get_kheap_pgcnt();
    if kheap_pgcnt > 512 || (kheap_begin as u64) > 0x80_0000_0000u64 {
        return Err(error::KError::new(error::KErrorType::EINVAL, "lib.rs", "kinit", 0));
    }
    let kheap_end_u64 = (kheap_begin as u64) + (kheap_pgcnt as u64) * 4096;
    if kheap_end_u64 > 0x80_0000_0000u64 - 4096 || kheap_end_u64 > (usize::MAX as u64) {
        return Err(error::KError::new(error::KErrorType::EINVAL, "lib.rs", "kinit", 0));
    }
    ident_map_checked(
        &mut pageroot,
        &mut zones,
        &mut heap,
        kheap_begin,
        (kheap_end_u64 as usize),
        rw,
    )?;
    ident_map_checked(
        &mut pageroot,
        &mut zones,
        &mut heap,
        layout.rodata_start,
        layout.rodata_end,
        rx,
    )?;
    ident_map_checked(&mut pageroot, &mut zones, &mut heap, layout.data_start, layout.data_end, rw)?;
    ident_map_checked(&mut pageroot, &mut zones, &mut heap, layout.bss_start, layout.bss_end, rw)?;
    ident_map_checked(&mut pageroot, &mut zones, &mut heap, layout.stack_end, layout.stack_start, rw)?;
    ident_map_checked(&mut pageroot, &mut zones, &mut heap, meta_begin, mem_begin, rw)?;
    ident_map_checked(
        &mut pageroot,
        &mut zones,
        &mut heap,
        layout.virtio_start,
        layout.virtio_end,
        rw,
    )?;
    // CLINT window, then the PLIC priority/enable and threshold/claim blocks.
    ident_map_checked(&mut pageroot, &mut zones, &mut heap, 0x0200_0000, 0x0200_ffff, rw)?;
    ident_map_checked(&mut pageroot, &mut zones, &mut heap, 0x0c00_0000, 0x0c00_a000, rw)?;
    ident_map_checked(&mut pageroot, &mut zones, &mut heap, 0x0c20_0000, 0x0c20_8000, rw)?;

    let mut kernel_trap_frame: Vec<cpu::TrapFrame> = Vec::new();
    let mut secall_frame: Vec<ecall::ecall_args> = Vec::new();
    let mut csrs: Vec<cpu::hart_csrs> = Vec::new();
    let mut cpu_cnt: usize = 0;
    while cpu_cnt < cpu::MAX_HARTS
        invariant
            cpu_cnt <= cpu::MAX_HARTS,
            kernel_trap_frame.len() == cpu_cnt,
            secall_frame.len() == cpu_cnt,
            csrs.len() == cpu_cnt,
            forall|h: int|
                0 <= h < cpu_cnt ==> (#[trigger] kernel_trap_frame[h]).cpuid == h,
            rw == 6 && rw & 0xe != 0 && rw <= 0x3ff,
            heap.heap_inited,
            vm::table_wf(pageroot, 2),
            vm::zone_normal_ready(zones@),
            zones@[1].nalloc().mem_begin + zones@[1].nalloc().tot_page * 4096 <= 0x80_0000_0000
                - 4096,
            zones@[1].nalloc().mem_begin + zones@[1].nalloc().tot_page * 4096 + 8192
                <= usize::MAX,
        decreases cpu::MAX_HARTS - cpu_cnt,
    {
        let mut frame = cpu::TrapFrame::new();
        frame.cpuid = cpu_cnt;
        let ghost z0 = zones@[1].nalloc();
        let trap_stack_lo = match zone::kmalloc_page(
            &mut zones,
            &mut heap,
            zone::zone_type::ZONE_NORMAL,
            2,
        ) {
            Ok(p) => p,
            Err(e) => {
                return Err(e);
            },
        };
        proof {
            lemma_two_frame_bound(z0, trap_stack_lo);
        }
        let trap_stack_top = trap_stack_lo + 2 * page::PAGE_SIZE;
        ident_map_checked(&mut pageroot, &mut zones, &mut heap, trap_stack_lo, trap_stack_top, rw)?;
        frame.trap_stack = trap_stack_top - 1;
        kernel_trap_frame.push(frame);
        secall_frame.push(ecall::ecall_args::new());
        csrs.push(cpu::hart_csrs::new());
        cpu_cnt = cpu_cnt + 1;
    }

    let satp_val = cpu::make_satp(cpu::SATP_mode::Sv39, 0, pageroot_addr);
    heap.set_ksatp(satp_val);

    let mut kthread_pool = kthread::task_pool::new();
    let ksatp = heap.get_ksatp();
    if !(ksatp <= usize::MAX as u64) {
        return Err(error::KError::new(error::KErrorType::EINVAL, "lib.rs", "kinit", 0));
    }
    let pool_init = kthread_pool.init(
        cpu::MAX_HARTS,
        fallback_func,
        ksatp,
        &mut pageroot,
        &mut zones,
        &mut heap,
    );
    match pool_init {
        Ok(_) => {},
        Err(e) => {
            return Err(e);
        },
    }

    let mut irq_buffer = irq::soft_irq_buf::new();
    irq_buffer.init();

    let sem_uart = ksemaphore::kt_semaphore::new(0);

    proof {
        assert(heap.heap_inited);
        assert(heap.kern_satp == cpu::spec_make_satp(cpu::SATP_mode::Sv39, 0, pageroot_addr));
        assert(forall|h: int|
            0 <= h < cpu::MAX_HARTS ==> (#[trigger] kthread_pool.current_task[h]) == Some(
                0usize,
            ) && kthread_pool.next_task[h] == Some(0usize) && kthread_pool.pool[h] is Some);
    }
    Ok(
        kernel {
            zones,
            heap,
            pageroot,
            pageroot_addr,
            kernel_trap_frame,
            secall_frame,
            csrs,
            irq_buffer,
            sem_uart,
            kthread_pool,
        },
    )
}

/// Identity-map a range after checking the bounds that Sv39 demands,
/// refusing with EINVAL anything the address space cannot hold.
fn ident_map_checked(
    root: &mut vm::PageTable,
    zones: &mut Vec<zone::mem_zone>,
    heap: &mut kmem::kmem,
    begin: usize,
    end: usize,
    bits: u64,
) -> (r: Result<(), error::KError>)
    requires
        vm::table_wf(*old(root), 2),
        vm::zone_normal_ready(old(zones)@),
        bits & 0xe != 0,
        bits <= 0x3ff,
    ensures
        vm::table_wf(*final(root), 2),
        vm::zone_normal_ready(final(zones)@),
        final(zones)@[1].nalloc().same_geometry(old(zones)@[1].nalloc()),
        *final(heap) == *old(heap),
        r is Err ==> r->Err_0.er_type == error::KErrorType::ENOMEM || r->Err_0.er_type
            == error::KErrorType::EINVAL,
{
    let begin_u64 = begin as u64;
    let end_u64 = end as u64;
    if begin_u64 > end_u64 || end_u64 > 0x80_0000_0000u64 || (end as u64) + 4096 > usize::MAX
        as u64 {
        return Err(error::KError::new(error::KErrorType::EINVAL, "lib.rs", "ident_map_checked", 0));
    }
    vm::ident_range_map(root, zones, heap, begin, end, bits)
}

/// The pool the normal zone's allocator serves stays inside the Sv39 space
/// when the zone itself does.
proof fn lemma_zone_pool_bounds(z: page::naive_allocator, l: kernel_layout)
    requires
        layout_ok(l),
        z.wf(),
        z.mem_end <= l.heap_end,
        z.mem_begin + z.tot_page * 4096 <= z.mem_end || z.tot_page == (z.mem_end as int
            - z.mem_begin as int) / 4096,
        z.mem_begin <= z.mem_end,
    ensures
        z.mem_begin + z.tot_page * 4096 <= 0x80_0000_0000 - 4096,
        z.mem_begin + z.tot_page * 4096 + 8192 <= usize::MAX,
{
    assert(z.tot_page * 4096 <= z.mem_end - z.mem_begin) by (nonlinear_arith)
        requires
            z.tot_page == (z.mem_end as int - z.mem_begin as int) / 4096 || z.mem_begin
                + z.tot_page * 4096 <= z.mem_end,
            z.mem_begin <= z.mem_end,
    ;
}

/// A two-frame allocation stays inside the pool.
proof fn lemma_two_frame_bound(z: page::naive_allocator, addr: usize)
    requires
        z.wf(),
        page::spec_first_fit(z.marks@, 2) is Some,
        addr == z.mem_begin + page::spec_first_fit(z.marks@, 2)->0 * 4096,
    ensures
        addr + 8192 <= z.mem_begin + z.tot_page * 4096,
{
    page::lemma_first_fit_sound(z.marks@, 0, 2);
    let i = page::spec_first_fit(z.marks@, 2)->0;
    assert(i + 2 <= z.tot_page);
    assert((i + 2) * 4096 <= z.tot_page * 4096) by (nonlinear_arith)
        requires
            i + 2 <= z.tot_page,
    ;
    assert(i * 4096 + 8192 == (i + 2) * 4096) by (nonlinear_arith);
}

} // verus!
