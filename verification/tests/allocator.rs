//! The page allocator over a zone: heap bootstrap, first-fit behaviour,
//! frame accounting, and the error cases.

use rvcore::error::KErrorType;
use rvcore::kmem::kmem;
use rvcore::page::{empty_allocator, pgalloc_flags, PAGE_SIZE};
use rvcore::zone::{kfree_page, kmalloc_page, mem_zone, zone_type, AllocatorSelector};

fn normal_zone(begin: usize, end: usize) -> Vec<mem_zone> {
    let mut zones = vec![mem_zone::new(), mem_zone::new(), mem_zone::new()];
    zones[1]
        .init(begin, end, zone_type::ZONE_NORMAL, AllocatorSelector::NaiveAllocator)
        .expect("zone init");
    zones
}

fn free_count(zones: &Vec<mem_zone>) -> usize {
    let alloc = match zones[1].pg_allocator.as_ref().expect("allocator") {
        rvcore::zone::Allocators::NaiveAllocator(a) => a,
        _ => panic!("wrong allocator"),
    };
    let mut n = 0;
    for m in alloc.marks.iter() {
        if *m == pgalloc_flags::PF_FREE {
            n += 1;
        }
    }
    n
}

fn tree_len(zones: &Vec<mem_zone>) -> usize {
    let alloc = match zones[1].pg_allocator.as_ref().expect("allocator") {
        rvcore::zone::Allocators::NaiveAllocator(a) => a,
        _ => panic!("wrong allocator"),
    };
    alloc.pagetree.as_ref().map(|t| t.len()).unwrap_or(0)
}

#[test]
fn heap_bootstrap_over_4mib_region() {
    // Init ZONE_NORMAL over a 4 MiB region, then allocate 256 pages: the
    // heap initializer runs exactly once and the descriptor tree holds
    // exactly 256 entries.
    let mut zones = normal_zone(0x8000_0000, 0x8040_0000);
    let mut heap = kmem::new();
    assert!(!heap.heap_inited);
    let addr = kmalloc_page(&mut zones, &mut heap, zone_type::ZONE_NORMAL, 256).expect("alloc");
    assert!(heap.heap_inited);
    assert_eq!(heap.kheap_start, addr);
    assert_eq!(tree_len(&zones), 256);

    // A later allocation leaves the heap base alone and only adds its own
    // descriptors.
    let addr2 = kmalloc_page(&mut zones, &mut heap, zone_type::ZONE_NORMAL, 4).expect("alloc2");
    assert!(addr2 != addr);
    assert_eq!(heap.kheap_start, addr);
    assert_eq!(tree_len(&zones), 260);
}

#[test]
fn alloc_then_free_each_frame_restores_free_count() {
    let mut zones = normal_zone(0x8000_0000, 0x8040_0000);
    let mut heap = kmem::new();
    kmalloc_page(&mut zones, &mut heap, zone_type::ZONE_NORMAL, 256).expect("bootstrap");
    let before = free_count(&zones);
    let base = kmalloc_page(&mut zones, &mut heap, zone_type::ZONE_NORMAL, 4).expect("alloc");
    assert_eq!(free_count(&zones), before - 4);
    for i in 0..4 {
        kfree_page(&mut zones, zone_type::ZONE_NORMAL, base + i * PAGE_SIZE).expect("free");
    }
    assert_eq!(free_count(&zones), before);
}

#[test]
fn alloc_returns_frame_aligned_addresses() {
    let mut zones = normal_zone(0x8000_0123, 0x8040_0000);
    let mut heap = kmem::new();
    let a = kmalloc_page(&mut zones, &mut heap, zone_type::ZONE_NORMAL, 256).expect("alloc");
    assert_eq!(a % PAGE_SIZE, 0);
    let b = kmalloc_page(&mut zones, &mut heap, zone_type::ZONE_NORMAL, 3).expect("alloc");
    assert_eq!(b % PAGE_SIZE, 0);
}

#[test]
fn allocator_info_renders_its_geometry() {
    let zones = normal_zone(0x8000_0000, 0x8040_0000);
    let alloc = match zones[1].pg_allocator.as_ref().expect("allocator") {
        rvcore::zone::Allocators::NaiveAllocator(a) => a,
        _ => panic!("wrong allocator"),
    };
    let info = alloc.print_info();
    assert!(info.contains("pages"));
    assert!(info.contains(&format!("{:#x}", alloc.mem_begin)));
}

#[test]
fn zone_smaller_than_three_frames_is_refused() {
    let mut zone = mem_zone::new();
    let r = zone.init(
        0x8000_0000,
        0x8000_2000,
        zone_type::ZONE_NORMAL,
        AllocatorSelector::NaiveAllocator,
    );
    assert_eq!(r.unwrap_err().kind(), KErrorType::ENOMEM);
    assert!(zone.pg_allocator.is_none());
}

#[test]
fn exhausted_zone_reports_enomem() {
    let mut zones = normal_zone(0x8000_0000, 0x8040_0000);
    let mut heap = kmem::new();
    kmalloc_page(&mut zones, &mut heap, zone_type::ZONE_NORMAL, 256).expect("bootstrap");
    let r = kmalloc_page(&mut zones, &mut heap, zone_type::ZONE_NORMAL, 100_000);
    assert_eq!(r.unwrap_err().kind(), KErrorType::ENOMEM);
}

#[test]
fn freeing_an_unknown_frame_reports_efault() {
    let mut zones = normal_zone(0x8000_0000, 0x8040_0000);
    let mut heap = kmem::new();
    kmalloc_page(&mut zones, &mut heap, zone_type::ZONE_NORMAL, 256).expect("bootstrap");
    let r = kfree_page(&mut zones, zone_type::ZONE_NORMAL, 0x8030_0000);
    assert_eq!(r.unwrap_err().kind(), KErrorType::EFAULT);
}

#[test]
fn empty_allocator_reports_enosys() {
    let mut zones = vec![mem_zone::new(), mem_zone::new(), mem_zone::new()];
    zones[0]
        .init(0, 0, zone_type::ZONE_UNDEF, AllocatorSelector::EmptyAllocator)
        .expect("undef zone");
    let mut heap = kmem::new();
    heap.kheap_pgcnt = 1;
    let r = kmalloc_page(&mut zones, &mut heap, zone_type::ZONE_UNDEF, 1);
    assert_eq!(r.unwrap_err().kind(), KErrorType::ENOSYS);
    let mut ea = empty_allocator::new();
    assert_eq!(ea.free_pages(0x1000).unwrap_err().kind(), KErrorType::ENOSYS);
}

#[test]
fn zone_without_allocator_reports_enosys() {
    let mut zones = vec![mem_zone::new(), mem_zone::new(), mem_zone::new()];
    let mut heap = kmem::new();
    heap.kheap_pgcnt = 1;
    let r = kmalloc_page(&mut zones, &mut heap, zone_type::ZONE_VIRTIO, 1);
    assert_eq!(r.unwrap_err().kind(), KErrorType::ENOSYS);
}

#[test]
fn shared_frames_drop_a_reference_before_freeing() {
    let mut zones = normal_zone(0x8000_0000, 0x8040_0000);
    let mut heap = kmem::new();
    kmalloc_page(&mut zones, &mut heap, zone_type::ZONE_NORMAL, 256).expect("bootstrap");
    let base = kmalloc_page(&mut zones, &mut heap, zone_type::ZONE_NORMAL, 1).expect("alloc");
    // Bump the refcount by hand through the descriptor tree.
    match zones[1].pg_allocator.as_mut().unwrap() {
        rvcore::zone::Allocators::NaiveAllocator(a) => {
            let t = a.pagetree.as_mut().unwrap();
            let pfn = base / PAGE_SIZE;
            let mut rec = *t.get(&pfn).unwrap();
            rec.refcnt = 2;
            t.insert(pfn, rec);
        }
        _ => panic!("wrong allocator"),
    }
    let before = free_count(&zones);
    kfree_page(&mut zones, zone_type::ZONE_NORMAL, base).expect("first free");
    assert_eq!(free_count(&zones), before);
    kfree_page(&mut zones, zone_type::ZONE_NORMAL, base).expect("second free");
    assert_eq!(free_count(&zones), before + 1);
}
