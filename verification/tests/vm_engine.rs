//! The Sv39 engine: map, translate, unmap, identity ranges, and the
//! address-space records.

use rvcore::error::KErrorType;
use rvcore::kmem::kmem;
use rvcore::page::PAGE_SIZE;
use rvcore::vm::{
    ident_range_map, mem_map, mem_unmap, mm, range_unmap, virt2phys, vm_area, EntryBits,
    PageEntry, PageTable,
};
use rvcore::zone::{kmalloc_page, mem_zone, zone_type, AllocatorSelector};

fn booted() -> (Vec<mem_zone>, kmem, PageTable) {
    let mut zones = vec![mem_zone::new(), mem_zone::new(), mem_zone::new()];
    zones[1]
        .init(
            0x8000_0000,
            0x8040_0000,
            zone_type::ZONE_NORMAL,
            AllocatorSelector::NaiveAllocator,
        )
        .expect("zone init");
    let mut heap = kmem::new();
    kmalloc_page(&mut zones, &mut heap, zone_type::ZONE_NORMAL, 256).expect("bootstrap");
    (zones, heap, PageTable::new())
}

#[test]
fn map_then_unmap_round_trip() {
    // vaddr 0x4000_0000 to paddr 0x8010_3000 with R|W: map, read the
    // translation back, unmap, read back nothing.
    let (mut zones, mut heap, mut root) = booted();
    let bits = EntryBits::ReadWrite.val();
    mem_map(&mut root, &mut zones, &mut heap, 0x4000_0000, 0x8010_3000, bits, 0).expect("map");
    assert_eq!(virt2phys(&root, 0x4000_0000).unwrap(), Some(0x8010_3000));
    mem_unmap(&mut root, 0x4000_0000, 0).expect("unmap");
    assert_eq!(virt2phys(&root, 0x4000_0000).unwrap(), None);
}

#[test]
fn translation_folds_the_page_offset() {
    let (mut zones, mut heap, mut root) = booted();
    let bits = EntryBits::ReadWrite.val();
    mem_map(&mut root, &mut zones, &mut heap, 0x4000_0000, 0x8010_3000, bits, 0).expect("map");
    assert_eq!(
        virt2phys(&root, 0x4000_0123).unwrap(),
        Some((0x8010_3000usize & !0xfff) | 0x123)
    );
    // An unaligned physical address maps its whole frame.
    mem_map(&mut root, &mut zones, &mut heap, 0x4020_0000, 0x8011_0abc, bits, 0).expect("map");
    assert_eq!(
        virt2phys(&root, 0x4020_0004).unwrap(),
        Some((0x8011_0abcusize & !0xfff) | 0x4)
    );
}

#[test]
fn map_without_rwx_bits_is_efault() {
    let (mut zones, mut heap, mut root) = booted();
    let r = mem_map(&mut root, &mut zones, &mut heap, 0x4000_0000, 0x8010_3000, 0, 0);
    assert_eq!(r.unwrap_err().kind(), KErrorType::EFAULT);
    let r2 = mem_map(
        &mut root,
        &mut zones,
        &mut heap,
        0x4000_0000,
        0x8010_3000,
        EntryBits::Valid.val(),
        0,
    );
    assert_eq!(r2.unwrap_err().kind(), KErrorType::EFAULT);
}

#[test]
fn identity_range_maps_every_frame_to_itself() {
    let (mut zones, mut heap, mut root) = booted();
    let bits = EntryBits::ReadWrite.val();
    ident_range_map(&mut root, &mut zones, &mut heap, 0x1000_0000, 0x1000_4000, bits)
        .expect("ident map");
    let mut addr: usize = 0x1000_0000;
    while addr < 0x1000_4000 {
        assert_eq!(virt2phys(&root, addr).unwrap(), Some(addr));
        addr += PAGE_SIZE;
    }
    // A frame outside the range stays unmapped.
    assert_eq!(virt2phys(&root, 0x1000_5000).unwrap(), None);
}

#[test]
fn range_unmap_clears_only_the_range() {
    let (mut zones, mut heap, mut root) = booted();
    let bits = EntryBits::ReadWrite.val();
    ident_range_map(&mut root, &mut zones, &mut heap, 0x1000_0000, 0x1000_6000, bits)
        .expect("ident map");
    range_unmap(&mut root, 0x1000_2000, 0x1000_4000).expect("range unmap");
    assert_eq!(virt2phys(&root, 0x1000_1000).unwrap(), Some(0x1000_1000));
    assert_eq!(virt2phys(&root, 0x1000_2000).unwrap(), None);
    assert_eq!(virt2phys(&root, 0x1000_3000).unwrap(), None);
    assert_eq!(virt2phys(&root, 0x1000_4000).unwrap(), Some(0x1000_4000));
}

#[test]
fn page_entry_bit_tests() {
    let mut e = PageEntry { entry: 0 };
    assert!(e.is_invalid());
    assert!(!e.is_valid());
    e.set_entry(EntryBits::ReadWrite.val() | EntryBits::Valid.val());
    assert!(e.is_valid());
    assert!(e.is_leaf());
    e.set_entry(EntryBits::Valid.val());
    assert!(e.is_valid());
    assert!(e.is_branch());
    assert_eq!(e.get_entry(), 1);
    assert_eq!(PageTable::len(), 512);
}

#[test]
fn entry_bits_encodings() {
    assert_eq!(EntryBits::Empty.val(), 0);
    assert_eq!(EntryBits::Valid.val(), 1);
    assert_eq!(EntryBits::Read.val(), 2);
    assert_eq!(EntryBits::Write.val(), 4);
    assert_eq!(EntryBits::Execute.val(), 8);
    assert_eq!(EntryBits::ReadWrite.val(), 6);
    assert_eq!(EntryBits::ReadExecute.val(), 10);
    assert_eq!(EntryBits::ReadWriteExecute.val(), 14);
    assert_eq!(EntryBits::UserReadWrite.val(), 22);
}

#[test]
fn address_space_records_round_trip() {
    let mut space = mm::new();
    let mut area = vm_area::new();
    area.init(0x4000_0123, 0x4000_5abc, 7);
    assert_eq!(area.get_vm_begin(), 0x4000_0000);
    assert_eq!(area.get_vm_end(), 0x4000_6000);
    assert_eq!(area.get_flags(), 7);

    assert!(!space.has_vma(area));
    space.insert_vma(area).expect("insert");
    assert!(space.has_vma(area));
    assert_eq!(space.get_vma(0x4000_0000).copied(), Some(area));
    // A second region starting at the same address is refused.
    assert_eq!(space.insert_vma(area).unwrap_err().kind(), KErrorType::EFAULT);
    space.delete_vma(area).expect("delete");
    assert!(!space.has_vma(area));
    assert_eq!(space.delete_vma(area).unwrap_err().kind(), KErrorType::EFAULT);
}
