//! Sv39 virtual-memory engine: three-level page tables, map, unmap,
//! translation, and identity mapping of address ranges. A table is 512
//! eight-byte entries; a child table sits behind each valid non-leaf entry.
//! Leaves are always installed at the bottom level (4 KiB pages).

use crate::error::{KError, KErrorType};
use crate::kmem::kmem;
use crate::page::{count_free, PAGE_SIZE};
use crate::{spec_align_down_4k, spec_align_up_4k};
use crate::zone::{kmalloc_page, mem_zone, zone_type};
use std::collections::BTreeMap;
use vstd::prelude::*;

verus! {

broadcast use vstd::laws_cmp::group_laws_cmp, vstd::std_specs::btree::group_btree_axioms;

/// The access bits of a page-table entry.
#[derive(Clone, Copy, Debug, PartialEq, Eq, Structural)]
pub enum EntryBits {
    Empty,
    Valid,
    Read,
    Write,
    Execute,
    User,
    Global,
    Access,
    Dirty,
    ReadWrite,
    ReadExecute,
    ReadWriteExecute,
    UserReadWrite,
    UserReadExecute,
    UserReadWriteExecute,
}

impl EntryBits {
    pub open spec fn spec_val(self) -> u64 {
        match self {
            EntryBits::Empty => 0,
            EntryBits::Valid => 1,
            EntryBits::Read => 2,
            EntryBits::Write => 4,
            EntryBits::Execute => 8,
            EntryBits::User => 16,
            EntryBits::Global => 32,
            EntryBits::Access => 64,
            EntryBits::Dirty => 128,
            EntryBits::ReadWrite => 6,
            EntryBits::ReadExecute => 10,
            EntryBits::ReadWriteExecute => 14,
            EntryBits::UserReadWrite => 22,
            EntryBits::UserReadExecute => 26,
            EntryBits::UserReadWriteExecute => 30,
        }
    }

    pub fn val(self) -> (r: u64)
        ensures
            r == self.spec_val(),
    {
        match self {
            EntryBits::Empty => 0,
            EntryBits::Valid => 1,
            EntryBits::Read => 2,
            EntryBits::Write => 4,
            EntryBits::Execute => 8,
            EntryBits::User => 16,
            EntryBits::Global => 32,
            EntryBits::Access => 64,
            EntryBits::Dirty => 128,
            EntryBits::ReadWrite => 6,
            EntryBits::ReadExecute => 10,
            EntryBits::ReadWriteExecute => 14,
            EntryBits::UserReadWrite => 22,
            EntryBits::UserReadExecute => 26,
            EntryBits::UserReadWriteExecute => 30,
        }
    }
}

pub open spec fn spec_is_valid(e: u64) -> bool {
    e & 1 != 0
}

pub open spec fn spec_is_leaf(e: u64) -> bool {
    e & 0xe != 0
}

/// One page-table entry: PPN shifted left by 10, access bits, valid bit.
#[derive(Clone, Copy, Debug, PartialEq, Eq, Structural)]
pub struct PageEntry {
    pub entry: u64,
}

impl PageEntry {
    pub fn get_entry(&self) -> (r: u64)
        ensures
            r == self.entry,
    {
        self.entry
    }

    pub fn set_entry(&mut self, new_ent: u64)
        ensures
            final(self).entry == new_ent,
    {
        self.entry = new_ent;
    }

    /// V bit set.
    pub fn is_valid(&self) -> (r: bool)
        ensures
            r == spec_is_valid(self.entry),
    {
        self.entry & 1 != 0
    }

    pub fn is_invalid(&self) -> (r: bool)
        ensures
            r == !spec_is_valid(self.entry),
    {
        !self.is_valid()
    }

    /// Any of R/W/X set.
    pub fn is_leaf(&self) -> (r: bool)
        ensures
            r == spec_is_leaf(self.entry),
    {
        self.entry & 0xe != 0
    }

    pub fn is_branch(&self) -> (r: bool)
        ensures
            r == !spec_is_leaf(self.entry),
    {
        !self.is_leaf()
    }
}

/// One level of the Sv39 tree: 512 entries, and the child table behind each
/// valid branch entry.
pub struct PageTable {
    pub entries: Vec<PageEntry>,
    pub children: Vec<Option<Box<PageTable>>>,
}

/// The 9-bit slice of `va` that indexes tables at `level` (0 at bit 12, 1 at
/// bit 21, 2 at bit 30).
pub open spec fn spec_vpn(va: u64, level: int) -> u64 {
    if level == 0 {
        (va >> 12) & 0x1ff
    } else if level == 1 {
        (va >> 21) & 0x1ff
    } else {
        (va >> 30) & 0x1ff
    }
}

/// `va1` and `va2` walk the same entries from `level` down to the leaves.
pub open spec fn same_vpns_upto(va1: u64, va2: u64, level: int) -> bool
    decreases level + 1,
{
    if level < 0 {
        true
    } else {
        spec_vpn(va1, level) == spec_vpn(va2, level) && same_vpns_upto(va1, va2, level - 1)
    }
}

pub open spec fn spec_off_mask(level: int) -> u64 {
    if level == 0 {
        0xfff
    } else if level == 1 {
        0x1f_ffff
    } else {
        0x3fff_ffff
    }
}

/// Structural well-formedness of a subtree rooted at `level`: full tables,
/// valid bottom entries are leaves that decode inside the address space, and
/// every valid upper entry is a branch with a child subtree.
pub open spec fn table_wf(t: PageTable, level: int) -> bool
    decreases level,
{
    &&& t.entries.len() == 512
    &&& t.children.len() == 512
    &&& forall|i: int|
        0 <= i < 512 ==> {
            let e = (#[trigger] t.entries[i]).entry;
            if level <= 0 {
                &&& t.children[i] is None
                &&& (spec_is_valid(e) ==> spec_is_leaf(e) && ((e << 2) & !0xfffu64) + 4095
                    <= usize::MAX)
            } else {
                &&& (spec_is_valid(e) ==> !spec_is_leaf(e) && t.children[i] is Some && table_wf(
                    *t.children[i]->0,
                    level - 1,
                ))
                &&& (!spec_is_valid(e) ==> t.children[i] is None)
            }
        }
}

/// What the hardware walker would return for `va` in the subtree `t` at
/// `level`: follow valid entries down, fold the leaf with the page offset,
/// stop with nothing on an invalid entry.
pub open spec fn translate_level(t: PageTable, va: u64, level: int) -> Option<u64>
    decreases level,
{
    let idx = spec_vpn(va, level) as int;
    let e = t.entries[idx].entry;
    if !spec_is_valid(e) {
        None
    } else if spec_is_leaf(e) {
        Some(((e << 2) & !spec_off_mask(level)) | (va & spec_off_mask(level)))
    } else if level <= 0 {
        None
    } else {
        match t.children[idx] {
            Some(b) => translate_level(*b, va, level - 1),
            None => None,
        }
    }
}

/// The translation the full tree gives `va`.
pub open spec fn spec_translate(root: PageTable, va: u64) -> Option<u64> {
    translate_level(root, va, 2)
}

impl PageTable {
    /// A fresh table: every entry invalid, no children.
    pub fn new() -> (r: PageTable)
        ensures
            table_wf(r, 0),
            table_wf(r, 1),
            table_wf(r, 2),
            forall|i: int| 0 <= i < 512 ==> (#[trigger] r.entries[i]).entry == 0,
            forall|i: int| 0 <= i < 512 ==> (#[trigger] r.children[i]) is None,
    {
        let mut entries: Vec<PageEntry> = Vec::new();
        let mut children: Vec<Option<Box<PageTable>>> = Vec::new();
        let mut i: usize = 0;
        while i < 512
            invariant
                i <= 512,
                entries.len() == i,
                children.len() == i,
                forall|j: int| 0 <= j < i ==> (#[trigger] entries[j]).entry == 0,
                forall|j: int| 0 <= j < i ==> (#[trigger] children[j]) is None,
            decreases 512 - i,
        {
            entries.push(PageEntry { entry: 0 });
            children.push(None);
            i = i + 1;
        }
        proof {
            assert((0u64 & 1) == 0 && (0u64 & 0xe) == 0) by (bit_vector);
        }
        PageTable { entries, children }
    }

    /// Entries per table.
    pub fn len() -> (r: usize)
        ensures
            r == 512,
    {
        512
    }
}

/// A table with no valid entry translates nothing.
proof fn lemma_translate_zeroed(t: PageTable, va: u64, level: int)
    requires
        t.entries.len() == 512,
        forall|i: int| 0 <= i < 512 ==> (#[trigger] t.entries[i]).entry == 0,
    ensures
        translate_level(t, va, level) is None,
{
    assert(((va >> 12) & 0x1ffu64) < 512 && ((va >> 21) & 0x1ffu64) < 512 && ((va >> 30)
        & 0x1ffu64) < 512) by (bit_vector);
    assert((0u64 & 1) == 0) by (bit_vector);
    assert(t.entries[spec_vpn(va, level) as int].entry == 0);
}

/// Recursive read-only walk; the executable half of `translate_level`.
fn walk_level(t: &PageTable, va: u64, level: usize) -> (r: Option<u64>)
    requires
        level <= 2,
        table_wf(*t, level as int),
    ensures
        r == translate_level(*t, va, level as int),
    decreases level,
{
    let idx: usize = if level == 0 {
        ((va >> 12) & 0x1ff) as usize
    } else if level == 1 {
        ((va >> 21) & 0x1ff) as usize
    } else {
        ((va >> 30) & 0x1ff) as usize
    };
    proof {
        assert(((va >> 12) & 0x1ffu64) < 512 && ((va >> 21) & 0x1ffu64) < 512 && ((va >> 30)
        & 0x1ffu64) < 512) by (bit_vector);
    }
    let e = t.entries[idx].entry;
    if e & 1 == 0 {
        None
    } else if e & 0xe != 0 {
        let off_mask: u64 = if level == 0 {
            0xfff
        } else if level == 1 {
            0x1f_ffff
        } else {
            0x3fff_ffff
        };
        Some(((e << 2) & !off_mask) | (va & off_mask))
    } else if level == 0 {
        None
    } else {
        match &t.children[idx] {
            Some(b) => walk_level(b, va, level - 1),
            None => None,
        }
    }
}

/// Translate `vaddr` through the tree: the physical address a leaf covers,
/// folded with the page offset, or nothing if the walk hits an invalid entry.
pub fn virt2phys(root: &PageTable, vaddr: usize) -> (r: Result<Option<usize>, KError>)
    requires
        table_wf(*root, 2),
    ensures
        r is Ok,
        r->Ok_0 is Some <==> spec_translate(*root, vaddr as u64) is Some,
        r->Ok_0 is Some ==> r->Ok_0->0 == spec_translate(*root, vaddr as u64)->0,
    {
    let w = walk_level(root, vaddr as u64, 2);
    match w {
        Some(pa) => {
            proof {
                lemma_translate_fits(*root, vaddr as u64, 2);
            }
            Ok(Some(pa as usize))
        },
        None => Ok(None),
    }
}

/// The zone table can hand out page-table pages: the normal zone's allocator
/// is up and past its heap bootstrap.
pub open spec fn zone_normal_ready(zs: Seq<mem_zone>) -> bool {
    &&& zs.len() == 3
    &&& zs[1].wf_naive()
    &&& zs[1].nalloc().pagetree is Some
}

/// FREE frames left in the normal zone.
pub open spec fn normal_free_count(zs: Seq<mem_zone>) -> int {
    count_free(zs[1].nalloc().marks@)
}

/// How many child tables the walk for `va` below `level` still has to
/// allocate before a leaf can be installed at the bottom.
pub open spec fn spec_missing_tables(t: PageTable, va: u64, level: int) -> int
    decreases level,
{
    if level <= 0 {
        0
    } else {
        let idx = spec_vpn(va, level) as int;
        let e = t.entries[idx].entry;
        if !spec_is_valid(e) {
            level
        } else {
            match t.children[idx] {
                Some(b) => spec_missing_tables(*b, va, level - 1),
                None => 0,
            }
        }
    }
}

/// The walk can lack at most one table per level below the start.
proof fn lemma_missing_bound(t: PageTable, va: u64, level: int)
    ensures
        0 <= spec_missing_tables(t, va, level),
        level >= 0 ==> spec_missing_tables(t, va, level) <= level,
    decreases level,
{
    if level > 0 {
        let idx = spec_vpn(va, level) as int;
        if spec_is_valid(t.entries[idx].entry) {
            match t.children[idx] {
                Some(b) => {
                    lemma_missing_bound(*b, va, level - 1);
                },
                None => {},
            }
        }
    }
}

/// A freshly allocated table page, linked in as `(page >> 2) | V`, is a
/// valid branch entry.
proof fn lemma_branch_entry(page: u64)
    by (bit_vector)
    requires
        page % 4096 == 0,
    ensures
        spec_is_valid((page >> 2) | 1),
        !spec_is_leaf((page >> 2) | 1),
{
}

/// The leaf entry `PPN | bits | V` decodes back to the frame of `pa`.
proof fn lemma_leaf_entry(pa: u64, bits: u64)
    by (bit_vector)
    requires
        pa < 0x100_0000_0000_0000,
        bits <= 0x3ff,
        bits & 0xe != 0,
    ensures
        ({
            let e = (((pa >> 30) & 0x3ff_ffff) << 28) | (((pa >> 21) & 0x1ff) << 19) | (((pa
                >> 12) & 0x1ff) << 10) | bits | 1;
            &&& spec_is_valid(e)
            &&& spec_is_leaf(e)
            &&& ((e << 2) & !0xfffu64) == pa & !0xfffu64
        }),
{
}

proof fn lemma_mask_le(pa: u64)
    by (bit_vector)
    ensures
        (pa & !0xfffu64) <= pa,
{
}

/// Install a leaf for `vaddr -> paddr` in the subtree at `level`, allocating
/// any missing child tables from the normal zone. Succeeds exactly when the
/// zone has a FREE frame for every missing table; on failure nothing is
/// mapped or unmapped.
#[verifier::rlimit(100)]
fn map_at(
    t: &mut PageTable,
    zones: &mut Vec<mem_zone>,
    heap: &mut kmem,
    vaddr: u64,
    paddr: u64,
    bits: u64,
    level: usize,
) -> (r: Result<(), KError>)
    requires
        level <= 2,
        table_wf(*old(t), level as int),
        bits & 0xe != 0,
        bits <= 0x3ff,
        paddr < 0x100_0000_0000_0000,
        paddr + 4095 <= usize::MAX,
        zone_normal_ready(old(zones)@),
    ensures
        final(zones)@.len() == 3,
        zone_normal_ready(final(zones)@),
        final(zones)@[1].nalloc().same_geometry(old(zones)@[1].nalloc()),
        forall|z: int| 0 <= z < 3 && z != 1 ==> final(zones)@[z] == old(zones)@[z],
        *final(heap) == *old(heap),
        table_wf(*final(t), level as int),
        r is Ok <==> spec_missing_tables(*old(t), vaddr, level as int) <= normal_free_count(
            old(zones)@,
        ),
        0 <= spec_missing_tables(*old(t), vaddr, level as int) <= level,
        r is Ok ==> normal_free_count(final(zones)@) == normal_free_count(old(zones)@)
            - spec_missing_tables(*old(t), vaddr, level as int),
        r is Err ==> r->Err_0.er_type == KErrorType::ENOMEM,
        r is Ok ==> forall|va2: u64|
            #[trigger] translate_level(*final(t), va2, level as int) == (
            if same_vpns_upto(vaddr, va2, level as int) {
                Some((paddr & !0xfffu64) | (va2 & 0xfffu64))
            } else {
                translate_level(*old(t), va2, level as int)
            }),
        r is Err ==> forall|va2: u64|
            #[trigger] translate_level(*final(t), va2, level as int) == translate_level(
                *old(t),
                va2,
                level as int,
            ),
    decreases level,
{
    proof {
        assert(((vaddr >> 12) & 0x1ffu64) < 512 && ((vaddr >> 21) & 0x1ffu64) < 512 && ((vaddr
            >> 30) & 0x1ffu64) < 512) by (bit_vector);
    }
    if level == 0 {
        let idx: usize = ((vaddr >> 12) & 0x1ff) as usize;
        let ppn0 = (paddr >> 12) & 0x1ff;
        let ppn1 = (paddr >> 21) & 0x1ff;
        let ppn2 = (paddr >> 30) & 0x3ff_ffff;
        let entry_val = (ppn2 << 28) | (ppn1 << 19) | (ppn0 << 10) | bits | 1;
        t.entries[idx] = PageEntry { entry: entry_val };
        proof {
            lemma_leaf_entry(paddr, bits);
            lemma_mask_le(paddr);
            crate::page::lemma_count_free_nonneg(zones@[1].nalloc().marks@);
            assert forall|va2: u64|
                #[trigger] translate_level(*t, va2, 0) == (if same_vpns_upto(vaddr, va2, 0) {
                    Some((paddr & !0xfffu64) | (va2 & 0xfffu64))
                } else {
                    translate_level(*old(t), va2, 0)
                }) by {
                assert(((va2 >> 12) & 0x1ffu64) < 512) by (bit_vector);
                assert(same_vpns_upto(vaddr, va2, -1));
                assert(same_vpns_upto(vaddr, va2, 0) == (spec_vpn(vaddr, 0) == spec_vpn(
                    va2,
                    0,
                )));
                let j = spec_vpn(va2, 0) as int;
                if j == idx {
                    assert(t.entries[j].entry == entry_val);
                    assert(translate_level(*t, va2, 0) == Some(
                        ((entry_val << 2) & !0xfffu64) | (va2 & 0xfffu64),
                    ));
                } else {
                    assert(t.entries[j] == old(t).entries[j]);
                }
            }
        }
        return Ok(());
    }
    let idx: usize = if level == 1 {
        ((vaddr >> 21) & 0x1ff) as usize
    } else {
        ((vaddr >> 30) & 0x1ff) as usize
    };
    let ghost t_in = *t;
    let ghost zs_in = zones@;
    let was_invalid = t.entries[idx].entry & 1 == 0;
    if was_invalid {
        let page = match kmalloc_page(zones, heap, zone_type::ZONE_NORMAL, 1) {
            Ok(p) => p,
            Err(er) => {
                proof {
                    crate::page::lemma_single_fit_iff_free(zs_in[1].nalloc().marks@);
                    crate::page::lemma_count_free_nonneg(zs_in[1].nalloc().marks@);
                }
                return Err(er);
            },
        };
        proof {
            crate::page::lemma_single_fit_iff_free(zs_in[1].nalloc().marks@);
            lemma_branch_entry(page as u64);
        }
        t.entries[idx] = PageEntry { entry: ((page as u64) >> 2) | 1 };
        t.children[idx] = Some(Box::new(PageTable::new()));
        proof {
            assert((0u64 & 1) == 0) by (bit_vector);
        }
    }
    let ghost t_mid = *t;
    let ghost zs_mid = zones@;
    let taken = t.children[idx].take();
    let mut child_box = match taken {
        Some(b) => b,
        None => {
            proof {
                assert(false);
            }
            return Err(KError::new(KErrorType::ENOMEM, "vm.rs", "map_at", 0));
        },
    };
    let ghost child0 = *child_box;
    let res = map_at(&mut child_box, zones, heap, vaddr, paddr, bits, level - 1);
    t.children[idx] = Some(child_box);
    proof {
        // The branch slot for `vaddr` is settled; every other slot of `t`
        // kept its entry and child, so only walks through `idx` change.
        assert(t.entries@ == t_mid.entries@);
        assert(t.children@ =~= t_mid.children@.update(idx as int, t.children@[idx as int]));
        if was_invalid {
            lemma_translate_zeroed(child0, vaddr, level - 1);
            assert(spec_missing_tables(child0, vaddr, level - 1) == level - 1);
        }
        assert forall|va2: u64| #[trigger] spec_vpn(va2, level as int) < 512 by {
            assert(((va2 >> 12) & 0x1ffu64) < 512 && ((va2 >> 21) & 0x1ffu64) < 512 && ((va2
                >> 30) & 0x1ffu64) < 512) by (bit_vector);
        }
        assert(idx == spec_vpn(vaddr, level as int));
        let child_fin = *t.children@[idx as int]->0;
        assert(spec_is_valid(t.entries@[idx as int].entry));
        assert(!spec_is_leaf(t.entries@[idx as int].entry));
        if res is Ok {
            assert forall|va2: u64|
                #[trigger] translate_level(*t, va2, level as int) == (if same_vpns_upto(
                    vaddr,
                    va2,
                    level as int,
                ) {
                    Some((paddr & !0xfffu64) | (va2 & 0xfffu64))
                } else {
                    translate_level(t_in, va2, level as int)
                }) by {
                assert(same_vpns_upto(vaddr, va2, level as int) == (spec_vpn(vaddr, level as int)
                    == spec_vpn(va2, level as int) && same_vpns_upto(vaddr, va2, level - 1)));
                let j = spec_vpn(va2, level as int) as int;
                if j == idx {
                    assert(translate_level(*t, va2, level as int) == translate_level(
                        child_fin,
                        va2,
                        level - 1,
                    ));
                    if !same_vpns_upto(vaddr, va2, level - 1) {
                        assert(translate_level(child_fin, va2, level - 1) == translate_level(
                            child0,
                            va2,
                            level - 1,
                        ));
                        if was_invalid {
                            lemma_translate_zeroed(child0, va2, level - 1);
                            assert(!spec_is_valid(t_in.entries@[j].entry));
                            assert(translate_level(t_in, va2, level as int) is None);
                        } else {
                            assert(t_in.children@[j] is Some);
                            assert(*t_in.children@[j]->0 == child0);
                            assert(translate_level(t_in, va2, level as int) == translate_level(
                                child0,
                                va2,
                                level - 1,
                            ));
                        }
                    }
                } else {
                    assert(t.entries@[j] == t_in.entries@[j]);
                    assert(t.children@[j] == t_in.children@[j]);
                }
            }
        } else {
            assert forall|va2: u64|
                #[trigger] translate_level(*t, va2, level as int) == translate_level(
                    t_in,
                    va2,
                    level as int,
                ) by {
                let j = spec_vpn(va2, level as int) as int;
                if j == idx {
                    assert(translate_level(*t, va2, level as int) == translate_level(
                        child_fin,
                        va2,
                        level - 1,
                    ));
                    assert(translate_level(child_fin, va2, level - 1) == translate_level(
                        child0,
                        va2,
                        level - 1,
                    ));
                    if was_invalid {
                        lemma_translate_zeroed(child0, va2, level - 1);
                        assert(!spec_is_valid(t_in.entries@[j].entry));
                    } else {
                        assert(t_in.children@[j] is Some);
                        assert(*t_in.children@[j]->0 == child0);
                    }
                } else {
                    assert(t.entries@[j] == t_in.entries@[j]);
                    assert(t.children@[j] == t_in.children@[j]);
                }
            }
        }
    }
    res
}

/// Map the 4 KiB page of `vaddr` to the frame of `paddr` with the given
/// access bits. Bits without any of R/W/X are refused with EFAULT; otherwise
/// the map succeeds exactly when the normal zone can supply every missing
/// intermediate table, and afterwards `vaddr`'s page translates to `paddr`'s
/// frame. Nothing else in the tree changes. Leaves always sit at level 0.
pub fn mem_map(
    root: &mut PageTable,
    zones: &mut Vec<mem_zone>,
    heap: &mut kmem,
    vaddr: usize,
    paddr: usize,
    bits: u64,
    level: usize,
) -> (r: Result<(), KError>)
    requires
        table_wf(*old(root), 2),
        level == 0,
        bits <= 0x3ff,
        paddr < 0x100_0000_0000_0000,
        paddr + 4095 <= usize::MAX,
        zone_normal_ready(old(zones)@),
    ensures
        table_wf(*final(root), 2),
        zone_normal_ready(final(zones)@),
        final(zones)@[1].nalloc().same_geometry(old(zones)@[1].nalloc()),
        forall|z: int| 0 <= z < 3 && z != 1 ==> final(zones)@[z] == old(zones)@[z],
        *final(heap) == *old(heap),
        r is Err && r->Err_0.er_type == KErrorType::EFAULT <==> bits & 0xe == 0,
        bits & 0xe != 0 && r is Err ==> r->Err_0.er_type == KErrorType::ENOMEM,
        bits & 0xe == 0 ==> *final(root) == *old(root) && final(zones)@ == old(zones)@,
        bits & 0xe != 0 ==> (r is Ok <==> spec_missing_tables(*old(root), vaddr as u64, 2)
            <= normal_free_count(old(zones)@)),
        0 <= spec_missing_tables(*old(root), vaddr as u64, 2) <= 2,
        r is Ok ==> normal_free_count(final(zones)@) >= normal_free_count(old(zones)@) - 2,
        r is Ok ==> forall|va2: u64|
            #[trigger] spec_translate(*final(root), va2) == (if same_vpns_upto(
                vaddr as u64,
                va2,
                2,
            ) {
                Some(((paddr as u64) & !0xfffu64) | (va2 & 0xfffu64))
            } else {
                spec_translate(*old(root), va2)
            }),
        r is Err ==> forall|va2: u64|
            #[trigger] spec_translate(*final(root), va2) == spec_translate(*old(root), va2),
{
    proof {
        lemma_missing_bound(*root, vaddr as u64, 2);
    }
    if bits & 0xe == 0 {
        return Err(KError::new(KErrorType::EFAULT, "vm.rs", "mem_map", 0));
    }
    let r = map_at(root, zones, heap, vaddr as u64, paddr as u64, bits, 2);
    proof {
        if r is Err {
            assert(!(r->Err_0.er_type == KErrorType::EFAULT));
        }
    }
    r
}

/// Walk down from `level` and clear the valid bit of the first leaf found
/// for `va`; a walk that hits an invalid entry changes nothing.
fn unmap_at(t: &mut PageTable, va: u64, level: usize)
    requires
        level <= 2,
        table_wf(*old(t), level as int),
    ensures
        table_wf(*final(t), level as int),
        forall|va2: u64|
            #[trigger] translate_level(*final(t), va2, level as int) == (if same_vpns_upto(
                va,
                va2,
                level as int,
            ) {
                None::<u64>
            } else {
                translate_level(*old(t), va2, level as int)
            }),
    decreases level,
{
    proof {
        assert(((va >> 12) & 0x1ffu64) < 512 && ((va >> 21) & 0x1ffu64) < 512 && ((va >> 30)
            & 0x1ffu64) < 512) by (bit_vector);
    }
    let idx: usize = if level == 0 {
        ((va >> 12) & 0x1ff) as usize
    } else if level == 1 {
        ((va >> 21) & 0x1ff) as usize
    } else {
        ((va >> 30) & 0x1ff) as usize
    };
    let ghost t_in = *t;
    let e = t.entries[idx].entry;
    if e & 1 == 0 {
        proof {
            assert forall|va2: u64|
                #[trigger] translate_level(*t, va2, level as int) == (if same_vpns_upto(
                    va,
                    va2,
                    level as int,
                ) {
                    None::<u64>
                } else {
                    translate_level(t_in, va2, level as int)
                }) by {
                assert(((va2 >> 12) & 0x1ffu64) < 512 && ((va2 >> 21) & 0x1ffu64) < 512 && ((va2
                    >> 30) & 0x1ffu64) < 512) by (bit_vector);
                assert(same_vpns_upto(va, va2, -1));
            }
        }
        return ;
    }
    if e & 0xe != 0 {
        t.entries[idx] = PageEntry { entry: e & !1u64 };
        proof {
            assert(((e & !1u64) & 1) == 0) by (bit_vector);
            assert forall|va2: u64|
                #[trigger] translate_level(*t, va2, level as int) == (if same_vpns_upto(
                    va,
                    va2,
                    level as int,
                ) {
                    None::<u64>
                } else {
                    translate_level(t_in, va2, level as int)
                }) by {
                assert(((va2 >> 12) & 0x1ffu64) < 512 && ((va2 >> 21) & 0x1ffu64) < 512 && ((va2
                    >> 30) & 0x1ffu64) < 512) by (bit_vector);
                assert(same_vpns_upto(va, va2, -1));
                let j = spec_vpn(va2, level as int) as int;
                if j != idx {
                    assert(t.entries@[j] == t_in.entries@[j]);
                }
            }
        }
        return ;
    }
    if level == 0 {
        proof {
            assert(spec_is_valid(t.entries@[idx as int].entry) && !spec_is_leaf(
                t.entries@[idx as int].entry,
            ));
            assert(false);
        }
        return ;
    }
    let taken = t.children[idx].take();
    let mut child_box = match taken {
        Some(b) => b,
        None => {
            proof {
                assert(false);
            }
            return ;
        },
    };
    let ghost child0 = *child_box;
    unmap_at(&mut child_box, va, level - 1);
    t.children[idx] = Some(child_box);
    proof {
        assert(t.entries@ == t_in.entries@);
        assert(t.children@ =~= t_in.children@.update(idx as int, t.children@[idx as int]));
        assert(idx == spec_vpn(va, level as int));
        let child_fin = *t.children@[idx as int]->0;
        assert forall|va2: u64|
            #[trigger] translate_level(*t, va2, level as int) == (if same_vpns_upto(
                va,
                va2,
                level as int,
            ) {
                None::<u64>
            } else {
                translate_level(t_in, va2, level as int)
            }) by {
            assert(((va2 >> 12) & 0x1ffu64) < 512 && ((va2 >> 21) & 0x1ffu64) < 512 && ((va2
                >> 30) & 0x1ffu64) < 512) by (bit_vector);
            assert(same_vpns_upto(va, va2, level as int) == (spec_vpn(va, level as int)
                == spec_vpn(va2, level as int) && same_vpns_upto(va, va2, level - 1)));
            let j = spec_vpn(va2, level as int) as int;
            if j == idx {
                assert(translate_level(*t, va2, level as int) == translate_level(
                    child_fin,
                    va2,
                    level - 1,
                ));
                assert(*t_in.children@[j]->0 == child0);
                assert(translate_level(t_in, va2, level as int) == translate_level(
                    child0,
                    va2,
                    level - 1,
                ));
            } else {
                assert(t.entries@[j] == t_in.entries@[j]);
                assert(t.children@[j] == t_in.children@[j]);
            }
        }
    }
}

/// Invalidate the mapping that covers `vaddr`, if any. Afterwards `vaddr`'s
/// page translates to nothing; every other page is untouched. The caller
/// issues the TLB fence. The level argument is accepted for symmetry with
/// `mem_map` and ignored: the walk always starts at the root.
#[allow(unused_variables)]
pub fn mem_unmap(root: &mut PageTable, vaddr: usize, level: usize) -> (r: Result<(), KError>)
    requires
        table_wf(*old(root), 2),
    ensures
        table_wf(*final(root), 2),
        r is Ok,
        forall|va2: u64|
            #[trigger] spec_translate(*final(root), va2) == (if same_vpns_upto(
                vaddr as u64,
                va2,
                2,
            ) {
                None::<u64>
            } else {
                spec_translate(*old(root), va2)
            }),
        spec_translate(*final(root), vaddr as u64) is None,
{
    unmap_at(root, vaddr as u64, 2);
    proof {
        assert(same_vpns_upto(vaddr as u64, vaddr as u64, 2)) by {
            assert(same_vpns_upto(vaddr as u64, vaddr as u64, -1));
            assert(same_vpns_upto(vaddr as u64, vaddr as u64, 0));
            assert(same_vpns_upto(vaddr as u64, vaddr as u64, 1));
        }
    }
    Ok(())
}

/// Two addresses below the Sv39 limit walk the same entries exactly when
/// they lie in the same page.
proof fn lemma_same_vpns_same_page(va1: u64, va2: u64)
    requires
        va1 < 0x80_0000_0000,
        va2 < 0x80_0000_0000,
    ensures
        same_vpns_upto(va1, va2, 2) <==> (va1 & !0xfffu64) == (va2 & !0xfffu64),
{
    assert(same_vpns_upto(va1, va2, -1));
    assert(same_vpns_upto(va1, va2, 0) == (spec_vpn(va1, 0) == spec_vpn(va2, 0)));
    assert(same_vpns_upto(va1, va2, 1) == (spec_vpn(va1, 1) == spec_vpn(va2, 1)
        && same_vpns_upto(va1, va2, 0)));
    assert(same_vpns_upto(va1, va2, 2) == (spec_vpn(va1, 2) == spec_vpn(va2, 2)
        && same_vpns_upto(va1, va2, 1)));
    assert((((va1 >> 12) & 0x1ff) == ((va2 >> 12) & 0x1ff) && ((va1 >> 21) & 0x1ff) == ((va2
        >> 21) & 0x1ff) && ((va1 >> 30) & 0x1ff) == ((va2 >> 30) & 0x1ff)) <==> ((va1
        & !0xfffu64) == (va2 & !0xfffu64))) by (bit_vector)
        requires
            va1 < 0x80_0000_0000,
            va2 < 0x80_0000_0000,
    ;
}

/// A successful translation fits in `usize`: leaves decode inside the
/// address space and the folded offset stays below the next frame.
proof fn lemma_translate_fits(t: PageTable, va: u64, level: int)
    requires
        table_wf(t, level),
        0 <= level <= 2,
        translate_level(t, va, level) is Some,
    ensures
        translate_level(t, va, level)->0 <= usize::MAX,
    decreases level,
{
    let idx = spec_vpn(va, level) as int;
    assert(((va >> 12) & 0x1ffu64) < 512 && ((va >> 21) & 0x1ffu64) < 512 && ((va >> 30)
        & 0x1ffu64) < 512) by (bit_vector);
    let e = t.entries[idx].entry;
    if spec_is_valid(e) && spec_is_leaf(e) {
        if level == 0 {
            assert(((e << 2) & !0xfffu64) + 4095 <= usize::MAX);
            assert((((e << 2) & !0xfffu64) | (va & 0xfffu64)) <= ((e << 2) & !0xfffu64) + 4095)
                by (bit_vector);
        } else {
            assert(false);
        }
    } else if spec_is_valid(e) && level > 0 {
        lemma_translate_fits(*t.children[idx]->0, va, level - 1);
    }
}

proof fn lemma_page_bounds(ab: u64, va2: u64)
    by (bit_vector)
    requires
        ab % 4096 == 0,
        ab + 4096 <= 0x80_0000_0000,
    ensures
        ((va2 & !0xfffu64) == ab) <==> (ab <= va2 < ab + 4096),
        ((va2 & !0xfffu64) == ab) ==> ((ab & !0xfffu64) | (va2 & 0xfffu64)) == va2,
{
}

/// Identity-map every frame of `[begin, end)`, rounded outward to frame
/// boundaries, with the given access bits. On success every address of the
/// rounded range translates to itself and no other Sv39 address moved.
pub fn ident_range_map(
    root: &mut PageTable,
    zones: &mut Vec<mem_zone>,
    heap: &mut kmem,
    begin: usize,
    end: usize,
    bits: u64,
) -> (r: Result<(), KError>)
    requires
        table_wf(*old(root), 2),
        zone_normal_ready(old(zones)@),
        bits & 0xe != 0,
        bits <= 0x3ff,
        begin <= end,
        end + 4096 <= usize::MAX,
        end <= 0x80_0000_0000,
    ensures
        table_wf(*final(root), 2),
        zone_normal_ready(final(zones)@),
        final(zones)@[1].nalloc().same_geometry(old(zones)@[1].nalloc()),
        forall|z: int| 0 <= z < 3 && z != 1 ==> final(zones)@[z] == old(zones)@[z],
        *final(heap) == *old(heap),
        r is Err ==> r->Err_0.er_type == KErrorType::ENOMEM,
        // Success is owed whenever the zone has two FREE frames per page of
        // the range — enough for every intermediate table a map may need.
        normal_free_count(old(zones)@) >= 2 * ((spec_align_up_4k(end as int)
            - spec_align_down_4k(begin as int)) / 4096) ==> r is Ok,
        r is Ok ==> normal_free_count(final(zones)@) >= normal_free_count(old(zones)@) - 2 * ((
        spec_align_up_4k(end as int) - spec_align_down_4k(begin as int)) / 4096),
        r is Ok ==> forall|va2: u64|
            spec_align_down_4k(begin as int) <= va2 < spec_align_up_4k(end as int)
                ==> #[trigger] spec_translate(*final(root), va2) == Some(va2),
        r is Ok ==> forall|va2: u64|
            va2 < 0x80_0000_0000 && !(spec_align_down_4k(begin as int) <= va2
                < spec_align_up_4k(end as int)) ==> #[trigger] spec_translate(*final(root), va2)
                == spec_translate(*old(root), va2),
{
    let mut addr_begin = crate::align_down_4k(begin);
    let addr_end = crate::align_up_4k(end);
    let range_pgcnt = (addr_end - addr_begin) / PAGE_SIZE;
    let ghost root0 = *root;
    let ghost start = addr_begin as int;
    let mut i: usize = 0;
    while i < range_pgcnt
        invariant
            table_wf(*root, 2),
            zone_normal_ready(zones@),
            zones@[1].nalloc().same_geometry(old(zones)@[1].nalloc()),
            forall|z: int| 0 <= z < 3 && z != 1 ==> zones@[z] == old(zones)@[z],
            *heap == *old(heap),
            bits & 0xe != 0,
            bits <= 0x3ff,
            i <= range_pgcnt,
            start % 4096 == 0,
            start == spec_align_down_4k(begin as int),
            addr_end == spec_align_up_4k(end as int),
            addr_end <= 0x80_0000_0000,
            range_pgcnt == (addr_end - start) / 4096,
            addr_begin == start + i * 4096,
            (addr_end - start) % 4096 == 0,
            normal_free_count(zones@) >= normal_free_count(old(zones)@) - 2 * i,
            forall|va2: u64|
                start <= va2 < addr_begin ==> #[trigger] spec_translate(*root, va2) == Some(va2),
            forall|va2: u64|
                va2 < 0x80_0000_0000 && !(start <= va2 < addr_begin)
                    ==> #[trigger] spec_translate(*root, va2) == spec_translate(root0, va2),
        decreases range_pgcnt - i,
    {
        proof {
            assert(i * 4096 + 4096 <= addr_end - start) by (nonlinear_arith)
                requires
                    i < range_pgcnt,
                    range_pgcnt == (addr_end - start) / 4096,
                    (addr_end - start) % 4096 == 0,
                    addr_end >= start >= 0,
            ;
        }
        let ghost pre = *root;
        let ghost zs_pre = zones@;
        let map_ret = mem_map(root, zones, heap, addr_begin, addr_begin, bits, 0);
        match map_ret {
            Ok(_) => {},
            Err(er) => {
                proof {
                    if normal_free_count(old(zones)@) >= 2 * range_pgcnt {
                        assert(normal_free_count(zs_pre) >= 2 * (range_pgcnt - i));
                        assert(spec_missing_tables(pre, addr_begin as u64, 2)
                            <= normal_free_count(zs_pre));
                        assert(false);
                    }
                }
                return Err(er);
            },
        }
        proof {
            let ab = addr_begin as u64;
            assert((start + i * 4096) % 4096 == 0) by (nonlinear_arith)
                requires
                    start % 4096 == 0,
                    i >= 0,
                    start >= 0,
            ;
            assert(ab % 4096 == 0 && ab + 4096 <= 0x80_0000_0000);
            assert((ab & !0xfffu64) == ab) by (bit_vector)
                requires
                    ab % 4096 == 0,
            ;
            assert forall|va2: u64|
                start <= va2 < addr_begin + 4096 implies #[trigger] spec_translate(*root, va2)
                == Some(va2) by {
                lemma_page_bounds(ab, va2);
                lemma_same_vpns_same_page(ab, va2);
                if va2 < ab {
                    assert(spec_translate(pre, va2) == Some(va2));
                    assert((va2 & !0xfffu64) != ab);
                    assert(spec_translate(*root, va2) == spec_translate(pre, va2));
                } else {
                    assert((va2 & !0xfffu64) == ab);
                    assert(same_vpns_upto(ab, va2, 2));
                    assert(spec_translate(*root, va2) == Some((ab & !0xfffu64) | (va2
                        & 0xfffu64)));
                    assert(((ab & !0xfffu64) | (va2 & 0xfffu64)) == va2);
                }
            }
            assert forall|va2: u64|
                va2 < 0x80_0000_0000 && !(start <= va2 < addr_begin + 4096) implies #[trigger]
                spec_translate(*root, va2) == spec_translate(root0, va2) by {
                lemma_page_bounds(ab, va2);
                lemma_same_vpns_same_page(ab, va2);
                assert(!same_vpns_upto(ab, va2, 2));
                assert(spec_translate(*root, va2) == spec_translate(pre, va2));
                assert(spec_translate(pre, va2) == spec_translate(root0, va2));
            }
        }
        addr_begin = addr_begin + PAGE_SIZE;
        i = i + 1;
    }
    Ok(())
}

/// Unmap every frame of `[begin, end)`, rounded outward to frame boundaries.
/// Afterwards nothing in the rounded range translates, and no other Sv39
/// address moved.
pub fn range_unmap(root: &mut PageTable, begin: usize, end: usize) -> (r: Result<(), KError>)
    requires
        table_wf(*old(root), 2),
        begin <= end,
        end + 4096 <= usize::MAX,
        end <= 0x80_0000_0000,
    ensures
        table_wf(*final(root), 2),
        r is Ok,
        forall|va2: u64|
            spec_align_down_4k(begin as int) <= va2 < spec_align_up_4k(end as int)
                ==> #[trigger] spec_translate(*final(root), va2) is None,
        forall|va2: u64|
            va2 < 0x80_0000_0000 && !(spec_align_down_4k(begin as int) <= va2
                < spec_align_up_4k(end as int)) ==> #[trigger] spec_translate(*final(root), va2)
                == spec_translate(*old(root), va2),
{
    let mut addr_begin = crate::align_down_4k(begin);
    let addr_end = crate::align_up_4k(end);
    let range_pgcnt = (addr_end - addr_begin) / PAGE_SIZE;
    let ghost root0 = *root;
    let ghost start = addr_begin as int;
    let mut i: usize = 0;
    while i < range_pgcnt
        invariant
            table_wf(*root, 2),
            i <= range_pgcnt,
            start % 4096 == 0,
            start == spec_align_down_4k(begin as int),
            addr_end == spec_align_up_4k(end as int),
            addr_end <= 0x80_0000_0000,
            range_pgcnt == (addr_end - start) / 4096,
            addr_begin == start + i * 4096,
            (addr_end - start) % 4096 == 0,
            forall|va2: u64|
                start <= va2 < addr_begin ==> #[trigger] spec_translate(*root, va2) is None,
            forall|va2: u64|
                va2 < 0x80_0000_0000 && !(start <= va2 < addr_begin)
                    ==> #[trigger] spec_translate(*root, va2) == spec_translate(root0, va2),
        decreases range_pgcnt - i,
    {
        proof {
            assert(i * 4096 + 4096 <= addr_end - start) by (nonlinear_arith)
                requires
                    i < range_pgcnt,
                    range_pgcnt == (addr_end - start) / 4096,
                    (addr_end - start) % 4096 == 0,
                    addr_end >= start >= 0,
            ;
        }
        let ghost pre = *root;
        let unmap_ret = mem_unmap(root, addr_begin, 0);
        match unmap_ret {
            Ok(_) => {},
            Err(er) => {
                return Err(er);
            },
        }
        proof {
            let ab = addr_begin as u64;
            assert((start + i * 4096) % 4096 == 0) by (nonlinear_arith)
                requires
                    start % 4096 == 0,
                    i >= 0,
                    start >= 0,
            ;
            assert(ab % 4096 == 0 && ab + 4096 <= 0x80_0000_0000);
            assert((ab & !0xfffu64) == ab) by (bit_vector)
                requires
                    ab % 4096 == 0,
            ;
            assert forall|va2: u64|
                start <= va2 < addr_begin + 4096 implies #[trigger] spec_translate(
                *root,
                va2,
            ) is None by {
                lemma_page_bounds(ab, va2);
                lemma_same_vpns_same_page(ab, va2);
                if va2 < ab {
                    assert(spec_translate(pre, va2) is None);
                    assert((va2 & !0xfffu64) != ab);
                    assert(spec_translate(*root, va2) == spec_translate(pre, va2));
                } else {
                    assert(same_vpns_upto(ab, va2, 2));
                    assert(spec_translate(*root, va2) is None);
                }
            }
            assert forall|va2: u64|
                va2 < 0x80_0000_0000 && !(start <= va2 < addr_begin + 4096) implies #[trigger]
                spec_translate(*root, va2) == spec_translate(root0, va2) by {
                lemma_page_bounds(ab, va2);
                lemma_same_vpns_same_page(ab, va2);
                assert(!same_vpns_upto(ab, va2, 2));
                assert(spec_translate(*root, va2) == spec_translate(pre, va2));
                assert(spec_translate(pre, va2) == spec_translate(root0, va2));
            }
        }
        addr_begin = addr_begin + PAGE_SIZE;
        i = i + 1;
    }
    Ok(())
}

/// One mapped region of a virtual address space, rounded to frame bounds.
#[derive(Clone, Copy, Debug, PartialEq, Eq, Structural)]
pub struct vm_area {
    pub vm_begin: usize,
    pub vm_end: usize,
    pub flags: usize,
}

impl vm_area {
    pub fn new() -> (r: vm_area)
        ensures
            r.vm_begin == 0,
            r.vm_end == 0,
            r.flags == 0,
    {
        vm_area { vm_begin: 0, vm_end: 0, flags: 0 }
    }

    /// Cover `[vm_start, vm_end)` rounded outward to frame boundaries.
    pub fn init(&mut self, vm_start: usize, vm_end: usize, flags: usize)
        requires
            vm_end + 4096 <= usize::MAX,
        ensures
            final(self).vm_begin == spec_align_down_4k(vm_start as int),
            final(self).vm_end == spec_align_up_4k(vm_end as int),
            final(self).flags == flags,
    {
        self.vm_begin = crate::align_down_4k(vm_start);
        self.vm_end = crate::align_up_4k(vm_end);
        self.flags = flags;
    }

    pub fn get_vm_begin(&self) -> (r: usize)
        ensures
            r == self.vm_begin,
    {
        self.vm_begin
    }

    pub fn get_vm_end(&self) -> (r: usize)
        ensures
            r == self.vm_end,
    {
        self.vm_end
    }

    pub fn get_flags(&self) -> (r: usize)
        ensures
            r == self.flags,
    {
        self.flags
    }
}

/// A virtual address space: its regions keyed by start address, the root
/// table's address, the satp that selects it, and the heap and stack marks.
pub struct mm {
    pub vmas: Option<BTreeMap<usize, vm_area>>,
    pub pgroot_addr: usize,
    pub satp: u64,
    pub heap_end: usize,
    pub stack_base: usize,
}

impl mm {
    pub fn new() -> (r: mm)
        ensures
            r.vmas is None,
            r.pgroot_addr == 0,
            r.satp == 0,
            r.heap_end == 0,
            r.stack_base == 0,
    {
        mm { vmas: None, pgroot_addr: 0, satp: 0, heap_end: 0, stack_base: 0 }
    }

    /// The regions recorded so far, as a map from start address.
    pub open spec fn vmas_view(self) -> Map<usize, vm_area> {
        match self.vmas {
            Some(m) => m@,
            None => Map::<usize, vm_area>::empty(),
        }
    }

    /// Whether exactly `target` is recorded at `target.vm_begin`.
    pub fn has_vma(&self, target: vm_area) -> (r: bool)
        ensures
            r == (self.vmas_view().contains_key(target.vm_begin) && self.vmas_view()[
                target.vm_begin] == target),
    {
        match self.vmas {
            None => false,
            Some(ref m) => {
                match m.get(&target.vm_begin) {
                    Some(found_vma) => *found_vma == target,
                    None => false,
                }
            },
        }
    }

    /// Record a region; a region already starting at the same address is
    /// refused with EFAULT.
    pub fn insert_vma(&mut self, new_vma: vm_area) -> (r: Result<(), KError>)
        ensures
            *final(self) == (mm { vmas: final(self).vmas, ..*old(self) }),
            r is Err <==> old(self).vmas_view().contains_key(new_vma.vm_begin),
            r is Err ==> r->Err_0.er_type == KErrorType::EFAULT && final(self).vmas_view()
                == old(self).vmas_view(),
            r is Ok ==> final(self).vmas_view() == old(self).vmas_view().insert(
                new_vma.vm_begin,
                new_vma,
            ),
    {
        if self.vmas.is_none() {
            self.vmas = Some(BTreeMap::new());
        }
        match self.vmas {
            Some(ref mut m) => {
                if m.contains_key(&new_vma.vm_begin) {
                    Err(KError::new(KErrorType::EFAULT, "vm.rs", "insert_vma", 0))
                } else {
                    m.insert(new_vma.vm_begin, new_vma);
                    Ok(())
                }
            },
            None => Err(KError::new(KErrorType::EFAULT, "vm.rs", "insert_vma", 0)),
        }
    }

    /// The region starting exactly at `addr`, if any.
    pub fn get_vma(&self, addr: usize) -> (r: Option<&vm_area>)
        ensures
            r is Some <==> self.vmas_view().contains_key(addr),
            r is Some ==> *r->0 == self.vmas_view()[addr],
    {
        match self.vmas {
            None => None,
            Some(ref m) => m.get(&addr),
        }
    }

    /// Remove `target`; EFAULT unless exactly that region is recorded.
    pub fn delete_vma(&mut self, target_vma: vm_area) -> (r: Result<(), KError>)
        ensures
            *final(self) == (mm { vmas: final(self).vmas, ..*old(self) }),
            r is Ok <==> (old(self).vmas_view().contains_key(target_vma.vm_begin) && old(
                self,
            ).vmas_view()[target_vma.vm_begin] == target_vma),
            r is Err ==> r->Err_0.er_type == KErrorType::EFAULT && final(self).vmas_view()
                == old(self).vmas_view(),
            r is Ok ==> final(self).vmas_view() == old(self).vmas_view().remove(
                target_vma.vm_begin,
            ),
    {
        if self.has_vma(target_vma) {
            match self.vmas {
                Some(ref mut m) => {
                    m.remove(&target_vma.vm_begin);
                    Ok(())
                },
                None => Err(KError::new(KErrorType::EFAULT, "vm.rs", "delete_vma", 0)),
            }
        } else {
            Err(KError::new(KErrorType::EFAULT, "vm.rs", "delete_vma", 0))
        }
    }

    pub fn get_pgroot_addr(&self) -> (r: usize)
        ensures
            r == self.pgroot_addr,
    {
        self.pgroot_addr
    }

    pub fn set_pgroot_addr(&mut self, v: usize)
        ensures
            *final(self) == (mm { pgroot_addr: v, ..*old(self) }),
    {
        self.pgroot_addr = v;
    }

    pub fn get_satp(&self) -> (r: u64)
        ensures
            r == self.satp,
    {
        self.satp
    }

    pub fn set_satp(&mut self, v: u64)
        ensures
            *final(self) == (mm { satp: v, ..*old(self) }),
    {
        self.satp = v;
    }

    pub fn get_heap_end(&self) -> (r: usize)
        ensures
            r == self.heap_end,
    {
        self.heap_end
    }

    pub fn set_heap_end(&mut self, v: usize)
        ensures
            *final(self) == (mm { heap_end: v, ..*old(self) }),
    {
        self.heap_end = v;
    }

    pub fn get_stack_base(&self) -> (r: usize)
        ensures
            r == self.stack_base,
    {
        self.stack_base
    }

    pub fn set_stack_base(&mut self, v: usize)
        ensures
            *final(self) == (mm { stack_base: v, ..*old(self) }),
    {
        self.stack_base = v;
    }
}

} // verus!
