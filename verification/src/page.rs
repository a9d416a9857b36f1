//! Zone-backed physical page allocator: a per-frame FREE/TAKEN map scanned
//! first-fit, plus a page-descriptor tree keyed by frame number. The tree is
//! created lazily on the first successful allocation, which also carves out
//! the kernel heap; that is the only allocation the tree's own storage can
//! come from.

use crate::error::{KError, KErrorType};
use crate::{align_down_4k, align_up_4k, spec_align_down_4k, spec_align_up_4k};
use crate::kmem::kmem;
use std::collections::BTreeMap;
use vstd::prelude::*;

verus! {

broadcast use vstd::laws_cmp::group_laws_cmp, vstd::std_specs::btree::group_btree_axioms;

pub const PAGE_SIZE: usize = 4096;

/// Allocator-side state of one frame.
#[derive(Clone, Copy, Debug, PartialEq, Eq, Structural)]
pub enum pgalloc_flags {
    PF_FREE,
    PF_TAKEN,
}

/// Page-descriptor state kept by the memory system for each taken frame.
#[derive(Clone, Copy, Debug, PartialEq, Eq, Structural)]
pub enum PageFlags {
    DIRTY,
    LOCKED,
    DEFAULT,
}

/// One page descriptor: the frame number it covers, a reference count, and a
/// state flag.
#[derive(Clone, Copy, Debug, PartialEq, Eq, Structural)]
pub struct PageRec {
    pub pfn: usize,
    pub refcnt: usize,
    pub flag: PageFlags,
}

/// Number of FREE marks in a frame map.
pub open spec fn count_free(s: Seq<pgalloc_flags>) -> int
    decreases s.len(),
{
    if s.len() == 0 {
        0
    } else {
        count_free(s.drop_last()) + if s.last() == pgalloc_flags::PF_FREE {
            1int
        } else {
            0int
        }
    }
}

/// `s` with positions `[i, i+n)` replaced by `v`.
pub open spec fn marks_set(s: Seq<pgalloc_flags>, i: int, n: int, v: pgalloc_flags) -> Seq<
    pgalloc_flags,
> {
    Seq::new(s.len(), |j: int| if i <= j < i + n { v } else { s[j] })
}

/// All of `[i, i+n)` lies inside `s` and is FREE.
pub open spec fn fit_at(s: Seq<pgalloc_flags>, i: int, n: int) -> bool {
    &&& 0 <= i
    &&& i + n <= s.len()
    &&& forall|j: int| i <= j < i + n ==> s[j] == pgalloc_flags::PF_FREE
}

pub open spec fn spec_first_fit_from(s: Seq<pgalloc_flags>, i: int, n: int) -> Option<int>
    decreases s.len() - i,
{
    if i < 0 || i + n > s.len() {
        None
    } else if fit_at(s, i, n) {
        Some(i)
    } else {
        spec_first_fit_from(s, i + 1, n)
    }
}

/// The index the first-fit scan settles on, if any run of `n` FREE frames
/// exists.
pub open spec fn spec_first_fit(s: Seq<pgalloc_flags>, n: int) -> Option<int> {
    spec_first_fit_from(s, 0, n)
}

/// The descriptor inserted for every freshly allocated frame.
pub open spec fn fresh_rec(pfn: usize) -> PageRec {
    PageRec { pfn, refcnt: 1, flag: PageFlags::DEFAULT }
}

/// `t` with fresh descriptors for frames `pfn0 .. pfn0+n`.
pub open spec fn tree_insert_range(t: Map<usize, PageRec>, pfn0: usize, n: nat) -> Map<
    usize,
    PageRec,
>
    decreases n,
{
    if n == 0 {
        t
    } else {
        tree_insert_range(t, pfn0, (n - 1) as nat).insert(
            (pfn0 + (n - 1)) as usize,
            fresh_rec((pfn0 + (n - 1)) as usize),
        )
    }
}

/// What descriptors an insert-range leaves behind: all of `[p0, p0+n)` fresh,
/// everything else as before.
proof fn lemma_tree_insert_range_props(t: Map<usize, PageRec>, p0: usize, n: nat)
    requires
        p0 + n <= usize::MAX + 1,
    ensures
        forall|k: usize| #[trigger]
            tree_insert_range(t, p0, n).contains_key(k) <==> (t.contains_key(k) || p0 <= k < p0
                + n),
        forall|k: usize|
            p0 <= k < p0 + n ==> #[trigger] tree_insert_range(t, p0, n)[k] == fresh_rec(k),
        forall|k: usize|
            t.contains_key(k) && !(p0 <= k < p0 + n) ==> #[trigger] tree_insert_range(t, p0, n)[k]
                == t[k],
    decreases n,
{
    if n > 0 {
        lemma_tree_insert_range_props(t, p0, (n - 1) as nat);
    }
}

/// The frame map after the frames of a run are freed one at a time, first
/// to last — the order `free_pages` is called in after a run allocation.
pub open spec fn marks_free_each(s: Seq<pgalloc_flags>, i: int, n: int) -> Seq<pgalloc_flags>
    decreases n,
{
    if n <= 0 {
        s
    } else {
        marks_free_each(s.update(i, pgalloc_flags::PF_FREE), i + 1, n - 1)
    }
}

/// Freeing a run frame by frame frees exactly the window.
pub proof fn lemma_free_each_is_window(s: Seq<pgalloc_flags>, i: int, n: int)
    requires
        0 <= i,
        i + n <= s.len(),
    ensures
        marks_free_each(s, i, n) =~= marks_set(s, i, n, pgalloc_flags::PF_FREE),
    decreases n,
{
    if n > 0 {
        lemma_free_each_is_window(s.update(i, pgalloc_flags::PF_FREE), i + 1, n - 1);
        assert(marks_free_each(s, i, n) =~= marks_set(s, i, n, pgalloc_flags::PF_FREE));
    }
}

/// Freeing every frame of a first-fit run — in one window or one call per
/// frame, as `free_pages` works — restores the frame map, and with it the
/// count of FREE frames, to what it was before the allocation.
pub proof fn lemma_alloc_free_restores_free_count(s: Seq<pgalloc_flags>, i: int, n: int)
    requires
        fit_at(s, i, n),
    ensures
        marks_set(marks_set(s, i, n, pgalloc_flags::PF_TAKEN), i, n, pgalloc_flags::PF_FREE) =~= s,
        marks_free_each(marks_set(s, i, n, pgalloc_flags::PF_TAKEN), i, n) =~= s,
        count_free(
            marks_free_each(marks_set(s, i, n, pgalloc_flags::PF_TAKEN), i, n),
        ) == count_free(s),
        count_free(
            marks_set(marks_set(s, i, n, pgalloc_flags::PF_TAKEN), i, n, pgalloc_flags::PF_FREE),
        ) == count_free(s),
{
    assert(marks_set(marks_set(s, i, n, pgalloc_flags::PF_TAKEN), i, n, pgalloc_flags::PF_FREE)
        =~= s);
    lemma_free_each_is_window(marks_set(s, i, n, pgalloc_flags::PF_TAKEN), i, n);
    assert(marks_free_each(marks_set(s, i, n, pgalloc_flags::PF_TAKEN), i, n) =~= s);
}

pub proof fn lemma_count_free_nonneg(s: Seq<pgalloc_flags>)
    ensures
        count_free(s) >= 0,
    decreases s.len(),
{
    if s.len() > 0 {
        lemma_count_free_nonneg(s.drop_last());
    }
}

proof fn lemma_fit_found_from(s: Seq<pgalloc_flags>, i: int, j: int, n: int)
    requires
        0 <= i <= j,
        fit_at(s, j, n),
    ensures
        spec_first_fit_from(s, i, n) is Some,
    decreases j - i,
{
    if i + n > s.len() {
        assert(false);
    } else if !fit_at(s, i, n) {
        lemma_fit_found_from(s, i + 1, j, n);
    }
}

proof fn lemma_free_elem_counts(s: Seq<pgalloc_flags>, j: int)
    requires
        0 <= j < s.len(),
        s[j] == pgalloc_flags::PF_FREE,
    ensures
        count_free(s) > 0,
    decreases s.len(),
{
    lemma_count_free_nonneg(s.drop_last());
    if j < s.len() - 1 {
        lemma_free_elem_counts(s.drop_last(), j);
    }
}

proof fn lemma_count_pos_has_free(s: Seq<pgalloc_flags>)
    requires
        count_free(s) > 0,
    ensures
        exists|j: int| 0 <= j < s.len() && s[j] == pgalloc_flags::PF_FREE,
    decreases s.len(),
{
    if s.last() != pgalloc_flags::PF_FREE {
        lemma_count_pos_has_free(s.drop_last());
        let j = choose|j: int|
            0 <= j < s.drop_last().len() && s.drop_last()[j] == pgalloc_flags::PF_FREE;
        assert(s[j] == pgalloc_flags::PF_FREE);
    } else {
        assert(s[s.len() - 1] == pgalloc_flags::PF_FREE);
    }
}

/// A single frame can be allocated exactly while some frame is FREE.
pub proof fn lemma_single_fit_iff_free(s: Seq<pgalloc_flags>)
    ensures
        spec_first_fit(s, 1) is Some <==> count_free(s) > 0,
{
    if spec_first_fit(s, 1) is Some {
        lemma_first_fit_sound(s, 0, 1);
        let j = spec_first_fit(s, 1)->0;
        lemma_free_elem_counts(s, j);
    }
    if count_free(s) > 0 {
        lemma_count_pos_has_free(s);
        let j = choose|j: int| 0 <= j < s.len() && s[j] == pgalloc_flags::PF_FREE;
        assert(fit_at(s, j, 1));
        lemma_fit_found_from(s, 0, j, 1);
    }
}

/// The index the scan settles on really is a fit.
pub proof fn lemma_first_fit_sound(s: Seq<pgalloc_flags>, i: int, n: int)
    requires
        spec_first_fit_from(s, i, n) is Some,
    ensures
        fit_at(s, spec_first_fit_from(s, i, n)->0, n),
        spec_first_fit_from(s, i, n)->0 >= i,
    decreases s.len() - i,
{
    if i < 0 || i + n > s.len() {
        assert(false);
    } else if !fit_at(s, i, n) {
        lemma_first_fit_sound(s, i + 1, n);
    }
}

proof fn lemma_count_free_update(s: Seq<pgalloc_flags>, i: int, v: pgalloc_flags)
    requires
        0 <= i < s.len(),
    ensures
        count_free(s.update(i, v)) == count_free(s) - (if s[i] == pgalloc_flags::PF_FREE {
            1int
        } else {
            0int
        }) + (if v == pgalloc_flags::PF_FREE {
            1int
        } else {
            0int
        }),
    decreases s.len(),
{
    if i == s.len() - 1 {
        assert(s.update(i, v).drop_last() =~= s.drop_last());
    } else {
        assert(s.update(i, v).drop_last() =~= s.drop_last().update(i, v));
        lemma_count_free_update(s.drop_last(), i, v);
    }
}

/// The naive first-fit allocator for one zone. Requires at least 3 frames of
/// zone to bring up.
pub struct naive_allocator {
    pub tot_page: usize,
    pub zone_begin: usize,
    pub zone_end: usize,
    pub map_begin: usize,
    pub map_size: usize,
    pub mem_begin: usize,
    pub mem_end: usize,
    /// One mark per allocatable frame; models the metadata region that starts
    /// at `map_begin` in the running kernel.
    pub marks: Vec<pgalloc_flags>,
    pub pagetree: Option<BTreeMap<usize, PageRec>>,
}

impl naive_allocator {
    /// Frame number of the first allocatable frame.
    pub open spec fn base_pfn(self) -> int {
        self.mem_begin as int / 4096
    }

    pub open spec fn tree_wf(self, t: Map<usize, PageRec>) -> bool {
        forall|k: usize| #[trigger]
            t.contains_key(k) ==> {
                &&& self.base_pfn() <= k < self.base_pfn() + self.tot_page
                &&& self.marks[k - self.base_pfn()] == pgalloc_flags::PF_TAKEN
                &&& t[k].refcnt >= 1
                &&& t[k].pfn == k
            }
    }

    /// Well-formedness: the mark map covers exactly the allocatable frames,
    /// the pool is frame-aligned and fits the address space, and every
    /// descriptor covers a TAKEN frame of the pool with a live refcount.
    pub open spec fn wf(self) -> bool {
        &&& self.marks.len() == self.tot_page
        &&& self.mem_begin % 4096 == 0
        &&& self.mem_begin + self.tot_page * 4096 <= usize::MAX
        &&& match self.pagetree {
            Some(t) => self.tree_wf(t@),
            None => true,
        }
    }

    /// The geometry fields init computes, untouched by alloc and free.
    pub open spec fn same_geometry(self, other: naive_allocator) -> bool {
        &&& self.tot_page == other.tot_page
        &&& self.zone_begin == other.zone_begin
        &&& self.zone_end == other.zone_end
        &&& self.map_begin == other.map_begin
        &&& self.map_size == other.map_size
        &&& self.mem_begin == other.mem_begin
        &&& self.mem_end == other.mem_end
    }


    /// Everything `allocator_init` promises, relating the allocator before
    /// and after to its arguments and result.
    pub open spec fn init_post(
        pre: naive_allocator,
        post: naive_allocator,
        zone_start: usize,
        zone_end: usize,
        zone_size: usize,
        r: Result<(usize, usize), KError>,
    ) -> bool {
        &&& zone_size < 3 * 4096 ==> r is Err && r->Err_0.er_type == KErrorType::ENOMEM && post
            == pre
        &&& zone_size >= 3 * 4096 ==> ({
            let mem_end = spec_align_down_4k(zone_end as int);
            let map_begin = spec_align_up_4k(zone_start as int);
            let tp0 = (mem_end - map_begin) / 4096;
            let map_size = spec_align_up_4k(tp0);
            let mem_begin = map_begin + map_size;
            let tot = (mem_end - mem_begin) / 4096;
            &&& r is Ok
            &&& r->Ok_0 == (map_begin as usize, mem_begin as usize)
            &&& post.zone_begin == zone_start
            &&& post.zone_end == zone_end
            &&& post.mem_end == mem_end
            &&& post.map_begin == map_begin
            &&& post.map_size == map_size
            &&& post.mem_begin == mem_begin
            &&& post.tot_page == tot
            &&& post.marks@ =~= Seq::new(tot as nat, |j: int| pgalloc_flags::PF_FREE)
            &&& post.pagetree is None
            &&& post.wf()
        })
    }

    /// Everything `alloc_pages` promises. Success comes exactly when a
    /// first-fit run exists; the first success also initializes the heap.
    pub open spec fn alloc_post(
        pre: naive_allocator,
        heap0: kmem,
        pg_cnt: usize,
        post: naive_allocator,
        heap1: kmem,
        r: Result<usize, KError>,
    ) -> bool {
        &&& post.wf()
        &&& post.same_geometry(pre)
        &&& (r is Ok <==> spec_first_fit(pre.marks@, pg_cnt as int) is Some)
        &&& (r is Err ==> post == pre && heap1 == heap0 && r->Err_0.er_type
            == KErrorType::ENOMEM)
        &&& (r is Ok ==> ({
            let i = spec_first_fit(pre.marks@, pg_cnt as int)->0;
            let addr = pre.mem_begin + i * 4096;
            let pfn0 = (addr / 4096) as usize;
            &&& r->Ok_0 == addr
            &&& r->Ok_0 % 4096 == 0
            &&& post.marks@ =~= marks_set(pre.marks@, i, pg_cnt as int, pgalloc_flags::PF_TAKEN)
            &&& count_free(post.marks@) == count_free(pre.marks@) - pg_cnt
            &&& post.pagetree is Some
            &&& (pre.pagetree is Some ==> post.pagetree->0@ == tree_insert_range(
                pre.pagetree->0@,
                pfn0,
                pg_cnt as nat,
            ) && heap1 == heap0)
            &&& (pre.pagetree is None ==> post.pagetree->0@ == tree_insert_range(
                Map::<usize, PageRec>::empty(),
                pfn0,
                pg_cnt as nat,
            ) && heap1 == (kmem { kheap_start: addr as usize, heap_inited: true, ..heap0 }))
        }))
    }

    /// Everything `free_pages` promises: a missing descriptor is EFAULT, a
    /// shared frame only drops its refcount, and the last reference returns
    /// exactly one frame to FREE.
    pub open spec fn free_post(
        pre: naive_allocator,
        post: naive_allocator,
        addr: usize,
        r: Result<(), KError>,
    ) -> bool {
        &&& post.wf()
        &&& post.same_geometry(pre)
        &&& ({
            let pfn = (addr / 4096) as usize;
            let has = pre.pagetree is Some && pre.pagetree->0@.contains_key(pfn);
            &&& (r is Err <==> !has)
            &&& (r is Err ==> r->Err_0.er_type == KErrorType::EFAULT && post == pre)
            &&& (r is Ok && pre.pagetree->0@[pfn].refcnt > 1 ==> {
                &&& post.marks@ == pre.marks@
                &&& count_free(post.marks@) == count_free(pre.marks@)
                &&& post.pagetree is Some
                &&& post.pagetree->0@ == pre.pagetree->0@.insert(
                    pfn,
                    PageRec {
                        refcnt: (pre.pagetree->0@[pfn].refcnt - 1) as usize,
                        ..pre.pagetree->0@[pfn]
                    },
                )
            })
            &&& (r is Ok && pre.pagetree->0@[pfn].refcnt == 1 ==> {
                &&& post.marks@ =~= pre.marks@.update(
                    pfn - pre.base_pfn(),
                    pgalloc_flags::PF_FREE,
                )
                &&& count_free(post.marks@) == count_free(pre.marks@) + 1
                &&& post.pagetree is Some
                &&& post.pagetree->0@ == pre.pagetree->0@.remove(pfn)
            })
        })
    }

    pub fn new() -> (r: naive_allocator)
        ensures
            r.tot_page == 0,
            r.zone_begin == 0,
            r.zone_end == 0,
            r.map_begin == 0,
            r.map_size == 0,
            r.mem_begin == 0,
            r.mem_end == 0,
            r.marks@ =~= Seq::<pgalloc_flags>::empty(),
            r.pagetree is None,
            r.wf(),
    {
        naive_allocator {
            tot_page: 0,
            zone_begin: 0,
            zone_end: 0,
            map_begin: 0,
            map_size: 0,
            mem_begin: 0,
            mem_end: 0,
            marks: Vec::new(),
            pagetree: None,
        }
    }

    /// A readable sketch of the allocator's geometry for the console.
    /// Relies on the standard `format!` macro for the rendering alone.
    #[verifier::external_body]
    pub fn print_info(&self) -> (r: String) {
        format!(
            "Allocator: {} pages, map at {:#x} (size {:#x}), pool at {:#x}..{:#x}",
            self.tot_page, self.map_begin, self.map_size, self.mem_begin, self.mem_end,
        )
    }

    /// Whether `thres_pg` frames starting at `map_off` are all FREE. Reports
    /// ENOMEM when the window reaches past the end of the pool.
    fn map_first_fit_avail(&self, map_off: usize, thres_pg: usize) -> (r: Result<bool, KError>)
        requires
            self.marks.len() == self.tot_page,
        ensures
            r is Err <==> map_off + thres_pg > self.tot_page,
            r is Err ==> r->Err_0.er_type == KErrorType::ENOMEM,
            r is Ok ==> r->Ok_0 == fit_at(self.marks@, map_off as int, thres_pg as int),
    {
        if map_off > self.tot_page || thres_pg > self.tot_page - map_off {
            return Err(
                KError::new(KErrorType::ENOMEM, "page.rs", "map_first_fit_avail", 0),
            );
        }
        let mut j: usize = 0;
        while j < thres_pg
            invariant
                self.marks.len() == self.tot_page,
                map_off + thres_pg <= self.tot_page,
                j <= thres_pg,
                forall|k: int|
                    map_off <= k < map_off + j ==> self.marks@[k] == pgalloc_flags::PF_FREE,
            decreases thres_pg - j,
        {
            if self.marks[map_off + j] == pgalloc_flags::PF_TAKEN {
                return Ok(false);
            }
            proof {
                assert(self.marks@[map_off + j] == pgalloc_flags::PF_FREE);
            }
            j = j + 1;
        }
        Ok(true)
    }

    /// Mark `page_cnt` frames starting at `map_off` TAKEN.
    fn map_mark_taken(&mut self, map_off: usize, page_cnt: usize)
        requires
            old(self).marks.len() == old(self).tot_page,
            fit_at(old(self).marks@, map_off as int, page_cnt as int),
        ensures
            *final(self) == (naive_allocator {
                marks: final(self).marks,
                ..*old(self)
            }),
            final(self).marks@ =~= marks_set(
                old(self).marks@,
                map_off as int,
                page_cnt as int,
                pgalloc_flags::PF_TAKEN,
            ),
            count_free(final(self).marks@) == count_free(old(self).marks@) - page_cnt,
    {
        let ghost s0 = self.marks@;
        let mut j: usize = 0;
        while j < page_cnt
            invariant
                self.marks.len() == s0.len(),
                fit_at(s0, map_off as int, page_cnt as int),
                j <= page_cnt,
                self.marks@ =~= marks_set(s0, map_off as int, j as int, pgalloc_flags::PF_TAKEN),
                count_free(self.marks@) == count_free(s0) - j,
                *self == (naive_allocator { marks: self.marks, ..*old(self) }),
            decreases page_cnt - j,
        {
            proof {
                lemma_count_free_update(self.marks@, (map_off + j) as int, pgalloc_flags::PF_TAKEN);
            }
            let ghost before = self.marks@;
            self.marks[map_off + j] = pgalloc_flags::PF_TAKEN;
            proof {
                assert(before[map_off + j as int] == pgalloc_flags::PF_FREE);
                assert(self.marks@ =~= marks_set(
                    s0,
                    map_off as int,
                    j + 1,
                    pgalloc_flags::PF_TAKEN,
                ));
            }
            j = j + 1;
        }
    }

    /// Mark `page_cnt` frames starting at `map_off` FREE.
    fn map_mark_free(&mut self, map_off: usize, page_cnt: usize)
        requires
            old(self).marks.len() == old(self).tot_page,
            0 <= map_off,
            map_off + page_cnt <= old(self).marks.len(),
        ensures
            *final(self) == (naive_allocator {
                marks: final(self).marks,
                ..*old(self)
            }),
            final(self).marks@ =~= marks_set(
                old(self).marks@,
                map_off as int,
                page_cnt as int,
                pgalloc_flags::PF_FREE,
            ),
            count_free(final(self).marks@) >= count_free(old(self).marks@),
            (forall|k: int|
                map_off <= k < map_off + page_cnt ==> old(self).marks@[k]
                    == pgalloc_flags::PF_TAKEN) ==> count_free(final(self).marks@) == count_free(
                old(self).marks@,
            ) + page_cnt,
    {
        let ghost s0 = self.marks@;
        let ghost full = (forall|k: int|
            map_off <= k < map_off + page_cnt ==> s0[k] == pgalloc_flags::PF_TAKEN);
        let mut j: usize = 0;
        while j < page_cnt
            invariant
                self.marks.len() == s0.len(),
                map_off + page_cnt <= s0.len(),
                j <= page_cnt,
                self.marks@ =~= marks_set(s0, map_off as int, j as int, pgalloc_flags::PF_FREE),
                count_free(self.marks@) >= count_free(s0),
                full ==> count_free(self.marks@) == count_free(s0) + j,
                full == (forall|k: int|
                    map_off <= k < map_off + page_cnt ==> s0[k] == pgalloc_flags::PF_TAKEN),
                *self == (naive_allocator { marks: self.marks, ..*old(self) }),
            decreases page_cnt - j,
        {
            proof {
                lemma_count_free_update(self.marks@, (map_off + j) as int, pgalloc_flags::PF_FREE);
            }
            self.marks[map_off + j] = pgalloc_flags::PF_FREE;
            proof {
                assert(self.marks@ =~= marks_set(
                    s0,
                    map_off as int,
                    j + 1,
                    pgalloc_flags::PF_FREE,
                ));
            }
            j = j + 1;
        }
    }

    fn pagetree_init(&mut self)
        ensures
            *final(self) == (naive_allocator {
                pagetree: final(self).pagetree,
                ..*old(self)
            }),
            final(self).pagetree is Some,
            final(self).pagetree->0@ == Map::<usize, PageRec>::empty(),
    {
        self.pagetree = Some(BTreeMap::new());
    }

    fn pagetree_update(&mut self, newpg: &PageRec) -> (r: Result<(), KError>)
        ensures
            *final(self) == (naive_allocator {
                pagetree: final(self).pagetree,
                ..*old(self)
            }),
            r is Ok <==> old(self).pagetree is Some,
            r is Err ==> r->Err_0.er_type == KErrorType::EFAULT && *final(self) == *old(self),
            r is Ok ==> final(self).pagetree is Some && final(self).pagetree->0@ == old(
                self,
            ).pagetree->0@.insert(newpg.pfn, *newpg),
    {
        match self.pagetree {
            Some(ref mut pgtree) => {
                pgtree.insert(newpg.pfn, *newpg);
                Ok(())
            },
            None => Err(KError::new(KErrorType::EFAULT, "page.rs", "pagetree_update", 0)),
        }
    }

    fn pagetree_remove(&mut self, pfn: usize) -> (r: Result<(usize, PageRec), KError>)
        requires
            old(self).pagetree is Some,
            old(self).pagetree->0@.contains_key(pfn),
        ensures
            *final(self) == (naive_allocator {
                pagetree: final(self).pagetree,
                ..*old(self)
            }),
            r is Ok,
            r->Ok_0 == (pfn, old(self).pagetree->0@[pfn]),
            final(self).pagetree is Some,
            final(self).pagetree->0@ == old(self).pagetree->0@.remove(pfn),
    {
        match self.pagetree {
            Some(ref mut pgtree) => {
                let rec = pgtree.remove(&pfn);
                match rec {
                    Some(r) => Ok((pfn, r)),
                    None => Err(KError::new(KErrorType::EFAULT, "page.rs", "pagetree_remove", 0)),
                }
            },
            None => Err(KError::new(KErrorType::EFAULT, "page.rs", "pagetree_remove", 0)),
        }
    }

    fn pagetree_get(&self, pfn: usize) -> (r: Option<PageRec>)
        ensures
            r == (match self.pagetree {
                Some(t) => if t@.contains_key(pfn) {
                    Some(t@[pfn])
                } else {
                    None::<PageRec>
                },
                None => None::<PageRec>,
            }),
    {
        match self.pagetree {
            Some(ref pgtree) => {
                match pgtree.get(&pfn) {
                    Some(rec) => Some(*rec),
                    None => None,
                }
            },
            None => None,
        }
    }

    fn pagetree_getrefcnt(&self, pfn: usize) -> (r: Option<usize>)
        ensures
            r == (match self.pagetree {
                Some(t) => if t@.contains_key(pfn) {
                    Some(t@[pfn].refcnt)
                } else {
                    None::<usize>
                },
                None => None::<usize>,
            }),
    {
        match self.pagetree_get(pfn) {
            Some(rec) => Some(rec.refcnt),
            None => None,
        }
    }

    fn pagetree_setrefcnt(&mut self, pfn: usize, newrefcnt: usize) -> (r: Option<()>)
        ensures
            *final(self) == (naive_allocator {
                pagetree: final(self).pagetree,
                ..*old(self)
            }),
            r is Some <==> old(self).pagetree is Some
                && old(self).pagetree->0@.contains_key(pfn),
            r is None ==> *final(self) == *old(self),
            r is Some ==> final(self).pagetree is Some && final(self).pagetree->0@ == old(
                self,
            ).pagetree->0@.insert(
                pfn,
                PageRec { refcnt: newrefcnt, ..old(self).pagetree->0@[pfn] },
            ),
    {
        match self.pagetree {
            Some(ref mut pgtree) => {
                let rec = match pgtree.get(&pfn) {
                    Some(r) => *r,
                    None => { return None; },
                };
                pgtree.insert(pfn, PageRec { refcnt: newrefcnt, ..rec });
                Some(())
            },
            None => None,
        }
    }

    /// Lay the allocator over the zone `[zone_start, zone_end)`: round the
    /// region inward to frame boundaries, reserve the front for the per-frame
    /// mark map, and hand back `(meta_begin, mem_begin)`. A zone of fewer
    /// than 3 frames is refused with ENOMEM.
    #[verifier::rlimit(100)]
    pub fn allocator_init(
        &mut self,
        zone_start: usize,
        zone_end: usize,
        zone_size: usize,
    ) -> (r: Result<(usize, usize), KError>)
        requires
            old(self).pagetree is None,
            zone_start <= zone_end,
            zone_size == zone_end - zone_start,
            zone_end + 4096 <= usize::MAX,
        ensures
            Self::init_post(*old(self), *final(self), zone_start, zone_end, zone_size, r),
    {
        if zone_size < 3 * PAGE_SIZE {
            return Err(KError::new(KErrorType::ENOMEM, "page.rs", "allocator_init", 0));
        }
        self.zone_begin = zone_start;
        self.zone_end = zone_end;

        self.mem_end = align_down_4k(zone_end);
        self.map_begin = align_up_4k(zone_start);
        proof {
            assert(self.map_begin <= zone_start + 4095);
            assert(self.mem_end >= zone_end - 4095);
            assert(self.mem_end - self.map_begin >= 4098);
        }
        self.tot_page = (self.mem_end - self.map_begin) / PAGE_SIZE;
        proof {
            assert(self.tot_page >= 1);
            assert(self.tot_page * 4096 <= self.mem_end - self.map_begin) by (nonlinear_arith)
                requires
                    self.tot_page == (self.mem_end - self.map_begin) / 4096,
                    self.map_begin <= self.mem_end,
            ;
            assert(spec_align_up_4k(self.tot_page as int) <= self.tot_page * 4096)
                by (nonlinear_arith)
                requires
                    self.tot_page >= 1,
            ;
        }
        self.map_size = align_up_4k(self.tot_page);
        self.mem_begin = self.map_begin + self.map_size;
        proof {
            assert(self.mem_begin <= self.mem_end);
            assert(self.map_begin % 4096 == 0);
            assert(self.map_size % 4096 == 0);
            assert(self.mem_begin % 4096 == 0);
        }
        self.tot_page = (self.mem_end - self.mem_begin) / PAGE_SIZE;
        proof {
            assert(self.tot_page * 4096 <= self.mem_end - self.mem_begin) by (nonlinear_arith)
                requires
                    self.tot_page == (self.mem_end - self.mem_begin) / 4096,
                    self.mem_begin <= self.mem_end,
            ;
        }
        self.marks = vec![pgalloc_flags::PF_FREE; self.tot_page];
        Ok((self.map_begin, self.mem_begin))
    }

    /// First-fit allocation of `pg_cnt` contiguous frames. Succeeds exactly
    /// when a run of `pg_cnt` FREE frames exists, returning the frame-aligned
    /// base address of the run. The very first successful allocation is the
    /// kernel heap: it records the heap base, brings up the heap allocator,
    /// and creates the page-descriptor tree with one descriptor per heap
    /// frame; later allocations insert one fresh descriptor per frame.
    pub fn alloc_pages(&mut self, heap: &mut kmem, pg_cnt: usize) -> (r: Result<usize, KError>)
        requires
            old(self).wf(),
            pg_cnt >= 1,
            old(self).pagetree is None ==> pg_cnt == old(heap).kheap_pgcnt,
        ensures
            Self::alloc_post(*old(self), *old(heap), pg_cnt, *final(self), *final(heap), r),
    {
        let ghost m0 = self.marks@;
        let mut i: usize = 0;
        while i < self.tot_page
            invariant
                self.wf(),
                *self == *old(self),
                *heap == *old(heap),
                pg_cnt >= 1,
                self.pagetree is None ==> pg_cnt == heap.kheap_pgcnt,
                i <= self.tot_page,
                m0 == self.marks@,
                spec_first_fit_from(m0, i as int, pg_cnt as int) == spec_first_fit(
                    m0,
                    pg_cnt as int,
                ),
            decreases self.tot_page - i,
        {
            let fit = self.map_first_fit_avail(i, pg_cnt);
            match fit {
                Ok(true) => {
                    proof {
                        assert(spec_first_fit(m0, pg_cnt as int) == Some(i as int));
                    }
                    return self.alloc_found(heap, pg_cnt, i);
                },
                Ok(false) => {
                    proof {
                        assert(spec_first_fit_from(m0, i as int, pg_cnt as int)
                            == spec_first_fit_from(m0, i + 1, pg_cnt as int));
                    }
                },
                Err(reason) => {
                    proof {
                        assert(spec_first_fit_from(m0, i as int, pg_cnt as int) is None);
                    }
                    return Err(reason);
                },
            }
            i = i + 1;
        }
        proof {
            assert(spec_first_fit_from(m0, i as int, pg_cnt as int) is None);
        }
        Err(KError::new(KErrorType::ENOMEM, "page.rs", "alloc_pages", 0))
    }

    /// The commit half of `alloc_pages`, once the scan has settled on `i`.
    fn alloc_found(&mut self, heap: &mut kmem, pg_cnt: usize, i: usize) -> (r: Result<
        usize,
        KError,
    >)
        requires
            old(self).wf(),
            pg_cnt >= 1,
            old(self).pagetree is None ==> pg_cnt == old(heap).kheap_pgcnt,
            fit_at(old(self).marks@, i as int, pg_cnt as int),
            spec_first_fit(old(self).marks@, pg_cnt as int) == Some(i as int),
        ensures
            final(self).wf(),
            final(self).same_geometry(*old(self)),
            r is Ok,
            ({
                let addr = old(self).mem_begin + i * 4096;
                let pfn0 = (addr / 4096) as usize;
                &&& r->Ok_0 == addr
                &&& r->Ok_0 % 4096 == 0
                &&& final(self).marks@ =~= marks_set(
                    old(self).marks@,
                    i as int,
                    pg_cnt as int,
                    pgalloc_flags::PF_TAKEN,
                )
                &&& count_free(final(self).marks@) == count_free(old(self).marks@) - pg_cnt
                &&& final(self).pagetree is Some
                &&& (old(self).pagetree is Some ==> final(self).pagetree->0@ == tree_insert_range(
                    old(self).pagetree->0@,
                    pfn0,
                    pg_cnt as nat,
                ) && *final(heap) == *old(heap))
                &&& (old(self).pagetree is None ==> final(self).pagetree->0@ == tree_insert_range(
                    Map::<usize, PageRec>::empty(),
                    pfn0,
                    pg_cnt as nat,
                ) && *final(heap) == (kmem {
                    kheap_start: addr as usize,
                    heap_inited: true,
                    ..*old(heap)
                }))
            }),
    {
        let ghost m0 = self.marks@;
        proof {
            assert(i * 4096 + pg_cnt * 4096 <= self.tot_page * 4096) by (nonlinear_arith)
                requires
                    i + pg_cnt <= self.tot_page,
            ;
        }
        self.map_mark_taken(i, pg_cnt);
        let alloc_addr = self.mem_begin + i * PAGE_SIZE;
        proof {
            assert(alloc_addr % 4096 == 0 && alloc_addr / 4096 == self.mem_begin / 4096 + i)
                by (nonlinear_arith)
                requires
                    alloc_addr == self.mem_begin + i * 4096,
                    self.mem_begin % 4096 == 0,
            ;
        }
        let pfn0 = alloc_addr / PAGE_SIZE;
        let ghost t0 = if self.pagetree is Some {
            self.pagetree->0@
        } else {
            Map::<usize, PageRec>::empty()
        };
        let first_allocation = self.pagetree.is_none();
        if first_allocation {
            // The first frames out of the pool back the kernel heap: record
            // the base, bring up the heap allocator, and create the tree.
            let kheap_pgcnt = heap.get_kheap_pgcnt();
            heap.set_kheap_start(alloc_addr);
            heap.heap_inited = true;
            self.pagetree_init();
        }
        let mut pg_idx: usize = 0;
        while pg_idx < pg_cnt
            invariant
                pg_idx <= pg_cnt,
                self.marks.len() == self.tot_page,
                self.mem_begin + self.tot_page * 4096 <= usize::MAX,
                self.mem_begin % 4096 == 0,
                i + pg_cnt <= self.tot_page,
                pfn0 == self.mem_begin / 4096 + i,
                self.pagetree is Some,
                self.pagetree->0@ == tree_insert_range(t0, pfn0, pg_idx as nat),
                *self == (naive_allocator {
                    marks: self.marks,
                    pagetree: self.pagetree,
                    ..*old(self)
                }),
                self.marks@ == marks_set(m0, i as int, pg_cnt as int, pgalloc_flags::PF_TAKEN),
                *heap == if old(self).pagetree is Some {
                    *old(heap)
                } else {
                    kmem { kheap_start: alloc_addr, heap_inited: true, ..*old(heap) }
                },
            decreases pg_cnt - pg_idx,
        {
            proof {
                assert(pfn0 + pg_idx <= self.mem_begin / 4096 + self.tot_page);
                assert(self.mem_begin / 4096 * 4096 <= self.mem_begin);
                assert((self.mem_begin / 4096 + self.tot_page) * 4096 == self.mem_begin / 4096
                    * 4096 + self.tot_page * 4096) by (nonlinear_arith);
            }
            let ret = self.pagetree_update(
                &PageRec { pfn: pfn0 + pg_idx, refcnt: 1, flag: PageFlags::DEFAULT },
            );
            proof {
                assert(ret is Ok);
            }
            pg_idx = pg_idx + 1;
        }
        proof {
            lemma_tree_insert_range_props(t0, pfn0, pg_cnt as nat);
            assert(count_free(self.marks@) == count_free(m0) - pg_cnt);
            assert forall|k: usize| #[trigger] self.pagetree->0@.contains_key(k) implies {
                &&& self.base_pfn() <= k < self.base_pfn() + self.tot_page
                &&& self.marks[k - self.base_pfn()] == pgalloc_flags::PF_TAKEN
                &&& self.pagetree->0@[k].refcnt >= 1
                &&& self.pagetree->0@[k].pfn == k
            } by {
                if t0.contains_key(k) && !(pfn0 <= k < pfn0 + pg_cnt) {
                    assert(old(self).tree_wf(t0));
                    assert(self.pagetree->0@[k] == t0[k]);
                    assert(self.marks@[k - self.base_pfn()] == m0[k - self.base_pfn()]);
                } else {
                    assert(pfn0 <= k < pfn0 + pg_cnt);
                    assert(self.pagetree->0@[k] == fresh_rec(k));
                    assert(i <= k - self.base_pfn() < i + pg_cnt);
                }
            }
        }
        Ok(alloc_addr)
    }

    /// Return one frame. A descriptor whose refcount is above one is merely
    /// decremented; otherwise the descriptor is removed and exactly one frame
    /// goes back to FREE. A frame without a descriptor is refused with
    /// EFAULT.
    pub fn free_pages(&mut self, addr: usize) -> (r: Result<(), KError>)
        requires
            old(self).wf(),
        ensures
            Self::free_post(*old(self), *final(self), addr, r),
    {
        let ghost m0 = self.marks@;
        let pfn = addr / PAGE_SIZE;
        let refcnt = match self.pagetree_getrefcnt(pfn) {
            Some(c) => c,
            None => {
                return Err(KError::new(KErrorType::EFAULT, "page.rs", "free_pages", 0));
            },
        };
        proof {
            assert(self.pagetree->0@[pfn].refcnt >= 1);
        }
        if refcnt > 1 {
            let set_ret = self.pagetree_setrefcnt(pfn, refcnt - 1);
            proof {
                assert(set_ret is Some);
            }
            Ok(())
        } else {
            proof {
                assert(self.base_pfn() <= pfn < self.base_pfn() + self.tot_page);
                assert(self.base_pfn() * 4096 == self.mem_begin) by (nonlinear_arith)
                    requires
                        self.base_pfn() == self.mem_begin as int / 4096,
                        self.mem_begin % 4096 == 0,
                ;
                assert(pfn * 4096 <= addr < pfn * 4096 + 4096) by (nonlinear_arith)
                    requires
                        pfn == addr / 4096,
                ;
                assert(self.base_pfn() * 4096 <= pfn * 4096) by (nonlinear_arith)
                    requires
                        self.base_pfn() <= pfn,
                ;
                assert((addr - self.mem_begin) / 4096 == pfn - self.base_pfn())
                    by (nonlinear_arith)
                    requires
                        self.base_pfn() * 4096 == self.mem_begin,
                        pfn * 4096 <= addr < pfn * 4096 + 4096,
                        self.mem_begin <= addr,
                        self.base_pfn() <= pfn,
                ;
            }
            let free_begin_pgnum = (addr - self.mem_begin) / PAGE_SIZE;
            self.map_mark_free(free_begin_pgnum, 1);
            let rem_ret = self.pagetree_remove(pfn);
            proof {
                assert(rem_ret is Ok);
                assert forall|k: usize| #[trigger] self.pagetree->0@.contains_key(k) implies {
                    &&& self.base_pfn() <= k < self.base_pfn() + self.tot_page
                    &&& self.marks[k - self.base_pfn()] == pgalloc_flags::PF_TAKEN
                    &&& self.pagetree->0@[k].refcnt >= 1
                    &&& self.pagetree->0@[k].pfn == k
                } by {
                    assert(old(self).pagetree->0@.contains_key(k));
                    assert(k != pfn);
                    assert(self.marks@[k - self.base_pfn()] == m0[k - self.base_pfn()]);
                }
            }
            Ok(())
        }
    }

    fn pagetree_getflag(&self, pfn: usize) -> (r: Option<PageFlags>)
        ensures
            r == (match self.pagetree {
                Some(t) => if t@.contains_key(pfn) {
                    Some(t@[pfn].flag)
                } else {
                    None::<PageFlags>
                },
                None => None::<PageFlags>,
            }),
    {
        match self.pagetree_get(pfn) {
            Some(rec) => Some(rec.flag),
            None => None,
        }
    }

    fn pagetree_setflag(&mut self, pfn: usize, newflag: PageFlags) -> (r: Option<()>)
        ensures
            *final(self) == (naive_allocator {
                pagetree: final(self).pagetree,
                ..*old(self)
            }),
            r is Some <==> old(self).pagetree is Some
                && old(self).pagetree->0@.contains_key(pfn),
            r is None ==> *final(self) == *old(self),
            r is Some ==> final(self).pagetree is Some && final(self).pagetree->0@ == old(
                self,
            ).pagetree->0@.insert(
                pfn,
                PageRec { flag: newflag, ..old(self).pagetree->0@[pfn] },
            ),
    {
        match self.pagetree {
            Some(ref mut pgtree) => {
                let rec = match pgtree.get(&pfn) {
                    Some(r) => *r,
                    None => { return None; },
                };
                pgtree.insert(pfn, PageRec { flag: newflag, ..rec });
                Some(())
            },
            None => None,
        }
    }
}

/// The placeholder allocator of the undefined zone: every operation is
/// ENOSYS, and init hands back a zeroed region.
#[derive(Clone, Copy, Debug, PartialEq, Eq, Structural)]
pub struct empty_allocator {
    pub place_holder: usize,
}

impl empty_allocator {
    pub fn new() -> (r: empty_allocator)
        ensures
            r.place_holder == 0xdeadbeef,
    {
        empty_allocator { place_holder: 0xdeadbeef }
    }

    pub fn allocator_init(
        &mut self,
        zone_start: usize,
        zone_end: usize,
        zone_size: usize,
    ) -> (r: Result<(usize, usize), KError>)
        ensures
            *final(self) == *old(self),
            r == Ok::<(usize, usize), KError>((0, 0)),
    {
        Ok((0, 0))
    }

    pub fn alloc_pages(&mut self, heap: &mut kmem, pg_cnt: usize) -> (r: Result<usize, KError>)
        ensures
            *final(self) == *old(self),
            *final(heap) == *old(heap),
            r is Err && r->Err_0.er_type == KErrorType::ENOSYS,
    {
        Err(KError::new(KErrorType::ENOSYS, "page.rs", "alloc_pages", 0))
    }

    pub fn free_pages(&mut self, addr: usize) -> (r: Result<(), KError>)
        ensures
            *final(self) == *old(self),
            r is Err && r->Err_0.er_type == KErrorType::ENOSYS,
    {
        Err(KError::new(KErrorType::ENOSYS, "page.rs", "free_pages", 0))
    }
}

} // verus!
