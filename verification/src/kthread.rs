//! Kernel tasks and the per-hart scheduler: task control blocks, the task
//! pool with its round-robin policy, pid allocation from a global bitmap,
//! and the monotonically increasing life id that tells two uses of one pid
//! apart. The context-restore assembly is the shell's half: the scheduler
//! decides which task runs next and from which privilege level it is
//! resumed.

use crate::cpu::{hart_csrs, Mode, TrapFrame, MAX_HARTS};
use crate::error::{KError, KErrorType};
use crate::kmem::kmem;
use crate::ksemaphore::kt_semaphore;
use crate::page::PAGE_SIZE;
use crate::{spec_align_down_4k, spec_align_up_4k};
use crate::vm::{ident_range_map, range_unmap, table_wf, zone_normal_ready, EntryBits, PageTable};
use crate::zone::{kfree_page, kmalloc_page, mem_zone, zone_type};
use cbitmap::bitmap::{Bitmap, BitsManage};
use vstd::prelude::*;

verus! {

pub const MAX_KTHREADS: usize = 256;

pub const INVAL_KTHREADS_PID: usize = MAX_KTHREADS + 10;

/// Number of pids the global bitmap can hand out (13 bytes of bits).
pub const MAX_KTASK_PIDS: usize = 104;

pub const KTASK_STACK_SZ: usize = 4096;

pub const KTASK_EXPSTACK_SZ: usize = 4096;

#[derive(Clone, Copy, Debug, PartialEq, Eq, Structural)]
pub enum task_state {
    Ready,
    Running,
    Block,
    Zombie,
    Dead,
}

#[derive(Clone, Copy, Debug, PartialEq, Eq, Structural)]
pub enum task_typ {
    KERN_TASK,
    USER_TASK,
}

#[derive(Clone, Copy, Debug, PartialEq, Eq, Structural)]
pub enum task_flag {
    CRITICAL,
    NORMAL,
}

#[verifier::external_type_specification]
#[verifier::external_body]
pub struct ExBitmap<const BYTES: usize>(Bitmap<BYTES>);

/// The indices whose bits are set in a pid bitmap.
pub uninterp spec fn bitmap_ones(b: Bitmap<13>) -> Set<usize>;

/// Relies on cbitmap::bitmap::Bitmap::new: a bitmap with every bit clear.
#[verifier::external_body]
fn pidmap_new() -> (r: Bitmap<13>)
    ensures
        bitmap_ones(r) == Set::<usize>::empty(),
{
    Bitmap::new()
}

/// Relies on cbitmap::bitmap::BitsManage::find_first_zero: the least index
/// among the 104 bits whose bit is clear, or nothing if all are set.
#[verifier::external_body]
fn pidmap_find_first_zero(b: &Bitmap<13>) -> (r: Option<usize>)
    ensures
        r is None ==> forall|j: usize| j < 104 ==> bitmap_ones(*b).contains(j),
        r is Some ==> r->0 < 104 && !bitmap_ones(*b).contains(r->0) && forall|j: usize|
            j < r->0 ==> bitmap_ones(*b).contains(j),
{
    b.find_first_zero()
}

/// Relies on cbitmap::bitmap::BitsManage::set: sets one bit. It panics out
/// of range, so the index is kept inside the map.
#[verifier::external_body]
fn pidmap_set(b: &mut Bitmap<13>, index: usize)
    requires
        index < 104,
    ensures
        bitmap_ones(*final(b)) == bitmap_ones(*old(b)).insert(index),
{
    let _ = b.set(index);
}

/// Relies on cbitmap::bitmap::BitsManage::reset: clears one bit. It panics
/// out of range, so the index is kept inside the map.
#[verifier::external_body]
fn pidmap_reset(b: &mut Bitmap<13>, index: usize)
    requires
        index < 104,
    ensures
        bitmap_ones(*final(b)) == bitmap_ones(*old(b)).remove(index),
{
    let _ = b.reset(index);
}

/// Relies on cbitmap::bitmap::BitsManage::get_bool: whether one bit is set.
/// It panics out of range, so the index is kept inside the map.
#[verifier::external_body]
fn pidmap_test(b: &Bitmap<13>, index: usize) -> (r: bool)
    requires
        index < 104,
    ensures
        r == bitmap_ones(*b).contains(index),
{
    b.get_bool(index)
}

/// An aligned frame's identity range spans exactly one page.
proof fn lemma_one_page_span(lo: usize)
    requires
        lo % 4096 == 0,
        lo + 4096 <= usize::MAX,
    ensures
        (spec_align_up_4k(lo + 4096) - spec_align_down_4k(lo as int)) / 4096 == 1,
{
    assert(spec_align_down_4k(lo as int) == lo) by (nonlinear_arith)
        requires
            lo % 4096 == 0,
    ;
    assert(spec_align_up_4k(lo + 4096) == lo + 4096) by (nonlinear_arith)
        requires
            lo % 4096 == 0,
    ;
}

/// A single frame handed out by the allocator lies inside the pool, so a
/// one-frame stack fits below the pool's end.
proof fn lemma_alloc_addr_bound(z: crate::page::naive_allocator, addr: usize)
    requires
        z.wf(),
        crate::page::spec_first_fit(z.marks@, 1) is Some,
        addr == z.mem_begin + crate::page::spec_first_fit(z.marks@, 1)->0 * 4096,
    ensures
        addr + 4096 <= z.mem_begin + z.tot_page * 4096,
{
    crate::page::lemma_first_fit_sound(z.marks@, 0, 1);
    let i = crate::page::spec_first_fit(z.marks@, 1)->0;
    assert(i + 1 <= z.tot_page);
    assert((i + 1) * 4096 <= z.tot_page * 4096) by (nonlinear_arith)
        requires
            i + 1 <= z.tot_page,
    ;
    assert(i * 4096 + 4096 == (i + 1) * 4096) by (nonlinear_arith);
}

/// One kernel task: its saved context, lifecycle state, program counter,
/// stacks, home hart, pid and the life id that makes the pid unambiguous.
pub struct task_struct {
    pub trap_frame: TrapFrame,
    pub state: task_state,
    pub pc: usize,
    pub stack_base: usize,
    pub exp_stack_base: usize,
    pub cpu: usize,
    pub pid: usize,
    pub typ: task_typ,
    pub flag: task_flag,
    pub life_id: usize,
}

impl task_struct {
    pub fn new() -> (r: task_struct)
        ensures
            r.state is Ready,
            r.pc == 0,
            r.cpu == 0,
            r.stack_base == 0,
            r.exp_stack_base == 0,
            r.pid == 0,
            r.typ is KERN_TASK,
            r.flag is NORMAL,
            r.life_id == 0,
    {
        task_struct {
            trap_frame: TrapFrame::new(),
            state: task_state::Ready,
            pc: 0,
            cpu: 0,
            stack_base: 0,
            exp_stack_base: 0,
            pid: 0,
            typ: task_typ::KERN_TASK,
            flag: task_flag::NORMAL,
            life_id: 0,
        }
    }

    pub fn get_state(&self) -> (r: task_state)
        ensures
            r == self.state,
    {
        self.state
    }

    pub fn set_state(&mut self, new_state: task_state)
        ensures
            *final(self) == (task_struct { state: new_state, ..*old(self) }),
    {
        self.state = new_state;
    }

    pub fn get_lifeid(&self) -> (r: usize)
        ensures
            r == self.life_id,
    {
        self.life_id
    }

    pub fn set_lifeid(&mut self, new_lifeid: usize)
        ensures
            *final(self) == (task_struct { life_id: new_lifeid, ..*old(self) }),
    {
        self.life_id = new_lifeid;
    }

    pub fn set_pc(&mut self, newpc: usize)
        ensures
            *final(self) == (task_struct { pc: newpc, ..*old(self) }),
    {
        self.pc = newpc;
    }

    /// Mark the task finished; the scheduler drops Zombies.
    pub fn exit(&mut self)
        ensures
            *final(self) == (task_struct { state: task_state::Zombie, ..*old(self) }),
    {
        self.set_state(task_state::Zombie);
    }

    /// Prepare a kernel task to run `func` on hart `cpuid`: mark it Ready,
    /// give it the kernel address space, and allocate and identity-map one
    /// frame of run stack and one frame of exception stack, with the initial
    /// stack pointers one byte below each top. A user task is refused with
    /// EFAULT.
    pub fn init(
        &mut self,
        func: usize,
        new_flag: task_flag,
        cpuid: usize,
        ksatp: u64,
        root: &mut PageTable,
        zones: &mut Vec<mem_zone>,
        heap: &mut kmem,
    ) -> (r: Result<usize, KError>)
        requires
            table_wf(*old(root), 2),
            zone_normal_ready(old(zones)@),
            ksatp <= usize::MAX,
            old(zones)@[1].nalloc().mem_begin + old(zones)@[1].nalloc().tot_page * 4096
                <= 0x80_0000_0000 - 4096,
            old(zones)@[1].nalloc().mem_begin + old(zones)@[1].nalloc().tot_page * 4096 + 8192
                <= usize::MAX,
        ensures
            table_wf(*final(root), 2),
            zone_normal_ready(final(zones)@),
            final(zones)@[1].nalloc().same_geometry(old(zones)@[1].nalloc()),
            forall|z: int| 0 <= z < 3 && z != 1 ==> final(zones)@[z] == old(zones)@[z],
            *final(heap) == *old(heap),
            old(self).typ is USER_TASK ==> r is Err && r->Err_0.er_type == KErrorType::EFAULT,
            old(self).typ is KERN_TASK && r is Err ==> r->Err_0.er_type == KErrorType::ENOMEM,
            // Six FREE frames always suffice: one per stack plus up to two
            // tables for each single-page identity map.
            old(self).typ is KERN_TASK && crate::vm::normal_free_count(old(zones)@) >= 6 ==> r
                is Ok,
            r is Ok ==> crate::vm::normal_free_count(final(zones)@)
                >= crate::vm::normal_free_count(old(zones)@) - 6,
            r is Ok ==> ({
                &&& final(self).state is Ready
                &&& final(self).flag == new_flag
                &&& final(self).cpu == cpuid
                &&& final(self).pc == func
                &&& final(self).pid == 0
                &&& final(self).trap_frame.cpuid == cpuid
                &&& final(self).trap_frame.satp == ksatp as usize
                &&& final(self).stack_base % 4096 == 0
                &&& final(self).exp_stack_base % 4096 == 0
                &&& 4096 <= final(self).stack_base <= 0x80_0000_0000
                &&& 4096 <= final(self).exp_stack_base <= 0x80_0000_0000
                &&& final(self).stack_base + 4096 <= usize::MAX
                &&& final(self).exp_stack_base + 4096 <= usize::MAX
                &&& final(self).trap_frame.trap_stack == final(self).exp_stack_base - 1
                &&& final(self).trap_frame.regs@ == old(self).trap_frame.regs@.update(
                    2,
                    (final(self).stack_base - 1) as usize,
                )
                &&& final(self).life_id == old(self).life_id
                &&& final(self).typ == old(self).typ
            }),
    {
        self.cpu = cpuid;
        self.trap_frame.cpuid = cpuid;
        self.state = task_state::Ready;
        self.flag = new_flag;
        match self.typ {
            task_typ::KERN_TASK => {
                self.trap_frame.satp = ksatp as usize;
                self.pc = func;
                self.pid = 0;

                let ghost c0 = crate::vm::normal_free_count(old(zones)@);
                let ghost z0 = zones@[1].nalloc();
                let kt_stack_lo = kmalloc_page(zones, heap, zone_type::ZONE_NORMAL, 1);
                let kt_stack_lo = match kt_stack_lo {
                    Ok(p) => p,
                    Err(e) => {
                        proof {
                            crate::page::lemma_single_fit_iff_free(z0.marks@);
                            crate::page::lemma_count_free_nonneg(z0.marks@);
                        }
                        return Err(e);
                    },
                };
                proof {
                    crate::page::lemma_single_fit_iff_free(z0.marks@);
                    lemma_alloc_addr_bound(z0, kt_stack_lo);
                    assert((6u64 & 0xe) == 6 && (6u64 & !0x3ffu64) == 0) by (bit_vector);
                    assert(crate::vm::normal_free_count(zones@) == c0 - 1);
                    lemma_one_page_span(kt_stack_lo);
                }
                let kt_stack = kt_stack_lo + KTASK_STACK_SZ;
                let map_ret = ident_range_map(
                    root,
                    zones,
                    heap,
                    kt_stack_lo,
                    kt_stack,
                    EntryBits::ReadWrite.val(),
                );
                match map_ret {
                    Ok(_) => {},
                    Err(e) => {
                        proof {
                            if c0 >= 6 {
                                assert(false);
                            }
                        }
                        return Err(e);
                    },
                }
                proof {
                    assert(crate::vm::normal_free_count(zones@) >= c0 - 3);
                }

                let ghost z1 = zones@[1].nalloc();
                let kt_expstack_lo = kmalloc_page(zones, heap, zone_type::ZONE_NORMAL, 1);
                let kt_expstack_lo = match kt_expstack_lo {
                    Ok(p) => p,
                    Err(e) => {
                        proof {
                            crate::page::lemma_single_fit_iff_free(z1.marks@);
                            crate::page::lemma_count_free_nonneg(z1.marks@);
                        }
                        return Err(e);
                    },
                };
                proof {
                    crate::page::lemma_single_fit_iff_free(z1.marks@);
                    lemma_alloc_addr_bound(z1, kt_expstack_lo);
                    assert(crate::vm::normal_free_count(zones@) >= c0 - 4);
                    lemma_one_page_span(kt_expstack_lo);
                }
                let kt_expstack = kt_expstack_lo + KTASK_EXPSTACK_SZ;
                let map_ret = ident_range_map(
                    root,
                    zones,
                    heap,
                    kt_expstack_lo,
                    kt_expstack,
                    EntryBits::ReadWrite.val(),
                );
                match map_ret {
                    Ok(_) => {},
                    Err(e) => {
                        proof {
                            if c0 >= 6 {
                                assert(false);
                            }
                        }
                        return Err(e);
                    },
                }
                proof {
                    assert(crate::vm::normal_free_count(zones@) >= c0 - 6);
                }

                self.stack_base = kt_stack;
                self.exp_stack_base = kt_expstack;
                self.trap_frame.trap_stack = self.exp_stack_base - 1;
                self.trap_frame.regs[2] = self.stack_base - 1;
                Ok(0)
            },
            task_typ::USER_TASK => {
                Err(KError::new(KErrorType::EFAULT, "kthread.rs", "init", 0))
            },
        }
    }

    /// Copy the hart's kernel trap frame into the task's own frame, keeping the
    /// task's own trap stack: the kernel frame holds the CPU state from just
    /// before the trap.
    pub fn save(&mut self, kernel_frames: &Vec<TrapFrame>)
        requires
            old(self).cpu < kernel_frames.len(),
        ensures
            *final(self) == (task_struct { trap_frame: final(self).trap_frame, ..*old(self) }),
            final(self).trap_frame == (TrapFrame {
                trap_stack: old(self).trap_frame.trap_stack,
                ..kernel_frames[old(self).cpu as int]
            }),
    {
        let cur_cpu = self.cpu;
        self.trap_frame.refresh_from(&kernel_frames[cur_cpu]);
    }

    /// Return a removed task's two stack frames to the normal zone and unmap
    /// them from the kernel address space; what the running kernel does when
    /// a task object is dropped.
    pub fn teardown(
        &self,
        root: &mut PageTable,
        zones: &mut Vec<mem_zone>,
    ) -> (r: Result<(), KError>)
        requires
            table_wf(*old(root), 2),
            zone_normal_ready(old(zones)@),
            4096 <= self.stack_base <= 0x80_0000_0000,
            4096 <= self.exp_stack_base <= 0x80_0000_0000,
            self.stack_base + 4096 <= usize::MAX,
            self.exp_stack_base + 4096 <= usize::MAX,
        ensures
            table_wf(*final(root), 2),
            zone_normal_ready(final(zones)@),
            final(zones)@[1].nalloc().same_geometry(old(zones)@[1].nalloc()),
            forall|z: int| 0 <= z < 3 && z != 1 ==> final(zones)@[z] == old(zones)@[z],
            r is Ok,
            // Each stack's frame goes back through the allocator's free path
            // (decrementing a shared descriptor, or removing it and marking
            // the frame FREE; EFAULT if it was never allocated).
            exists|mid: crate::page::naive_allocator, r1: Result<(), KError>, r2: Result<
                (),
                KError,
            >|
                #[trigger] crate::page::naive_allocator::free_post(
                    old(zones)@[1].nalloc(),
                    mid,
                    (self.stack_base - 4096) as usize,
                    r1,
                ) && #[trigger] crate::page::naive_allocator::free_post(
                    mid,
                    final(zones)@[1].nalloc(),
                    (self.exp_stack_base - 4096) as usize,
                    r2,
                ),
            // Both stack ranges stop translating.
            forall|va: u64|
                spec_align_down_4k(self.stack_base - 4096) <= va < spec_align_up_4k(
                    self.stack_base as int,
                ) ==> #[trigger] crate::vm::spec_translate(*final(root), va) is None,
            forall|va: u64|
                spec_align_down_4k(self.exp_stack_base - 4096) <= va < spec_align_up_4k(
                    self.exp_stack_base as int,
                ) ==> #[trigger] crate::vm::spec_translate(*final(root), va) is None,
    {
        let kt_stack_begin = self.stack_base - KTASK_STACK_SZ;
        let _free_stack = kfree_page(zones, zone_type::ZONE_NORMAL, kt_stack_begin);
        let ghost zmid = zones@[1].nalloc();
        let _ = range_unmap(root, kt_stack_begin, self.stack_base);

        let exp_stack_begin = self.exp_stack_base - KTASK_EXPSTACK_SZ;
        let _free_exp = kfree_page(zones, zone_type::ZONE_NORMAL, exp_stack_begin);
        let _ = range_unmap(root, exp_stack_begin, self.exp_stack_base);
        proof {
            assert(crate::page::naive_allocator::free_post(
                old(zones)@[1].nalloc(),
                zmid,
                (self.stack_base - 4096) as usize,
                _free_stack,
            ) && crate::page::naive_allocator::free_post(
                zmid,
                zones@[1].nalloc(),
                (self.exp_stack_base - 4096) as usize,
                _free_exp,
            ));
        }
        Ok(())
    }
}

/// Whether the scheduler may pick the given task.
fn is_task_schedulable(t: &task_struct) -> (r: bool)
    ensures
        r == is_schedulable(*t),
{
    match t.state {
        task_state::Ready => true,
        task_state::Running => true,
        _ => false,
    }
}

/// Ready and Running tasks are what the round-robin walk may pick.
pub open spec fn is_schedulable(t: task_struct) -> bool {
    t.state is Ready || t.state is Running
}

/// How many tasks of `q` the scheduler may pick.
pub open spec fn sched_cnt(q: Seq<task_struct>) -> int
    decreases q.len(),
{
    if q.len() == 0 {
        0
    } else {
        sched_cnt(q.drop_last()) + if is_schedulable(q.last()) {
            1int
        } else {
            0int
        }
    }
}

/// First schedulable index in `[lo, hi)`.
pub open spec fn first_sched_in(q: Seq<task_struct>, lo: int, hi: int) -> Option<int>
    decreases hi - lo,
{
    if lo < 0 || lo >= hi || hi > q.len() {
        None
    } else if is_schedulable(q[lo]) {
        Some(lo)
    } else {
        first_sched_in(q, lo + 1, hi)
    }
}

/// Where the round-robin walk lands when it starts at `start`: the first
/// schedulable index at or after `start`, wrapping around once.
pub open spec fn next_sched_from(q: Seq<task_struct>, start: int) -> Option<int> {
    match first_sched_in(q, start, q.len() as int) {
        Some(j) => Some(j),
        None => first_sched_in(q, 0, start),
    }
}

pub proof fn lemma_first_sched_props(q: Seq<task_struct>, lo: int, hi: int)
    requires
        0 <= lo <= hi <= q.len(),
    ensures
        first_sched_in(q, lo, hi) is Some ==> ({
            let j = first_sched_in(q, lo, hi)->0;
            &&& lo <= j < hi
            &&& is_schedulable(q[j])
            &&& forall|k: int| lo <= k < j ==> !is_schedulable(#[trigger] q[k])
        }),
        first_sched_in(q, lo, hi) is None ==> forall|k: int|
            lo <= k < hi ==> !is_schedulable(#[trigger] q[k]),
    decreases hi - lo,
{
    if lo < hi && !is_schedulable(q[lo]) {
        lemma_first_sched_props(q, lo + 1, hi);
    }
}

pub proof fn lemma_sched_cnt_nonneg(q: Seq<task_struct>)
    ensures
        sched_cnt(q) >= 0,
    decreases q.len(),
{
    if q.len() > 0 {
        lemma_sched_cnt_nonneg(q.drop_last());
    }
}

proof fn lemma_sched_cnt_pos_has(q: Seq<task_struct>)
    requires
        sched_cnt(q) > 0,
    ensures
        exists|j: int| 0 <= j < q.len() && is_schedulable(#[trigger] q[j]),
    decreases q.len(),
{
    lemma_sched_cnt_nonneg(q.drop_last());
    if !is_schedulable(q.last()) {
        lemma_sched_cnt_pos_has(q.drop_last());
        let j = choose|j: int|
            0 <= j < q.drop_last().len() && is_schedulable(#[trigger] q.drop_last()[j]);
        assert(is_schedulable(q[j]));
    } else {
        assert(is_schedulable(q[q.len() - 1]));
    }
}

/// A queue with a schedulable task always gives the walk somewhere to land.
pub proof fn lemma_next_sched_exists(q: Seq<task_struct>, start: int)
    requires
        0 <= start <= q.len(),
        sched_cnt(q) > 0,
    ensures
        next_sched_from(q, start) is Some,
{
    lemma_sched_cnt_pos_has(q);
    let j0 = choose|j: int| 0 <= j < q.len() && is_schedulable(#[trigger] q[j]);
    lemma_first_sched_props(q, start, q.len() as int);
    lemma_first_sched_props(q, 0, start);
    if first_sched_in(q, start, q.len() as int) is None && first_sched_in(q, 0, start) is None {
        assert(!is_schedulable(q[j0]));
    }
}

/// When every task is Ready, the walk lands exactly on `start`: yielding
/// tasks take turns in the order they were spawned.
pub proof fn lemma_round_robin_fifo(q: Seq<task_struct>, start: int)
    requires
        0 <= start < q.len(),
        forall|j: int| 0 <= j < q.len() ==> is_schedulable(#[trigger] q[j]),
    ensures
        next_sched_from(q, start) == Some(start),
{
}

/// Rewriting one queue without touching any task's pid or life id keeps the
/// pool well formed.
pub proof fn lemma_wf_after_task_update(pre: task_pool, post: task_pool, cpuid: int)
    requires
        pre.wf(),
        0 <= cpuid < MAX_HARTS,
        post == (task_pool { pool: post.pool, ..pre }),
        pre.pool[cpuid] is Some,
        post.pool@ == pre.pool@.update(cpuid, Some(post.pool[cpuid]->0)),
        post.q(cpuid).len() == pre.q(cpuid).len(),
        forall|i: int|
            0 <= i < post.q(cpuid).len() ==> (#[trigger] post.q(cpuid)[i]).pid == pre.q(
                cpuid,
            )[i].pid && post.q(cpuid)[i].life_id == pre.q(cpuid)[i].life_id,
    ensures
        post.wf(),
{
    assert forall|h: int, k: int|
        0 <= h < MAX_HARTS && post.pool[h] is Some && 0 <= k < post.q(h).len() implies (
    #[trigger] post.q(h)[k]).life_id < post.life_id && post.q(h)[k].pid < 104 by {
        if h == cpuid {
            assert(pre.q(h)[k].life_id < pre.life_id && pre.q(h)[k].pid < 104);
        } else {
            assert(post.pool@[h] == pre.pool@[h]);
            assert(pre.q(h)[k].life_id < pre.life_id && pre.q(h)[k].pid < 104);
            assert(post.q(h)[k] == pre.q(h)[k]);
        }
    }
}

/// Queues whose tasks agree state for state schedule identically: the walk
/// and the count look at nothing else.
pub proof fn lemma_first_sched_congruent(q1: Seq<task_struct>, q2: Seq<task_struct>, lo: int, hi: int)
    requires
        q1.len() == q2.len(),
        forall|i: int| 0 <= i < q1.len() ==> (#[trigger] q1[i]).state == q2[i].state,
    ensures
        first_sched_in(q1, lo, hi) == first_sched_in(q2, lo, hi),
    decreases hi - lo,
{
    if !(lo < 0 || lo >= hi || hi > q1.len()) {
        if !is_schedulable(q1[lo]) {
            lemma_first_sched_congruent(q1, q2, lo + 1, hi);
        }
    }
}

pub proof fn lemma_sched_cnt_congruent(q1: Seq<task_struct>, q2: Seq<task_struct>)
    requires
        q1.len() == q2.len(),
        forall|i: int| 0 <= i < q1.len() ==> (#[trigger] q1[i]).state == q2[i].state,
    ensures
        sched_cnt(q1) == sched_cnt(q2),
    decreases q1.len(),
{
    if q1.len() > 0 {
        lemma_sched_cnt_congruent(q1.drop_last(), q2.drop_last());
    }
}

/// With every task on a hart Ready, the walk lands exactly one past the
/// index it starts from: tasks that only yield take turns in the order they
/// were spawned.
pub proof fn lemma_yield_round_robin(p: task_pool, cpuid: int)
    requires
        0 <= cpuid < MAX_HARTS,
        p.pool[cpuid] is Some,
        p.next_task[cpuid] is Some,
        p.q(cpuid).len() > 0,
        forall|j: int| 0 <= j < p.q(cpuid).len() ==> is_schedulable(#[trigger] p.q(cpuid)[j]),
    ensures
        p.sched_pick(cpuid) == (p.next_task[cpuid]->0 + 1) % p.q(cpuid).len() as int,
{
    lemma_round_robin_fifo(p.q(cpuid), (p.next_task[cpuid]->0 + 1) % p.q(cpuid).len() as int);
}

/// What the scheduler decides: sit idle on the fallback task, or resume the
/// chosen task from M or from S.
#[derive(Clone, Copy, Debug, PartialEq, Eq, Structural)]
pub enum resume_path {
    FromM,
    FromS,
}

#[derive(Clone, Copy, Debug, PartialEq, Eq, Structural)]
pub enum sched_action {
    Idle,
    Resume { idx: usize, path: resume_path },
}

/// The per-hart task queues and the scheduling state shared by all harts.
pub struct task_pool {
    pub pool: Vec<Option<Vec<task_struct>>>,
    pub onlline_cpu_cnt: usize,
    pub current_task: Vec<Option<usize>>,
    pub next_task: Vec<Option<usize>>,
    pub fallback_task: Vec<Option<task_struct>>,
    pub crit_task_intstate: Vec<usize>,
    pub pidmap: Option<Bitmap<13>>,
    pub sems: Vec<Option<Vec<kt_semaphore>>>,
    pub life_id: usize,
}

impl task_pool {
    /// The queue of hart `h`.
    pub open spec fn q(self, h: int) -> Seq<task_struct> {
        self.pool[h]->0@
    }

    /// The pids currently marked taken.
    pub open spec fn pids(self) -> Set<usize> {
        bitmap_ones(self.pidmap->0)
    }

    /// Structural invariant: the per-hart tables have one slot per hart, the
    /// pid map exists, and every task's life id is below the counter and its
    /// pid inside the bitmap.
    pub open spec fn wf(self) -> bool {
        &&& self.pool.len() == MAX_HARTS
        &&& self.current_task.len() == MAX_HARTS
        &&& self.next_task.len() == MAX_HARTS
        &&& self.fallback_task.len() == MAX_HARTS
        &&& self.crit_task_intstate.len() == MAX_HARTS
        &&& self.sems.len() == MAX_HARTS
        &&& self.pidmap is Some
        &&& forall|h: int, i: int|
            0 <= h < MAX_HARTS && self.pool[h] is Some && 0 <= i < self.q(h).len() ==> (
            #[trigger] self.q(h)[i]).life_id < self.life_id && self.q(h)[i].pid < 104
    }

    /// The index the round-robin walk picks on this hart.
    pub open spec fn sched_pick(self, cpuid: int) -> int {
        next_sched_from(
            self.q(cpuid),
            (self.next_task[cpuid]->0 + 1) % self.q(cpuid).len() as int,
        )->0
    }

    /// Whether the hart last ran at machine level.
    pub open spec fn hart_at_m(frames: Seq<TrapFrame>, cpuid: int) -> bool {
        frames[cpuid].cur_mode is Machine || frames[cpuid].cur_mode is Machine_IRH
    }

    /// The hart's current slot names a live queue entry.
    pub open spec fn cur_live(self, cpuid: int) -> bool {
        &&& self.current_task[cpuid] is Some
        &&& self.pool[cpuid] is Some
        &&& self.current_task[cpuid]->0 < self.q(cpuid).len()
    }

    pub fn new() -> (r: task_pool)
        ensures
            r.pool.len() == MAX_HARTS,
            forall|h: int| 0 <= h < MAX_HARTS ==> (#[trigger] r.pool[h]) is None,
            r.current_task.len() == MAX_HARTS,
            r.next_task.len() == MAX_HARTS,
            r.fallback_task.len() == MAX_HARTS,
            r.crit_task_intstate.len() == MAX_HARTS,
            r.sems.len() == MAX_HARTS,
            r.pidmap is None,
            r.life_id == 1,
            r.onlline_cpu_cnt == MAX_HARTS,
    {
        let mut pool: Vec<Option<Vec<task_struct>>> = Vec::new();
        let mut current_task: Vec<Option<usize>> = Vec::new();
        let mut next_task: Vec<Option<usize>> = Vec::new();
        let mut fallback_task: Vec<Option<task_struct>> = Vec::new();
        let mut crit_task_intstate: Vec<usize> = Vec::new();
        let mut sems: Vec<Option<Vec<kt_semaphore>>> = Vec::new();
        let mut i: usize = 0;
        while i < MAX_HARTS
            invariant
                i <= MAX_HARTS,
                pool.len() == i,
                current_task.len() == i,
                next_task.len() == i,
                fallback_task.len() == i,
                crit_task_intstate.len() == i,
                sems.len() == i,
                forall|h: int| 0 <= h < i ==> (#[trigger] pool[h]) is None,
            decreases MAX_HARTS - i,
        {
            pool.push(None);
            current_task.push(None);
            next_task.push(None);
            fallback_task.push(None);
            crit_task_intstate.push(0);
            sems.push(None);
            i = i + 1;
        }
        task_pool {
            pool,
            onlline_cpu_cnt: MAX_HARTS,
            current_task,
            next_task,
            fallback_task,
            crit_task_intstate,
            pidmap: None,
            sems,
            life_id: 1,
        }
    }

    /// Bring the pool up: empty queues, indices at 0, a fresh pid map, and
    /// one fallback task per hart running `fallback_func`.
    pub fn init(
        &mut self,
        cpucnt: usize,
        fallback_func: usize,
        ksatp: u64,
        root: &mut PageTable,
        zones: &mut Vec<mem_zone>,
        heap: &mut kmem,
    ) -> (r: Result<(), KError>)
        requires
            old(self).pool.len() == MAX_HARTS,
            old(self).current_task.len() == MAX_HARTS,
            old(self).next_task.len() == MAX_HARTS,
            old(self).fallback_task.len() == MAX_HARTS,
            old(self).crit_task_intstate.len() == MAX_HARTS,
            old(self).sems.len() == MAX_HARTS,
            old(self).life_id >= 1,
            forall|h: int| 0 <= h < MAX_HARTS ==> (#[trigger] old(self).pool[h]) is None,
            old(self).pidmap is None,
            cpucnt <= MAX_HARTS,
            table_wf(*old(root), 2),
            zone_normal_ready(old(zones)@),
            ksatp <= usize::MAX,
            old(zones)@[1].nalloc().mem_begin + old(zones)@[1].nalloc().tot_page * 4096
                <= 0x80_0000_0000 - 4096,
            old(zones)@[1].nalloc().mem_begin + old(zones)@[1].nalloc().tot_page * 4096 + 8192
                <= usize::MAX,
        ensures
            table_wf(*final(root), 2),
            zone_normal_ready(final(zones)@),
            final(zones)@[1].nalloc().same_geometry(old(zones)@[1].nalloc()),
            *final(heap) == *old(heap),
            r is Err ==> r->Err_0.er_type == KErrorType::ENOMEM,
            // Six FREE frames per hart carry every fallback task's stacks
            // and tables.
            crate::vm::normal_free_count(old(zones)@) >= 6 * cpucnt ==> r is Ok,
            r is Ok ==> crate::vm::normal_free_count(final(zones)@)
                >= crate::vm::normal_free_count(old(zones)@) - 6 * cpucnt,
            r is Ok ==> ({
                &&& final(self).wf()
                &&& forall|h: int|
                    0 <= h < cpucnt ==> (#[trigger] final(self).pool[h]) is Some
                        && final(self).q(h).len() == 0
                &&& forall|h: int|
                    0 <= h < cpucnt ==> (#[trigger] final(self).current_task[h]) == Some(0usize)
                        && final(self).next_task[h] == Some(0usize)
                &&& final(self).pids() == Set::<usize>::empty()
                &&& final(self).life_id == old(self).life_id
                &&& forall|h: int|
                    0 <= h < cpucnt ==> (#[trigger] final(self).fallback_task[h]) is Some
            }),
    {
        let mut cpuid: usize = 0;
        while cpuid < cpucnt
            invariant
                cpuid <= cpucnt,
                cpucnt <= MAX_HARTS,
                self.pool.len() == MAX_HARTS,
                self.current_task.len() == MAX_HARTS,
                self.next_task.len() == MAX_HARTS,
                self.fallback_task.len() == MAX_HARTS,
                self.crit_task_intstate.len() == MAX_HARTS,
                self.sems.len() == MAX_HARTS,
                self.life_id == old(self).life_id,
                self.life_id >= 1,
                *heap == *old(heap),
                forall|h: int|
                    cpuid <= h < MAX_HARTS ==> (#[trigger] self.pool[h]) is None,
                table_wf(*root, 2),
                old(zones)@.len() == 3,
                zone_normal_ready(zones@),
                zones@[1].nalloc().same_geometry(old(zones)@[1].nalloc()),
                ksatp <= usize::MAX,
                old(zones)@[1].nalloc().mem_begin + old(zones)@[1].nalloc().tot_page * 4096
                    <= 0x80_0000_0000 - 4096,
                old(zones)@[1].nalloc().mem_begin + old(zones)@[1].nalloc().tot_page * 4096
                    + 8192 <= usize::MAX,
                forall|h: int|
                    0 <= h < cpuid ==> (#[trigger] self.pool[h]) is Some && self.q(h).len() == 0,
                forall|h: int|
                    0 <= h < cpuid ==> (#[trigger] self.current_task[h]) == Some(0usize)
                        && self.next_task[h] == Some(0usize),
                forall|h: int|
                    0 <= h < cpuid ==> (#[trigger] self.fallback_task[h]) is Some,
                cpuid == 0 ==> self.pidmap is None,
                cpuid > 0 ==> self.pidmap is Some && bitmap_ones(self.pidmap->0) == Set::<
                    usize,
                >::empty(),
                crate::vm::normal_free_count(zones@) >= crate::vm::normal_free_count(
                    old(zones)@,
                ) - 6 * cpuid,
            decreases cpucnt - cpuid,
        {
            self.pool[cpuid] = Some(Vec::new());

            let mut fallb = task_struct::new();
            let init_ret = fallb.init(
                fallback_func,
                task_flag::NORMAL,
                cpuid,
                ksatp,
                root,
                zones,
                heap,
            );
            match init_ret {
                Ok(_) => {},
                Err(e) => {
                    proof {
                        if crate::vm::normal_free_count(old(zones)@) >= 6 * cpucnt {
                            assert(false);
                        }
                    }
                    return Err(e);
                },
            }
            self.fallback_task[cpuid] = Some(fallb);

            self.next_task[cpuid] = Some(0);
            self.current_task[cpuid] = Some(0);
            self.pidmap = Some(pidmap_new());
            cpuid = cpuid + 1;
        }
        if self.pidmap.is_none() {
            self.pidmap = Some(pidmap_new());
        }
        Ok(())
    }

    /// Take the lowest free pid out of the global bitmap; ENOMEM when every
    /// pid is taken.
    fn get_new_pid(&mut self) -> (r: Result<usize, KError>)
        requires
            old(self).pidmap is Some,
        ensures
            *final(self) == (task_pool { pidmap: final(self).pidmap, ..*old(self) }),
            final(self).pidmap is Some,
            r is Err ==> r->Err_0.er_type == KErrorType::ENOMEM && *final(self) == *old(self)
                && (forall|j: usize| j < 104 ==> old(self).pids().contains(j)),
            r is Ok ==> ({
                &&& r->Ok_0 < 104
                &&& !old(self).pids().contains(r->Ok_0)
                &&& (forall|j: usize| j < r->Ok_0 ==> old(self).pids().contains(j))
                &&& final(self).pids() == old(self).pids().insert(r->Ok_0)
            }),
    {
        match self.pidmap {
            Some(ref mut idmap) => {
                let newid = pidmap_find_first_zero(idmap);
                match newid {
                    Some(new_id) => {
                        pidmap_set(idmap, new_id);
                        Ok(new_id)
                    },
                    None => Err(
                        KError::new(KErrorType::ENOMEM, "kthread.rs", "get_new_pid", 0),
                    ),
                }
            },
            None => Err(KError::new(KErrorType::ENOMEM, "kthread.rs", "get_new_pid", 0)),
        }
    }

    /// Return a pid to the bitmap so a later spawn can take it again.
    fn reclaim_pid(&mut self, oldpid: usize)
        requires
            old(self).pidmap is Some,
            oldpid < 104,
        ensures
            *final(self) == (task_pool { pidmap: final(self).pidmap, ..*old(self) }),
            final(self).pidmap is Some,
            final(self).pids() == old(self).pids().remove(oldpid),
    {
        match self.pidmap {
            Some(ref mut idmap) => {
                pidmap_reset(idmap, oldpid);
            },
            None => {},
        }
    }

    /// Advance the hart's next-task index to the next Ready or Running task
    /// in cyclic order; an empty queue parks the index at 0.
    pub fn generate_next(&mut self, cpuid: usize) -> (r: Result<(), KError>)
        requires
            cpuid < MAX_HARTS,
            old(self).pool.len() == MAX_HARTS,
            old(self).next_task.len() == MAX_HARTS,
            old(self).pool[cpuid as int] is Some,
            old(self).q(cpuid as int).len() > 0 ==> sched_cnt(old(self).q(cpuid as int)) > 0,
        ensures
            *final(self) == (task_pool { next_task: final(self).next_task, ..*old(self) }),
            final(self).next_task@ == old(self).next_task@.update(
                cpuid as int,
                final(self).next_task[cpuid as int],
            ),
            old(self).next_task[cpuid as int] is None ==> r is Err && r->Err_0.er_type
                == KErrorType::EFAULT && final(self).next_task[cpuid as int] == old(
                self,
            ).next_task[cpuid as int],
            old(self).next_task[cpuid as int] is Some ==> r is Ok && ({
                let q = old(self).q(cpuid as int);
                let n0 = old(self).next_task[cpuid as int]->0;
                if q.len() == 0 {
                    final(self).next_task[cpuid as int] == Some(0usize)
                } else {
                    final(self).next_task[cpuid as int] == Some(
                        next_sched_from(q, (n0 + 1) % q.len() as int)->0 as usize,
                    )
                }
            }),
    {
        let n0 = match self.next_task[cpuid] {
            Some(n) => n,
            None => {
                return Err(KError::new(KErrorType::EFAULT, "kthread.rs", "generate_next", 0));
            },
        };
        let qlen = match self.pool[cpuid] {
            Some(ref taskq) => taskq.len(),
            None => {
                return Err(KError::new(KErrorType::EFAULT, "kthread.rs", "generate_next", 0));
            },
        };
        if qlen == 0 {
            self.next_task[cpuid] = Some(0);
            return Ok(());
        }
        let ghost q = self.q(cpuid as int);
        let n0m = n0 % qlen;
        let start = if n0m + 1 == qlen {
            0
        } else {
            n0m + 1
        };
        proof {
            assert(start == (n0 + 1) % qlen as int) by (nonlinear_arith)
                requires
                    qlen > 0,
                    n0m == n0 % qlen,
                    start == (if n0m + 1 == qlen {
                        0usize
                    } else {
                        (n0m + 1) as usize
                    }),
            ;
            lemma_next_sched_exists(q, (n0 + 1) % qlen as int);
        }
        let mut j = start;
        let mut scanned_high: bool = false;
        match self.pool[cpuid] {
            Some(ref taskq) => {
                while j < taskq.len() && !is_task_schedulable(&taskq[j])
                    invariant
                        taskq@ == q,
                        start < q.len(),
                        start <= j <= q.len(),
                        forall|k: int| start <= k < j ==> !is_schedulable(#[trigger] q[k]),
                    decreases taskq.len() - j,
                {
                    j = j + 1;
                }
                if j >= taskq.len() {
                    scanned_high = true;
                    j = 0;
                    while j < start && !is_task_schedulable(&taskq[j])
                        invariant
                            taskq@ == q,
                            start < q.len(),
                            j <= start,
                            forall|k: int| start <= k < q.len() ==> !is_schedulable(
                                #[trigger] q[k],
                            ),
                            forall|k: int| 0 <= k < j ==> !is_schedulable(#[trigger] q[k]),
                        decreases start - j,
                    {
                        j = j + 1;
                    }
                    if j >= start {
                        proof {
                            lemma_first_sched_props(q, start as int, q.len() as int);
                            lemma_first_sched_props(q, 0, start as int);
                            assert(next_sched_from(q, start as int) is None);
                            assert(false);
                        }
                        return Err(
                            KError::new(KErrorType::EFAULT, "kthread.rs", "generate_next", 0),
                        );
                    }
                }
            },
            None => {
                return Err(KError::new(KErrorType::EFAULT, "kthread.rs", "generate_next", 0));
            },
        }
        proof {
            assert(is_schedulable(q[j as int]));
            if !scanned_high {
                lemma_first_sched_props(q, start as int, q.len() as int);
                assert(first_sched_in(q, start as int, q.len() as int) == Some(j as int));
            } else {
                lemma_first_sched_props(q, start as int, q.len() as int);
                lemma_first_sched_props(q, 0, start as int);
                assert(first_sched_in(q, start as int, q.len() as int) is None);
                assert(first_sched_in(q, 0, start as int) == Some(j as int));
            }
        }
        self.next_task[cpuid] = Some(j);
        Ok(())
    }

    /// Copy the hart's kernel trap frame into the current task's frame.
    pub fn save_from_ktrapframe(
        &mut self,
        cpuid: usize,
        kernel_frames: &Vec<TrapFrame>,
    ) -> (r: Result<(), KError>)
        requires
            cpuid < MAX_HARTS,
            old(self).pool.len() == MAX_HARTS,
            old(self).current_task.len() == MAX_HARTS,
        ensures
            old(self).wf() ==> final(self).wf(),
            r is Err <==> !(old(self).cur_live(cpuid as int) && old(self).q(cpuid as int)[old(
                self,
            ).current_task[cpuid as int]->0 as int].cpu < kernel_frames.len()),
            r is Err ==> r->Err_0.er_type == KErrorType::EINVAL && *final(self) == *old(self),
            r is Ok ==> ({
                let idx = old(self).current_task[cpuid as int]->0 as int;
                let t0 = old(self).q(cpuid as int)[idx];
                let t1 = task_struct {
                    trap_frame: TrapFrame {
                        trap_stack: t0.trap_frame.trap_stack,
                        ..kernel_frames[t0.cpu as int]
                    },
                    ..t0
                };
                &&& *final(self) == (task_pool { pool: final(self).pool, ..*old(self) })
                &&& final(self).pool@ == old(self).pool@.update(
                    cpuid as int,
                    Some(final(self).pool[cpuid as int]->0),
                )
                &&& final(self).q(cpuid as int) == old(self).q(cpuid as int).update(idx, t1)
            }),
    {
        let cur_taskidx = match self.current_task[cpuid] {
            Some(i) => i,
            None => {
                return Err(
                    KError::new(KErrorType::EINVAL, "kthread.rs", "save_from_ktrapframe", 0),
                );
            },
        };
        let qlen = match &self.pool[cpuid] {
            Some(taskvec) => taskvec.len(),
            None => {
                return Err(
                    KError::new(KErrorType::EINVAL, "kthread.rs", "save_from_ktrapframe", 0),
                );
            },
        };
        if cur_taskidx >= qlen {
            return Err(KError::new(KErrorType::EINVAL, "kthread.rs", "save_from_ktrapframe", 0));
        }
        let task_cpu = match &self.pool[cpuid] {
            Some(taskvec) => taskvec[cur_taskidx].cpu,
            None => 0,
        };
        if task_cpu >= kernel_frames.len() {
            return Err(KError::new(KErrorType::EINVAL, "kthread.rs", "save_from_ktrapframe", 0));
        }
        match self.pool[cpuid] {
            Some(ref mut taskvec) => {
                let task = &mut taskvec[cur_taskidx];
                task.save(kernel_frames);
            },
            None => {},
        }
        proof {
            if old(self).wf() {
                assert(forall|i: int|
                    0 <= i < self.q(cpuid as int).len() ==> (#[trigger] self.q(
                        cpuid as int,
                    )[i]).pid == old(self).q(cpuid as int)[i].pid && self.q(cpuid as int)[i].life_id
                        == old(self).q(cpuid as int)[i].life_id);
                lemma_wf_after_task_update(*old(self), *self, cpuid as int);
            }
        }
        Ok(())
    }

    /// Set the current task's lifecycle state.
    pub fn set_current_state(&mut self, cpuid: usize, new_state: task_state) -> (r: Result<
        (),
        KError,
    >)
        requires
            cpuid < MAX_HARTS,
            old(self).pool.len() == MAX_HARTS,
            old(self).current_task.len() == MAX_HARTS,
        ensures
            old(self).wf() ==> final(self).wf(),
            r is Err <==> !old(self).cur_live(cpuid as int),
            r is Err ==> r->Err_0.er_type == KErrorType::EINVAL && *final(self) == *old(self),
            r is Ok ==> ({
                let idx = old(self).current_task[cpuid as int]->0 as int;
                let t0 = old(self).q(cpuid as int)[idx];
                &&& *final(self) == (task_pool { pool: final(self).pool, ..*old(self) })
                &&& final(self).pool@ == old(self).pool@.update(
                    cpuid as int,
                    Some(final(self).pool[cpuid as int]->0),
                )
                &&& final(self).q(cpuid as int) == old(self).q(cpuid as int).update(
                    idx,
                    task_struct { state: new_state, ..t0 },
                )
            }),
    {
        let cur_taskidx = match self.current_task[cpuid] {
            Some(i) => i,
            None => {
                return Err(
                    KError::new(KErrorType::EINVAL, "kthread.rs", "set_current_state", 0),
                );
            },
        };
        let qlen = match &self.pool[cpuid] {
            Some(taskvec) => taskvec.len(),
            None => {
                return Err(KError::new(KErrorType::EINVAL, "kthread.rs", "set_current_state", 0));
            },
        };
        if cur_taskidx >= qlen {
            return Err(KError::new(KErrorType::EINVAL, "kthread.rs", "set_current_state", 0));
        }
        match self.pool[cpuid] {
            Some(ref mut taskvec) => {
                let task = &mut taskvec[cur_taskidx];
                task.set_state(new_state);
            },
            None => {},
        }
        proof {
            if old(self).wf() {
                assert(forall|i: int|
                    0 <= i < self.q(cpuid as int).len() ==> (#[trigger] self.q(
                        cpuid as int,
                    )[i]).pid == old(self).q(cpuid as int)[i].pid && self.q(cpuid as int)[i].life_id
                        == old(self).q(cpuid as int)[i].life_id);
                lemma_wf_after_task_update(*old(self), *self, cpuid as int);
            }
        }
        Ok(())
    }

    /// Set the current task's saved program counter.
    pub fn set_currentPC(&mut self, cpuid: usize, newpc: usize) -> (r: Result<(), KError>)
        requires
            cpuid < MAX_HARTS,
            old(self).pool.len() == MAX_HARTS,
            old(self).current_task.len() == MAX_HARTS,
        ensures
            old(self).wf() ==> final(self).wf(),
            r is Err <==> !old(self).cur_live(cpuid as int),
            r is Err ==> r->Err_0.er_type == KErrorType::EINVAL && *final(self) == *old(self),
            r is Ok ==> ({
                let idx = old(self).current_task[cpuid as int]->0 as int;
                let t0 = old(self).q(cpuid as int)[idx];
                &&& *final(self) == (task_pool { pool: final(self).pool, ..*old(self) })
                &&& final(self).pool@ == old(self).pool@.update(
                    cpuid as int,
                    Some(final(self).pool[cpuid as int]->0),
                )
                &&& final(self).q(cpuid as int) == old(self).q(cpuid as int).update(
                    idx,
                    task_struct { pc: newpc, ..t0 },
                )
            }),
    {
        let cur_taskidx = match self.current_task[cpuid] {
            Some(i) => i,
            None => {
                return Err(KError::new(KErrorType::EINVAL, "kthread.rs", "set_currentPC", 0));
            },
        };
        let qlen = match &self.pool[cpuid] {
            Some(taskvec) => taskvec.len(),
            None => {
                return Err(KError::new(KErrorType::EINVAL, "kthread.rs", "set_currentPC", 0));
            },
        };
        if cur_taskidx >= qlen {
            return Err(KError::new(KErrorType::EINVAL, "kthread.rs", "set_currentPC", 0));
        }
        match self.pool[cpuid] {
            Some(ref mut taskvec) => {
                let task = &mut taskvec[cur_taskidx];
                task.set_pc(newpc);
            },
            None => {},
        }
        proof {
            if old(self).wf() {
                assert(forall|i: int|
                    0 <= i < self.q(cpuid as int).len() ==> (#[trigger] self.q(
                        cpuid as int,
                    )[i]).pid == old(self).q(cpuid as int)[i].pid && self.q(cpuid as int)[i].life_id
                        == old(self).q(cpuid as int)[i].life_id);
                lemma_wf_after_task_update(*old(self), *self, cpuid as int);
            }
        }
        Ok(())
    }

    /// The saved mie values stashed when a Critical task was entered.
    pub fn get_crit_task_mie(&self) -> (r: &Vec<usize>)
        ensures
            r == &self.crit_task_intstate,
    {
        &self.crit_task_intstate
    }

    /// The current task's Critical/Normal flag.
    pub fn get_current_fg(&self, cpuid: usize) -> (r: Result<task_flag, KError>)
        requires
            cpuid < MAX_HARTS,
            self.pool.len() == MAX_HARTS,
            self.current_task.len() == MAX_HARTS,
        ensures
            r is Err <==> !self.cur_live(cpuid as int),
            r is Err ==> r->Err_0.er_type == KErrorType::EINVAL,
            r is Ok ==> r->Ok_0 == self.q(cpuid as int)[self.current_task[cpuid as int]->0 as int].flag,
    {
        let cur_taskidx = match self.current_task[cpuid] {
            Some(i) => i,
            None => {
                return Err(KError::new(KErrorType::EINVAL, "kthread.rs", "get_current_fg", 0));
            },
        };
        match self.pool[cpuid] {
            Some(ref taskvec) => {
                if cur_taskidx >= taskvec.len() {
                    return Err(KError::new(KErrorType::EINVAL, "kthread.rs", "get_current_fg", 0));
                }
                Ok(taskvec[cur_taskidx].flag)
            },
            None => Err(KError::new(KErrorType::EINVAL, "kthread.rs", "get_current_fg", 0)),
        }
    }

    /// The current task's pid.
    pub fn get_current_pid(&self, cpuid: usize) -> (r: Result<usize, KError>)
        requires
            cpuid < MAX_HARTS,
            self.pool.len() == MAX_HARTS,
            self.current_task.len() == MAX_HARTS,
        ensures
            r is Err <==> !self.cur_live(cpuid as int),
            r is Err ==> r->Err_0.er_type == KErrorType::EINVAL,
            r is Ok ==> r->Ok_0 == self.q(cpuid as int)[self.current_task[cpuid as int]->0 as int].pid,
    {
        let cur_taskidx = match self.current_task[cpuid] {
            Some(i) => i,
            None => {
                return Err(KError::new(KErrorType::EINVAL, "kthread.rs", "get_current_pid", 0));
            },
        };
        match self.pool[cpuid] {
            Some(ref taskvec) => {
                if cur_taskidx >= taskvec.len() {
                    return Err(KError::new(KErrorType::EINVAL, "kthread.rs", "get_current_pid", 0));
                }
                Ok(taskvec[cur_taskidx].pid)
            },
            None => Err(KError::new(KErrorType::EINVAL, "kthread.rs", "get_current_pid", 0)),
        }
    }

    /// The current task's life id.
    pub fn get_current_lifeid(&self, cpuid: usize) -> (r: Result<usize, KError>)
        requires
            cpuid < MAX_HARTS,
            self.pool.len() == MAX_HARTS,
            self.current_task.len() == MAX_HARTS,
        ensures
            r is Err <==> !self.cur_live(cpuid as int),
            r is Err ==> r->Err_0.er_type == KErrorType::EINVAL,
            r is Ok ==> r->Ok_0 == self.q(cpuid as int)[self.current_task[cpuid as int]->0 as int].life_id,
    {
        let cur_taskidx = match self.current_task[cpuid] {
            Some(i) => i,
            None => {
                return Err(
                    KError::new(KErrorType::EINVAL, "kthread.rs", "get_current_lifeid", 0),
                );
            },
        };
        match self.pool[cpuid] {
            Some(ref taskvec) => {
                if cur_taskidx >= taskvec.len() {
                    return Err(KError::new(KErrorType::EINVAL, "kthread.rs", "get_current_lifeid", 0));
                }
                Ok(taskvec[cur_taskidx].life_id)
            },
            None => Err(KError::new(KErrorType::EINVAL, "kthread.rs", "get_current_lifeid", 0)),
        }
    }

    /// How many tasks on this hart the scheduler may pick.
    pub fn get_scheduable_cnt(&self, cpuid: usize) -> (r: usize)
        requires
            cpuid < MAX_HARTS,
            self.pool.len() == MAX_HARTS,
        ensures
            self.pool[cpuid as int] is Some ==> r == sched_cnt(self.q(cpuid as int)),
            self.pool[cpuid as int] is None ==> r == 0,
    {
        match self.pool[cpuid] {
            Some(ref taskvec) => {
                let mut live_cnt: usize = 0;
                let mut i: usize = 0;
                proof {
                    assert(taskvec@.subrange(0, 0) =~= Seq::<task_struct>::empty());
                }
                while i < taskvec.len()
                    invariant
                        i <= taskvec.len(),
                        live_cnt == sched_cnt(taskvec@.subrange(0, i as int)),
                        live_cnt <= i,
                    decreases taskvec.len() - i,
                {
                    proof {
                        assert(taskvec@.subrange(0, i + 1).drop_last() =~= taskvec@.subrange(
                            0,
                            i as int,
                        ));
                        assert(taskvec@.subrange(0, i + 1).last() == taskvec@[i as int]);
                    }
                    match taskvec[i].get_state() {
                        task_state::Ready => {
                            live_cnt = live_cnt + 1;
                        },
                        task_state::Running => {
                            live_cnt = live_cnt + 1;
                        },
                        _ => {},
                    }
                    i = i + 1;
                }
                proof {
                    assert(taskvec@.subrange(0, taskvec.len() as int) =~= taskvec@);
                }
                live_cnt
            },
            None => 0,
        }
    }

    /// Add a task to a hart's queue under a fresh pid and the next life id.
    /// The life id is larger than that of every task spawned before, for all
    /// time: a reused pid never resurrects an old identity.
    #[verifier::rlimit(100)]
    #[verifier::spinoff_prover]
    pub fn append_task(&mut self, new_task: task_struct, cpuid: usize) -> (r: Result<(), KError>)
        requires
            cpuid < MAX_HARTS,
            old(self).wf(),
            old(self).life_id + 1 <= usize::MAX,
        ensures
            final(self).wf(),
            r is Err && r->Err_0.er_type == KErrorType::ENOMEM <==> (forall|j: usize|
                j < 104 ==> old(self).pids().contains(j)),
            r is Err && r->Err_0.er_type == KErrorType::ENOMEM ==> *final(self) == *old(self),
            !(forall|j: usize| j < 104 ==> old(self).pids().contains(j)) ==> ({
                let pid = choose|p: usize|
                    p < 104 && !old(self).pids().contains(p) && forall|j: usize|
                        j < p ==> old(self).pids().contains(j);
                &&& !old(self).pids().contains(pid)
                &&& pid < 104
                &&& final(self).pids() == old(self).pids().insert(pid)
                &&& final(self).life_id == old(self).life_id + 1
                &&& (old(self).pool[cpuid as int] is None ==> r is Err
                    && r->Err_0.er_type == KErrorType::EINVAL)
                &&& (old(self).pool[cpuid as int] is Some ==> r is Ok && final(self).q(
                    cpuid as int,
                ) == old(self).q(cpuid as int).push(
                    task_struct { pid, life_id: old(self).life_id, ..new_task },
                ) && (forall|i: int|
                    0 <= i < old(self).q(cpuid as int).len() ==> (#[trigger] old(self).q(
                        cpuid as int,
                    )[i]).life_id < old(self).life_id))
                &&& (forall|h: int|
                    0 <= h < MAX_HARTS && h != cpuid ==> (#[trigger] final(self).pool[h]) == old(
                        self,
                    ).pool[h])
            }),
    {
        let mut new_task = new_task;
        let pid = match self.get_new_pid() {
            Ok(p) => p,
            Err(e) => {
                return Err(e);
            },
        };
        new_task.pid = pid;

        new_task.life_id = self.life_id;
        self.life_id = self.life_id + 1;

        proof {
            assert(pid == (choose|p: usize|
                p < 104 && !old(self).pids().contains(p) && forall|j: usize|
                    j < p ==> old(self).pids().contains(j)));
        }
        if self.pool[cpuid].is_none() {
            proof {
                assert forall|h: int, i: int|
                    0 <= h < MAX_HARTS && self.pool[h] is Some && 0 <= i < self.q(h).len()
                    implies (#[trigger] self.q(h)[i]).life_id < self.life_id && self.q(h)[i].pid
                    < 104 by {
                    assert(old(self).q(h)[i].life_id < old(self).life_id && old(self).q(
                        h,
                    )[i].pid < 104);
                    assert(self.q(h)[i] == old(self).q(h)[i]);
                }
            }
            return Err(KError::new(KErrorType::EINVAL, "kthread.rs", "append_task", 0));
        }
        match self.pool[cpuid] {
            Some(ref mut boxvec) => {
                boxvec.push(new_task);
            },
            None => {},
        }
        proof {
            assert(self.pool@ == old(self).pool@.update(
                cpuid as int,
                self.pool@[cpuid as int],
            ));
            assert(self.q(cpuid as int) == old(self).q(cpuid as int).push(
                task_struct { pid, life_id: old(self).life_id, ..new_task },
            ));
            assert forall|h: int, i: int|
                0 <= h < MAX_HARTS && self.pool[h] is Some && 0 <= i < self.q(h).len() implies (
            #[trigger] self.q(h)[i]).life_id < self.life_id && self.q(h)[i].pid < 104 by {
                if h == cpuid {
                    if i < self.q(h).len() - 1 {
                        assert(old(self).pool[h] is Some);
                        assert(old(self).q(h)[i].life_id < old(self).life_id && old(self).q(
                            h,
                        )[i].pid < 104);
                        assert(self.q(h)[i] == old(self).q(h)[i]);
                    } else {
                        assert(self.q(h)[i] == task_struct {
                            pid,
                            life_id: old(self).life_id,
                            ..new_task
                        });
                        assert(pid < 104);
                    }
                } else {
                    assert(self.pool@[h] == old(self).pool@[h]);
                    assert(old(self).q(h)[i].life_id < old(self).life_id && old(self).q(
                        h,
                    )[i].pid < 104);
                    assert(self.q(h)[i] == old(self).q(h)[i]);
                }
            }
        }
        Ok(())
    }

    /// Drop the current task from its hart's queue by index swap and return
    /// its pid to the bitmap: a later spawn may take the pid again. Hands
    /// the removed task back so its stacks can be reclaimed.
    #[verifier::rlimit(100)]
    #[verifier::spinoff_prover]
    pub fn remove_cur_task(&mut self, cpuid: usize) -> (r: Result<Option<task_struct>, KError>)
        requires
            cpuid < MAX_HARTS,
            old(self).wf(),
        ensures
            final(self).wf(),
            old(self).current_task[cpuid as int] is None ==> r is Ok && r->Ok_0 is None
                && *final(self) == *old(self),
            old(self).current_task[cpuid as int] is Some && !old(self).cur_live(cpuid as int)
                ==> r is Err && r->Err_0.er_type == KErrorType::EFAULT && *final(self) == *old(
                self,
            ),
            old(self).cur_live(cpuid as int) ==> ({
                let idx = old(self).current_task[cpuid as int]->0 as int;
                let removed = old(self).q(cpuid as int)[idx];
                &&& r is Ok
                &&& r->Ok_0 == Some(removed)
                &&& final(self).pool[cpuid as int] is Some
                &&& final(self).current_task@ == old(self).current_task@
                &&& final(self).next_task@ == old(self).next_task@
                &&& final(self).crit_task_intstate@ == old(self).crit_task_intstate@
                &&& final(self).fallback_task@ == old(self).fallback_task@
                &&& final(self).sems@ == old(self).sems@
                &&& final(self).q(cpuid as int) == old(self).q(cpuid as int).update(
                    idx,
                    old(self).q(cpuid as int).last(),
                ).drop_last()
                &&& final(self).pids() == old(self).pids().remove(removed.pid)
                &&& final(self).life_id == old(self).life_id
                &&& (forall|h: int|
                    0 <= h < MAX_HARTS && h != cpuid ==> (#[trigger] final(self).pool[h]) == old(
                        self,
                    ).pool[h])
            }),
    {
        let cur_taskidx = match self.current_task[cpuid] {
            Some(i) => i,
            None => {
                return Ok(None);
            },
        };
        let qlen = match &self.pool[cpuid] {
            Some(taskvec) => taskvec.len(),
            None => {
                return Err(KError::new(KErrorType::EFAULT, "kthread.rs", "remove_cur_task", 0));
            },
        };
        if cur_taskidx >= qlen {
            return Err(KError::new(KErrorType::EFAULT, "kthread.rs", "remove_cur_task", 0));
        }
        let died: task_struct;
        match self.pool[cpuid] {
            Some(ref mut boxvec) => {
                died = boxvec.swap_remove(cur_taskidx);
            },
            None => {
                return Err(KError::new(KErrorType::EFAULT, "kthread.rs", "remove_cur_task", 0));
            },
        }
        proof {
            assert(old(self).q(cpuid as int)[cur_taskidx as int].pid < 104);
        }
        self.reclaim_pid(died.pid);
        proof {
            assert forall|h: int, i: int|
                0 <= h < MAX_HARTS && self.pool[h] is Some && 0 <= i < self.q(h).len() implies (
            #[trigger] self.q(h)[i]).life_id < self.life_id && self.q(h)[i].pid < 104 by {
                if h == cpuid {
                    let oq = old(self).q(h);
                    assert(self.q(h) == oq.update(cur_taskidx as int, oq.last()).drop_last());
                    if i == cur_taskidx {
                        assert(self.q(h)[i] == oq[oq.len() - 1]);
                        assert(oq[oq.len() - 1].life_id < old(self).life_id && oq[oq.len()
                            - 1].pid < 104);
                    } else {
                        assert(self.q(h)[i] == oq[i]);
                        assert(oq[i].life_id < old(self).life_id && oq[i].pid < 104);
                    }
                } else {
                    assert(self.pool@[h] == old(self).pool@[h]);
                    assert(old(self).q(h)[i].life_id < old(self).life_id && old(self).q(
                        h,
                    )[i].pid < 104);
                    assert(self.q(h)[i] == old(self).q(h)[i]);
                }
            }
        }
        Ok(Some(died))
    }

    /// Which context-restore path serves the hart's fallback task.
    pub fn fallback(&self, cpuid: usize, kernel_frames: &Vec<TrapFrame>) -> (r: Result<
        resume_path,
        KError,
    >)
        requires
            cpuid < MAX_HARTS,
            self.fallback_task.len() == MAX_HARTS,
            cpuid < kernel_frames.len(),
        ensures
            r is Err <==> self.fallback_task[cpuid as int] is None,
            r is Err ==> r->Err_0.er_type == KErrorType::EINVAL,
            r is Ok ==> r->Ok_0 == (if kernel_frames[cpuid as int].cur_mode is Machine
                || kernel_frames[cpuid as int].cur_mode is Machine_IRH {
                resume_path::FromM
            } else {
                resume_path::FromS
            }),
    {
        match self.fallback_task[cpuid] {
            Some(_) => {
                let current_mode = crate::cpu::get_cpu_mode(kernel_frames, cpuid);
                match current_mode {
                    Mode::Machine | Mode::Machine_IRH => Ok(resume_path::FromM),
                    _ => Ok(resume_path::FromS),
                }
            },
            None => Err(KError::new(KErrorType::EINVAL, "kthread.rs", "fallback", 0)),
        }
    }

    /// Pick the next task: with no schedulable task left the queue is
    /// cleared and the hart idles on its fallback; otherwise the round-robin
    /// walk picks the task, a Critical task entered from M level masks
    /// interrupts with the previous mie stashed, and the task is resumed
    /// from the level the hart is at.
    #[verifier::rlimit(100)]
    #[verifier::spinoff_prover]
    pub fn sched(
        &mut self,
        cpuid: usize,
        kernel_frames: &Vec<TrapFrame>,
        csr: &mut hart_csrs,
    ) -> (r: Result<sched_action, KError>)
        requires
            cpuid < MAX_HARTS,
            old(self).wf(),
            cpuid < kernel_frames.len(),
            old(self).pool[cpuid as int] is Some,
            old(self).next_task[cpuid as int] is Some,
        ensures
            final(self).wf(),
            sched_cnt(old(self).q(cpuid as int)) == 0 ==> ({
                &&& r == Ok::<sched_action, KError>(sched_action::Idle)
                &&& final(self).q(cpuid as int).len() == 0
                &&& (forall|h: int|
                    0 <= h < MAX_HARTS ==> (#[trigger] final(self).current_task[h]) == Some(
                        0usize,
                    ) && final(self).next_task[h] == Some(0usize))
                &&& *final(csr) == *old(csr)
            }),
            sched_cnt(old(self).q(cpuid as int)) > 0 ==> r is Ok && r->Ok_0 == (
            sched_action::Resume {
                idx: old(self).sched_pick(cpuid as int) as usize,
                path: if Self::hart_at_m(kernel_frames@, cpuid as int) {
                    resume_path::FromM
                } else {
                    resume_path::FromS
                },
            }),
            final(self).pool[cpuid as int] is Some,
            final(self).next_task[cpuid as int] is Some,
            final(self).current_task[cpuid as int] is Some,
            forall|h: int|
                0 <= h < MAX_HARTS && h != cpuid ==> (#[trigger] final(self).pool[h]) == old(
                    self,
                ).pool[h],
            final(self).pids() == old(self).pids(),
            final(self).life_id == old(self).life_id,
            sched_cnt(old(self).q(cpuid as int)) > 0 ==> final(self).q(cpuid as int)
                == old(self).q(cpuid as int) && 0 <= old(self).sched_pick(cpuid as int) < old(
                self,
            ).q(cpuid as int).len() && is_schedulable(
                old(self).q(cpuid as int)[old(self).sched_pick(cpuid as int)],
            ),
            sched_cnt(old(self).q(cpuid as int)) > 0 ==> final(self).current_task[cpuid as int]
                == Some(old(self).sched_pick(cpuid as int) as usize)
                && final(self).next_task[cpuid as int] == Some(
                old(self).sched_pick(cpuid as int) as usize,
            ),
            sched_cnt(old(self).q(cpuid as int)) > 0 && Self::hart_at_m(
                kernel_frames@,
                cpuid as int,
            ) && old(self).q(cpuid as int)[old(self).sched_pick(cpuid as int)].flag is CRITICAL
                ==> *final(csr) == (hart_csrs { mie: 0, ..*old(csr) })
                && final(self).crit_task_intstate@ == old(self).crit_task_intstate@.update(
                cpuid as int,
                old(csr).mie,
            ),
            sched_cnt(old(self).q(cpuid as int)) > 0 && !(Self::hart_at_m(
                kernel_frames@,
                cpuid as int,
            ) && old(self).q(cpuid as int)[old(self).sched_pick(cpuid as int)].flag is CRITICAL)
                ==> *final(csr) == *old(csr)
                && final(self).crit_task_intstate@ == old(self).crit_task_intstate@,
    {
        let live_cnt = self.get_scheduable_cnt(cpuid);
        if live_cnt == 0 {
            self.pool[cpuid] = Some(Vec::new());
            proof {
                assert forall|h: int, i: int|
                    0 <= h < MAX_HARTS && self.pool[h] is Some && 0 <= i < self.q(h).len()
                    implies (#[trigger] self.q(h)[i]).life_id < self.life_id && self.q(h)[i].pid
                    < 104 by {
                    if h != cpuid {
                        assert(self.pool@[h] == old(self).pool@[h]);
                        assert(old(self).q(h)[i].life_id < old(self).life_id && old(self).q(
                            h,
                        )[i].pid < 104);
                        assert(self.q(h)[i] == old(self).q(h)[i]);
                    } else {
                        assert(self.q(h).len() == 0);
                    }
                }
            }
            let mut h: usize = 0;
            while h < MAX_HARTS
                invariant
                    h <= MAX_HARTS,
                    self.current_task.len() == MAX_HARTS,
                    self.next_task.len() == MAX_HARTS,
                    *self == (task_pool {
                        pool: self.pool,
                        current_task: self.current_task,
                        next_task: self.next_task,
                        ..*old(self)
                    }),
                    self.pool.len() == MAX_HARTS,
                    self.pool@ == old(self).pool@.update(
                        cpuid as int,
                        Some(self.pool[cpuid as int]->0),
                    ),
                    self.q(cpuid as int).len() == 0,
                    self.pool[cpuid as int] is Some,
                    forall|g: int|
                        0 <= g < h ==> (#[trigger] self.current_task[g]) == Some(0usize)
                            && self.next_task[g] == Some(0usize),
                decreases MAX_HARTS - h,
            {
                self.current_task[h] = Some(0);
                self.next_task[h] = Some(0);
                h = h + 1;
            }
            proof {
                assert forall|h2: int, i: int|
                    0 <= h2 < MAX_HARTS && self.pool[h2] is Some && 0 <= i < self.q(h2).len()
                    implies (#[trigger] self.q(h2)[i]).life_id < self.life_id && self.q(h2)[i].pid
                    < 104 by {
                    if h2 != cpuid {
                        assert(self.pool@[h2] == old(self).pool@[h2]);
                        assert(old(self).q(h2)[i].life_id < old(self).life_id && old(self).q(
                            h2,
                        )[i].pid < 104);
                        assert(self.q(h2)[i] == old(self).q(h2)[i]);
                    } else {
                        assert(self.q(h2).len() == 0);
                    }
                }
            }
            return Ok(sched_action::Idle);
        }
        proof {
            lemma_sched_cnt_nonneg(old(self).q(cpuid as int));
        }
        let gen = self.generate_next(cpuid);
        match gen {
            Ok(_) => {},
            Err(e) => {
                return Err(e);
            },
        }
        let j = match self.next_task[cpuid] {
            Some(j) => j,
            None => {
                return Err(KError::new(KErrorType::EINVAL, "kthread.rs", "sched", 0));
            },
        };
        self.current_task[cpuid] = Some(j);
        proof {
            let q = old(self).q(cpuid as int);
            let n0 = old(self).next_task[cpuid as int]->0;
            lemma_next_sched_exists(q, (n0 + 1) % q.len() as int);
            lemma_first_sched_props(q, (n0 + 1) % q.len() as int, q.len() as int);
            lemma_first_sched_props(q, 0, (n0 + 1) % q.len() as int);
        }
        let current_mode = crate::cpu::get_cpu_mode(kernel_frames, cpuid);
        let from_m = match current_mode {
            Mode::Machine | Mode::Machine_IRH => true,
            _ => false,
        };
        let mut is_critical: bool = false;
        match self.pool[cpuid] {
            Some(ref taskvec) => {
                match taskvec[j].flag {
                    task_flag::CRITICAL => {
                        is_critical = true;
                    },
                    task_flag::NORMAL => {},
                }
            },
            None => {
                return Err(KError::new(KErrorType::EINVAL, "kthread.rs", "sched", 0));
            },
        }
        proof {
            let q = old(self).q(cpuid as int);
            let n0 = old(self).next_task[cpuid as int]->0;
            assert(self.q(cpuid as int) =~= q);
            assert(self.next_task[cpuid as int] == Some(
                next_sched_from(q, (n0 + 1) % q.len() as int)->0 as usize,
            ));
            assert(self.current_task[cpuid as int] == Some(j));
            assert(j == next_sched_from(q, (n0 + 1) % q.len() as int)->0 as usize);
        }
        proof {
            let m = kernel_frames@[cpuid as int].cur_mode;
            assert(from_m == (m is Machine || m is Machine_IRH));
            assert(is_critical == (old(self).q(cpuid as int)[self.current_task[cpuid as int]->0
                as int].flag is CRITICAL));
        }
        let action: sched_action;
        if from_m {
            if is_critical {
                let prev_xie = crate::lock::M_cli(csr);
                self.crit_task_intstate[cpuid] = prev_xie;
            }
            action = sched_action::Resume { idx: j, path: resume_path::FromM };
        } else {
            action = sched_action::Resume { idx: j, path: resume_path::FromS };
        }
        proof {
            assert forall|h: int, i: int|
                0 <= h < MAX_HARTS && self.pool[h] is Some && 0 <= i < self.q(h).len() implies (
            #[trigger] self.q(h)[i]).life_id < self.life_id && self.q(h)[i].pid < 104 by {
                assert(self.pool@[h] == old(self).pool@[h]);
                assert(old(self).q(h)[i].life_id < old(self).life_id && old(self).q(h)[i].pid
                    < 104);
                assert(self.q(h)[i] == old(self).q(h)[i]);
            }
            assert(from_m == Self::hart_at_m(kernel_frames@, cpuid as int));
            let q0 = old(self).q(cpuid as int);
            let n0 = old(self).next_task[cpuid as int]->0;
            lemma_next_sched_exists(q0, (n0 + 1) % q0.len() as int);
            lemma_first_sched_props(q0, (n0 + 1) % q0.len() as int, q0.len() as int);
            lemma_first_sched_props(q0, 0, (n0 + 1) % q0.len() as int);
            assert(0 <= old(self).sched_pick(cpuid as int) < q0.len());
            assert(q0.len() <= usize::MAX) by {
                let vref = old(self).pool[cpuid as int]->0;
                assert(vref@.len() == vstd::std_specs::vec::spec_vec_len(&vref));
            }
            assert(j as int == old(self).sched_pick(cpuid as int));
            assert(is_critical == (old(self).q(cpuid as int)[old(self).sched_pick(
                cpuid as int,
            )].flag is CRITICAL));
            if Self::hart_at_m(kernel_frames@, cpuid as int) && old(self).q(cpuid as int)[old(
                self,
            ).sched_pick(cpuid as int)].flag is CRITICAL {
                assert(*csr == (hart_csrs { mie: 0, ..*old(csr) }));
                assert(self.crit_task_intstate@ == old(self).crit_task_intstate@.update(
                    cpuid as int,
                    old(csr).mie,
                ));
            } else {
                assert(*csr == *old(csr));
                assert(self.crit_task_intstate@ == old(self).crit_task_intstate@);
            }
        }
        Ok(action)
    }

    /// Find the task identified by `(target_pid, target_lifeid)` anywhere in
    /// the pool and set its state; EFAULT when no task carries both, even if
    /// the pid alone matches a task of another generation.
    #[verifier::rlimit(100)]
    #[verifier::spinoff_prover]
    pub fn set_state_by_pid(
        &mut self,
        target_pid: usize,
        target_lifeid: usize,
        new_state: task_state,
    ) -> (r: Result<(), KError>)
        requires
            old(self).wf(),
        ensures
            final(self).wf(),
            r is Err <==> !(exists|h: int, i: int|
                0 <= h < MAX_HARTS && old(self).pool[h] is Some && 0 <= i < old(self).q(h).len()
                    && (#[trigger] old(self).q(h)[i]).pid == target_pid && old(self).q(h)[i].life_id
                    == target_lifeid),
            r is Err ==> r->Err_0.er_type == KErrorType::EFAULT && *final(self) == *old(self),
            r is Ok ==> (exists|h: int, i: int|
                0 <= h < MAX_HARTS && old(self).pool[h] is Some && 0 <= i < old(self).q(h).len()
                    && (#[trigger] old(self).q(h)[i]).pid == target_pid && old(self).q(h)[i].life_id
                    == target_lifeid && final(self).pool@ == old(self).pool@.update(
                    h,
                    Some(final(self).pool[h]->0),
                ) && final(self).q(h) == old(self).q(h).update(
                    i,
                    task_struct { state: new_state, ..old(self).q(h)[i] },
                ) && *final(self) == (task_pool { pool: final(self).pool, ..*old(self) })),
    {
        let mut cpuid: usize = 0;
        while cpuid < MAX_HARTS
            invariant
                cpuid <= MAX_HARTS,
                *self == *old(self),
                old(self).wf(),
                forall|h: int, i: int|
                    0 <= h < cpuid && old(self).pool[h] is Some && 0 <= i < old(self).q(h).len()
                        ==> !((#[trigger] old(self).q(h)[i]).pid == target_pid && old(self).q(
                        h,
                    )[i].life_id == target_lifeid),
            decreases MAX_HARTS - cpuid,
        {
            let qlen = match self.pool[cpuid] {
                Some(ref taskvec) => taskvec.len(),
                None => 0,
            };
            let mut i: usize = 0;
            while i < qlen
                invariant
                    cpuid < MAX_HARTS,
                    *self == *old(self),
                    old(self).wf(),
                    qlen > 0 ==> self.pool[cpuid as int] is Some && qlen == self.q(
                        cpuid as int,
                    ).len(),
                    i <= qlen,
                    forall|k: int|
                        0 <= k < i ==> !((#[trigger] old(self).q(cpuid as int)[k]).pid
                            == target_pid && old(self).q(cpuid as int)[k].life_id
                            == target_lifeid),
                decreases qlen - i,
            {
                let hit: bool;
                match self.pool[cpuid] {
                    Some(ref taskvec) => {
                        hit = taskvec[i].pid == target_pid && taskvec[i].life_id
                            == target_lifeid;
                    },
                    None => {
                        hit = false;
                    },
                }
                if hit {
                    match self.pool[cpuid] {
                        Some(ref mut taskvec) => {
                            let task = &mut taskvec[i];
                            task.set_state(new_state);
                        },
                        None => {},
                    }
                    proof {
                        assert(forall|k: int|
                            0 <= k < self.q(cpuid as int).len() ==> (#[trigger] self.q(
                                cpuid as int,
                            )[k]).pid == old(self).q(cpuid as int)[k].pid && self.q(
                                cpuid as int,
                            )[k].life_id == old(self).q(cpuid as int)[k].life_id);
                        lemma_wf_after_task_update(*old(self), *self, cpuid as int);
                    }
                    return Ok(());
                }
                i = i + 1;
            }
            cpuid = cpuid + 1;
        }
        Err(KError::new(KErrorType::EFAULT, "kthread.rs", "set_state_by_pid", 0))
    }

    /// Create a task for `func`, give it stacks and a fresh identity, and
    /// queue it on `cpuid`.
    pub fn spawn(
        &mut self,
        func: usize,
        new_flag: task_flag,
        cpuid: usize,
        ksatp: u64,
        root: &mut PageTable,
        zones: &mut Vec<mem_zone>,
        heap: &mut kmem,
    ) -> (r: Result<(), KError>)
        requires
            cpuid < MAX_HARTS,
            old(self).wf(),
            old(self).life_id + 1 <= usize::MAX,
            table_wf(*old(root), 2),
            zone_normal_ready(old(zones)@),
            ksatp <= usize::MAX,
            old(zones)@[1].nalloc().mem_begin + old(zones)@[1].nalloc().tot_page * 4096
                <= 0x80_0000_0000 - 4096,
            old(zones)@[1].nalloc().mem_begin + old(zones)@[1].nalloc().tot_page * 4096 + 8192
                <= usize::MAX,
        ensures
            final(self).wf(),
            table_wf(*final(root), 2),
            zone_normal_ready(final(zones)@),
            final(zones)@[1].nalloc().same_geometry(old(zones)@[1].nalloc()),
            r is Err ==> r->Err_0.er_type == KErrorType::ENOMEM || r->Err_0.er_type
                == KErrorType::EINVAL,
            // A queue, a free pid and six FREE frames make spawning owed.
            old(self).pool[cpuid as int] is Some && !(forall|j: usize|
                j < 104 ==> old(self).pids().contains(j)) && crate::vm::normal_free_count(
                old(zones)@,
            ) >= 6 ==> r is Ok,
            r is Ok && old(self).pool[cpuid as int] is Some ==> ({
                &&& final(self).q(cpuid as int).len() == old(self).q(cpuid as int).len() + 1
                &&& final(self).q(cpuid as int).last().pc == func
                &&& final(self).q(cpuid as int).last().flag == new_flag
                &&& final(self).q(cpuid as int).last().state is Ready
                &&& final(self).q(cpuid as int).last().life_id == old(self).life_id
                &&& final(self).life_id == old(self).life_id + 1
                &&& !old(self).pids().contains(final(self).q(cpuid as int).last().pid)
                &&& final(self).pids() == old(self).pids().insert(
                    final(self).q(cpuid as int).last().pid,
                )
            }),
    {
        let mut pcb_newtask = task_struct::new();
        let init_ret = pcb_newtask.init(func, new_flag, cpuid, ksatp, root, zones, heap);
        match init_ret {
            Ok(_) => {},
            Err(e) => {
                return Err(e);
            },
        }
        let ghost pcb0 = pcb_newtask;
        let append_ret = self.append_task(pcb_newtask, cpuid);
        match append_ret {
            Ok(_) => {},
            Err(e) => {
                return Err(e);
            },
        }
        proof {
            if old(self).pool[cpuid as int] is Some {
                let p = choose|p: usize|
                    p < 104 && !old(self).pids().contains(p) && forall|jj: usize|
                        jj < p ==> old(self).pids().contains(jj);
                assert(self.q(cpuid as int) == old(self).q(cpuid as int).push(
                    task_struct { pid: p, life_id: old(self).life_id, ..pcb0 },
                ));
                assert(self.q(cpuid as int).last() == task_struct {
                    pid: p,
                    life_id: old(self).life_id,
                    ..pcb0
                });
            }
        }
        Ok(())
    }

    /// Hand the hart over to its task queue: pick the first task and report
    /// how to resume it, or that the hart should idle on its fallback.
    pub fn join_all_ktask(
        &mut self,
        cpuid: usize,
        kernel_frames: &Vec<TrapFrame>,
        csr: &mut hart_csrs,
    ) -> (r: Result<sched_action, KError>)
        requires
            cpuid < MAX_HARTS,
            old(self).wf(),
            cpuid < kernel_frames.len(),
            old(self).pool[cpuid as int] is Some,
            old(self).next_task[cpuid as int] is Some,
        ensures
            final(self).wf(),
            final(self).pool[cpuid as int] is Some,
            final(self).next_task[cpuid as int] is Some,
            sched_cnt(old(self).q(cpuid as int)) == 0 ==> r == Ok::<sched_action, KError>(
                sched_action::Idle,
            ) && final(self).q(cpuid as int).len() == 0 && *final(csr) == *old(csr),
            sched_cnt(old(self).q(cpuid as int)) > 0 ==> r is Ok && r->Ok_0 == (
            sched_action::Resume {
                idx: old(self).sched_pick(cpuid as int) as usize,
                path: if Self::hart_at_m(kernel_frames@, cpuid as int) {
                    resume_path::FromM
                } else {
                    resume_path::FromS
                },
            }) && final(self).q(cpuid as int) == old(self).q(cpuid as int)
                && final(self).current_task[cpuid as int] == Some(
                old(self).sched_pick(cpuid as int) as usize,
            ),
    {
        self.sched(cpuid, kernel_frames, csr)
    }

    /// Create a semaphore on `cpuid`'s list, returning its (hart, index)
    /// handle.
    pub fn sem_init(&mut self, cpuid: usize, val: i32) -> (r: Result<(usize, usize), KError>)
        requires
            cpuid < MAX_HARTS,
            old(self).sems.len() == MAX_HARTS,
            val >= 0,
        ensures
            *final(self) == (task_pool { sems: final(self).sems, ..*old(self) }),
            r is Err <==> old(self).sems[cpuid as int] is None,
            r is Err ==> r->Err_0.er_type == KErrorType::EINVAL,
            r is Ok ==> ({
                &&& final(self).sems[cpuid as int] is Some
                &&& final(self).sems[cpuid as int]->0@.len() == old(
                    self,
                ).sems[cpuid as int]->0@.len() + 1
                &&& r->Ok_0 == (cpuid, (final(self).sems[cpuid as int]->0@.len() - 1) as usize)
                &&& final(self).sems[cpuid as int]->0@.last().cnt == val
            }),
    {
        if self.sems[cpuid].is_none() {
            return Err(KError::new(KErrorType::EINVAL, "kthread.rs", "sem_init", 0));
        }
        let new_sem = kt_semaphore::new(val);
        match self.sems[cpuid] {
            Some(ref mut semvec) => {
                semvec.push(new_sem);
                Ok((cpuid, semvec.len() - 1))
            },
            None => Err(KError::new(KErrorType::EINVAL, "kthread.rs", "sem_init", 0)),
        }
    }

    /// Whether a pid is currently marked taken.
    pub fn pid_taken(&self, pid: usize) -> (r: bool)
        requires
            self.pidmap is Some,
            pid < 104,
        ensures
            r == self.pids().contains(pid),
    {
        match self.pidmap {
            Some(ref idmap) => pidmap_test(idmap, pid),
            None => false,
        }
    }
}

/// The (pid, life_id) of the task now current on `cpuid`.
pub fn get_ktpid_lifeid(pool: &task_pool, cpuid: usize) -> (r: Result<(usize, usize), KError>)
    requires
        cpuid < MAX_HARTS,
        pool.pool.len() == MAX_HARTS,
        pool.current_task.len() == MAX_HARTS,
    ensures
        r is Err <==> !pool.cur_live(cpuid as int),
        r is Ok ==> r->Ok_0 == ({
            let t = pool.q(cpuid as int)[pool.current_task[cpuid as int]->0 as int];
            (t.pid, t.life_id)
        }),
{
    let pid = match pool.get_current_pid(cpuid) {
        Ok(p) => p,
        Err(e) => {
            return Err(e);
        },
    };
    let lifeid = match pool.get_current_lifeid(cpuid) {
        Ok(l) => l,
        Err(e) => {
            return Err(e);
        },
    };
    Ok((pid, lifeid))
}

} // verus!
