//! The trap and dispatch engine. Both dispatchers record the mode the hart
//! runs at while handling and restore the interrupted privilege on the way
//! out. The M-mode dispatcher is the only place that switches task contexts;
//! supervisor code reaches it through the ecall slot. Hardware effects the
//! dispatcher decides on (re-arming the timer, completing the PLIC claim,
//! the context-restore itself) come back as actions for the shell to
//! perform.

use crate::cpu::{hart_csrs, set_cpu_mode, Mode, TrapFrame, MAX_HARTS};
use crate::ecall::{ecall_args, S2Mop};
use crate::error::{KError, KErrorType};
use crate::irq::{int_request, int_type, soft_irq_buf, MAX_IRQ};
use crate::ksemaphore::kt_semaphore;
use crate::kthread::{is_schedulable, resume_path, sched_action, sched_cnt, task_flag, task_pool, task_state, task_struct};
use crate::lock::{M_cli, M_sti};
use crate::vm::{table_wf, zone_normal_ready, PageTable};
use crate::zone::mem_zone;
use vstd::prelude::*;

verus! {

/// What the shell must do after a dispatch returns.
#[derive(Clone, Copy, Debug, PartialEq, Eq, Structural)]
pub enum m_trap_action {
    /// Return to the interrupted context through the trap stub.
    Continue,
    /// Write `mtime + TIMER_INTERVAL` to this hart's mtimecmp.
    RearmTimer,
    /// Restore the task at this index of the hart's queue and return to it.
    Resume { idx: usize, path: resume_path },
    /// Restore the hart's fallback task.
    ResumeFallback { path: resume_path },
    /// Dump state and halt: an exception class the kernel does not handle.
    CoreDump,
}

/// Outcome of one M-mode dispatch: the pc to return to and the action.
#[derive(Clone, Copy, Debug, PartialEq, Eq, Structural)]
pub struct m_trap_result {
    pub pc_ret: usize,
    pub action: m_trap_action,
}

/// A hart's slice of the pool is set up enough to dispatch on: the queue
/// and the walk index exist. A current index that points at nothing (as
/// right after boot, before the first spawn) is tolerated; the per-task
/// operations then answer EINVAL.
pub open spec fn hart_ready(pool: task_pool, hart: int) -> bool {
    &&& pool.wf()
    &&& pool.pool[hart] is Some
    &&& pool.next_task[hart] is Some
}

/// A task as the ecall paths save it before rescheduling: the hart's kernel
/// frame copied over its registers (the task's own trap stack kept) and the
/// pc stepped past the ecall instruction, so resuming re-enters the caller.
pub open spec fn saved_caller(t: task_struct, frames: Seq<TrapFrame>, pc_ret: usize) -> task_struct {
    task_struct {
        trap_frame: TrapFrame { trap_stack: t.trap_frame.trap_stack, ..frames[t.cpu as int] },
        pc: (pc_ret + 4) as usize,
        ..t
    }
}

/// The hart's queue once the yield paths have saved the current task: the
/// frame copied in and the pc stepped where the task is live with a frame to
/// copy from; only the pc stepped where its home hart has no frame; and the
/// queue untouched where no task is current.
pub open spec fn saved_q(p: task_pool, hart: int, frames: Seq<TrapFrame>, pc_ret: usize) -> Seq<
    task_struct,
> {
    if !p.cur_live(hart) {
        p.q(hart)
    } else {
        let idx = p.current_task[hart]->0 as int;
        let t0 = p.q(hart)[idx];
        if t0.cpu < frames.len() {
            p.q(hart).update(idx, saved_caller(t0, frames, pc_ret))
        } else {
            p.q(hart).update(idx, task_struct { pc: (pc_ret + 4) as usize, ..t0 })
        }
    }
}

/// Whether the current task can be saved: it exists and its home hart has a
/// kernel frame.
pub open spec fn caller_saveable(p: task_pool, hart: int, frames: Seq<TrapFrame>) -> bool {
    &&& p.cur_live(hart)
    &&& p.q(hart)[p.current_task[hart]->0 as int].cpu < frames.len()
}

/// The task at `(h, i)` of `p` carries the identity `(pid, lifeid)`.
pub open spec fn pool_has_identity(p: task_pool, pid: usize, lifeid: usize, h: int, i: int) -> bool {
    &&& 0 <= h < MAX_HARTS
    &&& p.pool[h] is Some
    &&& 0 <= i < p.q(h).len()
    &&& p.q(h)[i].pid == pid
    &&& p.q(h)[i].life_id == lifeid
}

/// The shape of the Block ensures at a concrete witness: the task at
/// `(h, i)` carried the addressed identity and is Block wherever its queue
/// survived rescheduling.
pub open spec fn final_block_witness(
    pre: task_pool,
    post: task_pool,
    hart: int,
    pid: usize,
    lifeid: usize,
    h: int,
    i: int,
) -> bool {
    &&& pool_has_identity(pre, pid, lifeid, h, i)
    &&& (h != hart ==> post.pool[h] is Some && post.q(h).len() == pre.q(h).len() && post.q(
        h,
    )[i].state is Block)
    &&& (h == hart && post.q(hart).len() == pre.q(hart).len() ==> post.q(h)[i].state is Block)
}

/// The shape of the Unblock ensures at a concrete witness: the task at
/// `(h, i)` carried the addressed identity and is now Ready in place.
pub open spec fn final_unblock_witness(
    pre: task_pool,
    post: task_pool,
    hart: int,
    pid: usize,
    lifeid: usize,
    h: int,
    i: int,
) -> bool {
    &&& pool_has_identity(pre, pid, lifeid, h, i)
    &&& post.pool[h] is Some
    &&& post.q(h).len() == pre.q(h).len()
    &&& post.q(h)[i].state is Ready
    &&& post.q(h)[i].pid == pre.q(h)[i].pid
    &&& post.q(h)[i].life_id == pre.q(h)[i].life_id
}

/// Whether a removed task's stack fields lie where its stacks can be freed
/// and unmapped.
pub open spec fn stacks_reclaimable(t: task_struct) -> bool {
    &&& 4096 <= t.stack_base <= 0x80_0000_0000
    &&& t.stack_base + 4096 <= usize::MAX
    &&& 4096 <= t.exp_stack_base <= 0x80_0000_0000
    &&& t.exp_stack_base + 4096 <= usize::MAX
}

/// Where the round-robin walk lands on a given queue when the stored next
/// index is `n0`.
pub open spec fn pick_of(q: Seq<task_struct>, n0: usize) -> int {
    crate::kthread::next_sched_from(q, (n0 + 1) % q.len() as int)->0
}

/// The supervisor-mode dispatcher: software and external interrupts are only
/// acknowledged; everything else is unexpected at S level, because all
/// exceptions are delegated to or handled at M level, and ends in a dump.
pub fn s_trap(
    xepc: usize,
    xtval: usize,
    xcause: usize,
    hart: usize,
    xstatus: usize,
    spp: Mode,
    frames: &mut Vec<TrapFrame>,
) -> (r: m_trap_result)
    requires
        hart < MAX_HARTS,
        old(frames).len() == MAX_HARTS,
    ensures
        final(frames).len() == MAX_HARTS,
        final(frames)@ == old(frames)@.update(
            hart as int,
            TrapFrame { cur_mode: final(frames)[hart as int].cur_mode, ..old(frames)[hart as int] },
        ),
        r.pc_ret == xepc,
        ({
            let is_async = (xcause as u64) >> 63 & 1 == 1;
            let cause_num = xcause & 0xfff;
            if is_async && (cause_num == 3 || cause_num == 9) {
                r.action is Continue && final(frames)[hart as int].cur_mode == spp
            } else {
                r.action is CoreDump
            }
        }),
{
    set_cpu_mode(frames, Mode::Supervisor, hart);
    let is_async = (xcause as u64) >> 63 & 1 == 1;
    let cause_num = xcause & 0xfff;
    let pc_ret = xepc;

    if is_async && (cause_num == 3 || cause_num == 9) {
        set_cpu_mode(frames, spp, hart);
        m_trap_result { pc_ret, action: m_trap_action::Continue }
    } else {
        m_trap_result { pc_ret, action: m_trap_action::CoreDump }
    }
}

/// The Yield path: restore mie if the departing task was Critical, save the
/// caller from the kernel frame with its pc stepped past the ecall, and pick
/// the next task.
#[verifier::rlimit(100)]
#[verifier::spinoff_prover]
fn ecall_yield(
    pc_ret: usize,
    hart: usize,
    frames: &Vec<TrapFrame>,
    pool: &mut task_pool,
    csr: &mut hart_csrs,
) -> (r: Result<m_trap_action, KError>)
    requires
        hart < MAX_HARTS,
        frames.len() == MAX_HARTS,
        hart_ready(*old(pool), hart as int),
        pc_ret + 4 <= usize::MAX,
    ensures
        final(pool).wf(),
        final(pool).pool[hart as int] is Some,
        final(pool).next_task[hart as int] is Some,
        forall|h: int|
            0 <= h < MAX_HARTS && h != hart ==> (#[trigger] final(pool).pool[h]) == old(
                pool,
            ).pool[h],
        final(pool).pids() == old(pool).pids(),
        r is Ok,
        r->Ok_0 is Resume || r->Ok_0 is Continue,
        old(pool).cur_live(hart as int) && old(pool).q(hart as int)[old(
            pool,
        ).current_task[hart as int]->0 as int].flag is CRITICAL && !task_pool::hart_at_m(
            frames@,
            hart as int,
        ) ==> *final(csr) == (if old(csr).mie == 0 {
            hart_csrs { mie: old(pool).crit_task_intstate[hart as int], ..*old(csr) }
        } else {
            *old(csr)
        }),
        sched_cnt(old(pool).q(hart as int)) > 0 ==> r->Ok_0 == (m_trap_action::Resume {
            idx: old(pool).sched_pick(hart as int) as usize,
            path: if task_pool::hart_at_m(frames@, hart as int) {
                resume_path::FromM
            } else {
                resume_path::FromS
            },
        }),
        sched_cnt(old(pool).q(hart as int)) == 0 ==> r->Ok_0 is Continue && final(pool).q(
            hart as int,
        ).len() == 0,
        caller_saveable(*old(pool), hart as int, frames@) ==> ({
            let n0 = old(pool).next_task[hart as int]->0;
            let q1 = saved_q(*old(pool), hart as int, frames@, pc_ret);
            &&& (sched_cnt(old(pool).q(hart as int)) > 0 ==> final(pool).q(hart as int) == q1
                && final(pool).current_task[hart as int] == Some(
                pick_of(q1, n0) as usize,
            ) && final(pool).next_task[hart as int] == Some(pick_of(q1, n0) as usize))
            &&& (sched_cnt(old(pool).q(hart as int)) == 0 ==> final(pool).q(
                hart as int,
            ).len() == 0)
        }),
        r->Ok_0 is Resume ==> final(pool).current_task[hart as int] == Some(
            r->Ok_0->Resume_idx,
        ) && r->Ok_0->Resume_idx < final(pool).q(hart as int).len() && is_schedulable(
            final(pool).q(hart as int)[r->Ok_0->Resume_idx as int],
        ),
        r->Ok_0 is Continue ==> final(pool).q(hart as int).len() == 0,
        caller_saveable(*old(pool), hart as int, frames@) && final(pool).q(hart as int).len()
            == old(pool).q(hart as int).len() ==> ({
            let idx = old(pool).current_task[hart as int]->0 as int;
            let t0 = old(pool).q(hart as int)[idx];
            &&& final(pool).q(hart as int)[idx].pc == pc_ret + 4
            &&& final(pool).q(hart as int)[idx].trap_frame == (TrapFrame {
                trap_stack: t0.trap_frame.trap_stack,
                ..frames[t0.cpu as int]
            })
        }),
{
    let fg = pool.get_current_fg(hart);
    match fg {
        Ok(task_flag::CRITICAL) => {
            let prev_mie = pool.get_crit_task_mie()[hart];
            M_sti(csr, prev_mie);
        },
        _ => {},
    }
    let save_ret = pool.save_from_ktrapframe(hart, frames);
    match save_ret {
        Ok(_) => {},
        Err(_) => {},
    }
    let pc_ret2 = pool.set_currentPC(hart, pc_ret + 4);
    match pc_ret2 {
        Ok(_) => {},
        Err(_) => {},
    }
    let ghost csr_mid = *csr;
    let ghost pool_mid = *pool;
    let action = sched_to_action(pool, hart, frames, csr)?;
    proof {
        // Saving the frame and stepping the pc touch no task's state, so the
        // walk lands where it would have on the old queue.
        let q0 = old(pool).q(hart as int);
        let q1 = pool_mid.q(hart as int);
        if caller_saveable(*old(pool), hart as int, frames@) {
            assert(q1 =~= saved_q(*old(pool), hart as int, frames@, pc_ret));
        }
        assert(q1.len() == q0.len() && forall|i: int|
            0 <= i < q1.len() ==> (#[trigger] q1[i]).state == q0[i].state);
        crate::kthread::lemma_sched_cnt_congruent(q1, q0);
        if sched_cnt(q0) > 0 {
            crate::kthread::lemma_first_sched_congruent(
                q1,
                q0,
                (pool_mid.next_task[hart as int]->0 + 1) % q1.len() as int,
                q1.len() as int,
            );
            crate::kthread::lemma_first_sched_congruent(
                q1,
                q0,
                0,
                (pool_mid.next_task[hart as int]->0 + 1) % q1.len() as int,
            );
            assert(pool_mid.next_task[hart as int] == old(pool).next_task[hart as int]);
            assert(pool_mid.sched_pick(hart as int) == old(pool).sched_pick(hart as int));
            if caller_saveable(*old(pool), hart as int, frames@) {
                let n0 = old(pool).next_task[hart as int]->0;
                assert(pool_mid.sched_pick(hart as int) == pick_of(q1, n0));
                assert(pool.q(hart as int) == q1);
                assert(pool.current_task[hart as int] == Some(pick_of(q1, n0) as usize));
                assert(pool.next_task[hart as int] == Some(pick_of(q1, n0) as usize));
            }
        }
        if caller_saveable(*old(pool), hart as int, frames@) && pool.q(hart as int).len()
            == old(pool).q(hart as int).len() {
            crate::kthread::lemma_sched_cnt_nonneg(q0);
            assert(old(pool).q(hart as int).len() > 0);
            assert(sched_cnt(q0) > 0);
            assert(pool.q(hart as int) == q1);
            let idx = old(pool).current_task[hart as int]->0 as int;
            let t0 = old(pool).q(hart as int)[idx];
            assert(q1[idx] == saved_caller(t0, frames@, pc_ret));
            assert(pool.q(hart as int)[idx].pc == pc_ret + 4);
            assert(pool.q(hart as int)[idx].trap_frame == (TrapFrame {
                trap_stack: t0.trap_frame.trap_stack,
                ..frames[t0.cpu as int]
            }));
        }
        assert(*csr == csr_mid || task_pool::hart_at_m(frames@, hart as int));
        if old(pool).cur_live(hart as int) && old(pool).q(hart as int)[old(
            pool,
        ).current_task[hart as int]->0 as int].flag is CRITICAL && !task_pool::hart_at_m(
            frames@,
            hart as int,
        ) {
            assert(*csr == csr_mid);
            assert(csr_mid == (if old(csr).mie == 0 {
                hart_csrs { mie: old(pool).crit_task_intstate[hart as int], ..*old(csr) }
            } else {
                *old(csr)
            }));
        }
    }
    Ok(action)
}

/// The Unblock path: save the caller past the ecall and mark the addressed
/// task Ready without rescheduling; EFAULT when nothing carries the
/// identity.
#[verifier::rlimit(100)]
#[verifier::spinoff_prover]
fn ecall_unblock(
    pc_ret: usize,
    hart: usize,
    target_pid: usize,
    target_lifeid: usize,
    frames: &Vec<TrapFrame>,
    pool: &mut task_pool,
) -> (r: Result<m_trap_action, KError>)
    requires
        hart < MAX_HARTS,
        frames.len() == MAX_HARTS,
        hart_ready(*old(pool), hart as int),
        pc_ret + 4 <= usize::MAX,
    ensures
        final(pool).wf(),
        final(pool).pool[hart as int] is Some,
        final(pool).next_task[hart as int] is Some,
        r is Ok ==> r->Ok_0 is Continue,
        r is Err <==> !(exists|h: int, i: int|
            #[trigger] pool_has_identity(*old(pool), target_pid, target_lifeid, h, i)),
        r is Err ==> r->Err_0.er_type == KErrorType::EFAULT,
        r is Ok ==> (exists|h: int, i: int|
            #[trigger] final_unblock_witness(
                *old(pool),
                *final(pool),
                hart as int,
                target_pid,
                target_lifeid,
                h,
                i,
            )),
        caller_saveable(*old(pool), hart as int, frames@) && r is Ok && final(pool).q(
            hart as int,
        ).len() == old(pool).q(hart as int).len() ==> ({
            let idx = old(pool).current_task[hart as int]->0 as int;
            let t0 = old(pool).q(hart as int)[idx];
            &&& final(pool).q(hart as int)[idx].pc == pc_ret + 4
            &&& final(pool).q(hart as int)[idx].trap_frame == (TrapFrame {
                trap_stack: t0.trap_frame.trap_stack,
                ..frames[t0.cpu as int]
            })
        }),
{
    let save_ret = pool.save_from_ktrapframe(hart, frames);
    match save_ret {
        Ok(_) => {},
        Err(_) => {},
    }
    let pc_ret2 = pool.set_currentPC(hart, pc_ret + 4);
    match pc_ret2 {
        Ok(_) => {},
        Err(_) => {},
    }
    let ghost pool_s = *pool;
    proof {
        assert(pool_s.q(hart as int) =~= saved_q(*old(pool), hart as int, frames@, pc_ret));
    }
    let set_ret = pool.set_state_by_pid(target_pid, target_lifeid, task_state::Ready);
    match set_ret {
        Ok(_) => {},
        Err(e) => {
            proof {
                assert forall|h: int, i: int|
                    #[trigger] pool_has_identity(
                        *old(pool),
                        target_pid,
                        target_lifeid,
                        h,
                        i,
                    ) implies false by {
                    if h == hart {
                        assert(pool_s.q(h)[i].pid == target_pid && pool_s.q(h)[i].life_id
                            == target_lifeid);
                    } else {
                        assert(pool_s.pool[h] == old(pool).pool[h]);
                    }
                }
            }
            return Err(e);
        },
    }
    proof {
        assert(pool_s.pool@ =~= old(pool).pool@.update(
            hart as int,
            Some(pool_s.pool[hart as int]->0),
        ));
        lemma_unblock_witness(
            *old(pool),
            pool_s,
            *pool,
            hart as int,
            frames@,
            pc_ret,
            target_pid,
            target_lifeid,
        );
    }
    Ok(m_trap_action::Continue)
}

/// The witness the Unblock path hands back, carried from the target search
/// over the saved pool back to the pool as it was on entry.
proof fn lemma_unblock_witness(
    pre: task_pool,
    mid: task_pool,
    post: task_pool,
    hart: int,
    frames: Seq<TrapFrame>,
    pc_ret: usize,
    pid: usize,
    lifeid: usize,
)
    requires
        0 <= hart < MAX_HARTS,
        pre.pool.len() == MAX_HARTS,
        pre.pool[hart] is Some,
        pc_ret + 4 <= usize::MAX,
        mid.q(hart) == saved_q(pre, hart, frames, pc_ret),
        mid.pool@ == pre.pool@.update(hart, Some(mid.pool[hart]->0)),
        mid.pool.len() == pre.pool.len(),
        mid.current_task@ == pre.current_task@,
        exists|wh: int, wi: int|
            0 <= wh < MAX_HARTS && mid.pool[wh] is Some && 0 <= wi < mid.q(wh).len() && (
            #[trigger] mid.q(wh)[wi]).pid == pid && mid.q(wh)[wi].life_id == lifeid
                && post.pool@ == mid.pool@.update(wh, Some(post.pool[wh]->0)) && post.q(wh)
                == mid.q(wh).update(
                wi,
                task_struct { state: task_state::Ready, ..mid.q(wh)[wi] },
            ) && post == (task_pool { pool: post.pool, ..mid }),
    ensures
        exists|h: int, i: int|
            #[trigger] final_unblock_witness(pre, post, hart, pid, lifeid, h, i),
        caller_saveable(pre, hart, frames) && post.q(hart).len() == pre.q(hart).len() ==> ({
            let idx = pre.current_task[hart]->0 as int;
            let t0 = pre.q(hart)[idx];
            &&& post.q(hart)[idx].pc == pc_ret + 4
            &&& post.q(hart)[idx].trap_frame == (TrapFrame {
                trap_stack: t0.trap_frame.trap_stack,
                ..frames[t0.cpu as int]
            })
        }),
{
    let (wh, wi) = choose|wh: int, wi: int|
        0 <= wh < MAX_HARTS && mid.pool[wh] is Some && 0 <= wi < mid.q(wh).len() && (
        #[trigger] mid.q(wh)[wi]).pid == pid && mid.q(wh)[wi].life_id == lifeid && post.pool@
            == mid.pool@.update(wh, Some(post.pool[wh]->0)) && post.q(wh) == mid.q(wh).update(
            wi,
            task_struct { state: task_state::Ready, ..mid.q(wh)[wi] },
        ) && post == (task_pool { pool: post.pool, ..mid });
    assert(mid.q(hart).len() == pre.q(hart).len() && forall|i: int|
        0 <= i < pre.q(hart).len() ==> (#[trigger] mid.q(hart)[i]).pid == pre.q(hart)[i].pid
            && mid.q(hart)[i].life_id == pre.q(hart)[i].life_id);
    if wh == hart {
        assert(pre.q(wh)[wi].pid == pid && pre.q(wh)[wi].life_id == lifeid);
    } else {
        assert(mid.pool@[wh] == pre.pool@[wh]);
        assert(post.pool@[hart] == mid.pool@[hart]);
    }
    assert(final_unblock_witness(pre, post, hart, pid, lifeid, wh, wi));
    if caller_saveable(pre, hart, frames) {
        let idx = pre.current_task[hart]->0 as int;
        let t0 = pre.q(hart)[idx];
        assert(mid.q(hart)[idx] == saved_caller(t0, frames, pc_ret));
        if wh == hart {
            assert(post.q(hart) == mid.q(hart).update(
                wi,
                task_struct { state: task_state::Ready, ..mid.q(hart)[wi] },
            ));
        } else {
            assert(post.q(hart) == mid.q(hart));
        }
        assert(post.q(hart)[idx].pc == pc_ret + 4);
        assert(post.q(hart)[idx].trap_frame == (TrapFrame {
            trap_stack: t0.trap_frame.trap_stack,
            ..frames[t0.cpu as int]
        }));
    }
}

/// The Block path: like Yield, but the addressed task is moved to Block
/// before the next task is picked; EFAULT when nothing carries the
/// identity.
#[verifier::rlimit(100)]
#[verifier::spinoff_prover]
fn ecall_block(
    pc_ret: usize,
    hart: usize,
    target_pid: usize,
    target_lifeid: usize,
    frames: &Vec<TrapFrame>,
    pool: &mut task_pool,
    csr: &mut hart_csrs,
) -> (r: Result<m_trap_action, KError>)
    requires
        hart < MAX_HARTS,
        frames.len() == MAX_HARTS,
        hart_ready(*old(pool), hart as int),
        pc_ret + 4 <= usize::MAX,
    ensures
        final(pool).wf(),
        final(pool).pool[hart as int] is Some,
        final(pool).next_task[hart as int] is Some,
        r is Ok ==> (r->Ok_0 is Resume || r->Ok_0 is Continue),
        r is Err <==> !(exists|h: int, i: int|
            #[trigger] pool_has_identity(*old(pool), target_pid, target_lifeid, h, i)),
        r is Err ==> r->Err_0.er_type == KErrorType::EFAULT,
        r is Ok ==> (exists|h: int, i: int|
            #[trigger] final_block_witness(
                *old(pool),
                *final(pool),
                hart as int,
                target_pid,
                target_lifeid,
                h,
                i,
            )),
        caller_saveable(*old(pool), hart as int, frames@) && r is Ok && final(pool).q(
            hart as int,
        ).len() == old(pool).q(hart as int).len() ==> ({
            let idx = old(pool).current_task[hart as int]->0 as int;
            let t0 = old(pool).q(hart as int)[idx];
            &&& final(pool).q(hart as int)[idx].pc == pc_ret + 4
            &&& final(pool).q(hart as int)[idx].trap_frame == (TrapFrame {
                trap_stack: t0.trap_frame.trap_stack,
                ..frames[t0.cpu as int]
            })
        }),
        r is Ok && r->Ok_0 is Resume ==> final(pool).current_task[hart as int] == Some(
            r->Ok_0->Resume_idx,
        ) && r->Ok_0->Resume_idx < final(pool).q(hart as int).len() && is_schedulable(
            final(pool).q(hart as int)[r->Ok_0->Resume_idx as int],
        ),
        r is Ok && r->Ok_0 is Continue ==> final(pool).q(hart as int).len() == 0,
{
    let fg = pool.get_current_fg(hart);
    match fg {
        Ok(task_flag::CRITICAL) => {
            let prev_mie = pool.get_crit_task_mie()[hart];
            M_sti(csr, prev_mie);
        },
        _ => {},
    }
    let save_ret = pool.save_from_ktrapframe(hart, frames);
    match save_ret {
        Ok(_) => {},
        Err(_) => {},
    }
    let pc_ret2 = pool.set_currentPC(hart, pc_ret + 4);
    match pc_ret2 {
        Ok(_) => {},
        Err(_) => {},
    }
    let ghost pool_s = *pool;
    proof {
        assert(pool_s.q(hart as int) =~= saved_q(*old(pool), hart as int, frames@, pc_ret));
    }
    let set_ret = pool.set_state_by_pid(target_pid, target_lifeid, task_state::Block);
    match set_ret {
        Ok(_) => {},
        Err(e) => {
            proof {
                assert forall|h: int, i: int|
                    #[trigger] pool_has_identity(
                        *old(pool),
                        target_pid,
                        target_lifeid,
                        h,
                        i,
                    ) implies false by {
                    if h == hart {
                        assert(pool_s.q(h)[i].pid == target_pid && pool_s.q(h)[i].life_id
                            == target_lifeid);
                    } else {
                        assert(pool_s.pool[h] == old(pool).pool[h]);
                    }
                }
            }
            return Err(e);
        },
    }
    let ghost wpair = choose|wh: int, wi: int|
        0 <= wh < MAX_HARTS && pool_s.pool[wh] is Some && 0 <= wi < pool_s.q(wh).len() && (
        #[trigger] pool_s.q(wh)[wi]).pid == target_pid && pool_s.q(wh)[wi].life_id
            == target_lifeid && pool.pool@ == pool_s.pool@.update(
            wh,
            Some(pool.pool[wh]->0),
        ) && pool.q(wh) == pool_s.q(wh).update(
            wi,
            task_struct { state: task_state::Block, ..pool_s.q(wh)[wi] },
        ) && *pool == (task_pool { pool: pool.pool, ..pool_s });
    let ghost pool_b = *pool;
    let action = sched_to_action(pool, hart, frames, csr)?;
    proof {
        let wh = wpair.0;
        let wi = wpair.1;
        if wh == hart {
            assert(old(pool).q(wh)[wi].pid == target_pid && old(pool).q(wh)[wi].life_id
                == target_lifeid);
        } else {
            assert(pool_s.pool[wh] == old(pool).pool[wh]);
            assert(pool.pool[wh] == pool_b.pool[wh]);
        }
        crate::kthread::lemma_sched_cnt_nonneg(pool_b.q(hart as int));
        if pool.q(hart as int).len() == old(pool).q(hart as int).len() {
            assert(pool.q(hart as int) == pool_b.q(hart as int));
        }
        assert(final_block_witness(
            *old(pool),
            *pool,
            hart as int,
            target_pid,
            target_lifeid,
            wh,
            wi,
        ));
        if caller_saveable(*old(pool), hart as int, frames@) && pool.q(hart as int).len()
            == old(pool).q(hart as int).len() {
            let idx = old(pool).current_task[hart as int]->0 as int;
            assert(pool.q(hart as int) == pool_b.q(hart as int));
            if wh == hart {
                assert(pool_b.q(hart as int) == pool_s.q(hart as int).update(
                    wi,
                    task_struct { state: task_state::Block, ..pool_s.q(hart as int)[wi] },
                ));
            } else {
                assert(pool_b.q(hart as int) == pool_s.q(hart as int));
            }
            assert(pool.q(hart as int)[idx].pc == pc_ret + 4);
        }
    }
    Ok(action)
}

/// The Exit path: drop the current task by index swap, return its pid to
/// the bitmap, unmap and free its stacks, and hand the hart to the next
/// pick or to the fallback task.
#[verifier::rlimit(100)]
#[verifier::spinoff_prover]
fn ecall_exit(
    hart: usize,
    frames: &Vec<TrapFrame>,
    pool: &mut task_pool,
    csr: &mut hart_csrs,
    root: &mut PageTable,
    zones: &mut Vec<mem_zone>,
) -> (r: Result<m_trap_action, KError>)
    requires
        hart < MAX_HARTS,
        frames.len() == MAX_HARTS,
        hart_ready(*old(pool), hart as int),
        table_wf(*old(root), 2),
        zone_normal_ready(old(zones)@),
    ensures
        final(pool).wf(),
        final(pool).pool[hart as int] is Some,
        final(pool).next_task[hart as int] is Some,
        table_wf(*final(root), 2),
        zone_normal_ready(final(zones)@),
        r is Err ==> r->Err_0.er_type == KErrorType::EFAULT || r->Err_0.er_type
            == KErrorType::EINVAL,
        r is Ok ==> (r->Ok_0 is Resume || r->Ok_0 is ResumeFallback),
        old(pool).current_task[hart as int] is None && r is Ok ==> ({
            let n0 = old(pool).next_task[hart as int]->0;
            let q0 = old(pool).q(hart as int);
            &&& (sched_cnt(q0) > 0 ==> final(pool).q(hart as int) == q0 && r->Ok_0 == (
            m_trap_action::Resume {
                idx: pick_of(q0, n0) as usize,
                path: if task_pool::hart_at_m(frames@, hart as int) {
                    resume_path::FromM
                } else {
                    resume_path::FromS
                },
            }))
            &&& (sched_cnt(q0) == 0 ==> final(pool).q(hart as int).len() == 0 && r->Ok_0 == (
            m_trap_action::ResumeFallback {
                path: if task_pool::hart_at_m(frames@, hart as int) {
                    resume_path::FromM
                } else {
                    resume_path::FromS
                },
            }))
        }),
        old(pool).cur_live(hart as int) && r is Ok ==> ({
            let idx = old(pool).current_task[hart as int]->0 as int;
            let removed = old(pool).q(hart as int)[idx];
            let q3 = old(pool).q(hart as int).update(
                idx,
                old(pool).q(hart as int).last(),
            ).drop_last();
            let n0 = old(pool).next_task[hart as int]->0;
            &&& final(pool).pids() == old(pool).pids().remove(removed.pid)
            &&& (sched_cnt(q3) > 0 ==> final(pool).q(hart as int) == q3 && r->Ok_0 == (
            m_trap_action::Resume {
                idx: pick_of(q3, n0) as usize,
                path: if task_pool::hart_at_m(frames@, hart as int) {
                    resume_path::FromM
                } else {
                    resume_path::FromS
                },
            }))
            &&& (sched_cnt(q3) == 0 ==> final(pool).q(hart as int).len() == 0 && r->Ok_0 == (
            m_trap_action::ResumeFallback {
                path: if task_pool::hart_at_m(frames@, hart as int) {
                    resume_path::FromM
                } else {
                    resume_path::FromS
                },
            }))
            &&& (stacks_reclaimable(removed) ==> (forall|va: u64|
                crate::spec_align_down_4k(removed.stack_base - 4096) <= va
                    < crate::spec_align_up_4k(removed.stack_base as int)
                    ==> #[trigger] crate::vm::spec_translate(*final(root), va) is None) && (
            forall|va: u64|
                crate::spec_align_down_4k(removed.exp_stack_base - 4096) <= va
                    < crate::spec_align_up_4k(removed.exp_stack_base as int)
                    ==> #[trigger] crate::vm::spec_translate(*final(root), va) is None))
        }),
{
    let removed = pool.remove_cur_task(hart)?;
    let ghost pool_r = *pool;
    match removed {
        Some(task) => {
            let sb = task.stack_base as u64;
            let eb = task.exp_stack_base as u64;
            if 4096 <= sb && sb <= 0x80_0000_0000u64 && sb + 4096 <= usize::MAX as u64 && 4096
                <= eb && eb <= 0x80_0000_0000u64 && eb + 4096 <= usize::MAX as u64 {
                proof {
                    assert(stacks_reclaimable(task));
                }
                let _ = task.teardown(root, zones);
            } else {
                proof {
                    assert(!stacks_reclaimable(task));
                }
            }
        },
        None => {},
    }
    let action = sched_to_action(pool, hart, frames, csr)?;
    proof {
        crate::kthread::lemma_sched_cnt_nonneg(pool_r.q(hart as int));
        if old(pool).cur_live(hart as int) {
            let idx = old(pool).current_task[hart as int]->0 as int;
            let q3 = old(pool).q(hart as int).update(
                idx,
                old(pool).q(hart as int).last(),
            ).drop_last();
            assert(pool_r.q(hart as int) == q3);
            assert(pool_r.next_task[hart as int] == old(pool).next_task[hart as int]);
        }
    }
    match action {
        m_trap_action::Resume { idx, path } => Ok(m_trap_action::Resume { idx, path }),
        _ => {
            let path = pool.fallback(hart, frames)?;
            Ok(m_trap_action::ResumeFallback { path })
        },
    }
}

/// Route one ecall. Yield and Block save the caller past the ecall and pick
/// the next task; Exit drops the caller and reclaims its pid and stacks;
/// Unblock readies a target without yielding; Cli/Sti stash and restore mie
/// through the hart's frame. A Block or Unblock whose (pid, life_id) no
/// longer exists is fatal and reported as an error.
#[verifier::rlimit(100)]
#[verifier::spinoff_prover]
pub fn ecall_handler(
    pc_ret: usize,
    hart: usize,
    frames: &mut Vec<TrapFrame>,
    pool: &mut task_pool,
    secall: &Vec<ecall_args>,
    csr: &mut hart_csrs,
    root: &mut PageTable,
    zones: &mut Vec<mem_zone>,
) -> (r: Result<m_trap_action, KError>)
    requires
        hart < MAX_HARTS,
        old(frames).len() == MAX_HARTS,
        secall.len() == MAX_HARTS,
        hart_ready(*old(pool), hart as int),
        pc_ret + 4 <= usize::MAX,
        table_wf(*old(root), 2),
        zone_normal_ready(old(zones)@),
    ensures
        final(frames).len() == MAX_HARTS,
        final(pool).wf(),
        table_wf(*final(root), 2),
        zone_normal_ready(final(zones)@),
        // Only the Cli save slot of this hart's frame can move.
        forall|h: int|
            0 <= h < MAX_HARTS && h != hart ==> final(frames)@[h] == old(frames)@[h],
        final(frames)[hart as int] == (TrapFrame {
            mie_buf: final(frames)[hart as int].mie_buf,
            ..old(frames)[hart as int]
        }),
        secall[hart as int].sbiop is UNDEF ==> r == Ok::<m_trap_action, KError>(
            m_trap_action::CoreDump,
        ),
        secall[hart as int].sbiop is CLI ==> r == Ok::<m_trap_action, KError>(
            m_trap_action::Continue,
        ) && *final(csr) == (hart_csrs { mie: 0, ..*old(csr) })
            && final(frames)[hart as int].mie_buf == old(csr).mie,
        secall[hart as int].sbiop is STI ==> r == Ok::<m_trap_action, KError>(
            m_trap_action::Continue,
        ) && *final(csr) == (if old(csr).mie == 0 {
            hart_csrs { mie: old(frames)[hart as int].mie_buf, ..*old(csr) }
        } else {
            *old(csr)
        }),
        secall[hart as int].sbiop is UNBLOCK ==> (r is Ok ==> r->Ok_0 is Continue),
        // Block and Unblock address a task by (pid, life_id) and fail with
        // EFAULT exactly when no task carries both.
        secall[hart as int].sbiop is UNBLOCK || secall[hart as int].sbiop is BLOCK ==> ({
            &&& (r is Err <==> !(exists|h: int, i: int|
                #[trigger] pool_has_identity(
                    *old(pool),
                    secall[hart as int].args[0],
                    secall[hart as int].args[1],
                    h,
                    i,
                )))
            &&& (r is Err ==> r->Err_0.er_type == KErrorType::EFAULT)
        }),
        // Unblock marks exactly the addressed task Ready without rescheduling.
        secall[hart as int].sbiop is UNBLOCK && r is Ok ==> (exists|h: int, i: int|
            #[trigger] final_unblock_witness(
                *old(pool),
                *final(pool),
                hart as int,
                secall[hart as int].args[0],
                secall[hart as int].args[1],
                h,
                i,
            )),
        // Block marks the addressed task Block; the hart's own queue keeps
        // the mark unless the scheduler cleared it.
        secall[hart as int].sbiop is BLOCK && r is Ok ==> (exists|h: int, i: int|
            #[trigger] final_block_witness(
                *old(pool),
                *final(pool),
                hart as int,
                secall[hart as int].args[0],
                secall[hart as int].args[1],
                h,
                i,
            )),
        // On Yield, Block and Unblock the caller is saved from the kernel
        // frame — its own trap stack kept — with its pc stepped past the
        // ecall, so resuming re-enters it; visible whenever the hart's queue
        // survives rescheduling.
        (secall[hart as int].sbiop is YIELD || secall[hart as int].sbiop is BLOCK || secall[
            hart as int].sbiop is UNBLOCK) && caller_saveable(
            *old(pool),
            hart as int,
            old(frames)@,
        ) && r is Ok && final(pool).q(hart as int).len() == old(pool).q(hart as int).len()
            ==> ({
            let idx = old(pool).current_task[hart as int]->0 as int;
            let t0 = old(pool).q(hart as int)[idx];
            &&& final(pool).q(hart as int)[idx].pc == pc_ret + 4
            &&& final(pool).q(hart as int)[idx].trap_frame == (TrapFrame {
                trap_stack: t0.trap_frame.trap_stack,
                ..old(frames)[t0.cpu as int]
            })
        }),
        // The returned action names a live, schedulable task of the final
        // queue, or reports that the queue was cleared.
        (secall[hart as int].sbiop is YIELD || secall[hart as int].sbiop is BLOCK) && r is Ok
            ==> ({
            &&& (r->Ok_0 is Resume ==> final(pool).current_task[hart as int] == Some(
                r->Ok_0->Resume_idx,
            ) && r->Ok_0->Resume_idx < final(pool).q(hart as int).len() && is_schedulable(
                final(pool).q(hart as int)[r->Ok_0->Resume_idx as int],
            ))
            &&& (r->Ok_0 is Continue ==> final(pool).q(hart as int).len() == 0)
        }),
        // Exit drops the current task by index swap, returns its pid for a
        // later spawn, unmaps its stacks, and hands the hart to the pick or
        // to the fallback task.
        secall[hart as int].sbiop is EXIT ==> (r is Err ==> r->Err_0.er_type
            == KErrorType::EFAULT || r->Err_0.er_type == KErrorType::EINVAL),
        secall[hart as int].sbiop is EXIT && old(pool).current_task[hart as int] is None && r
            is Ok ==> ({
            let n0 = old(pool).next_task[hart as int]->0;
            let q0 = old(pool).q(hart as int);
            &&& (sched_cnt(q0) > 0 ==> final(pool).q(hart as int) == q0 && r->Ok_0 == (
            m_trap_action::Resume {
                idx: pick_of(q0, n0) as usize,
                path: if task_pool::hart_at_m(old(frames)@, hart as int) {
                    resume_path::FromM
                } else {
                    resume_path::FromS
                },
            }))
            &&& (sched_cnt(q0) == 0 ==> final(pool).q(hart as int).len() == 0 && r->Ok_0 == (
            m_trap_action::ResumeFallback {
                path: if task_pool::hart_at_m(old(frames)@, hart as int) {
                    resume_path::FromM
                } else {
                    resume_path::FromS
                },
            }))
        }),
        secall[hart as int].sbiop is EXIT && old(pool).cur_live(hart as int) && r is Ok ==> ({
            let idx = old(pool).current_task[hart as int]->0 as int;
            let removed = old(pool).q(hart as int)[idx];
            let q3 = old(pool).q(hart as int).update(
                idx,
                old(pool).q(hart as int).last(),
            ).drop_last();
            let n0 = old(pool).next_task[hart as int]->0;
            &&& final(pool).pids() == old(pool).pids().remove(removed.pid)
            &&& (sched_cnt(q3) > 0 ==> final(pool).q(hart as int) == q3 && r->Ok_0 == (
            m_trap_action::Resume {
                idx: pick_of(q3, n0) as usize,
                path: if task_pool::hart_at_m(old(frames)@, hart as int) {
                    resume_path::FromM
                } else {
                    resume_path::FromS
                },
            }))
            &&& (sched_cnt(q3) == 0 ==> final(pool).q(hart as int).len() == 0 && r->Ok_0 == (
            m_trap_action::ResumeFallback {
                path: if task_pool::hart_at_m(old(frames)@, hart as int) {
                    resume_path::FromM
                } else {
                    resume_path::FromS
                },
            }))
            &&& (stacks_reclaimable(removed) ==> (forall|va: u64|
                crate::spec_align_down_4k(removed.stack_base - 4096) <= va
                    < crate::spec_align_up_4k(removed.stack_base as int)
                    ==> #[trigger] crate::vm::spec_translate(*final(root), va) is None)
                && (forall|va: u64|
                crate::spec_align_down_4k(removed.exp_stack_base - 4096) <= va
                    < crate::spec_align_up_4k(removed.exp_stack_base as int)
                    ==> #[trigger] crate::vm::spec_translate(*final(root), va) is None))
        }),
        secall[hart as int].sbiop is YIELD && old(pool).cur_live(hart as int) && old(pool).q(
            hart as int,
        )[old(pool).current_task[hart as int]->0 as int].flag is CRITICAL
            && !task_pool::hart_at_m(old(frames)@, hart as int) ==> (r is Ok ==> *final(csr) == (
        if old(csr).mie == 0 {
            hart_csrs { mie: old(pool).crit_task_intstate[hart as int], ..*old(csr) }
        } else {
            *old(csr)
        })),
        secall[hart as int].sbiop is YIELD || secall[hart as int].sbiop is BLOCK || secall[
            hart as int].sbiop is EXIT ==> (r is Ok ==> (r->Ok_0 is Resume
            || r->Ok_0 is ResumeFallback || r->Ok_0 is Continue)),
        secall[hart as int].sbiop is YIELD && sched_cnt(old(pool).q(hart as int)) > 0 ==> (
        r is Ok ==> r->Ok_0 == (m_trap_action::Resume {
            idx: old(pool).sched_pick(hart as int) as usize,
            path: if task_pool::hart_at_m(old(frames)@, hart as int) {
                resume_path::FromM
            } else {
                resume_path::FromS
            },
        })),
        secall[hart as int].sbiop is YIELD && sched_cnt(old(pool).q(hart as int)) == 0 ==> (
        r is Ok ==> r->Ok_0 is Continue),
        secall[hart as int].sbiop is YIELD && caller_saveable(
            *old(pool),
            hart as int,
            old(frames)@,
        ) ==> (r is Ok ==> ({
            let n0 = old(pool).next_task[hart as int]->0;
            let q1 = saved_q(*old(pool), hart as int, old(frames)@, pc_ret);
            &&& (sched_cnt(old(pool).q(hart as int)) > 0 ==> final(pool).q(hart as int) == q1
                && final(pool).current_task[hart as int] == Some(
                pick_of(q1, n0) as usize,
            ) && final(pool).next_task[hart as int] == Some(pick_of(q1, n0) as usize))
            &&& (sched_cnt(old(pool).q(hart as int)) == 0 ==> final(pool).q(
                hart as int,
            ).len() == 0)
        })),
{
    let opcode = secall[hart].get_opcode();
    match opcode {
        S2Mop::UNDEF => Ok(m_trap_action::CoreDump),
        S2Mop::YIELD => ecall_yield(pc_ret, hart, frames, pool, csr),
        S2Mop::EXIT => ecall_exit(hart, frames, pool, csr, root, zones),
        S2Mop::BLOCK => {
            let args = secall[hart].get_args();
            ecall_block(pc_ret, hart, args[0], args[1], frames, pool, csr)
        },
        S2Mop::UNBLOCK => {
            let args = secall[hart].get_args();
            ecall_unblock(pc_ret, hart, args[0], args[1], frames, pool)
        },
        S2Mop::CLI => {
            let prev_mie = M_cli(csr);
            let frame = &mut frames[hart];
            frame.mie_buf = prev_mie;
            Ok(m_trap_action::Continue)
        },
        S2Mop::STI => {
            let prev_mie = frames[hart].mie_buf;
            M_sti(csr, prev_mie);
            Ok(m_trap_action::Continue)
        },
    }
}

/// The machine-mode dispatcher. Asynchronous causes: software interrupts
/// are acknowledged, the timer is re-armed, and an external interrupt's
/// claimed source (with the byte already read from the UART for source 10)
/// is queued on this hart's IRQ ring and the UART semaphore signalled — a
/// full ring drops the interrupt. Synchronous causes: ebreak and ecalls
/// step the pc past the trapping instruction, ecalls are routed to the
/// handler; every other exception class dumps state. The hart runs as
/// `Machine_IRH` while handling, so a semaphore wake from here never traps,
/// and returns to the interrupted privilege `mpp`.
#[verifier::rlimit(100)]
#[verifier::spinoff_prover]
pub fn m_trap(
    xepc: usize,
    xtval: usize,
    xcause: usize,
    hart: usize,
    xstatus: usize,
    mpp: Mode,
    extint_id: u32,
    uart_byte: Option<u8>,
    frames: &mut Vec<TrapFrame>,
    pool: &mut task_pool,
    secall: &Vec<ecall_args>,
    irq: &mut soft_irq_buf,
    sem_uart: &mut kt_semaphore,
    csr: &mut hart_csrs,
    root: &mut PageTable,
    zones: &mut Vec<mem_zone>,
) -> (r: Result<m_trap_result, KError>)
    requires
        hart < MAX_HARTS,
        old(frames).len() == MAX_HARTS,
        secall.len() == MAX_HARTS,
        hart_ready(*old(pool), hart as int),
        old(irq).wf(),
        old(sem_uart).cnt < i32::MAX,
        xepc + 4 <= usize::MAX,
        table_wf(*old(root), 2),
        zone_normal_ready(old(zones)@),
    ensures
        final(frames).len() == MAX_HARTS,
        final(pool).wf(),
        final(irq).wf(),
        table_wf(*final(root), 2),
        zone_normal_ready(final(zones)@),
        // The hart handles as Machine_IRH; every path that returns to the
        // interrupted context restores the trapped-from mode, and only this
        // hart's frame moves, in its mode and Cli save slot alone.
        forall|h: int|
            0 <= h < MAX_HARTS && h != hart ==> final(frames)@[h] == old(frames)@[h],
        final(frames)[hart as int] == (TrapFrame {
            cur_mode: final(frames)[hart as int].cur_mode,
            mie_buf: final(frames)[hart as int].mie_buf,
            ..old(frames)[hart as int]
        }),
        r is Ok && !(r->Ok_0.action is CoreDump) ==> final(frames)[hart as int].cur_mode == mpp,
        r is Ok && r->Ok_0.action is CoreDump && !(secall[hart as int].sbiop is UNDEF
            && !((xcause as u64) >> 63 & 1 == 1)) ==> final(frames)[hart as int].cur_mode
            == Mode::Machine_IRH,
        ({
            let is_async = (xcause as u64) >> 63 & 1 == 1;
            let cause_num = xcause & 0xfff;
            let untouched = *final(pool) == *old(pool) && final(irq).ring_view(hart as int)
                == old(irq).ring_view(hart as int) && *final(sem_uart) == *old(sem_uart)
                && *final(csr) == *old(csr) && final(zones)@ == old(zones)@;
            // Software and timer interrupts, ebreak, the user ecall report,
            // and every dumped cause leave the scheduler, the rings, the
            // semaphore and the interrupt masks alone.
            &&& (is_async && (cause_num == 3 || cause_num == 7) ==> untouched)
            &&& (is_async && !(cause_num == 3 || cause_num == 7 || cause_num == 11)
                ==> untouched)
            &&& (!is_async && (cause_num == 3 || cause_num == 8) ==> untouched)
            &&& (!is_async && !(cause_num == 3 || cause_num == 8 || cause_num == 9 || cause_num
                == 11) ==> untouched)
            // The ecall causes answer for the slot's opcode.
            &&& (!is_async && (cause_num == 9 || cause_num == 11) && secall[
                hart as int].sbiop is UNDEF ==> r is Ok && r->Ok_0.action is CoreDump)
            &&& (!is_async && (cause_num == 9 || cause_num == 11) && secall[
                hart as int].sbiop is CLI ==> r is Ok && r->Ok_0.action is Continue
                && *final(csr) == (hart_csrs { mie: 0, ..*old(csr) })
                && final(frames)[hart as int].mie_buf == old(csr).mie)
            &&& (!is_async && (cause_num == 9 || cause_num == 11) && secall[
                hart as int].sbiop is STI ==> r is Ok && r->Ok_0.action is Continue
                && *final(csr) == (if old(csr).mie == 0 {
                hart_csrs { mie: old(frames)[hart as int].mie_buf, ..*old(csr) }
            } else {
                *old(csr)
            }))
            &&& (!is_async && (cause_num == 9 || cause_num == 11) && secall[
                hart as int].sbiop is YIELD && sched_cnt(old(pool).q(hart as int)) > 0 ==> (
            r is Ok ==> r->Ok_0.action == (m_trap_action::Resume {
                idx: old(pool).sched_pick(hart as int) as usize,
                path: resume_path::FromM,
            })))
            &&& (!is_async && (cause_num == 9 || cause_num == 11) && (secall[
                hart as int].sbiop is YIELD || secall[hart as int].sbiop is BLOCK || secall[
                hart as int].sbiop is EXIT || secall[hart as int].sbiop is UNBLOCK) ==> (r is Ok
                ==> (r->Ok_0.action is Resume || r->Ok_0.action is ResumeFallback
                || r->Ok_0.action is Continue)))
            &&& (is_async && cause_num == 3 ==> r is Ok && r->Ok_0.pc_ret == xepc
                && r->Ok_0.action is Continue)
            &&& (is_async && cause_num == 7 ==> r is Ok && r->Ok_0.pc_ret == xepc
                && r->Ok_0.action is RearmTimer)
            &&& (is_async && cause_num == 11 ==> (r is Err ==> r->Err_0.er_type
                == KErrorType::EFAULT))
            &&& (is_async && cause_num == 11 && (extint_id == 10 || extint_id == 0) && r is Ok
                ==> r->Ok_0.pc_ret == xepc && r->Ok_0.action is Continue && ({
                let req = int_request {
                    typ: int_type::EXTERNAL,
                    extint_id,
                    cpuid: hart,
                    data: if extint_id == 10 && uart_byte is Some {
                        Some(uart_byte->0 as usize)
                    } else {
                        None
                    },
                };
                &&& (old(irq).ring_view(hart as int).len() < MAX_IRQ ==> final(irq).ring_view(
                    hart as int,
                ) == old(irq).ring_view(hart as int).push(req) && final(sem_uart).cnt == old(
                    sem_uart,
                ).cnt + 1)
                &&& (old(irq).ring_view(hart as int).len() >= MAX_IRQ ==> final(irq).ring_view(
                    hart as int,
                ) == old(irq).ring_view(hart as int) && *final(sem_uart) == *old(sem_uart))
            }))
            &&& (is_async && cause_num == 11 && !(extint_id == 10 || extint_id == 0) ==> r is Ok
                && r->Ok_0.action is CoreDump)
            &&& (is_async && !(cause_num == 3 || cause_num == 7 || cause_num == 11) ==> r is Ok
                && r->Ok_0.action is CoreDump)
            &&& (!is_async && (cause_num == 3 || cause_num == 8) ==> r is Ok && r->Ok_0.pc_ret
                == xepc + 4 && r->Ok_0.action is Continue)
            &&& (!is_async && !(cause_num == 3 || cause_num == 8 || cause_num == 9 || cause_num
                == 11) ==> r is Ok && r->Ok_0.action is CoreDump)
            &&& (!is_async && (cause_num == 9 || cause_num == 11) ==> (r is Ok
                ==> r->Ok_0.pc_ret == xepc + 4))
        }),
{
    set_cpu_mode(frames, Mode::Machine_IRH, hart);
    let is_async = (xcause as u64) >> 63 & 1 == 1;
    let cause_num = xcause & 0xfff;
    let pc_ret = xepc;

    if is_async {
        if cause_num == 3 {
            set_cpu_mode(frames, mpp, hart);
            Ok(m_trap_result { pc_ret, action: m_trap_action::Continue })
        } else if cause_num == 7 {
            set_cpu_mode(frames, mpp, hart);
            Ok(m_trap_result { pc_ret, action: m_trap_action::RearmTimer })
        } else if cause_num == 11 {
            let mut data: Option<usize> = None;
            if extint_id == 10 {
                match uart_byte {
                    Some(ch) => {
                        data = Some(ch as usize);
                    },
                    None => {
                        data = None;
                    },
                }
            } else if extint_id == 0 {
                // nothing claimed: complete and fall through
            } else {
                return Ok(m_trap_result { pc_ret, action: m_trap_action::CoreDump });
            }
            let is_full = irq.is_full(hart)?;
            if !is_full {
                let mut new_irq_req = int_request::new();
                new_irq_req.set_typ(int_type::EXTERNAL);
                new_irq_req.set_extint_id(extint_id);
                new_irq_req.set_cpuid(hart);
                new_irq_req.set_data(data);

                let push_ret = irq.push_req(new_irq_req, hart);
                match push_ret {
                    Ok(_) => {},
                    Err(e) => {
                        return Err(e);
                    },
                }
                let sig_ret = sem_uart.signal(hart, pool, frames);
                match sig_ret {
                    Ok(_) => {},
                    Err(e) => {
                        return Err(e);
                    },
                }
            }
            set_cpu_mode(frames, mpp, hart);
            Ok(m_trap_result { pc_ret, action: m_trap_action::Continue })
        } else {
            Ok(m_trap_result { pc_ret, action: m_trap_action::CoreDump })
        }
    } else {
        if cause_num == 3 {
            set_cpu_mode(frames, mpp, hart);
            Ok(m_trap_result { pc_ret: pc_ret + 4, action: m_trap_action::Continue })
        } else if cause_num == 8 {
            set_cpu_mode(frames, mpp, hart);
            Ok(m_trap_result { pc_ret: pc_ret + 4, action: m_trap_action::Continue })
        } else if cause_num == 9 || cause_num == 11 {
            let action = ecall_handler(pc_ret, hart, frames, pool, secall, csr, root, zones)?;
            set_cpu_mode(frames, mpp, hart);
            Ok(m_trap_result { pc_ret: pc_ret + 4, action })
        } else {
            Ok(m_trap_result { pc_ret, action: m_trap_action::CoreDump })
        }
    }
}

/// One pass of the per-hart IRQ worker after its semaphore wake: take the
/// oldest queued request off the ring and hand it back for dispatch (for
/// source 10 the shell prints the carried byte). Nothing queued hands back
/// nothing.
pub fn irq_worker_step(irq: &mut soft_irq_buf, cpuid: usize) -> (r: Result<
    Option<int_request>,
    KError,
>)
    requires
        cpuid < MAX_HARTS,
        old(irq).wf(),
    ensures
        final(irq).wf(),
        r is Ok,
        old(irq).ring_view(cpuid as int).len() == 0 ==> r->Ok_0 is None && final(irq).ring_view(
            cpuid as int,
        ) == old(irq).ring_view(cpuid as int),
        old(irq).ring_view(cpuid as int).len() > 0 ==> r->Ok_0 == Some(
            old(irq).ring_view(cpuid as int)[0],
        ) && final(irq).ring_view(cpuid as int) == old(irq).ring_view(cpuid as int).subrange(
            1,
            old(irq).ring_view(cpuid as int).len() as int,
        ),
{
    let peeked = irq.peek_req(cpuid)?;
    match peeked {
        Some(new_req) => {
            let deq = irq.dequeue_req(cpuid);
            match deq {
                Ok(_) => {},
                Err(e) => {
                    return Err(e);
                },
            }
            Ok(Some(new_req))
        },
        None => Ok(None),
    }
}

/// Run the scheduler and turn its decision into a dispatch action.
#[verifier::spinoff_prover]
fn sched_to_action(
    pool: &mut task_pool,
    hart: usize,
    frames: &Vec<TrapFrame>,
    csr: &mut hart_csrs,
) -> (r: Result<m_trap_action, KError>)
    requires
        hart < MAX_HARTS,
        frames.len() == MAX_HARTS,
        old(pool).wf(),
        old(pool).pool[hart as int] is Some,
        old(pool).next_task[hart as int] is Some,
    ensures
        final(pool).wf(),
        final(pool).pool[hart as int] is Some,
        final(pool).next_task[hart as int] is Some,
        final(pool).current_task[hart as int] is Some,
        r is Ok,
        r is Ok ==> (r->Ok_0 is Resume || r->Ok_0 is Continue),
        r is Ok && !task_pool::hart_at_m(frames@, hart as int) ==> *final(csr) == *old(csr),
        r is Ok && sched_cnt(old(pool).q(hart as int)) > 0 ==> final(pool).q(hart as int)
            == old(pool).q(hart as int) && final(pool).current_task[hart as int] == Some(
            old(pool).sched_pick(hart as int) as usize,
        ) && final(pool).next_task[hart as int] == Some(
            old(pool).sched_pick(hart as int) as usize,
        ),
        r is Ok && sched_cnt(old(pool).q(hart as int)) == 0 ==> final(pool).q(
            hart as int,
        ).len() == 0 && r->Ok_0 is Continue,
        r is Ok && r->Ok_0 is Resume ==> final(pool).current_task[hart as int] == Some(
            r->Ok_0->Resume_idx,
        ) && r->Ok_0->Resume_idx < final(pool).q(hart as int).len() && is_schedulable(
            final(pool).q(hart as int)[r->Ok_0->Resume_idx as int],
        ),
        r is Ok && r->Ok_0 is Continue ==> final(pool).q(hart as int).len() == 0,
        forall|h: int|
            0 <= h < MAX_HARTS && h != hart ==> (#[trigger] final(pool).pool[h]) == old(
                pool,
            ).pool[h],
        final(pool).pids() == old(pool).pids(),
        r is Ok && sched_cnt(old(pool).q(hart as int)) > 0 ==> r->Ok_0 == (
        m_trap_action::Resume {
            idx: old(pool).sched_pick(hart as int) as usize,
            path: if task_pool::hart_at_m(frames@, hart as int) {
                resume_path::FromM
            } else {
                resume_path::FromS
            },
        }),
{
    proof {
        crate::kthread::lemma_sched_cnt_nonneg(old(pool).q(hart as int));
    }
    let action = pool.sched(hart, frames, csr)?;
    proof {
        assert(forall|h: int|
            0 <= h < MAX_HARTS && h != hart ==> (#[trigger] pool.pool[h]) == old(pool).pool[h]);
        assert(pool.pids() == old(pool).pids());
    }
    match action {
        sched_action::Idle => Ok(m_trap_action::Continue),
        sched_action::Resume { idx, path } => {
            proof {
                if sched_cnt(old(pool).q(hart as int)) <= 0 {
                    assert(false);
                }
                assert(old(pool).q(hart as int).len() <= usize::MAX) by {
                    let vref = old(pool).pool[hart as int]->0;
                    assert(vref@.len() == vstd::std_specs::vec::spec_vec_len(&vref));
                }
                assert(idx as int == old(pool).sched_pick(hart as int));
                assert(pool.q(hart as int) == old(pool).q(hart as int));
                assert(is_schedulable(pool.q(hart as int)[idx as int]));
            }
            Ok(m_trap_action::Resume { idx, path })
        },
    }
}

} // verus!
