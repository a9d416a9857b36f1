//! The kernel semaphore: an integer counter and a wait list of
//! (pid, life_id). A negative counter equals the number of queued waiters.
//! Waiting always goes through the Block ecall; signalling from the M-mode
//! trap handler wakes the waiter directly so the handler never traps itself.

use crate::cpu::{get_cpu_mode, Mode, TrapFrame, MAX_HARTS};
use crate::error::{KError, KErrorType};
use crate::kthread::{task_pool, task_state, task_struct};
use vstd::prelude::*;

verus! {

/// What a `wait` decides: go on, or block through the Block ecall.
#[derive(Clone, Copy, Debug, PartialEq, Eq, Structural)]
pub enum wait_outcome {
    Proceed,
    MustBlock,
}

pub struct kt_semaphore {
    pub cnt: i32,
    pub wait_q: Vec<(usize, usize)>,
}

impl kt_semaphore {
    pub fn new(new_cnt: i32) -> (r: kt_semaphore)
        requires
            new_cnt >= 0,
        ensures
            r.cnt == new_cnt,
            r.wait_q@ == Seq::<(usize, usize)>::empty(),
    {
        kt_semaphore { cnt: new_cnt, wait_q: Vec::new() }
    }

    /// Take the semaphore as the task `(pid, lifeid)`: decrement the
    /// counter; a counter that was not positive queues the caller, who must
    /// then issue Block(pid, lifeid).
    pub fn wait(&mut self, pid: usize, lifeid: usize) -> (r: wait_outcome)
        requires
            i32::MIN < old(self).cnt,
        ensures
            final(self).cnt == old(self).cnt - 1,
            old(self).cnt > 0 ==> r is Proceed && final(self).wait_q@ == old(self).wait_q@,
            old(self).cnt <= 0 ==> r is MustBlock && final(self).wait_q@ == old(
                self,
            ).wait_q@.push((pid, lifeid)),
    {
        self.cnt = self.cnt - 1;
        if self.cnt < 0 {
            self.wait_q.push((pid, lifeid));
            wait_outcome::MustBlock
        } else {
            wait_outcome::Proceed
        }
    }
}

/// What a `signal` did: nothing was waiting, a waiter was marked Ready
/// directly, or the caller must issue Unblock(pid, life_id).
#[derive(Clone, Copy, Debug, PartialEq, Eq, Structural)]
pub enum signal_outcome {
    NoWaiter,
    WokeDirect { pid: usize, life_id: usize },
    NeedUnblock { pid: usize, life_id: usize },
}

impl kt_semaphore {
    /// Release the semaphore from `hart`. A counter that stays positive wakes
    /// nobody. Otherwise the most recently queued waiter is popped; from
    /// machine level (including the trap handler) it is marked Ready in the
    /// pool directly, so the handler never traps itself; from supervisor
    /// level the caller is told to issue the Unblock ecall. A popped waiter
    /// that is no longer in the pool under its life id is EFAULT.
    pub fn signal(
        &mut self,
        hart: usize,
        pool: &mut task_pool,
        kernel_frames: &Vec<TrapFrame>,
    ) -> (r: Result<signal_outcome, KError>)
        requires
            old(self).cnt < i32::MAX,
            hart < MAX_HARTS,
            hart < kernel_frames.len(),
            old(pool).wf(),
        ensures
            final(pool).wf(),
            final(self).cnt == old(self).cnt + 1,
            old(self).cnt + 1 > 0 ==> r == Ok::<signal_outcome, KError>(
                signal_outcome::NoWaiter,
            ) && final(self).wait_q@ == old(self).wait_q@ && *final(pool) == *old(pool),
            old(self).cnt + 1 <= 0 && old(self).wait_q@.len() == 0 ==> r == Ok::<
                signal_outcome,
                KError,
            >(signal_outcome::NoWaiter) && final(self).wait_q@ == old(self).wait_q@
                && *final(pool) == *old(pool),
            old(self).cnt + 1 <= 0 && old(self).wait_q@.len() > 0 ==> ({
                let wake_pid = old(self).wait_q.view().last().0;
                let lifeid = old(self).wait_q.view().last().1;
                let at_m = kernel_frames[hart as int].cur_mode is Machine
                    || kernel_frames[hart as int].cur_mode is Machine_IRH;
                let present = exists|h: int, i: int|
                    0 <= h < MAX_HARTS && old(pool).pool[h] is Some && 0 <= i < old(pool).q(
                        h,
                    ).len() && (#[trigger] old(pool).q(h)[i]).pid == wake_pid && old(pool).q(
                        h,
                    )[i].life_id == lifeid;
                &&& final(self).wait_q@ == old(self).wait_q@.drop_last()
                &&& (!at_m ==> r == Ok::<signal_outcome, KError>(
                    signal_outcome::NeedUnblock { pid: wake_pid, life_id: lifeid },
                ) && *final(pool) == *old(pool))
                &&& (at_m && present ==> r == Ok::<signal_outcome, KError>(
                    signal_outcome::WokeDirect { pid: wake_pid, life_id: lifeid },
                ) && (exists|h: int, i: int|
                    0 <= h < MAX_HARTS && old(pool).pool[h] is Some && 0 <= i < old(pool).q(
                        h,
                    ).len() && (#[trigger] old(pool).q(h)[i]).pid == wake_pid && old(pool).q(
                        h,
                    )[i].life_id == lifeid && final(pool).q(h) == old(pool).q(h).update(
                        i,
                        task_struct { state: task_state::Ready, ..old(pool).q(h)[i] },
                    )))
                &&& (at_m && !present ==> r is Err && r->Err_0.er_type == KErrorType::EFAULT
                    && *final(pool) == *old(pool))
            }),
            (kernel_frames[hart as int].cur_mode is Machine || kernel_frames[hart as int].cur_mode
                is Machine_IRH) ==> !(r is Ok && r->Ok_0 is NeedUnblock),
    {
        self.cnt = self.cnt + 1;
        if self.cnt <= 0 {
            let popped = self.wait_q.pop();
            match popped {
                Some(entry) => {
                    let wake_pid = entry.0;
                    let lifeid = entry.1;
                    let current_mode = get_cpu_mode(kernel_frames, hart);
                    match current_mode {
                        Mode::Machine | Mode::Machine_IRH => {
                            let set_ret = pool.set_state_by_pid(
                                wake_pid,
                                lifeid,
                                task_state::Ready,
                            );
                            match set_ret {
                                Ok(_) => Ok(
                                    signal_outcome::WokeDirect { pid: wake_pid, life_id: lifeid },
                                ),
                                Err(e) => Err(e),
                            }
                        },
                        _ => Ok(signal_outcome::NeedUnblock { pid: wake_pid, life_id: lifeid }),
                    }
                },
                None => Ok(signal_outcome::NoWaiter),
            }
        } else {
            Ok(signal_outcome::NoWaiter)
        }
    }
}

} // verus!
