//! The kernel semaphore: counter discipline, waking exactly one waiter, and
//! the in-handler fast path that avoids nested traps.

use rvcore::cpu::{Mode, TrapFrame};
use rvcore::error::KErrorType;
use rvcore::ksemaphore::{kt_semaphore, signal_outcome, wait_outcome};
use rvcore::kthread::{task_pool, task_state, task_struct};

fn frames_in(mode: Mode) -> Vec<TrapFrame> {
    let mut frames = Vec::new();
    for h in 0..4 {
        let mut f = TrapFrame::new();
        f.cpuid = h;
        f.cur_mode = mode;
        frames.push(f);
    }
    frames
}

/// A pool without backing memory: its tables set by hand, holding one
/// blocked task on hart 0.
fn pool_with_one_task() -> (task_pool, usize, usize) {
    let mut pool = task_pool::new();
    pool.pool[0] = Some(Vec::new());
    pool.pidmap = Some(cbitmap::bitmap::Bitmap::new());
    let mut t = task_struct::new();
    t.set_state(task_state::Block);
    pool.append_task(t, 0).expect("append");
    let (pid, life) = {
        let q = pool.pool[0].as_ref().unwrap();
        (q[0].pid, q[0].life_id)
    };
    (pool, pid, life)
}

#[test]
fn counter_of_k_blocks_the_k_plus_first_waiter() {
    // Initialized to 2: the first two waits pass, the third must block.
    let mut sem = kt_semaphore::new(2);
    assert_eq!(sem.wait(5, 1), wait_outcome::Proceed);
    assert_eq!(sem.wait(6, 2), wait_outcome::Proceed);
    assert_eq!(sem.wait(7, 3), wait_outcome::MustBlock);
    assert_eq!(sem.cnt, -1);
    assert_eq!(sem.wait_q, vec![(7, 3)]);

    let mut zero = kt_semaphore::new(0);
    assert_eq!(zero.wait(9, 4), wait_outcome::MustBlock);
}

#[test]
fn signal_at_or_below_zero_wakes_exactly_one_waiter() {
    let (mut pool, pid, life) = pool_with_one_task();
    let frames = frames_in(Mode::Machine_IRH);

    let mut sem = kt_semaphore::new(0);
    assert_eq!(sem.wait(pid, life), wait_outcome::MustBlock);
    assert_eq!(sem.wait_q.len(), 1);

    let out = sem.signal(0, &mut pool, &frames).expect("signal");
    assert_eq!(out, signal_outcome::WokeDirect { pid, life_id: life });
    assert_eq!(sem.wait_q.len(), 0);
    assert!(matches!(
        pool.pool[0].as_ref().unwrap()[0].state,
        task_state::Ready
    ));

    // With nobody left waiting, another signal wakes nobody.
    let out2 = sem.signal(0, &mut pool, &frames).expect("signal");
    assert_eq!(out2, signal_outcome::NoWaiter);
}

#[test]
fn signals_from_the_handler_never_request_a_trap() {
    // From machine level — the trap handler included — signal never asks
    // for an Unblock ecall, however often it runs.
    let (mut pool, pid, life) = pool_with_one_task();
    let frames = frames_in(Mode::Machine_IRH);

    let mut sem = kt_semaphore::new(0);
    sem.wait(pid, life);
    for _ in 0..5 {
        let out = sem.signal(0, &mut pool, &frames).expect("signal");
        assert!(!matches!(out, signal_outcome::NeedUnblock { .. }));
    }
}

#[test]
fn signal_from_supervisor_level_requests_an_unblock_ecall() {
    let (mut pool, pid, life) = pool_with_one_task();
    let frames = frames_in(Mode::Supervisor);

    let mut sem = kt_semaphore::new(0);
    sem.wait(pid, life);
    let out = sem.signal(0, &mut pool, &frames).expect("signal");
    assert_eq!(out, signal_outcome::NeedUnblock { pid, life_id: life });
    // The pool is untouched: the wake goes through the ecall instead.
    assert!(matches!(
        pool.pool[0].as_ref().unwrap()[0].state,
        task_state::Block
    ));
}

#[test]
fn waking_a_vanished_waiter_is_efault() {
    let (mut pool, _, _) = pool_with_one_task();
    let frames = frames_in(Mode::Machine);
    let mut sem = kt_semaphore::new(0);
    sem.wait(77, 123);
    let r = sem.signal(0, &mut pool, &frames);
    assert_eq!(r.unwrap_err().kind(), KErrorType::EFAULT);
}

#[test]
fn semaphores_created_through_the_pool() {
    let mut pool = task_pool::new();
    assert_eq!(
        pool.sem_init(0, 1).unwrap_err().kind(),
        KErrorType::EINVAL
    );
    pool.sems[0] = Some(Vec::new());
    let (hart, idx) = pool.sem_init(0, 3).expect("sem_init");
    assert_eq!((hart, idx), (0, 0));
    assert_eq!(pool.sems[0].as_ref().unwrap()[0].cnt, 3);
}
