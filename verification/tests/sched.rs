//! Scheduler and task lifecycle: round-robin order, pid reuse, life ids,
//! and the interrupt masking around Critical tasks.

use rvcore::cpu::Mode;
use rvcore::ecall::S2Mop;
use rvcore::error::KErrorType;
use rvcore::kernel;
use rvcore::kernel_layout;
use rvcore::kinit;
use rvcore::kthread::{resume_path, task_flag, task_state};
use rvcore::trap::{ecall_handler, m_trap_action};

fn layout() -> kernel_layout {
    kernel_layout {
        heap_start: 0x8000_0000,
        heap_end: 0x8040_0000,
        text_start: 0x8040_0000,
        text_end: 0x8041_0000,
        rodata_start: 0x8041_0000,
        rodata_end: 0x8042_0000,
        data_start: 0x8042_0000,
        data_end: 0x8043_0000,
        bss_start: 0x8043_0000,
        bss_end: 0x8044_0000,
        stack_start: 0x8048_0000,
        stack_end: 0x8044_0000,
        virtio_start: 0x1000_0000,
        virtio_end: 0x1000_1000,
    }
}

fn boot() -> kernel {
    kinit(&layout(), 0x8040_1000).expect("kinit")
}

fn spawn_on(k: &mut kernel, func: usize, flag: task_flag, hart: usize) {
    let ksatp = k.heap.get_ksatp();
    k.kthread_pool
        .spawn(func, flag, hart, ksatp, &mut k.pageroot, &mut k.zones, &mut k.heap)
        .expect("spawn");
}

fn yield_once(k: &mut kernel, hart: usize) -> m_trap_action {
    k.secall_frame[hart].set_opcode(S2Mop::YIELD);
    let secall = k.secall_frame.clone();
    let mut csr = k.csrs[hart];
    let action = ecall_handler(
        0x8040_2000,
        hart,
        &mut k.kernel_trap_frame,
        &mut k.kthread_pool,
        &secall,
        &mut csr,
        &mut k.pageroot,
        &mut k.zones,
    )
    .expect("yield");
    k.csrs[hart] = csr;
    action
}

#[test]
fn two_yielding_tasks_alternate_strictly() {
    // Two tasks on hart 0 that only yield take turns in FIFO order of
    // spawning: the resumed pids alternate strictly over ten yields.
    let mut k = boot();
    spawn_on(&mut k, 0x8040_2000, task_flag::NORMAL, 0);
    spawn_on(&mut k, 0x8040_3000, task_flag::NORMAL, 0);
    k.kernel_trap_frame[0].cur_mode = Mode::Supervisor;

    let mut order: Vec<usize> = Vec::new();
    for _ in 0..10 {
        match yield_once(&mut k, 0) {
            m_trap_action::Resume { idx, path } => {
                assert_eq!(path, resume_path::FromS);
                let q = k.kthread_pool.pool[0].as_ref().unwrap();
                order.push(q[idx].pid);
            }
            other => panic!("unexpected action {:?}", other),
        }
    }
    for i in 0..order.len() {
        assert_eq!(order[i], order[i % 2], "strict alternation broken at step {}", i);
    }
    assert_ne!(order[0], order[1]);
}

#[test]
fn exit_reclaims_the_pid_for_a_later_spawn() {
    let mut k = boot();
    spawn_on(&mut k, 0x8040_2000, task_flag::NORMAL, 0);
    let first_pid = k.kthread_pool.pool[0].as_ref().unwrap()[0].pid;
    assert!(k.kthread_pool.pid_taken(first_pid));

    let removed = k.kthread_pool.remove_cur_task(0).expect("remove").expect("task");
    assert_eq!(removed.pid, first_pid);
    assert!(!k.kthread_pool.pid_taken(first_pid));

    spawn_on(&mut k, 0x8040_3000, task_flag::NORMAL, 0);
    let reused = k.kthread_pool.pool[0].as_ref().unwrap()[0].pid;
    assert_eq!(reused, first_pid);
}

#[test]
fn life_ids_increase_strictly_across_all_spawns() {
    let mut k = boot();
    let mut last = 0;
    for hart in 0..4 {
        for _ in 0..3 {
            spawn_on(&mut k, 0x8040_2000, task_flag::NORMAL, hart);
            let q = k.kthread_pool.pool[hart].as_ref().unwrap();
            let life = q[q.len() - 1].life_id;
            assert!(life > last, "life id {} did not grow past {}", life, last);
            last = life;
        }
    }
    // Pid reuse does not resurrect an old life id.
    let p = k.kthread_pool.pool[0].as_ref().unwrap()[0].pid;
    k.kthread_pool.remove_cur_task(0).expect("remove");
    spawn_on(&mut k, 0x8040_2000, task_flag::NORMAL, 0);
    let q = k.kthread_pool.pool[0].as_ref().unwrap();
    let t = &q[q.len() - 1];
    assert_eq!(t.pid, p);
    assert!(t.life_id > last);
}

#[test]
fn stale_life_id_fails_with_efault_even_for_a_live_pid() {
    let mut k = boot();
    spawn_on(&mut k, 0x8040_2000, task_flag::NORMAL, 0);
    let (pid, life_a) = {
        let t = &k.kthread_pool.pool[0].as_ref().unwrap()[0];
        (t.pid, t.life_id)
    };
    // The task exits; its pid is reused by a younger spawn.
    k.kthread_pool.remove_cur_task(0).expect("remove");
    spawn_on(&mut k, 0x8040_3000, task_flag::NORMAL, 0);
    let (pid_b, life_b) = {
        let t = &k.kthread_pool.pool[0].as_ref().unwrap()[0];
        (t.pid, t.life_id)
    };
    assert_eq!(pid_b, pid);
    assert!(life_b > life_a);

    // Addressing the pid under its old generation is refused.
    let r = k.kthread_pool.set_state_by_pid(pid, life_a, task_state::Block);
    assert_eq!(r.unwrap_err().kind(), KErrorType::EFAULT);
    // Under the live generation it works.
    k.kthread_pool.set_state_by_pid(pid, life_b, task_state::Block).expect("block");
    assert!(matches!(
        k.kthread_pool.pool[0].as_ref().unwrap()[0].state,
        task_state::Block
    ));
    k.kthread_pool.set_state_by_pid(pid, life_b, task_state::Ready).expect("unblock");
    assert!(matches!(
        k.kthread_pool.pool[0].as_ref().unwrap()[0].state,
        task_state::Ready
    ));
}

#[test]
fn critical_task_masks_interrupts_and_yield_restores_them() {
    // Entering a Critical task from machine level clears mie and stashes
    // the previous value; its Yield restores exactly that value.
    let mut k = boot();
    // The round-robin walk starts past the current index, so the Critical
    // task sits second and is picked first.
    spawn_on(&mut k, 0x8040_3000, task_flag::NORMAL, 0);
    spawn_on(&mut k, 0x8040_2000, task_flag::CRITICAL, 0);
    k.kernel_trap_frame[0].cur_mode = Mode::Machine;
    let mut csr = k.csrs[0];
    csr.mie = 0x888;

    let action = k
        .kthread_pool
        .sched(0, &k.kernel_trap_frame, &mut csr)
        .expect("sched");
    match action {
        rvcore::kthread::sched_action::Resume { idx, path } => {
            assert_eq!(path, resume_path::FromM);
            let q = k.kthread_pool.pool[0].as_ref().unwrap();
            assert!(matches!(q[idx].flag, task_flag::CRITICAL));
        }
        other => panic!("unexpected action {:?}", other),
    }
    assert_eq!(csr.mie, 0, "mie must be 0 while the Critical task runs");
    assert_eq!(k.kthread_pool.crit_task_intstate[0], 0x888);

    // The Critical task yields from supervisor level: mie comes back.
    k.kernel_trap_frame[0].cur_mode = Mode::Supervisor;
    k.csrs[0] = csr;
    let action = yield_once(&mut k, 0);
    assert!(matches!(action, m_trap_action::Resume { .. }));
    assert_eq!(k.csrs[0].mie, 0x888);
}

#[test]
fn exit_of_the_last_task_falls_back_to_idle() {
    let mut k = boot();
    spawn_on(&mut k, 0x8040_2000, task_flag::NORMAL, 0);
    k.kernel_trap_frame[0].cur_mode = Mode::Machine_IRH;
    k.secall_frame[0].set_opcode(S2Mop::EXIT);
    let secall = k.secall_frame.clone();
    let mut csr = k.csrs[0];
    let action = ecall_handler(
        0x8040_2000,
        0,
        &mut k.kernel_trap_frame,
        &mut k.kthread_pool,
        &secall,
        &mut csr,
        &mut k.pageroot,
        &mut k.zones,
    )
    .expect("exit");
    assert_eq!(
        action,
        m_trap_action::ResumeFallback { path: resume_path::FromM }
    );
    assert_eq!(k.kthread_pool.pool[0].as_ref().unwrap().len(), 0);
}

#[test]
fn block_and_unblock_ecalls_move_the_target() {
    let mut k = boot();
    spawn_on(&mut k, 0x8040_2000, task_flag::NORMAL, 0);
    spawn_on(&mut k, 0x8040_3000, task_flag::NORMAL, 0);
    k.kernel_trap_frame[0].cur_mode = Mode::Supervisor;
    let (pid_b, life_b) = {
        let t = &k.kthread_pool.pool[0].as_ref().unwrap()[1];
        (t.pid, t.life_id)
    };

    // Block the second task through the ecall slot: it goes to Block and
    // the scheduler picks the still-ready first task.
    k.secall_frame[0].load_call(S2Mop::BLOCK, Some(&[pid_b, life_b, 0, 0, 0]));
    let secall = k.secall_frame.clone();
    let mut csr = k.csrs[0];
    let action = ecall_handler(
        0x8040_2000,
        0,
        &mut k.kernel_trap_frame,
        &mut k.kthread_pool,
        &secall,
        &mut csr,
        &mut k.pageroot,
        &mut k.zones,
    )
    .expect("block");
    assert!(matches!(action, m_trap_action::Resume { idx: 0, .. }));
    assert!(matches!(
        k.kthread_pool.pool[0].as_ref().unwrap()[1].state,
        task_state::Block
    ));
    // The blocked caller's pc was stepped past the ecall.
    assert_eq!(k.kthread_pool.pool[0].as_ref().unwrap()[0].pc, 0x8040_2004);

    // Unblock it: the task is Ready again and nobody is rescheduled.
    k.secall_frame[0].load_call(S2Mop::UNBLOCK, Some(&[pid_b, life_b, 0, 0, 0]));
    let secall = k.secall_frame.clone();
    let action = ecall_handler(
        0x8040_2000,
        0,
        &mut k.kernel_trap_frame,
        &mut k.kthread_pool,
        &secall,
        &mut csr,
        &mut k.pageroot,
        &mut k.zones,
    )
    .expect("unblock");
    assert_eq!(action, m_trap_action::Continue);
    assert!(matches!(
        k.kthread_pool.pool[0].as_ref().unwrap()[1].state,
        task_state::Ready
    ));

    // A pair nothing carries is refused.
    k.secall_frame[0].load_call(S2Mop::UNBLOCK, Some(&[77, 999, 0, 0, 0]));
    let secall = k.secall_frame.clone();
    let r = ecall_handler(
        0x8040_2000,
        0,
        &mut k.kernel_trap_frame,
        &mut k.kthread_pool,
        &secall,
        &mut csr,
        &mut k.pageroot,
        &mut k.zones,
    );
    assert_eq!(r.unwrap_err().kind(), KErrorType::EFAULT);
    k.csrs[0] = csr;
}
