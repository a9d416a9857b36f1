//! The external-interrupt pipeline: claim data entering through the M-mode
//! dispatcher, the per-hart ring, the semaphore wake, and the worker drain.

use rvcore::cpu::Mode;
use rvcore::irq::{int_request, int_type, soft_irq_buf, MAX_IRQ};
use rvcore::kernel;
use rvcore::kernel_layout;
use rvcore::kinit;
use rvcore::ksemaphore::wait_outcome;
use rvcore::trap::{irq_worker_step, m_trap, m_trap_action, s_trap};

fn layout() -> kernel_layout {
    kernel_layout {
        heap_start: 0x8000_0000,
        heap_end: 0x8040_0000,
        text_start: 0x8040_0000,
        text_end: 0x8041_0000,
        rodata_start: 0x8041_0000,
        rodata_end: 0x8042_0000,
        data_start: 0x8042_0000,
        data_end: 0x8043_0000,
        bss_start: 0x8043_0000,
        bss_end: 0x8044_0000,
        stack_start: 0x8048_0000,
        stack_end: 0x8044_0000,
        virtio_start: 0x1000_0000,
        virtio_end: 0x1000_1000,
    }
}

fn boot() -> kernel {
    kinit(&layout(), 0x8040_1000).expect("kinit")
}

const ASYNC_EXT: usize = (1usize << 63) | 11;

fn dispatch_extint(k: &mut kernel, hart: usize, id: u32, byte: Option<u8>) -> m_trap_action {
    let secall = k.secall_frame.clone();
    let mut csr = k.csrs[hart];
    let res = m_trap(
        0x8040_2000,
        0,
        ASYNC_EXT,
        hart,
        0,
        Mode::Supervisor,
        id,
        byte,
        &mut k.kernel_trap_frame,
        &mut k.kthread_pool,
        &secall,
        &mut k.irq_buffer,
        &mut k.sem_uart,
        &mut csr,
        &mut k.pageroot,
        &mut k.zones,
    )
    .expect("m_trap");
    k.csrs[hart] = csr;
    assert_eq!(res.pc_ret, 0x8040_2000);
    res.action
}

#[test]
fn injected_uart_byte_reaches_the_worker() {
    // A byte on hart 1: one request with source 10, hart 1 and the byte
    // lands in ring 1, the UART semaphore is signalled once, and the worker
    // takes exactly that request back off.
    let mut k = boot();
    let cnt0 = k.sem_uart.cnt;
    let action = dispatch_extint(&mut k, 1, 10, Some(b'x'));
    assert_eq!(action, m_trap_action::Continue);

    assert_eq!(k.irq_buffer.len(1).unwrap(), 1);
    assert_eq!(k.irq_buffer.len(0).unwrap(), 0);
    let req = k.irq_buffer.peek_req(1).unwrap().expect("queued request");
    assert_eq!(req.get_typ(), int_type::EXTERNAL);
    assert_eq!(req.get_extint_id(), 10);
    assert_eq!(req.get_cpuid(), 1);
    assert_eq!(req.get_data(), Some(b'x' as usize));
    assert_eq!(k.sem_uart.cnt, cnt0 + 1);

    // The worker drains it and finds the ring empty again; its next wait
    // blocks once the one credit is consumed.
    let got = irq_worker_step(&mut k.irq_buffer, 1).unwrap().expect("request");
    assert_eq!(got, req);
    assert!(k.irq_buffer.is_empty(1).unwrap());
    assert_eq!(k.sem_uart.wait(3, 9), wait_outcome::Proceed);
    assert_eq!(k.sem_uart.wait(3, 9), wait_outcome::MustBlock);
}

#[test]
fn a_full_ring_drops_the_interrupt() {
    let mut k = boot();
    for _ in 0..MAX_IRQ {
        let a = dispatch_extint(&mut k, 2, 10, Some(b'a'));
        assert_eq!(a, m_trap_action::Continue);
    }
    assert!(k.irq_buffer.is_full(2).unwrap());
    let cnt_before = k.sem_uart.cnt;
    let a = dispatch_extint(&mut k, 2, 10, Some(b'z'));
    assert_eq!(a, m_trap_action::Continue);
    assert_eq!(k.irq_buffer.len(2).unwrap(), MAX_IRQ);
    assert_eq!(k.sem_uart.cnt, cnt_before, "a dropped interrupt must not signal");
}

#[test]
fn unsupported_sources_dump_and_spurious_claims_pass() {
    let mut k = boot();
    let a = dispatch_extint(&mut k, 0, 60, None);
    assert_eq!(a, m_trap_action::CoreDump);
    // A spurious claim of source 0 is completed and queued without data.
    let a0 = dispatch_extint(&mut k, 0, 0, None);
    assert_eq!(a0, m_trap_action::Continue);
    let req = k.irq_buffer.peek_req(0).unwrap().expect("queued");
    assert_eq!(req.get_extint_id(), 0);
    assert_eq!(req.get_data(), None);
}

#[test]
fn timer_and_software_interrupts() {
    let mut k = boot();
    let a7 = dispatch_cause(&mut k, (1usize << 63) | 7);
    assert_eq!(a7, m_trap_action::RearmTimer);
    let a3 = dispatch_cause(&mut k, (1usize << 63) | 3);
    assert_eq!(a3, m_trap_action::Continue);
    let abad = dispatch_cause(&mut k, (1usize << 63) | 5);
    assert_eq!(abad, m_trap_action::CoreDump);
    // Synchronous ebreak steps the pc; an unhandled fault dumps.
    let (pc, act) = dispatch_sync(&mut k, 3);
    assert_eq!(pc, 0x8040_2004);
    assert_eq!(act, m_trap_action::Continue);
    let (_, act) = dispatch_sync(&mut k, 13);
    assert_eq!(act, m_trap_action::CoreDump);
}

fn dispatch_cause(k: &mut kernel, cause: usize) -> m_trap_action {
    let secall = k.secall_frame.clone();
    let mut csr = k.csrs[0];
    let res = m_trap(
        0x8040_2000,
        0,
        cause,
        0,
        0,
        Mode::Supervisor,
        0,
        None,
        &mut k.kernel_trap_frame,
        &mut k.kthread_pool,
        &secall,
        &mut k.irq_buffer,
        &mut k.sem_uart,
        &mut csr,
        &mut k.pageroot,
        &mut k.zones,
    )
    .expect("m_trap");
    k.csrs[0] = csr;
    res.action
}

fn dispatch_sync(k: &mut kernel, cause: usize) -> (usize, m_trap_action) {
    let secall = k.secall_frame.clone();
    let mut csr = k.csrs[0];
    let res = m_trap(
        0x8040_2000,
        0,
        cause,
        0,
        0,
        Mode::Supervisor,
        0,
        None,
        &mut k.kernel_trap_frame,
        &mut k.kthread_pool,
        &secall,
        &mut k.irq_buffer,
        &mut k.sem_uart,
        &mut csr,
        &mut k.pageroot,
        &mut k.zones,
    )
    .expect("m_trap");
    k.csrs[0] = csr;
    (res.pc_ret, res.action)
}

#[test]
fn cli_and_sti_ecalls_mask_and_restore_mie() {
    let mut k = boot();
    k.csrs[0].mie = 0xaa;
    k.secall_frame[0].set_opcode(rvcore::ecall::S2Mop::CLI);
    let (pc, act) = dispatch_sync(&mut k, 9);
    assert_eq!(pc, 0x8040_2004);
    assert_eq!(act, m_trap_action::Continue);
    assert_eq!(k.csrs[0].mie, 0);
    assert_eq!(k.kernel_trap_frame[0].mie_buf, 0xaa);

    k.secall_frame[0].set_opcode(rvcore::ecall::S2Mop::STI);
    let (_, act) = dispatch_sync(&mut k, 9);
    assert_eq!(act, m_trap_action::Continue);
    assert_eq!(k.csrs[0].mie, 0xaa);

    // The undefined opcode is fatal.
    k.secall_frame[0].set_opcode(rvcore::ecall::S2Mop::UNDEF);
    let (_, act) = dispatch_sync(&mut k, 11);
    assert_eq!(act, m_trap_action::CoreDump);
}

#[test]
fn supervisor_dispatcher_acknowledges_and_rejects() {
    let mut k = boot();
    let ok = s_trap(
        0x10,
        0,
        (1usize << 63) | 9,
        0,
        0,
        Mode::Supervisor,
        &mut k.kernel_trap_frame,
    );
    assert_eq!(ok.pc_ret, 0x10);
    assert_eq!(ok.action, m_trap_action::Continue);
    let bad = s_trap(0x10, 0, 2, 0, 0, Mode::Supervisor, &mut k.kernel_trap_frame);
    assert_eq!(bad.action, m_trap_action::CoreDump);
}

#[test]
fn ring_buffer_requests_round_trip() {
    let mut buf = soft_irq_buf::new();
    buf.init();
    let mut req = int_request::new();
    assert_eq!(req.get_typ(), int_type::NONE);
    req.set_typ(int_type::EXTERNAL);
    req.set_extint_id(10);
    req.set_cpuid(3);
    req.set_data(Some(120));
    buf.push_req(req, 3).expect("push");
    assert_eq!(buf.len(3).unwrap(), 1);
    assert!(!buf.is_empty(3).unwrap());
    assert_eq!(buf.peek_req(3).unwrap(), Some(req));
    buf.dequeue_req(3).expect("dequeue");
    assert!(buf.is_empty(3).unwrap());
    assert_eq!(irq_worker_step(&mut buf, 3).unwrap(), None);
}
