//! The small pieces: CSR value composition, the lock policy, the PLIC and
//! CLINT register maps, the ecall slot, and assorted helpers.

use rvcore::clint::{clint_controller, CLINT_BASE, TIMER_INTERVAL};
use rvcore::cpu::{busy_delay, hart_csrs, make_satp, Mode, SATP_mode, TrapFrame};
use rvcore::ecall::{ecall_args, S2Mop};
use rvcore::error::{KError, KErrorType};
use rvcore::lock::{M_cli, M_sti, S_cli, S_sti};
use rvcore::plic::{extint_name, extint_src, id2plic_ctx, plic_controller, plic_ctx, PLIC_BASE};
use rvcore::uart::Uart;
use rvcore::zone::zone_type;
use rvcore::{align_down_4k, align_up_4k};

#[test]
fn frame_alignment_helpers() {
    assert_eq!(align_up_4k(0), 0);
    assert_eq!(align_up_4k(1), 4096);
    assert_eq!(align_up_4k(4096), 4096);
    assert_eq!(align_up_4k(4097), 8192);
    assert_eq!(align_down_4k(0), 0);
    assert_eq!(align_down_4k(4095), 0);
    assert_eq!(align_down_4k(4096), 4096);
    assert_eq!(align_down_4k(8191), 4096);
}

#[test]
fn satp_composition() {
    // Sv39 mode in bits 63:60, the ASID, and the root's physical page number.
    assert_eq!(
        make_satp(SATP_mode::Sv39, 0, 0x8020_0000),
        (8u64 << 60) | 0x8_0200
    );
    assert_eq!(
        make_satp(SATP_mode::Sv48, 5, 0x8000_0000),
        (9u64 << 60) | (5u64 << 44) | 0x8_0000
    );
    assert_eq!(SATP_mode::Bare.val(), 0);
    assert_eq!(SATP_mode::Sv57.val(), 10);
    assert_eq!(SATP_mode::Sv64.val(), 11);
}

#[test]
fn interrupt_mask_policy() {
    let mut csr = hart_csrs::new();
    csr.mie = 0x222;
    csr.sie = 0x111;

    let saved = M_cli(&mut csr);
    assert_eq!(saved, 0x222);
    assert_eq!(csr.mie, 0);
    // The restore takes effect because mie is still zero.
    M_sti(&mut csr, saved);
    assert_eq!(csr.mie, 0x222);
    // A restore over a live mask changes nothing.
    M_sti(&mut csr, 0x777);
    assert_eq!(csr.mie, 0x222);

    let ssaved = S_cli(&mut csr);
    assert_eq!(ssaved, 0x111);
    assert_eq!(csr.sie, 0);
    S_sti(&mut csr, ssaved);
    assert_eq!(csr.sie, 0x111);
}

#[test]
fn busy_delay_matches_its_arithmetic() {
    let mut expected: usize = 7;
    for k in 0..10_000_000usize {
        if k % 2 == 0 {
            expected += 3;
        } else {
            expected /= 2;
        }
    }
    assert_eq!(busy_delay(7), expected);
}

#[test]
fn plic_context_indices() {
    assert_eq!(plic_ctx::CORE0_M.index(), 0);
    assert_eq!(plic_ctx::CORE1_M.index(), 2);
    assert_eq!(plic_ctx::CORE3_M.index(), 6);
    assert_eq!(plic_ctx::CORE0_S.index(), 1);
    assert_eq!(plic_ctx::CORE3_S.index(), 7);
    assert_eq!(plic_ctx::max_ctx(), 8);

    assert_eq!(id2plic_ctx(1, Mode::Machine).index(), 2);
    assert_eq!(id2plic_ctx(1, Mode::Machine_IRH).index(), 2);
    assert_eq!(id2plic_ctx(1, Mode::Supervisor).index(), 3);
    assert_eq!(id2plic_ctx(3, Mode::User).index(), 7);
}

#[test]
fn plic_register_map() {
    let mut plic = plic_controller::new(PLIC_BASE);
    assert_eq!(plic.prio_base, PLIC_BASE);
    assert_eq!(plic.pend_base, PLIC_BASE + 0x1000);
    assert_eq!(plic.enable_base, PLIC_BASE + 0x2000);
    assert_eq!(plic.thres_base, PLIC_BASE + 0x20_0000);

    let mut src = extint_src::new();
    src.set_name(extint_name::UART0);
    src.set_src_id(10);
    assert_eq!(src.get_name(), extint_name::UART0);
    assert_eq!(src.get_src_id(), 10);

    let w = plic.set_prio(&src, 5).expect("set_prio");
    assert_eq!(w.addr, PLIC_BASE + 4 * 10);
    assert_eq!(w.val, 5);
    assert_eq!(
        plic.set_prio(&src, 8).unwrap_err().kind(),
        KErrorType::EINVAL
    );
    assert_eq!(plic.get_prio(&src, 5).unwrap(), 5);
    assert_eq!(plic.get_prio(&src, 4).unwrap_err().kind(), KErrorType::EFAULT);

    let e = plic.enable(plic_ctx::CORE1_M, &src);
    assert_eq!(e.addr, PLIC_BASE + 0x2000 + 2 * 0x80 + 10 / 32);
    assert_eq!(e.set_mask, 1 << 10);

    let t = plic.set_thres(plic_ctx::CORE1_M, 0).expect("set_thres");
    assert_eq!(t.addr, PLIC_BASE + 0x20_0000 + 2 * 0x1000);
    assert_eq!(
        plic.set_thres(plic_ctx::CORE1_M, 9).unwrap_err().kind(),
        KErrorType::EFAULT
    );

    assert_eq!(plic.claim(&plic_ctx::CORE1_M), PLIC_BASE + 0x20_0000 + 2 * 0x1000 + 4);
    let c = plic.complete(&plic_ctx::CORE1_M, 10);
    assert_eq!(c.addr, PLIC_BASE + 0x20_0000 + 2 * 0x1000 + 4);
    assert_eq!(c.val, 10);

    assert!(plic.get_pending(&src, 1 << 10));
    assert!(!plic.get_pending(&src, 1 << 9));
}

#[test]
fn clint_register_map() {
    let clint = clint_controller::new(CLINT_BASE);
    assert_eq!(clint.mtimecmp_addr(0), CLINT_BASE + 0x4000);
    assert_eq!(clint.mtimecmp_addr(3), CLINT_BASE + 0x4000 + 24);
    assert_eq!(clint.mtime_addr(), CLINT_BASE + 0xbff8);
    assert_eq!(clint.next_deadline(0x1234), 0x1234 + TIMER_INTERVAL);
}

#[test]
fn ecall_slot_round_trip() {
    let mut slot = ecall_args::new();
    assert!(matches!(slot.get_opcode(), S2Mop::UNDEF));
    slot.set_opcode(S2Mop::YIELD);
    assert!(matches!(slot.get_opcode(), S2Mop::YIELD));
    slot.set_args(&[1, 2, 3, 4, 5]);
    assert_eq!(*slot.get_args(), [1, 2, 3, 4, 5]);
    slot.set_ret(9);
    assert_eq!(slot.get_ret(), 9);

    slot.load_call(S2Mop::BLOCK, Some(&[7, 8, 0, 0, 0]));
    assert!(matches!(slot.get_opcode(), S2Mop::BLOCK));
    assert_eq!(*slot.get_args(), [7, 8, 0, 0, 0]);
    assert_eq!(slot.get_ret(), 0);
    slot.set_ret(3);
    slot.load_call(S2Mop::EXIT, None);
    assert!(matches!(slot.get_opcode(), S2Mop::EXIT));
    assert_eq!(*slot.get_args(), [7, 8, 0, 0, 0]);
    assert_eq!(slot.get_ret(), 0);
}

#[test]
fn trap_frame_copies() {
    let mut a = TrapFrame::new();
    a.regs[2] = 0x999;
    a.trap_stack = 0x1234;
    a.cpuid = 2;
    let mut b = TrapFrame::new();
    b.trap_stack = 0x5678;
    b.refresh_from(&a);
    assert_eq!(b.regs[2], 0x999);
    assert_eq!(b.cpuid, 2);
    assert_eq!(b.trap_stack, 0x5678, "refresh keeps the frame's own trap stack");
    let mut c = TrapFrame::new();
    c.copy_from(&a);
    assert_eq!(c.trap_stack, 0x1234, "copy takes everything");
}

#[test]
fn zone_kinds_and_errors() {
    assert_eq!(zone_type::ZONE_UNDEF.val(), 0);
    assert_eq!(zone_type::ZONE_NORMAL.val(), 1);
    assert_eq!(zone_type::ZONE_VIRTIO.val(), 2);
    assert_eq!(zone_type::type_cnt(), 3);
    assert_eq!(zone_type::ZONE_NORMAL.as_str(), "ZONE_NORMAL");
    assert_eq!(zone_type::ZONE_VIRTIO.as_str(), "ZONE_VIRTIO");
    assert_eq!(zone_type::ZONE_UNDEF.as_str(), "ZONE_UNDEF");

    let e = KError::new(KErrorType::EINVAL, "units.rs", "zone_kinds_and_errors", 3);
    assert_eq!(e.kind(), KErrorType::EINVAL);
    assert_eq!(e.er_line, 3);
    assert_eq!(e.er_fname, "units.rs");
}

#[test]
fn uart_handle_keeps_its_base() {
    let u = Uart::new(0x1000_0000);
    assert_eq!(u.get_base_address(), 0x1000_0000);
}
