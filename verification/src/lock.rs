//! Privilege-aware interrupt masking, the policy behind the kernel's spin
//! mutexes. A lock tag picks which interrupt-enable register it saves and
//! clears on acquisition and how it restores it on release. The spinning
//! itself and the RAII guard are hardware-side concerns; the policy here is
//! what the kernel proves about them.

use crate::cpu::hart_csrs;
use vstd::prelude::*;

verus! {

/// A lock mode: how to disable interrupts on acquisition (`cli`) and restore
/// them on release (`sti`), over the hart's interrupt-enable registers.
pub trait IntControl {
    /// The register this mode saves and clears.
    spec fn spec_ie(csr: hart_csrs) -> usize;

    /// The registers after `cli`.
    spec fn spec_cli_result(csr: hart_csrs) -> hart_csrs;

    /// The registers after `sti(prev_xie)`.
    spec fn spec_sti_result(csr: hart_csrs, prev_xie: usize) -> hart_csrs;

    fn cli(csr: &mut hart_csrs) -> (r: usize)
        ensures
            r == Self::spec_ie(*old(csr)),
            *final(csr) == Self::spec_cli_result(*old(csr)),
    ;

    fn sti(csr: &mut hart_csrs, prev_xie: usize)
        ensures
            *final(csr) == Self::spec_sti_result(*old(csr), prev_xie),
    ;
}

/// Machine-level lock tag: saves and clears `mie`; restores `mie` only if it
/// is still zero, so that a nested restore cannot re-enable interrupts that a
/// later masking turned off.
pub struct M_lock;

/// Supervisor-level lock tag: saves and clears `sie`, restores unconditionally.
pub struct S_lock;

/// Tag for sections whose masking goes through the Cli/Sti ecalls rather than
/// direct register access; the ecall handler performs the policy of `M_lock`.
pub struct Critical_Area;

impl IntControl for M_lock {
    open spec fn spec_ie(csr: hart_csrs) -> usize {
        csr.mie
    }

    open spec fn spec_cli_result(csr: hart_csrs) -> hart_csrs {
        hart_csrs { mie: 0, ..csr }
    }

    open spec fn spec_sti_result(csr: hart_csrs, prev_xie: usize) -> hart_csrs {
        if csr.mie == 0 {
            hart_csrs { mie: prev_xie, ..csr }
        } else {
            csr
        }
    }

    fn cli(csr: &mut hart_csrs) -> (r: usize) {
        let prev_mie = csr.mie;
        csr.mie = 0;
        prev_mie
    }

    fn sti(csr: &mut hart_csrs, prev_xie: usize) {
        if csr.mie == 0 {
            csr.mie = prev_xie;
        }
    }
}

impl IntControl for S_lock {
    open spec fn spec_ie(csr: hart_csrs) -> usize {
        csr.sie
    }

    open spec fn spec_cli_result(csr: hart_csrs) -> hart_csrs {
        hart_csrs { sie: 0, ..csr }
    }

    open spec fn spec_sti_result(csr: hart_csrs, prev_xie: usize) -> hart_csrs {
        hart_csrs { sie: prev_xie, ..csr }
    }

    fn cli(csr: &mut hart_csrs) -> (r: usize) {
        let prev_sie = csr.sie;
        csr.sie = 0;
        prev_sie
    }

    fn sti(csr: &mut hart_csrs, prev_xie: usize) {
        csr.sie = prev_xie;
    }
}

/// Save and clear `mie`, returning the saved value.
pub fn M_cli(csr: &mut hart_csrs) -> (r: usize)
    ensures
        r == old(csr).mie,
        *final(csr) == (hart_csrs { mie: 0, ..*old(csr) }),
{
    <M_lock as IntControl>::cli(csr)
}

/// Restore `mie` from a saved value, but only if it is still zero.
pub fn M_sti(csr: &mut hart_csrs, prev_mie: usize)
    ensures
        *final(csr) == (if old(csr).mie == 0 {
            hart_csrs { mie: prev_mie, ..*old(csr) }
        } else {
            *old(csr)
        }),
{
    <M_lock as IntControl>::sti(csr, prev_mie)
}

/// Save and clear `sie`, returning the saved value.
pub fn S_cli(csr: &mut hart_csrs) -> (r: usize)
    ensures
        r == old(csr).sie,
        *final(csr) == (hart_csrs { sie: 0, ..*old(csr) }),
{
    <S_lock as IntControl>::cli(csr)
}

/// Restore `sie` from a saved value.
pub fn S_sti(csr: &mut hart_csrs, prev_sie: usize)
    ensures
        *final(csr) == (hart_csrs { sie: prev_sie, ..*old(csr) }),
{
    <S_lock as IntControl>::sti(csr, prev_sie)
}

} // verus!
