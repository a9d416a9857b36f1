//! The ecall transport between supervisor code and the M-mode dispatcher:
//! a per-hart slot carrying an opcode, five word arguments, and a return
//! word. Supervisor code loads the slot, executes `ecall`, and reads the
//! return word once it is resumed; the dispatcher interprets the slot.

use vstd::prelude::*;

verus! {

/// Operations supervisor code requests from the M-mode dispatcher.
#[derive(Clone, Copy, Debug, PartialEq, Eq, Structural)]
pub enum S2Mop {
    YIELD,
    EXIT,
    BLOCK,
    UNBLOCK,
    CLI,
    STI,
    UNDEF,
}

/// Operations user code would request from supervisor code; unused by the
/// kernel tasks here.
#[derive(Clone, Copy, Debug, PartialEq, Eq, Structural)]
pub enum U2Sop {
    UNDEF,
    SEND,
    RECV,
    SEND_RECV,
}

/// One hart's ecall slot.
#[derive(Clone, Copy, Debug)]
pub struct ecall_args {
    pub sbiop: S2Mop,
    pub syscallop: U2Sop,
    pub args: [usize; 5],
    pub ret: usize,
}

impl ecall_args {
    pub fn new() -> (r: ecall_args)
        ensures
            r.sbiop is UNDEF,
            r.syscallop is UNDEF,
            forall|j: int| 0 <= j < 5 ==> r.args[j] == 0,
            r.ret == 0,
    {
        ecall_args { sbiop: S2Mop::UNDEF, syscallop: U2Sop::UNDEF, args: [0; 5], ret: 0 }
    }

    pub fn get_opcode(&self) -> (r: S2Mop)
        ensures
            r == self.sbiop,
    {
        self.sbiop
    }

    pub fn set_opcode(&mut self, new_op: S2Mop)
        ensures
            *final(self) == (ecall_args { sbiop: new_op, ..*old(self) }),
    {
        self.sbiop = new_op;
    }

    pub fn set_args(&mut self, args: &[usize; 5])
        ensures
            *final(self) == (ecall_args { args: *args, ..*old(self) }),
    {
        self.args = *args;
    }

    pub fn get_args(&self) -> (r: &[usize; 5])
        ensures
            r == &self.args,
    {
        &self.args
    }

    pub fn get_ret(&self) -> (r: usize)
        ensures
            r == self.ret,
    {
        self.ret
    }

    pub fn set_ret(&mut self, new_ret: usize)
        ensures
            *final(self) == (ecall_args { ret: new_ret, ..*old(self) }),
    {
        self.ret = new_ret;
    }

    /// Load the slot for a trap: opcode, arguments if any, and a cleared
    /// return word. The `ecall` instruction itself is the shell's step; the
    /// dispatcher then reads the slot exactly as written here.
    pub fn load_call(&mut self, opcode: S2Mop, args: Option<&[usize; 5]>)
        ensures
            final(self).sbiop == opcode,
            final(self).ret == 0,
            final(self).syscallop == old(self).syscallop,
            args is Some ==> final(self).args == *args->0,
            args is None ==> final(self).args == old(self).args,
    {
        match args {
            Some(arg_ref) => {
                self.set_opcode(opcode);
                self.set_args(arg_ref);
                self.set_ret(0);
            },
            None => {
                self.set_opcode(opcode);
                self.set_ret(0);
            },
        }
    }
}

} // verus!
