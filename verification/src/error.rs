//! The kernel's single error taxonomy: every fallible library call reports one
//! of these, carrying the file, module and line at which it was created.

use vstd::prelude::*;

verus! {

#[derive(Clone, Copy, Debug, PartialEq, Eq, Structural)]
pub enum KErrorType {
    EFAULT,
    EINVAL,
    ENOMEM,
    ENOSYS,
}

#[derive(Clone, Copy, Debug)]
pub struct KError {
    pub er_type: KErrorType,
    pub er_fname: &'static str,
    pub er_func: &'static str,
    pub er_line: u32,
}

impl KError {
    pub fn new(
        er_type: KErrorType,
        er_fname: &'static str,
        er_func: &'static str,
        er_line: u32,
    ) -> (r: KError)
        ensures
            r.er_type == er_type,
            r.er_fname == er_fname,
            r.er_func == er_func,
            r.er_line == er_line,
    {
        KError { er_type, er_fname, er_func, er_line }
    }

    /// The class of the error, for callers that branch on it.
    pub fn kind(&self) -> (r: KErrorType)
        ensures
            r == self.er_type,
    {
        self.er_type
    }
}

} // verus!
