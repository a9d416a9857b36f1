//! Handles for the kernel heap allocator. The allocator's storage is carved
//! out of the page allocator's first successful allocation (see
//! `crate::page`); the raw allocation entry points that Rust's global
//! allocator protocol needs live in the unverified shell.

use vstd::prelude::*;

verus! {

/// The global-allocator front end.
pub struct kheap_alloc {
    pub inited: bool,
}

impl kheap_alloc {
    pub fn new() -> (r: kheap_alloc)
        ensures
            !r.inited,
    {
        kheap_alloc { inited: false }
    }
}

/// The lock-protected back end that the front end forwards to.
pub struct custom_kheap_malloc {
    pub inited: bool,
}

impl custom_kheap_malloc {
    pub fn new() -> (r: custom_kheap_malloc)
        ensures
            !r.inited,
    {
        custom_kheap_malloc { inited: false }
    }
}

} // verus!
