//! The software IRQ pipeline's queue end: one bounded ring of interrupt
//! requests per hart. The M-mode dispatcher pushes a request per claimed
//! interrupt; a worker task drains them from supervisor mode. A full ring
//! drops the request.

use crate::cpu::MAX_HARTS;
use crate::error::{KError, KErrorType};
use ringbuffer::{AllocRingBuffer, RingBuffer};
use vstd::prelude::*;

verus! {

/// Capacity of each per-hart ring.
pub const MAX_IRQ: usize = 128;

#[derive(Clone, Copy, Debug, PartialEq, Eq, Structural)]
pub enum int_type {
    EXTERNAL,
    INTERNAL,
    NONE,
}

/// One interrupt request: kind, PLIC source id, hart it arrived on, and the
/// byte read from the device, if any.
#[derive(Clone, Copy, Debug, PartialEq, Eq, Structural)]
pub struct int_request {
    pub typ: int_type,
    pub extint_id: u32,
    pub cpuid: usize,
    pub data: Option<usize>,
}

impl int_request {
    pub fn new() -> (r: int_request)
        ensures
            r.typ is NONE,
            r.extint_id == 0,
            r.cpuid == 0,
            r.data is None,
    {
        int_request { typ: int_type::NONE, extint_id: 0, cpuid: 0, data: None }
    }

    pub fn get_typ(&self) -> (r: int_type)
        ensures
            r == self.typ,
    {
        self.typ
    }

    pub fn set_typ(&mut self, v: int_type)
        ensures
            *final(self) == (int_request { typ: v, ..*old(self) }),
    {
        self.typ = v;
    }

    pub fn get_extint_id(&self) -> (r: u32)
        ensures
            r == self.extint_id,
    {
        self.extint_id
    }

    pub fn set_extint_id(&mut self, v: u32)
        ensures
            *final(self) == (int_request { extint_id: v, ..*old(self) }),
    {
        self.extint_id = v;
    }

    pub fn get_cpuid(&self) -> (r: usize)
        ensures
            r == self.cpuid,
    {
        self.cpuid
    }

    pub fn set_cpuid(&mut self, v: usize)
        ensures
            *final(self) == (int_request { cpuid: v, ..*old(self) }),
    {
        self.cpuid = v;
    }

    pub fn get_data(&self) -> (r: Option<usize>)
        ensures
            r == self.data,
    {
        self.data
    }

    pub fn set_data(&mut self, v: Option<usize>)
        ensures
            *final(self) == (int_request { data: v, ..*old(self) }),
    {
        self.data = v;
    }
}

#[verifier::external_type_specification]
#[verifier::external_body]
#[verifier::reject_recursive_types(T)]
pub struct ExAllocRingBuffer<T>(AllocRingBuffer<T>);

/// What a ring currently holds, oldest first.
pub uninterp spec fn ring_items(rb: AllocRingBuffer<int_request>) -> Seq<int_request>;

/// The capacity the ring was created with.
pub uninterp spec fn ring_capacity(rb: AllocRingBuffer<int_request>) -> usize;

/// Relies on ringbuffer::AllocRingBuffer::new: an empty ring with the given
/// capacity. It panics on a capacity of zero, so that input is kept out.
#[verifier::external_body]
fn ring_new(cap: usize) -> (r: AllocRingBuffer<int_request>)
    requires
        1 <= cap,
    ensures
        ring_items(r) == Seq::<int_request>::empty(),
        ring_capacity(r) == cap,
{
    AllocRingBuffer::new(cap)
}

/// Relies on ringbuffer::RingBuffer::len: how many items are queued.
#[verifier::external_body]
fn ring_len(rb: &AllocRingBuffer<int_request>) -> (r: usize)
    ensures
        r == ring_items(*rb).len(),
{
    rb.len()
}

/// Relies on ringbuffer::RingBuffer::is_empty: no items are queued.
#[verifier::external_body]
fn ring_is_empty(rb: &AllocRingBuffer<int_request>) -> (r: bool)
    ensures
        r == (ring_items(*rb).len() == 0),
{
    rb.is_empty()
}

/// Relies on ringbuffer::RingBuffer::is_full: the length has reached the
/// capacity.
#[verifier::external_body]
fn ring_is_full(rb: &AllocRingBuffer<int_request>) -> (r: bool)
    ensures
        r == (ring_items(*rb).len() == ring_capacity(*rb)),
{
    rb.is_full()
}

/// Relies on ringbuffer::RingBuffer::enqueue: appends the item. Called only
/// below capacity, where nothing is overwritten.
#[verifier::external_body]
fn ring_push(rb: &mut AllocRingBuffer<int_request>, value: int_request)
    requires
        ring_items(*old(rb)).len() < ring_capacity(*old(rb)),
    ensures
        ring_items(*final(rb)) == ring_items(*old(rb)).push(value),
        ring_capacity(*final(rb)) == ring_capacity(*old(rb)),
{
    let _ = rb.enqueue(value);
}

/// Relies on ringbuffer::RingBuffer::peek: a copy of the oldest item, if any.
#[verifier::external_body]
fn ring_peek(rb: &AllocRingBuffer<int_request>) -> (r: Option<int_request>)
    ensures
        ring_items(*rb).len() == 0 ==> r is None,
        ring_items(*rb).len() > 0 ==> r == Some(ring_items(*rb)[0]),
{
    rb.peek().copied()
}

/// Relies on ringbuffer::RingBuffer::dequeue: removes and returns the oldest
/// item, if any.
#[verifier::external_body]
fn ring_dequeue(rb: &mut AllocRingBuffer<int_request>) -> (r: Option<int_request>)
    ensures
        ring_capacity(*final(rb)) == ring_capacity(*old(rb)),
        ring_items(*old(rb)).len() == 0 ==> r is None && ring_items(*final(rb)) == ring_items(
            *old(rb),
        ),
        ring_items(*old(rb)).len() > 0 ==> r == Some(ring_items(*old(rb))[0]) && ring_items(
            *final(rb),
        ) == ring_items(*old(rb)).subrange(1, ring_items(*old(rb)).len() as int),
{
    rb.dequeue()
}

/// The per-hart software IRQ rings.
pub struct soft_irq_buf {
    pub irq_buffer: Vec<Option<AllocRingBuffer<int_request>>>,
}

impl soft_irq_buf {
    /// What hart `cpuid`'s ring holds, oldest first.
    pub open spec fn ring_view(self, cpuid: int) -> Seq<int_request> {
        ring_items(self.irq_buffer[cpuid]->0)
    }

    /// All four rings exist with the fixed capacity.
    pub open spec fn wf(self) -> bool {
        &&& self.irq_buffer.len() == MAX_HARTS
        &&& forall|h: int|
            0 <= h < MAX_HARTS ==> (#[trigger] self.irq_buffer[h]) is Some && ring_capacity(
                self.irq_buffer[h]->0,
            ) == MAX_IRQ && ring_items(self.irq_buffer[h]->0).len() <= MAX_IRQ
    }

    pub fn new() -> (r: soft_irq_buf)
        ensures
            r.irq_buffer.len() == MAX_HARTS,
            forall|h: int| 0 <= h < MAX_HARTS ==> (#[trigger] r.irq_buffer[h]) is None,
    {
        let mut irq_buffer: Vec<Option<AllocRingBuffer<int_request>>> = Vec::new();
        let mut i: usize = 0;
        while i < MAX_HARTS
            invariant
                i <= MAX_HARTS,
                irq_buffer.len() == i,
                forall|h: int| 0 <= h < i ==> (#[trigger] irq_buffer[h]) is None,
            decreases MAX_HARTS - i,
        {
            irq_buffer.push(None);
            i = i + 1;
        }
        soft_irq_buf { irq_buffer }
    }

    /// Create the four rings, each empty with capacity `MAX_IRQ`.
    pub fn init(&mut self)
        requires
            old(self).irq_buffer.len() == MAX_HARTS,
        ensures
            final(self).wf(),
            forall|h: int| 0 <= h < MAX_HARTS ==> final(self).ring_view(h) == Seq::<
                int_request,
            >::empty(),
    {
        let mut i: usize = 0;
        while i < MAX_HARTS
            invariant
                i <= MAX_HARTS,
                self.irq_buffer.len() == MAX_HARTS,
                forall|h: int|
                    0 <= h < i ==> (#[trigger] self.irq_buffer[h]) is Some && ring_capacity(
                        self.irq_buffer[h]->0,
                    ) == MAX_IRQ && ring_items(self.irq_buffer[h]->0) == Seq::<
                        int_request,
                    >::empty(),
            decreases MAX_HARTS - i,
        {
            let ring = ring_new(MAX_IRQ);
            self.irq_buffer[i] = Some(ring);
            i = i + 1;
        }
    }

    /// Queue a request on hart `cpuid`'s ring; a full ring drops it
    /// unchanged. EINVAL if that ring was never created.
    pub fn push_req(&mut self, req: int_request, cpuid: usize) -> (r: Result<(), KError>)
        requires
            cpuid < MAX_HARTS,
            old(self).wf(),
        ensures
            final(self).wf(),
            forall|h: int|
                0 <= h < MAX_HARTS && h != cpuid ==> final(self).ring_view(h) == old(
                    self,
                ).ring_view(h),
            r is Ok,
            old(self).ring_view(cpuid as int).len() < MAX_IRQ ==> final(self).ring_view(
                cpuid as int,
            ) == old(self).ring_view(cpuid as int).push(req),
            old(self).ring_view(cpuid as int).len() >= MAX_IRQ ==> final(self).ring_view(
                cpuid as int,
            ) == old(self).ring_view(cpuid as int),
    {
        proof {
            assert(self.irq_buffer[cpuid as int] is Some);
        }
        match self.irq_buffer[cpuid] {
            Some(ref mut irq_q) => {
                if ring_is_full(irq_q) {
                    return Ok(());
                }
                ring_push(irq_q, req);
                Ok(())
            },
            None => Err(KError::new(KErrorType::EINVAL, "irq.rs", "push_req", 0)),
        }
    }

    /// A copy of the oldest request on hart `cpuid`'s ring, if any.
    pub fn peek_req(&self, cpuid: usize) -> (r: Result<Option<int_request>, KError>)
        requires
            cpuid < MAX_HARTS,
            self.wf(),
        ensures
            r is Ok,
            self.ring_view(cpuid as int).len() == 0 ==> r->Ok_0 is None,
            self.ring_view(cpuid as int).len() > 0 ==> r->Ok_0 == Some(
                self.ring_view(cpuid as int)[0],
            ),
    {
        proof {
            assert(self.irq_buffer[cpuid as int] is Some);
        }
        match self.irq_buffer[cpuid] {
            Some(ref irq_q) => Ok(ring_peek(irq_q)),
            None => Err(KError::new(KErrorType::EINVAL, "irq.rs", "peek_req", 0)),
        }
    }

    /// Drop the oldest request on hart `cpuid`'s ring, if any.
    pub fn dequeue_req(&mut self, cpuid: usize) -> (r: Result<(), KError>)
        requires
            cpuid < MAX_HARTS,
            old(self).wf(),
        ensures
            final(self).wf(),
            forall|h: int|
                0 <= h < MAX_HARTS && h != cpuid ==> final(self).ring_view(h) == old(
                    self,
                ).ring_view(h),
            r is Ok,
            old(self).ring_view(cpuid as int).len() == 0 ==> final(self).ring_view(cpuid as int)
                == old(self).ring_view(cpuid as int),
            old(self).ring_view(cpuid as int).len() > 0 ==> final(self).ring_view(cpuid as int)
                == old(self).ring_view(cpuid as int).subrange(
                1,
                old(self).ring_view(cpuid as int).len() as int,
            ),
    {
        proof {
            assert(self.irq_buffer[cpuid as int] is Some);
        }
        match self.irq_buffer[cpuid] {
            Some(ref mut irq_q) => {
                let _popped = ring_dequeue(irq_q);
                Ok(())
            },
            None => Err(KError::new(KErrorType::EINVAL, "irq.rs", "dequeue_req", 0)),
        }
    }

    /// Whether hart `cpuid`'s ring is empty.
    pub fn is_empty(&self, cpuid: usize) -> (r: Result<bool, KError>)
        requires
            cpuid < MAX_HARTS,
            self.wf(),
        ensures
            r == Ok::<bool, KError>(self.ring_view(cpuid as int).len() == 0),
    {
        proof {
            assert(self.irq_buffer[cpuid as int] is Some);
        }
        match self.irq_buffer[cpuid] {
            Some(ref irq_q) => Ok(ring_is_empty(irq_q)),
            None => Err(KError::new(KErrorType::EINVAL, "irq.rs", "is_empty", 0)),
        }
    }

    /// Whether hart `cpuid`'s ring is at capacity.
    pub fn is_full(&self, cpuid: usize) -> (r: Result<bool, KError>)
        requires
            cpuid < MAX_HARTS,
            self.wf(),
        ensures
            r == Ok::<bool, KError>(self.ring_view(cpuid as int).len() == MAX_IRQ),
    {
        proof {
            assert(self.irq_buffer[cpuid as int] is Some);
        }
        match self.irq_buffer[cpuid] {
            Some(ref irq_q) => Ok(ring_is_full(irq_q)),
            None => Err(KError::new(KErrorType::EINVAL, "irq.rs", "is_full", 0)),
        }
    }

    /// How many requests hart `cpuid`'s ring holds.
    pub fn len(&self, cpuid: usize) -> (r: Result<usize, KError>)
        requires
            cpuid < MAX_HARTS,
            self.wf(),
        ensures
            r == Ok::<usize, KError>(self.ring_view(cpuid as int).len() as usize),
    {
        proof {
            assert(self.irq_buffer[cpuid as int] is Some);
        }
        match self.irq_buffer[cpuid] {
            Some(ref irq_q) => Ok(ring_len(irq_q)),
            None => Err(KError::new(KErrorType::EINVAL, "irq.rs", "len", 0)),
        }
    }
}

} // verus!
