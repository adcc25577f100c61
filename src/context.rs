use vstd::prelude::*;

verus! {

/// The life-cycle state of a fiber.
#[derive(Clone, Copy, Debug, PartialEq, Eq, Structural)]
pub enum State {
    /// A free slot: no live frames, no meaningful saved context.
    Available,
    /// The one fiber that is executing.
    Running,
    /// Primed or paused, and eligible to be resumed.
    Ready,
}

/// The saved-register record of a fiber, in the order the switch routine
/// reads and writes it: stack pointer, the callee-saved registers, then the
/// two argument registers that carry trigger arguments.
///
/// The runtime records `rsp` as a byte offset from the start of the fiber's
/// own stack buffer; the host adds the buffer's address.
#[derive(Clone, Copy, Debug, PartialEq, Eq, Structural)]
pub struct StackContext {
    pub rsp: u64,
    pub r15: u64,
    pub r14: u64,
    pub r13: u64,
    pub r12: u64,
    pub rbx: u64,
    pub rbp: u64,
    pub edi: u64,
    pub esi: u64,
}

impl StackContext {
    pub open spec fn spec_zeroed() -> StackContext {
        StackContext { rsp: 0, r15: 0, r14: 0, r13: 0, r12: 0, rbx: 0, rbp: 0, edi: 0, esi: 0 }
    }

    /// A record with every register zero.
    pub fn zeroed() -> (r: StackContext)
        ensures
            r == StackContext::spec_zeroed(),
    {
        StackContext { rsp: 0, r15: 0, r14: 0, r13: 0, r12: 0, rbx: 0, rbp: 0, edi: 0, esi: 0 }
    }
}

/// A small record handed to a triggered fiber: a pair of identifying
/// numbers and one payload word.
#[derive(Clone, Copy, Debug)]
pub struct Event {
    pub pair: (usize, usize),
    pub data: usize,
}

impl Event {
    pub fn new(pair: (usize, usize), data: usize) -> (r: Event)
        ensures
            r.pair == pair,
            r.data == data,
    {
        Event { pair, data }
    }
}

} // verus!
