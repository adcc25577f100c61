//! A cooperative fiber runtime for one thread: a fixed pool of fibers, each
//! with its own stack buffer and saved register record, a round-robin and a
//! targeted scheduler, and an append-only buffer of events handed to fibers
//! that are triggered in.
//!
//! This crate holds the runtime's decisions and data. Every operation that
//! moves control to another fiber returns a [`runtime::Switch`] naming the
//! fiber that pauses and the fiber that resumes; the host performs the
//! register switch itself.
use vstd::prelude::*;

pub mod context;
pub mod events;
pub mod frame;
pub mod runtime;
pub mod laws;

pub use context::{Event, StackContext, State};
pub use events::ShareBuffer;
pub use runtime::{
    finish_and_next_stack, get_current_stack_id, goto_main, next_stack, stack_to,
    trigger_stack_to, LeydiStacks, RuntimeView, ScheduleType, Stack, Switch,
};

verus! {

/// Size in bytes of each fiber's stack buffer (5 MiB, a multiple of 16).
pub const STACK_BUFFER_SIZE: usize = 5242880;

/// Number of worker fibers; the pool holds these and the main fiber.
pub const MAX_STACKS: usize = 5;

/// Id of the fiber the process started on.
pub const PROCESS_MAIN_STACK_ID: usize = 0;

/// Distance below the stack top at which a triggered fiber resumes.
pub const TRIGGER_OFFSET: usize = 32;

/// Distance below the stack top at which a freshly spawned fiber resumes.
pub const BODY_OFFSET: usize = 64;

/// Number of events the event buffer reserves room for up front.
pub const DATA_SHARE_BUFFER_SIZE: usize = 4096;

} // verus!
