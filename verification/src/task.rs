//! Cooperative transfer of the hart between kernel-scheduled execution
//! contexts.
//!
//! A voluntary switch crosses no asynchronous boundary, so only the minimal
//! state the calling convention does not otherwise preserve is carried over:
//! the return address, the stack pointer and the twelve callee-saved
//! registers.  Caller-saved registers are the caller's own responsibility
//! and are never touched.  The same record describes both a suspended
//! context's slot and the live callee-saved state of the hart, which is what
//! makes the switch symmetric.

use vstd::prelude::*;

verus! {

/// Number of callee-saved registers the calling convention defines.
pub const CALLEE_SAVED_COUNT: usize = 12;

/// The state that must survive a voluntary switch: how to resume a context
/// that is not currently running.
///
/// While its task runs this record is stale by definition; it becomes
/// meaningful again when the next switch writes it.
#[derive(Clone, Copy, PartialEq, Eq, Debug)]
pub struct TaskContext {
    /// The address execution continues at when the context is resumed.
    pub ra: usize,
    /// The stack pointer of the context.
    pub sp: usize,
    /// The callee-saved registers, in register order.
    pub s: [usize; CALLEE_SAVED_COUNT],
}

impl TaskContext {
    /// A zero-initialized slot, as allocated before a task is first
    /// scheduled.
    pub fn zeroed() -> (ctx: TaskContext)
        ensures
            ctx.ra == 0,
            ctx.sp == 0,
            forall|i: int| 0 <= i < CALLEE_SAVED_COUNT ==> ctx.s[i] == 0,
    {
        TaskContext { ra: 0, sp: 0, s: [0; CALLEE_SAVED_COUNT] }
    }

    /// The slot of a task that has never run: resuming it enters the task's
    /// entry point on its own stack, with cleared callee-saved registers.
    pub fn for_entry(entry: usize, stack_pointer: usize) -> (ctx: TaskContext)
        ensures
            ctx.ra == entry,
            ctx.sp == stack_pointer,
            forall|i: int| 0 <= i < CALLEE_SAVED_COUNT ==> ctx.s[i] == 0,
    {
        TaskContext { ra: entry, sp: stack_pointer, s: [0; CALLEE_SAVED_COUNT] }
    }
}

/// Suspend the calling context and resume another.
///
/// `live` is the hart's callee-saved state at the call; it is saved whole
/// into `current`, the caller's slot, and replaced whole by `next`, the slot
/// of the context being resumed — execution then continues at the restored
/// return address.  From the caller's point of view this is an ordinary call
/// that happens not to return until some later switch writes its slot back.
///
/// The caller must not read `current` again until a subsequent switch has
/// rewritten it: until then the slot describes this suspension, nothing
/// newer.
pub fn context_switch(live: &mut TaskContext, current: &mut TaskContext, next: &TaskContext)
    ensures
        *final(current) == *old(live),
        *final(live) == *next,
{
    *current = *live;
    *live = *next;
}

/// The switch is its own inverse.
///
/// Suppose context A, running with callee-saved state `a_live`, switches
/// into context B's slot `b_slot`, and that some later switch leaves B
/// running with state `b_live` and A's slot holding `a_slot` untouched in
/// between.  When B then switches back through A's slot, A resumes with
/// exactly the callee-saved state — return address, stack pointer and saved
/// registers — it suspended with, and B's slot holds exactly B's state at
/// the moment it switched away.
pub proof fn lemma_context_switch_round_trip(
    a_live: TaskContext,
    a_slot: TaskContext,
    b_slot: TaskContext,
    b_live: TaskContext,
    b_slot_after: TaskContext,
    a_resumed: TaskContext,
)
    requires
        // the first switch saved A and resumed B
        a_slot == a_live,
        b_live == b_slot,
        // the second switch saved B and resumed A from its untouched slot
        b_slot_after == b_live,
        a_resumed == a_slot,
    ensures
        a_resumed == a_live,
        b_slot_after == b_slot,
{
}

} // verus!
