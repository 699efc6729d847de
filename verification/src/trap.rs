//! Trap capture, classification and dispatch.
//!
//! A trap funnels every user-to-kernel crossing through one entry point.  The
//! trampoline saves the complete CPU-visible state of the interrupted program
//! into its [`TrapFrame`], the dispatcher classifies the hardware cause and
//! routes it, and the trampoline restores the (possibly rewritten) frame and
//! resumes the program.  Reading the hardware cause and detail registers, and
//! installing the trap vector itself, are hardware I/O and stay outside this
//! crate; the values they yield are handed in as plain words.

use vstd::prelude::*;

use crate::syscall::spec_syscall_result;
use crate::syscall::syscall;

verus! {

/// Number of general-purpose registers of the hart.
pub const REGISTER_COUNT: usize = 32;

/// Width of the instruction that raised a system call: how far the saved
/// program counter must advance so the instruction is not re-executed.
pub const SYSCALL_INSTRUCTION_WIDTH: usize = 4;

/// Register slot that carries the system-call identifier in and the signed
/// result out.  The identifier does not survive dispatch: the result
/// overwrites it.
pub const SYSCALL_ID_REGISTER: usize = 10;

/// Exception code reported for a system call from user mode.
pub const CAUSE_USER_ENV_CALL: usize = 8;

/// Exception code reported for a store access fault.
pub const CAUSE_STORE_ACCESS_FAULT: usize = 7;

/// Exception code reported for a store page fault.
pub const CAUSE_STORE_PAGE_FAULT: usize = 15;

/// Exception code reported for an illegal instruction.
pub const CAUSE_ILLEGAL_INSTRUCTION: usize = 2;

/// Snapshot of all CPU-visible state of a trapped program: everything the
/// trampoline must restore to resume it exactly where it left off.
///
/// Register index 0 is hard-wired to zero by the hardware and is never
/// meaningfully written; [`TrapFrame::wf`] records that convention.
pub struct TrapFrame {
    /// The 32 general-purpose registers, index 0 first.
    pub x: [usize; REGISTER_COUNT],
    /// The address of the trapped instruction (`sepc`).
    pub sepc: usize,
    /// The processor status/privilege register (`sstatus`).
    pub sstatus: usize,
}

impl TrapFrame {
    /// Register slot 0 mirrors the hard-wired zero register.
    pub open spec fn wf(self) -> bool {
        self.x[0] == 0
    }

    /// A zero-initialized frame, as allocated once per task at creation.
    pub fn zeroed() -> (frame: TrapFrame)
        ensures
            frame.wf(),
            forall|i: int| 0 <= i < REGISTER_COUNT ==> frame.x[i] == 0,
            frame.sepc == 0,
            frame.sstatus == 0,
    {
        TrapFrame { x: [0; REGISTER_COUNT], sepc: 0, sstatus: 0 }
    }
}

/// Why a trap occurred, derived from the hardware cause register at entry.
#[derive(Clone, Copy, PartialEq, Eq, Debug)]
pub enum TrapCause {
    /// A user program executed the system-call instruction.
    SyscallRequest,
    /// A store touched memory it may not access.
    StoreAccessFault,
    /// A store faulted in the page tables.
    StorePageFault,
    /// The program executed an instruction the hart refuses.
    IllegalInstruction,
    /// Any cause outside the enumerated set, carrying the raw cause value.
    Unclassified(usize),
}

/// Classification of a raw cause-register value.
pub open spec fn spec_classify(scause: usize) -> TrapCause {
    if scause == CAUSE_USER_ENV_CALL {
        TrapCause::SyscallRequest
    } else if scause == CAUSE_STORE_ACCESS_FAULT {
        TrapCause::StoreAccessFault
    } else if scause == CAUSE_STORE_PAGE_FAULT {
        TrapCause::StorePageFault
    } else if scause == CAUSE_ILLEGAL_INSTRUCTION {
        TrapCause::IllegalInstruction
    } else {
        TrapCause::Unclassified(scause)
    }
}

impl TrapCause {
    /// Classify the raw value of the hardware cause register.
    ///
    /// An interrupt sets the top bit of the register, so its raw value never
    /// equals one of the small exception codes and lands in `Unclassified`:
    /// no interrupt path is part of this core.
    pub fn classify(scause: usize) -> (cause: TrapCause)
        ensures
            cause == spec_classify(scause),
    {
        if scause == CAUSE_USER_ENV_CALL {
            TrapCause::SyscallRequest
        } else if scause == CAUSE_STORE_ACCESS_FAULT {
            TrapCause::StoreAccessFault
        } else if scause == CAUSE_STORE_PAGE_FAULT {
            TrapCause::StorePageFault
        } else if scause == CAUSE_ILLEGAL_INSTRUCTION {
            TrapCause::IllegalInstruction
        } else {
            TrapCause::Unclassified(scause)
        }
    }
}

/// The fault classes that are reported and survived.
#[derive(Clone, Copy, PartialEq, Eq, Debug)]
pub enum FaultKind {
    /// A store access fault.
    StoreAccess,
    /// A store page fault.
    StorePage,
    /// An illegal instruction.
    IllegalInstruction,
}

/// What the dispatcher decided; the trampoline and the surrounding kernel
/// act on it.
#[derive(Clone, Copy, PartialEq, Eq, Debug)]
pub enum DispatchOutcome {
    /// The trap was handled; restore the frame and resume the program.
    Resume,
    /// A survivable fault: emit a diagnostic naming the fault class, then
    /// resume; whether to retire the task is the scheduler's decision.
    FaultReported(FaultKind),
    /// An unclassified cause: the kernel must abort, and its abort message
    /// must carry both the raw cause value and the faulting detail value.
    KernelAbort { cause_code: usize, detail: usize },
}

/// What dispatch leaves in the frame and reports, for every cause.
///
/// * A system call advances the saved program counter by the instruction
///   width, overwrites the identifier register with the routed result, and
///   touches nothing else.
/// * A fault leaves the frame untouched — these causes do not retire the
///   trapped instruction, so the program counter must not advance — and
///   reports the fault class.
/// * An unclassified cause leaves the frame untouched and demands a kernel
///   abort carrying the raw cause and the detail value.
pub open spec fn dispatch_post(
    pre: TrapFrame,
    post: TrapFrame,
    cause: TrapCause,
    stval: usize,
    out: DispatchOutcome,
) -> bool {
    match cause {
        TrapCause::SyscallRequest => {
            &&& post.sepc == pre.sepc + SYSCALL_INSTRUCTION_WIDTH
            &&& post.sstatus == pre.sstatus
            &&& post.x@ == pre.x@.update(
                SYSCALL_ID_REGISTER as int,
                spec_syscall_result(pre.x[10], pre.x[11], pre.x[12], pre.x[13]) as usize,
            )
            &&& out == DispatchOutcome::Resume
        },
        TrapCause::StoreAccessFault => {
            post == pre && out == DispatchOutcome::FaultReported(FaultKind::StoreAccess)
        },
        TrapCause::StorePageFault => {
            post == pre && out == DispatchOutcome::FaultReported(FaultKind::StorePage)
        },
        TrapCause::IllegalInstruction => {
            post == pre && out == DispatchOutcome::FaultReported(FaultKind::IllegalInstruction)
        },
        TrapCause::Unclassified(code) => {
            post == pre && out == (DispatchOutcome::KernelAbort { cause_code: code, detail: stval })
        },
    }
}

/// Classify-and-route step run once per trap, between trampoline entry and
/// trampoline exit.
///
/// `cause` is the classified hardware cause and `stval` the faulting detail
/// value, both read from the hardware registers by the caller.  The frame is
/// rewritten exactly as [`dispatch_post`] states: only a system call mutates
/// it, and then only the saved program counter and the identifier register.
pub fn trap_handler(cx: &mut TrapFrame, cause: TrapCause, stval: usize) -> (out: DispatchOutcome)
    requires
        cause is SyscallRequest ==> old(cx).sepc + SYSCALL_INSTRUCTION_WIDTH <= usize::MAX,
    ensures
        dispatch_post(*old(cx), *final(cx), cause, stval, out),
        old(cx).wf() ==> final(cx).wf(),
{
    match cause {
        TrapCause::SyscallRequest => {
            cx.sepc = cx.sepc + SYSCALL_INSTRUCTION_WIDTH;
            let result = syscall(cx.x[10], [cx.x[11], cx.x[12], cx.x[13]]);
            cx.x[10] = result as usize;
            assert(cx.x@ =~= old(cx).x@.update(
                SYSCALL_ID_REGISTER as int,
                spec_syscall_result(old(cx).x[10], old(cx).x[11], old(cx).x[12], old(cx).x[13])
                    as usize,
            ));
            DispatchOutcome::Resume
        },
        TrapCause::StoreAccessFault => DispatchOutcome::FaultReported(FaultKind::StoreAccess),
        TrapCause::StorePageFault => DispatchOutcome::FaultReported(FaultKind::StorePage),
        TrapCause::IllegalInstruction => DispatchOutcome::FaultReported(
            FaultKind::IllegalInstruction,
        ),
        TrapCause::Unclassified(code) => DispatchOutcome::KernelAbort {
            cause_code: code,
            detail: stval,
        },
    }
}

/// A dispatched system call rewrites only the identifier register and the
/// saved program counter, whatever the call was: every other register and
/// the processor status reach the resumed program untouched, and the counter
/// has advanced by exactly the instruction width.
pub proof fn lemma_syscall_dispatch_frame(
    pre: TrapFrame,
    post: TrapFrame,
    stval: usize,
    out: DispatchOutcome,
)
    requires
        dispatch_post(pre, post, TrapCause::SyscallRequest, stval, out),
    ensures
        post.sepc == pre.sepc + SYSCALL_INSTRUCTION_WIDTH,
        post.sstatus == pre.sstatus,
        post.x[SYSCALL_ID_REGISTER as int] == spec_syscall_result(
            pre.x[10],
            pre.x[11],
            pre.x[12],
            pre.x[13],
        ) as usize,
        forall|i: int|
            0 <= i < REGISTER_COUNT && i != SYSCALL_ID_REGISTER ==> post.x[i] == pre.x[i],
        out == DispatchOutcome::Resume,
{
}

/// A survivable fault is reported, names its fault class, and leaves the
/// frame — the saved program counter included — exactly as it was; the
/// kernel does not abort on it.
pub proof fn lemma_fault_dispatch_reports(
    pre: TrapFrame,
    post: TrapFrame,
    cause: TrapCause,
    stval: usize,
    out: DispatchOutcome,
)
    requires
        dispatch_post(pre, post, cause, stval, out),
        cause is StoreAccessFault || cause is StorePageFault || cause is IllegalInstruction,
    ensures
        post == pre,
        out is FaultReported,
        !(out is KernelAbort),
{
}

/// An unclassified cause always demands a kernel abort, and the abort
/// carries both the raw cause value and the faulting detail value.
pub proof fn lemma_unclassified_aborts(
    pre: TrapFrame,
    post: TrapFrame,
    code: usize,
    stval: usize,
    out: DispatchOutcome,
)
    requires
        dispatch_post(pre, post, TrapCause::Unclassified(code), stval, out),
    ensures
        out == (DispatchOutcome::KernelAbort { cause_code: code, detail: stval }),
        post == pre,
{
}

/// The CPU-visible state of the user program the trampoline suspends and
/// resumes: the complete register file, the program counter and the
/// processor status.
pub struct UserState {
    /// The 32 general-purpose registers, index 0 first.
    pub x: [usize; REGISTER_COUNT],
    /// The program counter.
    pub pc: usize,
    /// The processor status/privilege register.
    pub status: usize,
}

/// Trampoline entry: capture every register, the trapped program counter and
/// the processor status into the task's frame, before any kernel logic runs.
pub fn trap_entry(cpu: &UserState, frame: &mut TrapFrame)
    ensures
        final(frame).x == cpu.x,
        final(frame).sepc == cpu.pc,
        final(frame).sstatus == cpu.status,
{
    frame.x = cpu.x;
    frame.sepc = cpu.pc;
    frame.sstatus = cpu.status;
}

/// Trampoline exit: restore every saved register, the program counter and
/// the processor status from the frame, then resume the program.
pub fn trap_return(frame: &TrapFrame, cpu: &mut UserState)
    ensures
        final(cpu).x == frame.x,
        final(cpu).pc == frame.sepc,
        final(cpu).status == frame.sstatus,
{
    cpu.x = frame.x;
    cpu.pc = frame.sepc;
    cpu.status = frame.sstatus;
}

/// One complete user-to-kernel-to-user round trip: capture the program into
/// its frame, classify and dispatch, and — unless the kernel must abort —
/// restore the frame and resume.
///
/// On resumption the program sees exactly the state [`dispatch_post`]
/// permits: after a system call, the counter has advanced past the
/// system-call instruction and the identifier register carries the routed
/// result; after a reported fault, nothing has changed.  On a kernel abort
/// nothing is restored: the hart never returns to user mode.
pub fn trap_round(cpu: &mut UserState, frame: &mut TrapFrame, scause: usize, stval: usize) -> (out:
    DispatchOutcome)
    requires
        spec_classify(scause) is SyscallRequest ==> old(cpu).pc + SYSCALL_INSTRUCTION_WIDTH
            <= usize::MAX,
    ensures
        dispatch_post(
            TrapFrame { x: old(cpu).x, sepc: old(cpu).pc, sstatus: old(cpu).status },
            *final(frame),
            spec_classify(scause),
            stval,
            out,
        ),
        !(out is KernelAbort) ==> {
            &&& final(cpu).x == final(frame).x
            &&& final(cpu).pc == final(frame).sepc
            &&& final(cpu).status == final(frame).sstatus
        },
        out is KernelAbort ==> *final(cpu) == *old(cpu),
{
    trap_entry(cpu, frame);
    let cause = TrapCause::classify(scause);
    let out = trap_handler(frame, cause, stval);
    match out {
        DispatchOutcome::KernelAbort { .. } => out,
        _ => {
            trap_return(frame, cpu);
            out
        },
    }
}

} // verus!
