use oscore::trap::trap_handler;
use oscore::trap::trap_round;
use oscore::trap::DispatchOutcome;
use oscore::trap::FaultKind;
use oscore::trap::TrapCause;
use oscore::trap::TrapFrame;
use oscore::trap::UserState;
use oscore::trap::CAUSE_ILLEGAL_INSTRUCTION;
use oscore::trap::CAUSE_STORE_ACCESS_FAULT;
use oscore::trap::CAUSE_STORE_PAGE_FAULT;
use oscore::trap::CAUSE_USER_ENV_CALL;

fn frame_for_syscall(id: usize, a0: usize, a1: usize, a2: usize, pc: usize) -> TrapFrame {
    let mut frame = TrapFrame::zeroed();
    frame.x[10] = id;
    frame.x[11] = a0;
    frame.x[12] = a1;
    frame.x[13] = a2;
    frame.sepc = pc;
    frame.sstatus = 0x120;
    frame
}

#[test]
fn classify_recognizes_the_enumerated_causes() {
    assert_eq!(TrapCause::classify(CAUSE_USER_ENV_CALL), TrapCause::SyscallRequest);
    assert_eq!(TrapCause::classify(CAUSE_STORE_ACCESS_FAULT), TrapCause::StoreAccessFault);
    assert_eq!(TrapCause::classify(CAUSE_STORE_PAGE_FAULT), TrapCause::StorePageFault);
    assert_eq!(TrapCause::classify(CAUSE_ILLEGAL_INSTRUCTION), TrapCause::IllegalInstruction);
    assert_eq!(TrapCause::classify(1234), TrapCause::Unclassified(1234));
    let interrupt_like = (1usize << (usize::BITS - 1)) | 8;
    assert_eq!(TrapCause::classify(interrupt_like), TrapCause::Unclassified(interrupt_like));
}

#[test]
fn zeroed_frame_is_all_zero() {
    let frame = TrapFrame::zeroed();
    assert!(frame.x.iter().all(|&r| r == 0));
    assert_eq!(frame.sepc, 0);
    assert_eq!(frame.sstatus, 0);
}

#[test]
fn syscall_dispatch_advances_pc_and_writes_result() {
    let mut frame = frame_for_syscall(64, 1, 0x2000, 5, 0x100);
    let out = trap_handler(&mut frame, TrapCause::SyscallRequest, 0);
    assert_eq!(out, DispatchOutcome::Resume);
    assert_eq!(frame.sepc, 0x104);
    assert_eq!(frame.x[10], 5);
    // every register but the id register is untouched
    assert_eq!(frame.x[11], 1);
    assert_eq!(frame.x[12], 0x2000);
    assert_eq!(frame.x[13], 5);
    for i in (0..32).filter(|&i| ![10, 11, 12, 13].contains(&i)) {
        assert_eq!(frame.x[i], 0);
    }
    assert_eq!(frame.sstatus, 0x120);
}

#[test]
fn syscall_dispatch_pc_advance_is_independent_of_the_id() {
    for id in [64usize, 93, 124, 999] {
        let mut frame = frame_for_syscall(id, 0, 0, 0, 0x4000);
        let out = trap_handler(&mut frame, TrapCause::SyscallRequest, 0);
        assert_eq!(out, DispatchOutcome::Resume);
        assert_eq!(frame.sepc, 0x4004);
    }
}

#[test]
fn unknown_syscall_writes_minus_one() {
    let mut frame = frame_for_syscall(999, 1, 2, 3, 0x100);
    let out = trap_handler(&mut frame, TrapCause::SyscallRequest, 0);
    assert_eq!(out, DispatchOutcome::Resume);
    assert_eq!(frame.x[10], (-1isize) as usize);
    assert_eq!(frame.sepc, 0x104);
}

#[test]
fn faults_are_reported_and_leave_the_frame_alone() {
    let cases = [
        (TrapCause::StoreAccessFault, FaultKind::StoreAccess),
        (TrapCause::StorePageFault, FaultKind::StorePage),
        (TrapCause::IllegalInstruction, FaultKind::IllegalInstruction),
    ];
    for (cause, kind) in cases {
        let mut frame = frame_for_syscall(64, 1, 2, 3, 0x100);
        let out = trap_handler(&mut frame, cause, 0xbad);
        assert_eq!(out, DispatchOutcome::FaultReported(kind));
        assert_eq!(frame.sepc, 0x100, "a fault must not advance the program counter");
        assert_eq!(frame.x[10], 64);
        assert_eq!(frame.sstatus, 0x120);
    }
}

#[test]
fn unclassified_cause_demands_abort_with_cause_and_detail() {
    let mut frame = frame_for_syscall(64, 1, 2, 3, 0x100);
    let out = trap_handler(&mut frame, TrapCause::Unclassified(0x8000_0005), 0xdead_beef);
    assert_eq!(
        out,
        DispatchOutcome::KernelAbort { cause_code: 0x8000_0005, detail: 0xdead_beef }
    );
    assert_eq!(frame.sepc, 0x100);
    assert_eq!(frame.x[10], 64);
}

fn user_state_for_syscall(id: usize, a0: usize, a1: usize, a2: usize, pc: usize) -> UserState {
    let frame = frame_for_syscall(id, a0, a1, a2, pc);
    UserState { x: frame.x, pc: frame.sepc, status: frame.sstatus }
}

#[test]
fn write_round_trip_resumes_with_the_byte_count() {
    let mut cpu = user_state_for_syscall(64, 1, 0x3000, 5, 0x100);
    let mut frame = TrapFrame::zeroed();
    let out = trap_round(&mut cpu, &mut frame, CAUSE_USER_ENV_CALL, 0);
    assert_eq!(out, DispatchOutcome::Resume);
    assert_eq!(cpu.pc, 0x104);
    assert_eq!(cpu.x[10], 5);
    assert_eq!(cpu.x[11], 1);
    assert_eq!(cpu.x[12], 0x3000);
    assert_eq!(cpu.x[13], 5);
}

#[test]
fn unknown_syscall_round_trip_resumes_without_a_fault() {
    let mut cpu = user_state_for_syscall(999, 0, 0, 0, 0x100);
    let mut frame = TrapFrame::zeroed();
    let out = trap_round(&mut cpu, &mut frame, CAUSE_USER_ENV_CALL, 0);
    assert_eq!(out, DispatchOutcome::Resume);
    assert_eq!(cpu.pc, 0x104);
    assert_eq!(cpu.x[10], (-1isize) as usize);
}

#[test]
fn fault_round_trip_reports_and_resumes_in_place() {
    let mut cpu = user_state_for_syscall(64, 1, 2, 3, 0x100);
    let mut frame = TrapFrame::zeroed();
    let out = trap_round(&mut cpu, &mut frame, CAUSE_STORE_PAGE_FAULT, 0xbad);
    assert_eq!(out, DispatchOutcome::FaultReported(FaultKind::StorePage));
    assert_eq!(cpu.pc, 0x100, "the faulting instruction is not skipped");
    assert_eq!(cpu.x[10], 64);
}

#[test]
fn trampoline_saves_and_restores_every_register() {
    let mut cpu = UserState { x: [0; 32], pc: 0xabc0, status: 0x9 };
    for (i, r) in cpu.x.iter_mut().enumerate() {
        *r = i * 11;
    }
    let saved = UserState { x: cpu.x, pc: cpu.pc, status: cpu.status };
    let mut frame = TrapFrame::zeroed();
    oscore::trap::trap_entry(&cpu, &mut frame);
    assert_eq!(frame.x, saved.x);
    assert_eq!(frame.sepc, saved.pc);
    assert_eq!(frame.sstatus, saved.status);
    let mut resumed = UserState { x: [0; 32], pc: 0, status: 0 };
    oscore::trap::trap_return(&frame, &mut resumed);
    assert_eq!(resumed.x, saved.x);
    assert_eq!(resumed.pc, saved.pc);
    assert_eq!(resumed.status, saved.status);
}

#[test]
fn abort_round_trip_never_returns_to_the_user() {
    let mut cpu = user_state_for_syscall(64, 1, 2, 3, 0x100);
    let mut frame = TrapFrame::zeroed();
    let out = trap_round(&mut cpu, &mut frame, 0x7777, 0x1234);
    assert_eq!(out, DispatchOutcome::KernelAbort { cause_code: 0x7777, detail: 0x1234 });
    // the user-visible state was not rewritten
    assert_eq!(cpu.pc, 0x100);
    assert_eq!(cpu.x[10], 64);
}
