//! Control-transfer core of a single-hart RISC-V kernel, together with the
//! free-block bitmap of its filesystem.
//!
//! The crate models and verifies the logic that crosses the user/kernel
//! privilege boundary: capturing CPU state in a trap frame, classifying the
//! trap cause, routing system calls through a fixed numeric ABI, and
//! cooperatively switching between kernel-scheduled execution contexts.
//! Reading the hardware cause registers and installing the trap vector are
//! I/O and are left to the surrounding program.

pub mod bitmap;
pub mod syscall;
pub mod task;
pub mod trap;
