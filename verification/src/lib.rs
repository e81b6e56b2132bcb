//! Execution nucleus of a small single-core kernel: a free-list heap
//! allocator, a model of the interrupt descriptor tables and controller
//! routing, and an interrupt-driven cooperative task executor with its
//! scancode bridge.
#![allow(unused_imports)]
use vstd::prelude::*;

pub mod heap;
pub mod idt;
pub mod interrupts;
pub mod keyboard;
pub mod task;
pub mod vga_buf;

verus! {

/// Status code written to the host debug-exit port when the kernel
/// terminates the host environment.
#[derive(Debug, Clone, Copy, PartialEq, Eq, Structural)]
pub enum QEMUExitCode {
    Success,
    Failure,
}

impl QEMUExitCode {
    /// The 32-bit value that is written to the debug-exit port for this code.
    pub fn code(self) -> (r: u32)
        ensures
            self == QEMUExitCode::Success ==> r == 0x10,
            self == QEMUExitCode::Failure ==> r == 0x11,
    {
        match self {
            QEMUExitCode::Success => 0x10,
            QEMUExitCode::Failure => 0x11,
        }
    }
}

} // verus!
