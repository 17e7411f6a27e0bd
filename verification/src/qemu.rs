//! Exit codes that the kernel writes to QEMU's `isa-debug-exit` device.

use vstd::prelude::*;

verus! {

/// I/O port of QEMU's `isa-debug-exit` device.
pub const QEMU_EXIT_PORT: u16 = 0xf4;

/// How a test run ended.
#[derive(Debug, Clone, Copy, PartialEq, Eq, Structural)]
pub enum QemuExitCode {
    Success,
    Failed,
}

impl QemuExitCode {
    /// The value written to the exit port.
    pub open spec fn value(self) -> u32 {
        match self {
            QemuExitCode::Success => 0x10,
            QemuExitCode::Failed => 0x11,
        }
    }

    /// The value written to the exit port: 0x10 for success, 0x11 for failure.
    pub fn as_u32(self) -> (r: u32)
        ensures
            r == self.value(),
    {
        match self {
            QemuExitCode::Success => 0x10,
            QemuExitCode::Failed => 0x11,
        }
    }
}

} // verus!
