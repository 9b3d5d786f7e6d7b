//! Memory-management core of a small x86-64 kernel: the physical frame
//! allocator, the heap mapping step and the segregated block allocator,
//! together with the few kernel-wide definitions they share.

pub mod allocator;
pub mod framebuffer;
pub mod interrupts;
pub mod memory;
pub mod vga;

use vstd::prelude::*;

verus! {

/// Exit codes understood by the emulator's debug-exit device.
#[derive(Debug, Clone, Copy, PartialEq, Eq, Structural)]
pub enum QemuExitCode {
    /// Every test has passed.
    Success,
    /// A test has failed.
    Failed,
}

impl QemuExitCode {
    /// The value written to the debug-exit port for this code.
    pub open spec fn spec_code(self) -> u32 {
        match self {
            QemuExitCode::Success => 0x10,
            QemuExitCode::Failed => 0x11,
        }
    }

    /// The value written to the debug-exit port for this code.
    pub fn code(self) -> (r: u32)
        ensures
            r == self.spec_code(),
    {
        match self {
            QemuExitCode::Success => 0x10,
            QemuExitCode::Failed => 0x11,
        }
    }
}

/// Runs the tests in order, each of them once, and gives the exit code to
/// leave the emulator with.
///
/// A test that fails does not return, so the runner comes to its end only
/// when every test has passed, and the exit code is then `Success`.
///
/// What happens on a failure is the business of the panic handler: see
/// [`test_panic_handler`].
pub fn test_runner(tests: &[&dyn Testable]) -> (code: QemuExitCode)
    ensures
        forall|i: int| 0 <= i < tests@.len() ==> (#[trigger] tests@[i]).passes(),
        code == QemuExitCode::Success,
{
    let mut i: usize = 0;
    while i < tests.len()
        invariant
            i <= tests.len(),
            forall|j: int| 0 <= j < i ==> (#[trigger] tests@[j]).passes(),
        decreases tests.len() - i,
    {
        tests[i].run();
        i += 1;
    }
    QemuExitCode::Success
}

/// A test that the kernel's test runner can run.
pub trait Testable {
    /// What holds of a test that has passed. A test that says nothing of
    /// itself leaves this as it is.
    open spec fn passes(&self) -> bool {
        true
    }

    /// Runs the test. It returns only if the test passes.
    fn run(&self)
        ensures
            self.passes(),
    ;
}

/// The exit code to leave the emulator with when a test has panicked.
pub fn test_panic_handler() -> (code: QemuExitCode)
    ensures
        code == QemuExitCode::Failed,
{
    QemuExitCode::Failed
}

} // verus!
