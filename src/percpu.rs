//! Per-CPU state of the hypervisor.

use vstd::prelude::*;

verus! {

/// Whether the hypervisor runs on a CPU.
#[derive(Clone, Copy, Debug, PartialEq, Eq, Structural)]
pub enum CpuState {
    HvDisabled,
    HvEnabled,
}

} // verus!
