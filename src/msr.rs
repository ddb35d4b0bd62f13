//! Emulated model-specific registers.

use vstd::prelude::*;

verus! {

/// The register's index.
pub const MSR_IA32_UMWAIT_CONTROL: u32 = 0xe1;
/// Bits of the maximum wait time.
pub const MSR_IA32_UMWAIT_CONTROL_TIME_MASK: u32 = !3u32;
/// Bit that disables the C0.2 state.
pub const MSR_IA32_UMWAIT_CONTROL_C02_DISABLE: u32 = 1;

/// The `IA32_UMWAIT_CONTROL` register.
pub struct Ia32UmwaitControl {
    value: u32,
}

impl Ia32UmwaitControl {
    pub closed spec fn value(&self) -> u32 {
        self.value
    }

    /// The register holding `max_time` with its two low bits cleared, and
    /// bit 0 of `c02_disable`.
    pub fn new(max_time: u32, c02_disable: u32) -> (r: Ia32UmwaitControl)
        ensures
            r.value() == (max_time & !3u32) | (c02_disable & 1u32),
    {
        Ia32UmwaitControl {
            value: (max_time & MSR_IA32_UMWAIT_CONTROL_TIME_MASK) | (c02_disable
                & MSR_IA32_UMWAIT_CONTROL_C02_DISABLE),
        }
    }

    /// The one register index this device answers.
    pub fn msr_range(&self) -> (r: core::ops::Range<u32>)
        ensures
            r.start == 0xe1,
            r.end == 0xe2,
    {
        MSR_IA32_UMWAIT_CONTROL..(MSR_IA32_UMWAIT_CONTROL + 1)
    }

    pub fn read(&mut self, msr: u32) -> (r: u64)
        ensures
            r == old(self).value() as u64,
            final(self).value() == old(self).value(),
    {
        self.value as u64
    }

    /// Stores the low 32 bits of `value`.
    pub fn write(&mut self, msr: u32, value: u64)
        ensures
            final(self).value() == value as u32,
    {
        self.value = value as u32;
    }
}

} // verus!
