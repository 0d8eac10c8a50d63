//! CPU features.
use vstd::prelude::*;

verus! {

/// The CPU features the kernel cares about.
#[derive(Debug, Clone, Copy)]
pub struct CpuFeatures {
    pub fast_syscall: bool,
}

impl CpuFeatures {
    /// The features reported in EDX by CPUID leaf 0x80000001: SYSCALL/SYSRET
    /// is bit 11.
    pub fn from_extended_edx(edx: u32) -> (r: Self)
        ensures
            r.fast_syscall == (edx & (1u32 << 11u32) != 0),
    {
        Self { fast_syscall: edx & (1u32 << 11u32) != 0 }
    }
}

} // verus!
