//! CPU feature flags, decoded from the registers that CPUID returns.

use vstd::prelude::*;

verus! {

/// CPU feature flags.
#[derive(Debug, Clone, Copy, PartialEq, Eq, Structural)]
pub struct CpuFeatures {
    pub sse: bool,
    pub sse2: bool,
    pub sse3: bool,
    pub ssse3: bool,
    pub sse4_1: bool,
    pub sse4_2: bool,
    pub avx: bool,
    pub avx2: bool,
    pub fma: bool,
    pub bmi1: bool,
    pub bmi2: bool,
    pub apic: bool,
    pub x2apic: bool,
    pub tsc: bool,
    pub tsc_deadline: bool,
    pub lahf_sahf: bool,
    pub nx: bool,
}

/// Whether bit `n` of `reg` is set.
pub open spec fn bit_set(reg: u32, n: u32) -> bool {
    reg & (1u32 << n) != 0
}

/// Whether bit `n` of `reg` is set.
fn test_bit(reg: u32, n: u32) -> (r: bool)
    requires
        n < 32,
    ensures
        r == bit_set(reg, n),
{
    reg & (1u32 << n) != 0
}

impl CpuFeatures {
    /// The features that CPUID leaf 1 (`ecx1`, `edx1`), leaf 7 (`ebx7`)
    /// and the extended leaf 0x8000_0001 (`ecx_ext`, `edx_ext`) report.
    pub fn from_cpuid(ecx1: u32, edx1: u32, ebx7: u32, ecx_ext: u32, edx_ext: u32) -> (r: Self)
        ensures
            r.sse == bit_set(edx1, 25),
            r.sse2 == bit_set(edx1, 26),
            r.sse3 == bit_set(ecx1, 0),
            r.ssse3 == bit_set(ecx1, 9),
            r.sse4_1 == bit_set(ecx1, 19),
            r.sse4_2 == bit_set(ecx1, 20),
            r.avx == bit_set(ecx1, 28),
            r.avx2 == bit_set(ebx7, 5),
            r.fma == bit_set(ecx1, 12),
            r.bmi1 == bit_set(ebx7, 3),
            r.bmi2 == bit_set(ebx7, 8),
            r.apic == bit_set(edx1, 9),
            r.x2apic == bit_set(ecx1, 21),
            r.tsc == bit_set(edx1, 4),
            r.tsc_deadline == bit_set(ecx1, 24),
            r.lahf_sahf == bit_set(ecx_ext, 0),
            r.nx == bit_set(edx_ext, 20),
    {
        CpuFeatures {
            sse: test_bit(edx1, 25),
            sse2: test_bit(edx1, 26),
            sse3: test_bit(ecx1, 0),
            ssse3: test_bit(ecx1, 9),
            sse4_1: test_bit(ecx1, 19),
            sse4_2: test_bit(ecx1, 20),
            avx: test_bit(ecx1, 28),
            avx2: test_bit(ebx7, 5),
            fma: test_bit(ecx1, 12),
            bmi1: test_bit(ebx7, 3),
            bmi2: test_bit(ebx7, 8),
            apic: test_bit(edx1, 9),
            x2apic: test_bit(ecx1, 21),
            tsc: test_bit(edx1, 4),
            tsc_deadline: test_bit(ecx1, 24),
            lahf_sahf: test_bit(ecx_ext, 0),
            nx: test_bit(edx_ext, 20),
        }
    }

    /// Whether NX (no-execute) is supported.
    pub fn has_nx(&self) -> (r: bool)
        ensures
            r == self.nx,
    {
        self.nx
    }

    /// Whether SSE and SSE2 are supported.
    pub fn has_sse(&self) -> (r: bool)
        ensures
            r == (self.sse && self.sse2),
    {
        self.sse && self.sse2
    }

    /// Whether AVX and AVX2 are supported.
    pub fn has_avx(&self) -> (r: bool)
        ensures
            r == (self.avx && self.avx2),
    {
        self.avx && self.avx2
    }
}

} // verus!
