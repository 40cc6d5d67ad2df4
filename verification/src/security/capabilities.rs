//! Capability-based access control.

use vstd::prelude::*;

verus! {

/// Bit of `CAP_CHOWN`.
pub const CAP_CHOWN: u64 = 1 << 0;

/// Bit of `CAP_DAC_OVERRIDE`.
pub const CAP_DAC_OVERRIDE: u64 = 1 << 1;

/// Bit of `CAP_DAC_READ_SEARCH`.
pub const CAP_DAC_READ_SEARCH: u64 = 1 << 2;

/// Bit of `CAP_FOWNER`.
pub const CAP_FOWNER: u64 = 1 << 3;

/// Bit of `CAP_FSETID`.
pub const CAP_FSETID: u64 = 1 << 4;

/// Bit of `CAP_KILL`.
pub const CAP_KILL: u64 = 1 << 5;

/// Bit of `CAP_SETGID`.
pub const CAP_SETGID: u64 = 1 << 6;

/// Bit of `CAP_SETUID`.
pub const CAP_SETUID: u64 = 1 << 7;

/// Bit of `CAP_SETPCAP`.
pub const CAP_SETPCAP: u64 = 1 << 8;

/// Bit of `CAP_LINUX_IMMUTABLE`.
pub const CAP_LINUX_IMMUTABLE: u64 = 1 << 9;

/// Bit of `CAP_NET_BIND_SERVICE`.
pub const CAP_NET_BIND_SERVICE: u64 = 1 << 10;

/// Bit of `CAP_NET_BROADCAST`.
pub const CAP_NET_BROADCAST: u64 = 1 << 11;

/// Bit of `CAP_NET_ADMIN`.
pub const CAP_NET_ADMIN: u64 = 1 << 12;

/// Bit of `CAP_NET_RAW`.
pub const CAP_NET_RAW: u64 = 1 << 13;

/// Bit of `CAP_IPC_LOCK`.
pub const CAP_IPC_LOCK: u64 = 1 << 14;

/// Bit of `CAP_IPC_OWNER`.
pub const CAP_IPC_OWNER: u64 = 1 << 15;

/// Bit of `CAP_SYS_MODULE`.
pub const CAP_SYS_MODULE: u64 = 1 << 16;

/// Bit of `CAP_SYS_RAWIO`.
pub const CAP_SYS_RAWIO: u64 = 1 << 17;

/// Bit of `CAP_SYS_CHROOT`.
pub const CAP_SYS_CHROOT: u64 = 1 << 18;

/// Bit of `CAP_SYS_PTRACE`.
pub const CAP_SYS_PTRACE: u64 = 1 << 19;

/// Bit of `CAP_SYS_PACCT`.
pub const CAP_SYS_PACCT: u64 = 1 << 20;

/// Bit of `CAP_SYS_ADMIN`.
pub const CAP_SYS_ADMIN: u64 = 1 << 21;

/// Bit of `CAP_SYS_BOOT`.
pub const CAP_SYS_BOOT: u64 = 1 << 22;

/// Bit of `CAP_SYS_NICE`.
pub const CAP_SYS_NICE: u64 = 1 << 23;

/// Bit of `CAP_SYS_RESOURCE`.
pub const CAP_SYS_RESOURCE: u64 = 1 << 24;

/// Bit of `CAP_SYS_TIME`.
pub const CAP_SYS_TIME: u64 = 1 << 25;

/// Bit of `CAP_SYS_TTY_CONFIG`.
pub const CAP_SYS_TTY_CONFIG: u64 = 1 << 26;

/// Bit of `CAP_MKNOD`.
pub const CAP_MKNOD: u64 = 1 << 27;

/// Bit of `CAP_LEASE`.
pub const CAP_LEASE: u64 = 1 << 28;

/// Bit of `CAP_AUDIT_WRITE`.
pub const CAP_AUDIT_WRITE: u64 = 1 << 29;

/// Bit of `CAP_AUDIT_CONTROL`.
pub const CAP_AUDIT_CONTROL: u64 = 1 << 30;

/// Bit of `CAP_MAC_OVERRIDE`.
pub const CAP_MAC_OVERRIDE: u64 = 1 << 31;

/// Bit of `CAP_MAC_ADMIN`.
pub const CAP_MAC_ADMIN: u64 = 1 << 32;

/// Bit of `CAP_SYSLOG`.
pub const CAP_SYSLOG: u64 = 1 << 33;

/// Bit of `CAP_WAKE_ALARM`.
pub const CAP_WAKE_ALARM: u64 = 1 << 34;

/// Bit of `CAP_BLOCK_SUSPEND`.
pub const CAP_BLOCK_SUSPEND: u64 = 1 << 35;

/// Bit of `CAP_AUDIT_READ`.
pub const CAP_AUDIT_READ: u64 = 1 << 36;

/// Bit of `CAP_PERFMON`.
pub const CAP_PERFMON: u64 = 1 << 37;

/// Bit of `CAP_BPF`.
pub const CAP_BPF: u64 = 1 << 38;

/// Bit of `CAP_CHECKPOINT_RESTORE`.
pub const CAP_CHECKPOINT_RESTORE: u64 = 1 << 39;

/// Bits of every declared capability.
pub const CAPABILITY_ALL: u64 = 0xff_ffff_ffff;

/// A set of process capabilities, one bit each (the bits above).
#[derive(Debug, Clone, Copy, PartialEq, Eq, Structural)]
pub struct Capability {
    bits: u64,
}

impl Capability {
    /// The raw bits.
    pub closed spec fn spec_bits(&self) -> u64 {
        self.bits
    }

    /// Only declared capabilities are ever held.
    #[verifier::type_invariant]
    spec fn declared_only(&self) -> bool {
        self.bits & !CAPABILITY_ALL == 0
    }

    /// The capabilities of `bits`, dropping undeclared bits.
    pub fn from_bits_truncate(bits: u64) -> (r: Self)
        ensures
            r.spec_bits() == bits & CAPABILITY_ALL,
    {
        assert((bits & 0xff_ffff_ffffu64) & !0xff_ffff_ffffu64 == 0) by (bit_vector);
        Capability { bits: bits & CAPABILITY_ALL }
    }

    /// The capabilities of `bits`, if every bit is a declared capability.
    pub fn from_bits(bits: u64) -> (r: Option<Self>)
        ensures
            r is Some == (bits & !CAPABILITY_ALL == 0),
            r matches Some(c) ==> c.spec_bits() == bits,
    {
        if bits & !CAPABILITY_ALL == 0 {
            Some(Capability { bits })
        } else {
            None
        }
    }

    /// No capability.
    pub fn empty() -> (r: Self)
        ensures
            r.spec_bits() == 0,
    {
        assert(0u64 & !0xff_ffff_ffffu64 == 0) by (bit_vector);
        Capability { bits: 0 }
    }

    /// Every declared capability.
    pub fn all() -> (r: Self)
        ensures
            r.spec_bits() == CAPABILITY_ALL,
    {
        assert(0xff_ffff_ffffu64 & !0xff_ffff_ffffu64 == 0) by (bit_vector);
        Capability { bits: CAPABILITY_ALL }
    }

    /// The raw bits: declared capabilities only.
    pub fn bits(&self) -> (r: u64)
        ensures
            r == self.spec_bits(),
            r & !CAPABILITY_ALL == 0,
    {
        proof {
            use_type_invariant(self);
        }
        self.bits
    }

    /// Whether every capability of `other` is in the set; the set of every
    /// declared capability contains every set.
    pub fn contains(&self, other: Capability) -> (r: bool)
        ensures
            r == (self.spec_bits() & other.spec_bits() == other.spec_bits()),
            self.spec_bits() == CAPABILITY_ALL ==> r,
    {
        proof {
            use_type_invariant(&other);
            let o = other.bits;
            assert(o & !0xff_ffff_ffffu64 == 0 ==> 0xff_ffff_ffffu64 & o == o) by (bit_vector);
        }
        self.bits & other.bits == other.bits
    }

    /// Add the capabilities of `other`.
    pub fn insert(&mut self, other: Capability)
        ensures
            final(self).spec_bits() == old(self).spec_bits() | other.spec_bits(),
    {
        proof {
            use_type_invariant(&*self);
            use_type_invariant(&other);
        }
        let a = self.bits;
        let b = other.bits;
        assert(a & !0xff_ffff_ffffu64 == 0 && b & !0xff_ffff_ffffu64 == 0 ==> (a | b)
            & !0xff_ffff_ffffu64 == 0) by (bit_vector);
        self.bits = a | b;
    }

    /// Take out the capabilities of `other`.
    pub fn remove(&mut self, other: Capability)
        ensures
            final(self).spec_bits() == old(self).spec_bits() & !other.spec_bits(),
    {
        proof {
            use_type_invariant(&*self);
        }
        let a = self.bits;
        let b = other.bits;
        assert(a & !0xff_ffff_ffffu64 == 0 ==> (a & !b) & !0xff_ffff_ffffu64 == 0) by (bit_vector);
        self.bits = a & !b;
    }
}

/// Capability sets of a process.
#[derive(Debug, Clone, Copy)]
pub struct Capabilities {
    /// Effective capabilities (currently active).
    pub effective: Capability,
    /// Permitted capabilities (can be made effective).
    pub permitted: Capability,
    /// Inheritable capabilities (passed to children).
    pub inheritable: Capability,
}

impl Capabilities {
    /// All three sets empty.
    pub fn empty() -> (r: Self)
        ensures
            r.effective.spec_bits() == 0,
            r.permitted.spec_bits() == 0,
            r.inheritable.spec_bits() == 0,
    {
        Capabilities { effective: Capability::empty(), permitted: Capability::empty(), inheritable: Capability::empty() }
    }

    /// All three sets full (root).
    pub fn all() -> (r: Self)
        ensures
            r.effective.spec_bits() == CAPABILITY_ALL,
            r.permitted.spec_bits() == CAPABILITY_ALL,
            r.inheritable.spec_bits() == CAPABILITY_ALL,
    {
        Capabilities { effective: Capability::all(), permitted: Capability::all(), inheritable: Capability::all() }
    }

    /// Whether every capability of `cap` is effective.
    pub fn has(&self, cap: Capability) -> (r: bool)
        ensures
            r == (self.effective.spec_bits() & cap.spec_bits() == cap.spec_bits()),
            self.effective.spec_bits() == CAPABILITY_ALL ==> r,
    {
        self.effective.contains(cap)
    }

    /// Add `cap` to the permitted set.
    pub fn permit(&mut self, cap: Capability)
        ensures
            final(self).permitted.spec_bits() == old(self).permitted.spec_bits() | cap.spec_bits(),
            final(self).effective == old(self).effective,
            final(self).inheritable == old(self).inheritable,
    {
        self.permitted.insert(cap);
    }

    /// Make `cap` effective if all of it is permitted; returns whether it was.
    pub fn enable(&mut self, cap: Capability) -> (r: bool)
        ensures
            r == (old(self).permitted.spec_bits() & cap.spec_bits() == cap.spec_bits()),
            final(self).effective.spec_bits() == if r {
                old(self).effective.spec_bits() | cap.spec_bits()
            } else {
                old(self).effective.spec_bits()
            },
            final(self).permitted == old(self).permitted,
            final(self).inheritable == old(self).inheritable,
    {
        if self.permitted.contains(cap) {
            self.effective.insert(cap);
            true
        } else {
            false
        }
    }

    /// Take `cap` out of the effective set.
    pub fn disable(&mut self, cap: Capability)
        ensures
            final(self).effective.spec_bits() == old(self).effective.spec_bits() & !cap.spec_bits(),
            final(self).permitted == old(self).permitted,
            final(self).inheritable == old(self).inheritable,
    {
        self.effective.remove(cap);
    }
}

impl Default for Capabilities {
    fn default() -> (r: Self)
        ensures
            r.effective.spec_bits() == 0,
            r.permitted.spec_bits() == 0,
            r.inheritable.spec_bits() == 0,
    {
        Self::empty()
    }
}

/// Only what is permitted can be made effective: after `enable`, every
/// effective capability was effective before or is permitted.
pub proof fn lemma_enable_only_permitted(effective: u64, permitted: u64, cap: u64)
    ensures
        ({
            let ok = permitted & cap == cap;
            let after = if ok { effective | cap } else { effective };
            &&& after & !(effective | permitted) == 0
        }),
{
    assert((permitted & cap == cap) ==> ((effective | cap) & !(effective | permitted) == 0)) by (bit_vector);
    assert((effective & !(effective | permitted)) == 0) by (bit_vector);
}

/// A capability enabled from the permitted set is then held.
pub proof fn lemma_enable_then_has(effective: u64, permitted: u64, cap: u64)
    requires
        permitted & cap == cap,
    ensures
        ((effective | cap) & cap) == cap,
{
    assert(((effective | cap) & cap) == cap) by (bit_vector);
}

/// A disabled capability is no longer held (unless it is the empty set,
/// which every set holds).
pub proof fn lemma_disable_then_not_has(effective: u64, cap: u64)
    requires
        cap != 0,
    ensures
        ((effective & !cap) & cap) != cap,
{
    assert(cap != 0 ==> ((effective & !cap) & cap) != cap) by (bit_vector);
}

} // verus!
