//! Shared memory regions.

use vstd::prelude::*;

verus! {

/// A shared memory region, counted by its users.
pub struct SharedMemory {
    /// Unique identifier.
    id: u32,
    /// Virtual address of the mapping.
    addr: u64,
    /// Physical address, for kernel mappings.
    phys_addr: Option<u64>,
    /// Size in bytes.
    size: usize,
    /// Number of users.
    ref_count: u32,
}

impl SharedMemory {
    /// The identifier.
    pub closed spec fn id_spec(&self) -> u32 {
        self.id
    }

    /// The virtual address.
    pub closed spec fn addr_spec(&self) -> u64 {
        self.addr
    }

    /// The physical address, if one was given.
    pub closed spec fn phys_spec(&self) -> Option<u64> {
        self.phys_addr
    }

    /// The size in bytes.
    pub closed spec fn size_spec(&self) -> usize {
        self.size
    }

    /// The number of users.
    pub closed spec fn ref_count_spec(&self) -> u32 {
        self.ref_count
    }

    /// A region with one user and no physical address.
    pub fn new(id: u32, addr: u64, size: usize) -> (r: Self)
        ensures
            r.id_spec() == id,
            r.addr_spec() == addr,
            r.phys_spec() == None::<u64>,
            r.size_spec() == size,
            r.ref_count_spec() == 1,
    {
        SharedMemory { id, addr, phys_addr: None, size, ref_count: 1 }
    }

    /// A region with one user, backed by the physical address `phys`.
    pub fn with_phys(id: u32, addr: u64, phys: u64, size: usize) -> (r: Self)
        ensures
            r.id_spec() == id,
            r.addr_spec() == addr,
            r.phys_spec() == Some(phys),
            r.size_spec() == size,
            r.ref_count_spec() == 1,
    {
        SharedMemory { id, addr, phys_addr: Some(phys), size, ref_count: 1 }
    }

    /// The identifier.
    pub fn id(&self) -> (r: u32)
        ensures
            r == self.id_spec(),
    {
        self.id
    }

    /// The virtual address.
    pub fn addr(&self) -> (r: u64)
        ensures
            r == self.addr_spec(),
    {
        self.addr
    }

    /// The size in bytes.
    pub fn size(&self) -> (r: usize)
        ensures
            r == self.size_spec(),
    {
        self.size
    }

    /// Count one more user.
    pub fn add_ref(&mut self)
        requires
            old(self).ref_count_spec() < u32::MAX,
        ensures
            final(self).ref_count_spec() == old(self).ref_count_spec() + 1,
            final(self).id_spec() == old(self).id_spec(),
            final(self).addr_spec() == old(self).addr_spec(),
            final(self).phys_spec() == old(self).phys_spec(),
            final(self).size_spec() == old(self).size_spec(),
    {
        self.ref_count = self.ref_count + 1;
    }

    /// Count one user less; returns the users left.
    pub fn release(&mut self) -> (r: u32)
        requires
            old(self).ref_count_spec() > 0,
        ensures
            r == old(self).ref_count_spec() - 1,
            final(self).ref_count_spec() == r,
            final(self).id_spec() == old(self).id_spec(),
            final(self).addr_spec() == old(self).addr_spec(),
            final(self).phys_spec() == old(self).phys_spec(),
            final(self).size_spec() == old(self).size_spec(),
    {
        self.ref_count = self.ref_count - 1;
        self.ref_count
    }
}

/// A reference taken and then released leaves the count where it was:
/// `b` is what `add_ref` makes of `a`, and `c` what `release` makes of `b`.
pub proof fn lemma_add_ref_then_release(a: SharedMemory, b: SharedMemory, c: SharedMemory)
    requires
        b.ref_count_spec() == a.ref_count_spec() + 1,
        c.ref_count_spec() == b.ref_count_spec() - 1,
    ensures
        c.ref_count_spec() == a.ref_count_spec(),
{
}

} // verus!
