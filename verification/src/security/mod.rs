//! Security: capabilities, security contexts and sandboxes.

use vstd::prelude::*;
use vstd::string::*;

pub mod capabilities;
pub mod sandbox;

use self::capabilities::{Capabilities, Capability, CAPABILITY_ALL};

verus! {

/// Security context of a process.
pub struct SecurityContext {
    /// Process capabilities.
    pub capabilities: Capabilities,
    /// User ID.
    pub uid: u32,
    /// Group ID.
    pub gid: u32,
    /// Supplementary groups.
    pub groups: Vec<u32>,
    /// Security label.
    pub label: Option<String>,
}

/// The label of the kernel's own context.
pub open spec fn kernel_label() -> Seq<char> {
    seq!['s', 'y', 's', 't', 'e', 'm', '_', 'u', ':', 's', 'y', 's', 't', 'e', 'm', '_', 'r', ':', 'k',
        'e', 'r', 'n', 'e', 'l', '_', 't', ':', 's', '0']
}

impl SecurityContext {
    /// A context for `uid` and `gid` with no capability, group or label.
    pub fn new(uid: u32, gid: u32) -> (r: Self)
        ensures
            r.uid == uid,
            r.gid == gid,
            r.capabilities.effective.spec_bits() == 0,
            r.capabilities.permitted.spec_bits() == 0,
            r.capabilities.inheritable.spec_bits() == 0,
            r.groups@.len() == 0,
            r.label.is_none(),
    {
        SecurityContext { capabilities: Capabilities::default(), uid, gid, groups: Vec::new(), label: None }
    }

    /// The root context: uid and gid 0, every capability, the kernel label.
    pub fn root() -> (r: Self)
        ensures
            r.uid == 0,
            r.gid == 0,
            r.capabilities.effective.spec_bits() == CAPABILITY_ALL,
            r.capabilities.permitted.spec_bits() == CAPABILITY_ALL,
            r.capabilities.inheritable.spec_bits() == CAPABILITY_ALL,
            r.groups@.len() == 0,
            r.label matches Some(l) && l@ == kernel_label(),
    {
        let label = String::from_str("system_u:system_r:kernel_t:s0");
        proof {
            reveal_strlit("system_u:system_r:kernel_t:s0");
            assert(label@ =~= kernel_label());
        }
        SecurityContext { capabilities: Capabilities::all(), uid: 0, gid: 0, groups: Vec::new(), label: Some(label) }
    }

    /// Whether all of `cap` is effective.
    pub fn has_capability(&self, cap: Capability) -> (r: bool)
        ensures
            r == (self.capabilities.effective.spec_bits() & cap.spec_bits() == cap.spec_bits()),
            self.capabilities.effective.spec_bits() == CAPABILITY_ALL ==> r,
    {
        self.capabilities.has(cap)
    }

    /// Whether the context is root (uid 0).
    pub fn is_root(&self) -> (r: bool)
        ensures
            r == (self.uid == 0),
    {
        self.uid == 0
    }
}

} // verus!
