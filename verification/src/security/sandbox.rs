//! Process sandboxing.

use vstd::prelude::*;
use vstd::string::*;
use crate::text::{is_prefix, starts_with};
use super::capabilities::{Capabilities, Capability};

verus! {

/// Whether `path` lies under one of `allowed`.
pub open spec fn path_allowed(allowed: Seq<Seq<char>>, path: Seq<char>) -> bool {
    exists|i: int| 0 <= i < allowed.len() && is_prefix(#[trigger] allowed[i], path)
}

/// The views of a sequence of strings.
pub open spec fn string_views(v: Seq<String>) -> Seq<Seq<char>> {
    v.map_values(|s: String| s@)
}

/// Sandbox configuration for process isolation.
pub struct Sandbox {
    /// Namespace ID.
    pub namespace_id: u32,
    /// Allowed filesystem paths.
    pub allowed_paths: Vec<String>,
    /// Denied capabilities.
    pub denied_caps: Capabilities,
    /// Whether network access is allowed.
    pub network_access: bool,
    /// Maximum memory in bytes.
    pub max_memory: Option<u64>,
    /// Maximum CPU percentage (0-100).
    pub max_cpu: Option<u8>,
}

impl Sandbox {
    /// A restrictive sandbox: no path, no network, nothing denied.
    pub fn new(namespace_id: u32) -> (r: Self)
        ensures
            r.namespace_id == namespace_id,
            r.allowed_paths@.len() == 0,
            r.denied_caps.effective.spec_bits() == 0,
            r.denied_caps.permitted.spec_bits() == 0,
            r.denied_caps.inheritable.spec_bits() == 0,
            !r.network_access,
            r.max_memory.is_none(),
            r.max_cpu.is_none(),
    {
        Sandbox {
            namespace_id,
            allowed_paths: Vec::new(),
            denied_caps: Capabilities::empty(),
            network_access: false,
            max_memory: None,
            max_cpu: None,
        }
    }

    /// A permissive sandbox: every path under `/`, network allowed.
    pub fn permissive(namespace_id: u32) -> (r: Self)
        ensures
            r.namespace_id == namespace_id,
            string_views(r.allowed_paths@) == seq![seq!['/']],
            r.denied_caps.effective.spec_bits() == 0,
            r.denied_caps.permitted.spec_bits() == 0,
            r.denied_caps.inheritable.spec_bits() == 0,
            r.network_access,
            r.max_memory.is_none(),
            r.max_cpu.is_none(),
    {
        let mut paths: Vec<String> = Vec::new();
        paths.push(String::from_str("/"));
        proof {
            reveal_strlit("/");
            assert("/"@ =~= seq!['/']);
            assert(paths@[0]@ == seq!['/']);
            assert(string_views(paths@) =~= seq![seq!['/']]);
        }
        Sandbox {
            namespace_id,
            allowed_paths: paths,
            denied_caps: Capabilities::empty(),
            network_access: true,
            max_memory: None,
            max_cpu: None,
        }
    }

    /// Allow the paths under `path`.
    pub fn allow_path(&mut self, path: &str)
        ensures
            string_views(final(self).allowed_paths@) == string_views(old(self).allowed_paths@).push(path@),
            final(self).namespace_id == old(self).namespace_id,
            final(self).denied_caps == old(self).denied_caps,
            final(self).network_access == old(self).network_access,
            final(self).max_memory == old(self).max_memory,
            final(self).max_cpu == old(self).max_cpu,
    {
        self.allowed_paths.push(String::from_str(path));
        assert(string_views(self.allowed_paths@) =~= string_views(old(self).allowed_paths@).push(path@));
    }

    /// Deny `cap`: it joins the effective and permitted denied sets.
    pub fn deny_capability(&mut self, cap: Capability)
        ensures
            final(self).denied_caps.effective.spec_bits() == old(self).denied_caps.effective.spec_bits() | cap.spec_bits(),
            final(self).denied_caps.permitted.spec_bits() == old(self).denied_caps.permitted.spec_bits() | cap.spec_bits(),
            final(self).denied_caps.inheritable == old(self).denied_caps.inheritable,
            final(self).allowed_paths@ == old(self).allowed_paths@,
            final(self).namespace_id == old(self).namespace_id,
            final(self).network_access == old(self).network_access,
            final(self).max_memory == old(self).max_memory,
            final(self).max_cpu == old(self).max_cpu,
    {
        self.denied_caps.effective.insert(cap);
        self.denied_caps.permitted.insert(cap);
    }

    /// Whether `path` starts with one of the allowed paths.
    pub fn is_path_allowed(&self, path: &str) -> (r: bool)
        ensures
            r == path_allowed(string_views(self.allowed_paths@), path@),
    {
        if self.allowed_paths.is_empty() {
            return false;
        }
        let ghost allowed = string_views(self.allowed_paths@);
        let mut i: usize = 0;
        while i < self.allowed_paths.len()
            invariant
                allowed == string_views(self.allowed_paths@),
                i <= self.allowed_paths@.len(),
                forall|j: int| 0 <= j < i ==> !is_prefix(#[trigger] allowed[j], path@),
            decreases self.allowed_paths@.len() - i,
        {
            if starts_with(path, self.allowed_paths[i].as_str()) {
                assert(allowed[i as int] == self.allowed_paths@[i as int]@);
                return true;
            }
            i = i + 1;
        }
        false
    }

    /// Whether all of `cap` is denied.
    pub fn is_capability_denied(&self, cap: Capability) -> (r: bool)
        ensures
            r == (self.denied_caps.effective.spec_bits() & cap.spec_bits() == cap.spec_bits()),
    {
        self.denied_caps.effective.contains(cap)
    }
}

/// A path once allowed stays allowed: after `allow_path(p)`, every path
/// under `p`, and every path allowed before, is allowed.
pub proof fn lemma_allow_path_allows(allowed: Seq<Seq<char>>, p: Seq<char>, path: Seq<char>)
    requires
        is_prefix(p, path) || path_allowed(allowed, path),
    ensures
        path_allowed(allowed.push(p), path),
{
    if is_prefix(p, path) {
        assert(allowed.push(p)[allowed.len() as int] == p);
    } else {
        let i = choose|i: int| 0 <= i < allowed.len() && is_prefix(#[trigger] allowed[i], path);
        assert(allowed.push(p)[i] == allowed[i]);
    }
}

} // verus!
