use aurora_kernel::security::capabilities::{
    Capabilities, Capability, CAPABILITY_ALL, CAP_CHECKPOINT_RESTORE, CAP_CHOWN, CAP_KILL, CAP_NET_ADMIN,
};
use aurora_kernel::security::sandbox::Sandbox;
use aurora_kernel::security::SecurityContext;

fn cap(bits: u64) -> Capability {
    Capability::from_bits_truncate(bits)
}

#[test]
fn capability_bits() {
    assert_eq!(CAP_CHOWN, 1);
    assert_eq!(CAP_KILL, 1 << 5);
    assert_eq!(CAP_CHECKPOINT_RESTORE, 1 << 39);
    assert_eq!(Capability::all().bits(), CAPABILITY_ALL);
    assert_eq!(Capability::all().bits(), (1u64 << 40) - 1);
    assert_eq!(Capability::empty().bits(), 0);
    assert!(Capability::from_bits(1 << 40).is_none());
    assert_eq!(Capability::from_bits(CAP_KILL).unwrap().bits(), CAP_KILL);
    assert_eq!(cap(u64::MAX).bits(), CAPABILITY_ALL);
}

#[test]
fn enable_requires_permit() {
    let mut c = Capabilities::empty();
    assert!(!c.enable(cap(CAP_KILL)));
    assert!(!c.has(cap(CAP_KILL)));
    c.permit(cap(CAP_KILL));
    assert!(!c.has(cap(CAP_KILL)));
    assert!(c.enable(cap(CAP_KILL)));
    assert!(c.has(cap(CAP_KILL)));
    c.disable(cap(CAP_KILL));
    assert!(!c.has(cap(CAP_KILL)));
    assert!(c.enable(cap(CAP_KILL)));
}

#[test]
fn enable_needs_every_bit_permitted() {
    let mut c = Capabilities::default();
    c.permit(cap(CAP_KILL));
    assert!(!c.enable(cap(CAP_KILL | CAP_CHOWN)));
    assert_eq!(c.effective.bits(), 0);
}

#[test]
fn all_has_everything() {
    let c = Capabilities::all();
    assert!(c.has(cap(CAP_NET_ADMIN)));
    assert!(c.has(Capability::all()));
    assert_eq!(c.inheritable.bits(), CAPABILITY_ALL);
}

#[test]
fn contexts() {
    let root = SecurityContext::root();
    assert!(root.is_root());
    assert!(root.has_capability(cap(CAP_CHOWN)));
    assert_eq!(root.label.as_deref(), Some("system_u:system_r:kernel_t:s0"));
    let user = SecurityContext::new(1000, 100);
    assert!(!user.is_root());
    assert!(!user.has_capability(cap(CAP_CHOWN)));
    assert!(user.has_capability(Capability::empty()));
    assert_eq!(user.gid, 100);
    assert!(user.label.is_none());
    assert!(user.groups.is_empty());
}

#[test]
fn sandbox_paths() {
    let mut s = Sandbox::new(3);
    assert!(!s.is_path_allowed("/"));
    s.allow_path("/home/user");
    assert!(s.is_path_allowed("/home/user/file"));
    assert!(s.is_path_allowed("/home/username"));
    assert!(!s.is_path_allowed("/etc/passwd"));
    assert!(!s.network_access);
    let p = Sandbox::permissive(4);
    assert!(p.is_path_allowed("/anything"));
    assert!(!p.is_path_allowed("relative"));
    assert!(p.network_access);
    assert_eq!(p.namespace_id, 4);
}

#[test]
fn sandbox_capabilities() {
    let mut s = Sandbox::new(1);
    assert!(!s.is_capability_denied(cap(CAP_KILL)));
    s.deny_capability(cap(CAP_KILL));
    assert!(s.is_capability_denied(cap(CAP_KILL)));
    assert_eq!(s.denied_caps.permitted.bits(), CAP_KILL);
    assert!(!s.is_capability_denied(cap(CAP_KILL | CAP_CHOWN)));
}

#[test]
fn all_holds_every_capability() {
    let all = Capabilities::all();
    for bits in [0u64, CAP_CHOWN, CAP_KILL | CAP_NET_ADMIN, u64::MAX] {
        assert!(all.has(cap(bits)));
    }
    assert!(Capability::all().contains(cap(u64::MAX)));
    assert!(cap(u64::MAX).bits() & !CAPABILITY_ALL == 0);
}
