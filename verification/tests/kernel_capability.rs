use aether::kernel::capability::{Capability, CapabilityId, CapabilityTable, CapabilityTarget, Rights};
use aether::kernel::KernelError;

fn read_grant() -> Rights {
    Rights::read().union(Rights::grant())
}

#[test]
fn derived_capability_cannot_exceed_parent_rights() {
    let mut table = CapabilityTable::new();
    let parent = table.mint(CapabilityTarget::MemoryRegion(0), read_grant());
    let result = table.derive(parent.id, Rights::write());
    assert!(result.is_err(), "must not be able to escalate rights");
}

#[test]
fn derived_capability_within_parent_rights_succeeds() {
    let mut table = CapabilityTable::new();
    let parent = table.mint(CapabilityTarget::MemoryRegion(0), read_grant());
    let child = table.derive(parent.id, Rights::read()).unwrap();
    assert!(table.check(child.id, Rights::read()).is_ok());
}

#[test]
fn revoking_target_invalidates_every_capability_over_it() {
    let mut table = CapabilityTable::new();
    let parent = table.mint(CapabilityTarget::MemoryRegion(0), read_grant());
    let child = table.derive(parent.id, Rights::read()).unwrap();

    table.revoke(parent.id);

    // The child was never revoked directly, but it names the same target:
    // its epoch is now stale, so it must be rejected too.
    assert!(matches!(
        table.check(child.id, Rights::read()),
        Err(KernelError::CapabilityRevoked(_))
    ));
}

#[test]
fn revoking_target_invalidates_an_off_table_cached_copy() {
    let mut table = CapabilityTable::new();
    let cap = table.mint(CapabilityTarget::Device("camera0".into()), Rights::read());
    let cached_copy = cap.clone();

    table.revoke(cap.id);

    let current = table.current_epoch(&cached_copy.target);
    assert_ne!(
        cached_copy.epoch, current,
        "cached copy's epoch must be stale after revocation"
    );
}

#[test]
fn fresh_capability_over_a_previously_revoked_target_is_valid() {
    let mut table = CapabilityTable::new();
    let first = table.mint(CapabilityTarget::MemoryRegion(7), Rights::read());
    table.revoke(first.id);

    let second = table.mint(CapabilityTarget::MemoryRegion(7), Rights::read());
    assert!(table.check(second.id, Rights::read()).is_ok());
}

#[test]
fn mint_hands_out_consecutive_ids_with_the_current_epoch() {
    let mut table = CapabilityTable::new();
    let a = table.mint(CapabilityTarget::IpcPort(3), Rights::write());
    let b = table.mint(CapabilityTarget::Process(9), Rights::execute());
    assert_eq!(a.id, CapabilityId(1));
    assert_eq!(b.id, CapabilityId(2));
    assert_eq!(a.epoch, 0);
    table.revoke(a.id);
    let c = table.mint(CapabilityTarget::IpcPort(3), Rights::write());
    assert_eq!(c.id, CapabilityId(3));
    assert_eq!(c.epoch, 1);
    assert_eq!(c.target, CapabilityTarget::IpcPort(3));
    assert_eq!(c.rights, Rights::write());
}

#[test]
fn check_reports_each_error_variant() {
    let mut table = CapabilityTable::new();
    assert_eq!(
        table.check(CapabilityId(42), Rights::read()),
        Err(KernelError::CapabilityNotFound(CapabilityId(42)))
    );
    let cap = table.mint(CapabilityTarget::MemoryRegion(1), Rights::read());
    assert_eq!(
        table.check(cap.id, Rights::write()),
        Err(KernelError::AccessDenied { cap: cap.id, needed: Rights::write() })
    );
    assert_eq!(table.check(cap.id, Rights::empty()), Ok(()));
    // Revoking through another capability over the same target stales this one.
    let other = table.mint(CapabilityTarget::MemoryRegion(1), Rights::read());
    table.revoke(other.id);
    assert_eq!(
        table.check(cap.id, Rights::read()),
        Err(KernelError::CapabilityRevoked(cap.id))
    );
    // The revoked id itself is gone from the table.
    assert_eq!(
        table.check(other.id, Rights::read()),
        Err(KernelError::CapabilityNotFound(other.id))
    );
}

#[test]
fn derive_reports_each_error_variant() {
    let mut table = CapabilityTable::new();
    assert_eq!(
        table.derive(CapabilityId(5), Rights::read()).unwrap_err(),
        KernelError::CapabilityNotFound(CapabilityId(5))
    );
    let no_grant = table.mint(CapabilityTarget::IpcPort(1), Rights::read());
    assert_eq!(
        table.derive(no_grant.id, Rights::read()).unwrap_err(),
        KernelError::AccessDenied { cap: no_grant.id, needed: Rights::grant() }
    );
    let parent = table.mint(CapabilityTarget::IpcPort(2), read_grant());
    assert_eq!(
        table.derive(parent.id, Rights::read().union(Rights::write())).unwrap_err(),
        KernelError::AccessDenied { cap: parent.id, needed: Rights::read().union(Rights::write()) }
    );
    let sibling = table.mint(CapabilityTarget::IpcPort(2), Rights::read());
    table.revoke(sibling.id);
    assert_eq!(
        table.derive(parent.id, Rights::read()).unwrap_err(),
        KernelError::CapabilityRevoked(parent.id)
    );
}

#[test]
fn derived_child_names_the_parent_target_with_the_asked_rights() {
    let mut table = CapabilityTable::new();
    let parent = table.mint(CapabilityTarget::Device("lidar".to_string()), read_grant());
    let child: Capability = table.derive(parent.id, Rights::grant()).unwrap();
    assert_eq!(child.target, CapabilityTarget::Device("lidar".to_string()));
    assert_eq!(child.rights, Rights::grant());
    assert_eq!(child.id, CapabilityId(2));
    assert_eq!(child.epoch, parent.epoch);
    // A child holding the grant right may derive further.
    assert!(table.derive(child.id, Rights::grant()).is_ok());
}

#[test]
fn devices_with_different_names_are_revoked_separately() {
    let mut table = CapabilityTable::new();
    let cam = table.mint(CapabilityTarget::Device("camera0".into()), Rights::read());
    let mic = table.mint(CapabilityTarget::Device("mic0".into()), Rights::read());
    table.revoke(cam.id);
    assert_eq!(table.check(mic.id, Rights::read()), Ok(()));
    assert_eq!(table.current_epoch(&CapabilityTarget::Device("camera0".into())), 1);
    assert_eq!(table.current_epoch(&CapabilityTarget::Device("mic0".into())), 0);
    table.revoke(mic.id);
    table.revoke(CapabilityId(99));
    assert_eq!(table.current_epoch(&CapabilityTarget::Device("mic0".into())), 1);
    assert_eq!(table.current_epoch(&CapabilityTarget::Device("camera0".into())), 1);
}

#[test]
fn rights_contain_their_subsets() {
    let rw = Rights::read().union(Rights::write());
    assert!(rw.contains(Rights::read()));
    assert!(rw.contains(Rights::empty()));
    assert!(!rw.contains(Rights::execute()));
    assert_eq!(rw.bits(), 0b11);
    assert_eq!(rw.intersection(Rights::write()), Rights::write());
    assert_eq!(Rights::revoke().bits(), 0b1_0000);
}
