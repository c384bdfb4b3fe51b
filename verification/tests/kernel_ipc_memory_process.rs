use aether::kernel::capability::{CapabilityId, Rights};
use aether::kernel::ipc::{IpcBus, Port};
use aether::kernel::memory::{MemoryManager, Permissions};
use aether::kernel::process::{ProcessId, ProcessState, ProcessTable};
use aether::kernel::KernelError;

#[test]
fn send_then_receive_round_trip() {
    let mut bus = IpcBus::new();
    let a = bus.create_port();
    let b = bus.create_port();
    bus.send(b, a, b"hello".to_vec()).unwrap();
    let msg = bus.receive(b).unwrap();
    assert_eq!(msg.payload, b"hello");
    assert_eq!(msg.from, a);
}

#[test]
fn mailbox_is_first_in_first_out() {
    let mut bus = IpcBus::new();
    let a = bus.create_port();
    assert_eq!(a, Port(1));
    bus.send(a, Port(7), vec![1]).unwrap();
    bus.send(a, Port(8), vec![2, 2]).unwrap();
    let first = bus.receive(a).unwrap();
    let second = bus.receive(a).unwrap();
    assert_eq!((first.from, first.payload), (Port(7), vec![1]));
    assert_eq!((second.from, second.payload), (Port(8), vec![2, 2]));
    assert!(bus.receive(a).is_none());
}

#[test]
fn send_to_closed_or_unknown_port_fails() {
    let mut bus = IpcBus::new();
    let a = bus.create_port();
    assert!(matches!(bus.send(Port(5), a, vec![]), Err(KernelError::PortClosed)));
    bus.send(a, a, vec![9]).unwrap();
    bus.close(a);
    assert!(matches!(bus.send(a, a, vec![]), Err(KernelError::PortClosed)));
    assert!(bus.receive(a).is_none());
    let b = bus.create_port();
    assert_eq!(b, Port(2));
}

#[test]
fn permissions_follow_rights() {
    let p = Permissions::from_rights(Rights::read().union(Rights::execute()));
    assert_eq!(p, Permissions { read: true, write: false, execute: true });
    let q = Permissions::from_rights(Rights::grant());
    assert_eq!(q, Permissions { read: false, write: false, execute: false });
}

#[test]
fn allocate_numbers_regions_and_totals_sizes() {
    let mut mm = MemoryManager::new();
    assert_eq!(mm.total_allocated(), 0);
    let perms = Permissions { read: true, write: true, execute: false };
    let r1 = mm.allocate(CapabilityId(1), 4096, perms);
    let r2 = mm.allocate(CapabilityId(2), 8192, perms);
    assert_eq!(r1.id, 1);
    assert_eq!(r2.id, 2);
    assert_eq!(r2.owner_cap, CapabilityId(2));
    assert_eq!(r2.size_bytes, 8192);
    assert_eq!(r2.permissions, perms);
    assert_eq!(mm.total_allocated(), 12288);
}

#[test]
fn processes_are_created_found_and_updated() {
    let mut table = ProcessTable::new();
    let a = table.create_process("init".to_string(), vec![CapabilityId(1)]);
    let b = table.create_process("driver".to_string(), vec![]);
    assert_eq!(a, ProcessId(1));
    assert_eq!(b, ProcessId(2));
    let p = table.get(b).unwrap();
    assert_eq!(p.name, "driver");
    assert_eq!(p.state, ProcessState::Created);
    assert!(table.set_state(b, ProcessState::Runnable).is_ok());
    assert_eq!(table.get(b).unwrap().state, ProcessState::Runnable);
    assert_eq!(table.get(a).unwrap().state, ProcessState::Created);
    assert_eq!(table.get(a).unwrap().capabilities, vec![CapabilityId(1)]);
    assert!(matches!(
        table.set_state(ProcessId(3), ProcessState::Blocked),
        Err(KernelError::ProcessNotFound(ProcessId(3)))
    ));
    assert!(table.get(ProcessId(3)).is_none());
}
