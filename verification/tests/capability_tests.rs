use sigrun::capability::rights::{
    AuthorizedOperation, DeleteOp, ExecuteOp, ReadOp, RightsDerivation, RightsValidator, WriteOp,
};
use sigrun::capability::table::{CapabilityTable, SlotId};
use sigrun::capability::transfer::{
    revoke_capability, transfer_capability, CapabilityMessage, CapabilityRegistry, TransferMode,
};
use sigrun::capability::{CapError, CapRights, Capability, CapabilityId, ObjectType};
use sigrun::error::KernelError;
use sigrun::ids::IdCounter;

#[test]
fn test_cap_rights() {
    let r = CapRights::READ() | CapRights::WRITE();
    assert!(r.contains(CapRights::READ()));
    assert!(r.contains(CapRights::WRITE()));
    assert!(!r.contains(CapRights::EXECUTE()));
    assert!(r.intersects(CapRights::READ()));
}

#[test]
fn test_capability_rights_check() {
    let mut ids = IdCounter::new();
    let cap = Capability::new(&mut ids, ObjectType::Frame, 1, CapRights::READ() | CapRights::WRITE());
    assert!(cap.has_rights(CapRights::READ()));
    assert!(!cap.has_rights(CapRights::EXECUTE()));
}

#[test]
fn test_object_match() {
    let mut ids = IdCounter::new();
    let cap = Capability::new(&mut ids, ObjectType::Process, 42, CapRights::ADMIN());
    assert!(cap.is_for_object(ObjectType::Process, 42));
    assert!(!cap.is_for_object(ObjectType::Thread, 42));
    assert!(!cap.is_for_object(ObjectType::Process, 43));
}

#[test]
fn test_cap_error_display() {
    assert_eq!(CapError::RightsViolation.message(), "Rights violation");
    assert_eq!(CapError::TableFull.message(), "Capability table full");
}

#[test]
fn test_cap_error_to_kernel_error() {
    assert!(matches!(
        KernelError::from(CapError::RightsViolation),
        KernelError::PermissionDenied
    ));
    assert!(matches!(KernelError::from(CapError::TableFull), KernelError::OutOfMemory));
}

#[test]
fn test_can_read() {
    assert!(RightsValidator::can_read(CapRights::READ()));
    assert!(RightsValidator::can_read(CapRights::READ() | CapRights::WRITE()));
    assert!(!RightsValidator::can_read(CapRights::WRITE()));
}

#[test]
fn test_can_derive() {
    let parent = CapRights::READ() | CapRights::WRITE() | CapRights::GRANT();

    assert!(RightsValidator::can_derive(parent, CapRights::READ()));
    assert!(RightsValidator::can_derive(parent, CapRights::READ() | CapRights::WRITE()));
    assert!(!RightsValidator::can_derive(parent, CapRights::EXECUTE()));

    let no_grant = CapRights::READ() | CapRights::WRITE();
    assert!(!RightsValidator::can_derive(no_grant, CapRights::READ()));
}

#[test]
fn test_derivation_helpers() {
    let full = CapRights::READ() | CapRights::WRITE() | CapRights::EXECUTE() | CapRights::GRANT();

    assert_eq!(RightsDerivation::read_only(full), CapRights::READ());
    assert_eq!(RightsDerivation::write_only(full), CapRights::WRITE());
    assert_eq!(RightsDerivation::read_write(full), CapRights::READ() | CapRights::WRITE());
    assert_eq!(RightsDerivation::no_delegation(full), full - CapRights::GRANT());
}

#[test]
fn test_authorized_operations() {
    let cap = Capability {
        id: CapabilityId(1),
        object_type: ObjectType::Frame,
        object_id: 1,
        rights: CapRights::READ() | CapRights::WRITE(),
    };

    assert!(ReadOp::is_authorized(&cap));
    assert!(WriteOp::is_authorized(&cap));
    assert!(!ExecuteOp::is_authorized(&cap));
    assert!(!DeleteOp::is_authorized(&cap));
}

#[test]
fn test_validate_for_type() {
    assert!(RightsValidator::validate_for_type(CapRights::READ(), ObjectType::Frame).is_ok());
    assert!(RightsValidator::validate_for_type(CapRights::NONE(), ObjectType::Frame).is_err());
    assert!(RightsValidator::validate_for_type(
        CapRights::READ() | CapRights::WRITE(),
        ObjectType::Endpoint
    )
    .is_ok());
}

fn cap(ids: &mut IdCounter, object_type: ObjectType, object_id: u64, rights: CapRights) -> Capability {
    Capability::new(ids, object_type, object_id, rights)
}

#[test]
fn test_table_insert_lookup() {
    let mut ids = IdCounter::new();
    let mut table = CapabilityTable::new(1);
    let c = cap(&mut ids, ObjectType::Process, 42, CapRights::READ() | CapRights::WRITE());

    let slot = table.insert(c).unwrap();
    let looked_up = table.lookup(slot).unwrap();

    assert_eq!(looked_up.object_id, 42);
    assert_eq!(looked_up.rights, CapRights::READ() | CapRights::WRITE());
}

#[test]
fn test_table_remove() {
    let mut ids = IdCounter::new();
    let mut table = CapabilityTable::new(1);
    let c = cap(&mut ids, ObjectType::Frame, 100, CapRights::READ());

    let slot = table.insert(c).unwrap();
    let removed = table.remove(slot).unwrap();

    assert_eq!(removed.object_id, 100);
    assert!(table.lookup(slot).is_err());
}

#[test]
fn test_slot_reuse() {
    let mut ids = IdCounter::new();
    let mut table = CapabilityTable::new(1);

    let cap1 = cap(&mut ids, ObjectType::Process, 1, CapRights::READ());
    let slot1 = table.insert(cap1).unwrap();
    table.remove(slot1).unwrap();

    let cap2 = cap(&mut ids, ObjectType::Process, 2, CapRights::WRITE());
    let slot2 = table.insert(cap2).unwrap();

    assert_eq!(slot1, slot2);
}

#[test]
fn test_check_rights() {
    let mut ids = IdCounter::new();
    let mut table = CapabilityTable::new(1);
    let c = cap(&mut ids, ObjectType::Process, 1, CapRights::READ() | CapRights::WRITE());

    let slot = table.insert(c).unwrap();

    assert!(table.check_rights(slot, CapRights::READ()).is_ok());
    assert!(table.check_rights(slot, CapRights::WRITE()).is_ok());
    assert!(table.check_rights(slot, CapRights::READ() | CapRights::WRITE()).is_ok());
    assert!(table.check_rights(slot, CapRights::EXECUTE()).is_err());
}

#[test]
fn test_derive_capability() {
    let mut ids = IdCounter::new();
    let mut table = CapabilityTable::new(1);
    let parent = cap(&mut ids, ObjectType::Process, 1, CapRights::READ() | CapRights::WRITE() | CapRights::GRANT());

    let parent_slot = table.insert(parent).unwrap();
    let child_slot = table.derive(&mut ids, parent_slot, CapRights::READ()).unwrap();

    let child = table.lookup(child_slot).unwrap();
    assert_eq!(child.rights, CapRights::READ());
    assert_eq!(child.object_id, 1);
}

#[test]
fn test_derive_requires_grant() {
    let mut ids = IdCounter::new();
    let mut table = CapabilityTable::new(1);
    let parent = cap(&mut ids, ObjectType::Process, 1, CapRights::READ() | CapRights::WRITE());

    let parent_slot = table.insert(parent).unwrap();

    let result = table.derive(&mut ids, parent_slot, CapRights::READ());
    assert!(matches!(result, Err(CapError::RightsViolation)));
}

fn make_cap(ids: &mut IdCounter, id: u64) -> Capability {
    cap(ids, ObjectType::Frame, id, CapRights::READ() | CapRights::WRITE() | CapRights::GRANT())
}

#[test]
fn test_registry_register() {
    let mut registry = CapabilityRegistry::new();
    registry.register_process(1);

    assert!(registry.get_table(1).is_some());
    assert_eq!(registry.get_table(1).unwrap().owner(), 1);
}

#[test]
fn test_transfer_move() {
    let mut ids = IdCounter::new();
    let mut registry = CapabilityRegistry::new();
    registry.register_process(1);
    registry.register_process(2);

    let c = make_cap(&mut ids, 100);
    let source_slot = registry.insert_into(1, c).unwrap();

    let result = transfer_capability(&mut registry, &mut ids, 1, source_slot, 2, TransferMode::Move).unwrap();

    assert!(!result.source_retains);
    assert!(registry.get_table(1).unwrap().lookup(source_slot).is_err());

    let transferred = registry.get_table(2).unwrap().lookup(result.target_slot).unwrap();
    assert_eq!(transferred.object_id, 100);
}

#[test]
fn test_transfer_copy() {
    let mut ids = IdCounter::new();
    let mut registry = CapabilityRegistry::new();
    registry.register_process(1);
    registry.register_process(2);

    let c = make_cap(&mut ids, 200);
    let source_slot = registry.insert_into(1, c).unwrap();

    let result = transfer_capability(&mut registry, &mut ids, 1, source_slot, 2, TransferMode::Copy).unwrap();

    assert!(result.source_retains);
    assert!(registry.get_table(1).unwrap().lookup(source_slot).is_ok());

    let copied = registry.get_table(2).unwrap().lookup(result.target_slot).unwrap();
    assert_eq!(copied.object_id, 200);
}

#[test]
fn test_transfer_same_process_fails() {
    let mut ids = IdCounter::new();
    let mut registry = CapabilityRegistry::new();
    registry.register_process(1);

    let c = make_cap(&mut ids, 300);
    let slot = registry.insert_into(1, c).unwrap();

    let result = transfer_capability(&mut registry, &mut ids, 1, slot, 1, TransferMode::Copy);

    assert!(matches!(result, Err(CapError::SameProcess)));
}

#[test]
fn test_capability_message() {
    let mut msg = CapabilityMessage::from_bytes(b"hello");
    msg.add_capability(SlotId::new(0), TransferMode::Copy);

    assert_eq!(msg.as_bytes(), b"hello");
    assert_eq!(msg.capabilities.len(), 1);
}

#[test]
fn loan_then_revoke_removes_borrowed_copy() {
    let mut ids = IdCounter::new();
    let mut registry = CapabilityRegistry::new();
    registry.register_process(1);
    registry.register_process(2);
    let c = make_cap(&mut ids, 7);
    let slot = registry.insert_into(1, c).unwrap();
    let res = transfer_capability(&mut registry, &mut ids, 1, slot, 2, TransferMode::Loan).unwrap();
    assert!(res.source_retains);
    let loaned = *registry.get_table(2).unwrap().lookup(res.target_slot).unwrap();
    assert_ne!(loaned.id, c.id);
    assert_eq!(loaned.object_id, 7);
    revoke_capability(&mut registry, 1, slot, 2).unwrap();
    assert!(registry.get_table(2).unwrap().lookup(res.target_slot).is_err());
    assert!(registry.get_table(1).unwrap().lookup(slot).is_ok());
}

#[test]
fn transfer_errors() {
    let mut ids = IdCounter::new();
    let mut registry = CapabilityRegistry::new();
    registry.register_process(1);
    assert!(matches!(
        transfer_capability(&mut registry, &mut ids, 1, SlotId(0), 9, TransferMode::Move),
        Err(CapError::ProcessNotFound)
    ));
    registry.register_process(2);
    assert!(matches!(
        transfer_capability(&mut registry, &mut ids, 1, SlotId(0), 2, TransferMode::Move),
        Err(CapError::InvalidSlot)
    ));
    assert_eq!(registry.process_count(), 2);
    registry.unregister_process(1);
    assert!(registry.get_table(1).is_none());
    assert_eq!(registry.process_count(), 1);
}

#[test]
fn table_full_after_max_inserts() {
    let mut ids = IdCounter::new();
    let mut table = CapabilityTable::new(3);
    for i in 0..1024u64 {
        let c = make_cap(&mut ids, i);
        assert_eq!(table.insert(c).unwrap(), SlotId(i as u32));
    }
    let c = make_cap(&mut ids, 5000);
    assert!(matches!(table.insert(c), Err(CapError::TableFull)));
    assert_eq!(table.len(), 1024);
    let frames = table.find_by_type(ObjectType::Frame);
    assert_eq!(frames.len(), 1024);
    assert_eq!(table.find_by_object(17).len(), 1);
    assert_eq!(table.find_by_object(17)[0].0, SlotId(17));
}

#[test]
fn rights_bit_set_operations() {
    let mut r = CapRights::empty();
    assert!(r.is_empty());
    r.insert(CapRights::READ());
    r.insert(CapRights::GRANT());
    assert_eq!(r.bits(), 33);
    r.remove(CapRights::READ());
    assert_eq!(r, CapRights::GRANT());
    assert_eq!(CapRights::from_bits(0xFF), Some(CapRights::all()));
    assert_eq!(RightsValidator::full_rights(ObjectType::Endpoint).bits(), 43);
    assert_eq!(RightsValidator::min_rights(ObjectType::Endpoint).bits(), 3);
    assert!(RightsValidator::validate_for_type(CapRights::NONE(), ObjectType::Thread).is_err());
    assert!(RightsValidator::validate_for_type(CapRights::ADMIN(), ObjectType::Process).is_ok());
}

#[test]
fn table_len_counts_held_capabilities() {
    let mut ids = IdCounter::new();
    let mut table = CapabilityTable::new(1);
    assert!(table.is_empty());
    let a = table.insert(cap(&mut ids, ObjectType::Process, 1, CapRights::READ())).unwrap();
    let _b = table.insert(cap(&mut ids, ObjectType::Process, 2, CapRights::READ())).unwrap();
    assert_eq!(table.len(), 2);
    table.remove(a).unwrap();
    assert_eq!(table.len(), 1);
    let c = table.insert(cap(&mut ids, ObjectType::Process, 3, CapRights::WRITE())).unwrap();
    assert_eq!(c, a);
    assert_eq!(table.len(), 2);
}

#[test]
fn table_full_refuses_insert() {
    let mut ids = IdCounter::new();
    let mut table = CapabilityTable::new(1);
    for i in 0..1024u64 {
        table.insert(cap(&mut ids, ObjectType::Frame, i, CapRights::READ())).unwrap();
    }
    assert_eq!(table.len(), 1024);
    assert!(matches!(table.insert(cap(&mut ids, ObjectType::Frame, 5000, CapRights::READ())), Err(CapError::TableFull)));
    assert_eq!(table.len(), 1024);
}

#[test]
fn transfer_move_to_full_table_keeps_source() {
    let mut ids = IdCounter::new();
    let mut registry = CapabilityRegistry::new();
    registry.register_process(1);
    registry.register_process(2);
    let source_slot = registry.insert_into(1, make_cap(&mut ids, 100)).unwrap();
    for i in 0..1024u64 {
        registry.insert_into(2, make_cap(&mut ids, i)).unwrap();
    }
    let r = transfer_capability(&mut registry, &mut ids, 1, source_slot, 2, TransferMode::Move);
    assert!(matches!(r, Err(CapError::TableFull)));
    assert_eq!(registry.get_table(1).unwrap().lookup(source_slot).unwrap().object_id, 100);
    assert_eq!(registry.get_table(1).unwrap().len(), 1);
    assert_eq!(registry.get_table(2).unwrap().len(), 1024);
}

#[test]
fn derived_capability_gets_a_fresh_id() {
    let mut ids = IdCounter::new();
    let mut table = CapabilityTable::new(1);
    let parent = cap(&mut ids, ObjectType::Process, 1, CapRights::READ() | CapRights::GRANT());
    let parent_slot = table.insert(parent).unwrap();
    let child_slot = table.derive(&mut ids, parent_slot, CapRights::READ()).unwrap();
    assert!(child_slot.as_u32() < 1024);
    assert_ne!(table.lookup(child_slot).unwrap().id, table.lookup(parent_slot).unwrap().id);
}
