//! Rights checking, derivation and validation helpers.

use super::{
    rights_and, rights_contain, rights_intersect, rights_minus, rights_or, CapError, CapRights,
    Capability, ObjectType,
};
use vstd::prelude::*;

verus! {

/// The rights an object type requires a capability to hold at least some of:
/// `Ok` when the rights are acceptable for the type.
pub open spec fn rights_valid_for_type(rights: CapRights, object_type: ObjectType) -> bool {
    match object_type {
        ObjectType::Process => rights_contain(rights, CapRights(16)) || rights_intersect(rights, CapRights(3)),
        ObjectType::Thread => rights.0 != 0,
        ObjectType::AddressSpace => rights_intersect(rights, CapRights(7)),
        ObjectType::Endpoint => rights_intersect(rights, CapRights(3)),
        ObjectType::Frame => rights_intersect(rights, CapRights(3)),
        ObjectType::Device => rights_intersect(rights, CapRights(19)),
    }
}

/// The least rights for each object type.
pub open spec fn min_rights_of(object_type: ObjectType) -> CapRights {
    match object_type {
        ObjectType::Endpoint => CapRights(3),
        _ => CapRights(1),
    }
}

/// The full rights for each object type.
pub open spec fn full_rights_of(object_type: ObjectType) -> CapRights {
    match object_type {
        ObjectType::Process | ObjectType::Thread | ObjectType::Device => CapRights(59u32),
        ObjectType::AddressSpace | ObjectType::Frame => CapRights(47u32),
        ObjectType::Endpoint => CapRights(43u32),
    }
}

/// Rights validator for capability operations.
pub struct RightsValidator;

impl RightsValidator {
    /// The rights allow reading.
    pub fn can_read(rights: CapRights) -> (b: bool)
        ensures
            b == rights_contain(rights, CapRights::READ()),
    {
        rights.contains(CapRights::READ())
    }

    /// The rights allow writing.
    pub fn can_write(rights: CapRights) -> (b: bool)
        ensures
            b == rights_contain(rights, CapRights::WRITE()),
    {
        rights.contains(CapRights::WRITE())
    }

    /// The rights allow execution.
    pub fn can_execute(rights: CapRights) -> (b: bool)
        ensures
            b == rights_contain(rights, CapRights::EXECUTE()),
    {
        rights.contains(CapRights::EXECUTE())
    }

    /// The rights allow deletion.
    pub fn can_delete(rights: CapRights) -> (b: bool)
        ensures
            b == rights_contain(rights, CapRights::DELETE()),
    {
        rights.contains(CapRights::DELETE())
    }

    /// The rights allow granting and deriving.
    pub fn can_grant(rights: CapRights) -> (b: bool)
        ensures
            b == rights_contain(rights, CapRights::GRANT()),
    {
        rights.contains(CapRights::GRANT())
    }

    /// The rights allow administration.
    pub fn is_admin(rights: CapRights) -> (b: bool)
        ensures
            b == rights_contain(rights, CapRights::ADMIN()),
    {
        rights.contains(CapRights::ADMIN())
    }

    /// Check the rights against what the object type demands.
    pub fn validate_for_type(rights: CapRights, object_type: ObjectType) -> (r: Result<(), CapError>)
        ensures
            r == (if rights_valid_for_type(rights, object_type) {
                Ok::<(), CapError>(())
            } else {
                Err::<(), CapError>(CapError::RightsViolation)
            }),
    {
        let ok = match object_type {
            ObjectType::Process => {
                if rights.contains(CapRights::ADMIN()) {
                    true
                } else {
                    rights.intersects(CapRights(3))
                }
            },
            ObjectType::Thread => !rights.is_empty(),
            ObjectType::AddressSpace => rights.intersects(CapRights(7)),
            ObjectType::Endpoint => rights.intersects(CapRights(3)),
            ObjectType::Frame => rights.intersects(CapRights(3)),
            ObjectType::Device => rights.intersects(CapRights(19)),
        };
        if ok {
            Ok(())
        } else {
            Err(CapError::RightsViolation)
        }
    }

    /// A child with `child_rights` may be derived from a parent with
    /// `parent_rights`: the parent can grant and holds every child right.
    pub fn can_derive(parent_rights: CapRights, child_rights: CapRights) -> (b: bool)
        ensures
            b == (rights_contain(parent_rights, CapRights::GRANT()) && rights_contain(parent_rights, child_rights)),
    {
        if !parent_rights.contains(CapRights::GRANT()) {
            return false;
        }
        parent_rights.contains(child_rights)
    }

    /// The least rights for an object type.
    pub fn min_rights(object_type: ObjectType) -> (r: CapRights)
        ensures
            r == min_rights_of(object_type),
    {
        match object_type {
            ObjectType::Endpoint => CapRights(3u32),
            _ => CapRights::READ(),
        }
    }

    /// The full rights for an object type (for root/admin).
    pub fn full_rights(object_type: ObjectType) -> (r: CapRights)
        ensures
            r == full_rights_of(object_type),
    {
        match object_type {
            ObjectType::Process | ObjectType::Thread | ObjectType::Device => CapRights(59u32),
            ObjectType::AddressSpace | ObjectType::Frame => CapRights(47u32),
            ObjectType::Endpoint => CapRights(43u32),
        }
    }
}

/// Every object type's minimum rights pass its validation, and so do its
/// full rights.
pub proof fn lemma_min_and_full_rights_valid(object_type: ObjectType)
    ensures
        rights_valid_for_type(min_rights_of(object_type), object_type),
        rights_valid_for_type(full_rights_of(object_type), object_type),
        rights_contain(full_rights_of(object_type), min_rights_of(object_type)),
{
    rights_constant_facts();
}

proof fn rights_constant_facts()
    by (bit_vector)
    ensures
        1u32 & 3u32 != 0,
        3u32 & 3u32 != 0,
        1u32 & 7u32 != 0,
        1u32 & 19u32 != 0,
        59u32 & 16u32 == 16u32,
        59u32 & 19u32 != 0,
        47u32 & 7u32 != 0,
        47u32 & 3u32 != 0,
        43u32 & 3u32 != 0,
        59u32 & 1u32 == 1u32,
        47u32 & 1u32 == 1u32,
        43u32 & 3u32 == 3u32,
        1u32 | 2u32 == 3u32,
{
}

/// Rights derivation helpers.
pub struct RightsDerivation;

impl RightsDerivation {
    /// Keep only the read right.
    pub fn read_only(rights: CapRights) -> (r: CapRights)
        ensures
            r == rights_and(rights, CapRights::READ()),
    {
        rights & CapRights::READ()
    }

    /// Keep only the write right.
    pub fn write_only(rights: CapRights) -> (r: CapRights)
        ensures
            r == rights_and(rights, CapRights::WRITE()),
    {
        rights & CapRights::WRITE()
    }

    /// Keep only the read and write rights.
    pub fn read_write(rights: CapRights) -> (r: CapRights)
        ensures
            r == rights_and(rights, rights_or(CapRights::READ(), CapRights::WRITE())),
    {
        rights & (CapRights::READ() | CapRights::WRITE())
    }

    /// Drop the grant right, preventing further delegation.
    pub fn no_delegation(rights: CapRights) -> (r: CapRights)
        ensures
            r == rights_minus(rights, CapRights::GRANT()),
    {
        rights - CapRights::GRANT()
    }

    /// Drop the admin right.
    pub fn no_admin(rights: CapRights) -> (r: CapRights)
        ensures
            r == rights_minus(rights, CapRights::ADMIN()),
    {
        rights - CapRights::ADMIN()
    }

    /// The most restrictive derivation: read only.
    pub fn most_restrictive(rights: CapRights) -> (r: CapRights)
        ensures
            r == rights_and(rights, CapRights::READ()),
    {
        rights & CapRights::READ()
    }
}

/// Derivation never adds rights: each helper's result is contained in its
/// input, and a right that was dropped cannot be granted again from it.
pub proof fn lemma_derivation_never_amplifies(rights: CapRights)
    ensures
        rights_contain(rights, rights_and(rights, CapRights::READ())),
        rights_contain(rights, rights_and(rights, CapRights::WRITE())),
        rights_contain(rights, rights_and(rights, rights_or(CapRights::READ(), CapRights::WRITE()))),
        rights_contain(rights, rights_minus(rights, CapRights::GRANT())),
        rights_contain(rights, rights_minus(rights, CapRights::ADMIN())),
        !rights_contain(rights_minus(rights, CapRights::GRANT()), CapRights::GRANT()),
        !rights_contain(rights_minus(rights, CapRights::ADMIN()), CapRights::ADMIN()),
{
    rights_constant_facts();
    derivation_bit_facts(rights.0);
}

proof fn derivation_bit_facts(x: u32)
    by (bit_vector)
    ensures
        x & (x & 1) == x & 1,
        x & (x & 2) == x & 2,
        x & (x & 3u32) == x & 3u32,
        x & (x & !32u32) == x & !32u32,
        x & (x & !16u32) == x & !16u32,
        (x & !32u32) & 32 != 32,
        (x & !16u32) & 16 != 16,
{
}

/// An operation guarded by capability rights.
pub trait AuthorizedOperation {
    /// The rights the operation needs.
    spec fn required() -> CapRights;

    /// The rights the operation needs.
    fn required_rights() -> (r: CapRights)
        ensures
            r == Self::required(),
    ;

    /// The capability holds every right the operation needs.
    fn is_authorized(capability: &Capability) -> (b: bool)
        ensures
            b == rights_contain(capability.rights, Self::required()),
    {
        capability.rights.contains(Self::required_rights())
    }
}

/// Read operation marker.
pub struct ReadOp;

impl AuthorizedOperation for ReadOp {
    open spec fn required() -> CapRights {
        CapRights::READ()
    }

    fn required_rights() -> (r: CapRights) {
        CapRights::READ()
    }
}

/// Write operation marker.
pub struct WriteOp;

impl AuthorizedOperation for WriteOp {
    open spec fn required() -> CapRights {
        CapRights::WRITE()
    }

    fn required_rights() -> (r: CapRights) {
        CapRights::WRITE()
    }
}

/// Execute operation marker.
pub struct ExecuteOp;

impl AuthorizedOperation for ExecuteOp {
    open spec fn required() -> CapRights {
        CapRights::EXECUTE()
    }

    fn required_rights() -> (r: CapRights) {
        CapRights::EXECUTE()
    }
}

/// Delete operation marker.
pub struct DeleteOp;

impl AuthorizedOperation for DeleteOp {
    open spec fn required() -> CapRights {
        CapRights::DELETE()
    }

    fn required_rights() -> (r: CapRights) {
        CapRights::DELETE()
    }
}

/// Grant operation marker.
pub struct GrantOp;

impl AuthorizedOperation for GrantOp {
    open spec fn required() -> CapRights {
        CapRights::GRANT()
    }

    fn required_rights() -> (r: CapRights) {
        CapRights::GRANT()
    }
}

} // verus!
