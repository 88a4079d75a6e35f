//! Capability-based security: rights, capabilities and their errors.
//!
//! Each process holds its capabilities in a `CapabilityTable`; the
//! `CapabilityRegistry` maps process IDs to tables; `transfer` moves,
//! copies or loans capabilities between tables; `rights` validates and
//! derives rights.

pub mod rights;
pub mod table;
pub mod transfer;

use crate::error::KernelError;
use crate::ids::IdCounter;
use vstd::prelude::*;

verus! {

/// The bits of all defined rights.
pub const ALL_RIGHTS_BITS: u32 = 0x3F;

/// Capability rights bit set.
#[derive(Debug, Clone, Copy, PartialEq, Eq, Structural, Hash)]
pub struct CapRights(pub u32);

/// The right bits `a` has in common with `b`.
pub open spec fn rights_and(a: CapRights, b: CapRights) -> CapRights {
    CapRights(a.0 & b.0)
}

/// The right bits of `a` together with those of `b`.
pub open spec fn rights_or(a: CapRights, b: CapRights) -> CapRights {
    CapRights(a.0 | b.0)
}

/// The right bits of `a` that `b` does not have.
pub open spec fn rights_minus(a: CapRights, b: CapRights) -> CapRights {
    CapRights(a.0 & !b.0)
}

/// Every right of `b` is a right of `a`.
pub open spec fn rights_contain(a: CapRights, b: CapRights) -> bool {
    a.0 & b.0 == b.0
}

/// `a` and `b` share at least one right.
pub open spec fn rights_intersect(a: CapRights, b: CapRights) -> bool {
    a.0 & b.0 != 0
}

impl CapRights {
    /// The `NONE` rights set.
    #[allow(non_snake_case)]
    #[verifier::allow_in_spec]
    pub fn NONE() -> Self
        returns
            CapRights(0),
    {
        CapRights(0)
    }

    /// The `READ` rights set.
    #[allow(non_snake_case)]
    #[verifier::allow_in_spec]
    pub fn READ() -> Self
        returns
            CapRights(1),
    {
        CapRights(1)
    }

    /// The `WRITE` rights set.
    #[allow(non_snake_case)]
    #[verifier::allow_in_spec]
    pub fn WRITE() -> Self
        returns
            CapRights(2),
    {
        CapRights(2)
    }

    /// The `EXECUTE` rights set.
    #[allow(non_snake_case)]
    #[verifier::allow_in_spec]
    pub fn EXECUTE() -> Self
        returns
            CapRights(4),
    {
        CapRights(4)
    }

    /// The `DELETE` rights set.
    #[allow(non_snake_case)]
    #[verifier::allow_in_spec]
    pub fn DELETE() -> Self
        returns
            CapRights(8),
    {
        CapRights(8)
    }

    /// The `ADMIN` rights set.
    #[allow(non_snake_case)]
    #[verifier::allow_in_spec]
    pub fn ADMIN() -> Self
        returns
            CapRights(16),
    {
        CapRights(16)
    }

    /// The `GRANT` rights set.
    #[allow(non_snake_case)]
    #[verifier::allow_in_spec]
    pub fn GRANT() -> Self
        returns
            CapRights(32),
    {
        CapRights(32)
    }

    /// The empty rights set.
    pub fn empty() -> (r: Self)
        ensures
            r.0 == 0,
    {
        CapRights(0)
    }

    /// All defined rights.
    pub fn all() -> (r: Self)
        ensures
            r.0 == ALL_RIGHTS_BITS,
    {
        CapRights(ALL_RIGHTS_BITS)
    }

    /// The raw bits.
    pub fn bits(self) -> (b: u32)
        ensures
            b == self.0,
    {
        self.0
    }

    /// Rights from raw bits; undefined bits are dropped.
    pub fn from_bits(bits: u32) -> (r: Option<Self>)
        ensures
            r == Some(CapRights(bits & ALL_RIGHTS_BITS)),
    {
        Some(CapRights(bits & ALL_RIGHTS_BITS))
    }

    /// No right is set.
    pub fn is_empty(self) -> (b: bool)
        ensures
            b == (self.0 == 0),
    {
        self.0 == 0
    }

    /// Every right of `other` is in `self`.
    pub fn contains(self, other: Self) -> (b: bool)
        ensures
            b == rights_contain(self, other),
    {
        (self.0 & other.0) == other.0
    }

    /// `self` and `other` share a right.
    pub fn intersects(self, other: Self) -> (b: bool)
        ensures
            b == rights_intersect(self, other),
    {
        (self.0 & other.0) != 0
    }

    /// Add the rights of `other`.
    pub fn insert(&mut self, other: Self)
        ensures
            *final(self) == rights_or(*old(self), other),
    {
        self.0 = self.0 | other.0;
    }

    /// Remove the rights of `other`.
    pub fn remove(&mut self, other: Self)
        ensures
            *final(self) == rights_minus(*old(self), other),
    {
        self.0 = self.0 & !other.0;
    }

    /// The union of two rights sets.
    pub fn union(self, other: Self) -> (r: Self)
        ensures
            r == rights_or(self, other),
    {
        CapRights(self.0 | other.0)
    }
}

impl core::ops::BitOr for CapRights {
    type Output = Self;

    fn bitor(self, rhs: Self) -> (r: Self) {
        CapRights(self.0 | rhs.0)
    }
}

impl vstd::std_specs::ops::BitOrSpecImpl for CapRights {
    open spec fn obeys_bitor_spec() -> bool {
        true
    }

    open spec fn bitor_req(self, rhs: CapRights) -> bool {
        true
    }

    open spec fn bitor_spec(self, rhs: CapRights) -> CapRights {
        rights_or(self, rhs)
    }
}

impl core::ops::BitAnd for CapRights {
    type Output = Self;

    fn bitand(self, rhs: Self) -> (r: Self) {
        CapRights(self.0 & rhs.0)
    }
}

impl vstd::std_specs::ops::BitAndSpecImpl for CapRights {
    open spec fn obeys_bitand_spec() -> bool {
        true
    }

    open spec fn bitand_req(self, rhs: CapRights) -> bool {
        true
    }

    open spec fn bitand_spec(self, rhs: CapRights) -> CapRights {
        rights_and(self, rhs)
    }
}

impl core::ops::Sub for CapRights {
    type Output = Self;

    fn sub(self, rhs: Self) -> (r: Self) {
        CapRights(self.0 & !rhs.0)
    }
}

impl vstd::std_specs::ops::SubSpecImpl for CapRights {
    open spec fn obeys_sub_spec() -> bool {
        true
    }

    open spec fn sub_req(self, rhs: CapRights) -> bool {
        true
    }

    open spec fn sub_spec(self, rhs: CapRights) -> CapRights {
        rights_minus(self, rhs)
    }
}

impl Default for CapRights {
    fn default() -> (r: Self)
        ensures
            r.0 == 0,
    {
        CapRights(0)
    }
}

/// Rights containment is reflexive and transitive, and a union contains
/// both of its parts.
pub proof fn lemma_rights_order(a: CapRights, b: CapRights, c: CapRights)
    ensures
        rights_contain(a, a),
        rights_contain(a, b) && rights_contain(b, c) ==> rights_contain(a, c),
        rights_contain(rights_or(a, b), a),
        rights_contain(rights_or(a, b), b),
        rights_contain(a, rights_and(a, b)),
        rights_contain(a, rights_minus(a, b)),
        !rights_intersect(rights_minus(a, b), b),
        rights_contain(a, b) && rights_contain(a, c) ==> rights_contain(a, rights_or(b, c)),
{
    rights_bit_facts(a.0, b.0, c.0);
}

proof fn rights_bit_facts(x: u32, y: u32, z: u32)
    by (bit_vector)
    ensures
        x & x == x,
        (x & y == y && y & z == z) ==> x & z == z,
        (x | y) & x == x,
        (x | y) & y == y,
        x & (x & y) == x & y,
        x & (x & !y) == x & !y,
        (x & !y) & y == 0,
        (x & y == y && x & z == z) ==> x & (y | z) == y | z,
{
}

/// Capability identifier.
#[derive(Debug, Clone, Copy, PartialEq, Eq, Structural, Hash)]
pub struct CapabilityId(pub u64);

impl CapabilityId {
    /// A fresh identifier drawn from `ids`.
    pub fn new(ids: &mut IdCounter) -> (id: Self)
        ensures
            id.0 == old(ids).peek(),
            final(ids).peek() == (if old(ids).peek() == u64::MAX { 0 } else { (old(ids).peek() + 1) as u64 }),
    {
        CapabilityId(ids.next_id())
    }

    /// The raw identifier.
    pub fn as_u64(self) -> (r: u64)
        ensures
            r == self.0,
    {
        self.0
    }
}

/// The kinds of objects capabilities name.
#[derive(Debug, Clone, Copy, PartialEq, Eq, Structural, Hash)]
pub enum ObjectType {
    Process,
    Thread,
    AddressSpace,
    Endpoint,
    Frame,
    Device,
}

/// A capability: an unforgeable reference to an object, with rights.
#[derive(Debug, Clone, Copy)]
pub struct Capability {
    pub id: CapabilityId,
    pub object_type: ObjectType,
    pub object_id: u64,
    pub rights: CapRights,
}

impl Capability {
    /// A capability with a fresh identifier.
    pub fn new(ids: &mut IdCounter, object_type: ObjectType, object_id: u64, rights: CapRights) -> (c: Self)
        ensures
            c.id.0 == old(ids).peek(),
            c.object_type == object_type,
            c.object_id == object_id,
            c.rights == rights,
            final(ids).peek() == (if old(ids).peek() == u64::MAX { 0 } else { (old(ids).peek() + 1) as u64 }),
    {
        Capability { id: CapabilityId::new(ids), object_type, object_id, rights }
    }

    /// The capability holds every right in `required`.
    pub fn has_rights(&self, required: CapRights) -> (b: bool)
        ensures
            b == rights_contain(self.rights, required),
    {
        self.rights.contains(required)
    }

    /// The capability names the given object.
    pub fn is_for_object(&self, object_type: ObjectType, object_id: u64) -> (b: bool)
        ensures
            b == (self.object_type == object_type && self.object_id == object_id),
    {
        self.object_type == object_type && self.object_id == object_id
    }
}

/// Holder of the root capability.
pub struct CapabilityManager {
    root_cap: CapabilityId,
}

impl CapabilityManager {
    /// A manager whose root capability has a fresh identifier.
    pub fn new(ids: &mut IdCounter) -> (m: Self)
        ensures
            m.root_id() == old(ids).peek(),
            final(ids).peek() == (if old(ids).peek() == u64::MAX { 0 } else { (old(ids).peek() + 1) as u64 }),
    {
        CapabilityManager { root_cap: CapabilityId::new(ids) }
    }

    /// The raw identifier of the root capability.
    pub closed spec fn root_id(&self) -> u64 {
        self.root_cap.0
    }

    /// The root capability.
    pub fn root(&self) -> (r: CapabilityId)
        ensures
            r.0 == self.root_id(),
    {
        self.root_cap
    }
}

/// Create the root capability manager.
pub fn init(ids: &mut IdCounter) -> (m: CapabilityManager)
    ensures
        m.root_id() == old(ids).peek(),
        final(ids).peek() == (if old(ids).peek() == u64::MAX { 0 } else { (old(ids).peek() + 1) as u64 }),
{
    CapabilityManager::new(ids)
}

/// Capability errors.
#[derive(Debug, Clone, Copy, PartialEq, Eq, Structural)]
pub enum CapError {
    InvalidCapability,
    RightsViolation,
    InvalidSlot,
    TableFull,
    ProcessNotFound,
    SameProcess,
    CannotDeriveMoreRights,
}

/// The description of each capability error.
pub open spec fn cap_error_text(e: CapError) -> Seq<char> {
    match e {
        CapError::InvalidCapability => "Invalid capability"@,
        CapError::RightsViolation => "Rights violation"@,
        CapError::InvalidSlot => "Invalid slot"@,
        CapError::TableFull => "Capability table full"@,
        CapError::ProcessNotFound => "Process not found"@,
        CapError::SameProcess => "Cannot transfer to same process"@,
        CapError::CannotDeriveMoreRights => "Cannot derive more rights than parent"@,
    }
}

impl CapError {
    /// The human-readable description of the error.
    pub fn message(&self) -> (m: &'static str)
        ensures
            m@ == cap_error_text(*self),
    {
        match self {
            CapError::InvalidCapability => "Invalid capability",
            CapError::RightsViolation => "Rights violation",
            CapError::InvalidSlot => "Invalid slot",
            CapError::TableFull => "Capability table full",
            CapError::ProcessNotFound => "Process not found",
            CapError::SameProcess => "Cannot transfer to same process",
            CapError::CannotDeriveMoreRights => "Cannot derive more rights than parent",
        }
    }
}

/// The kernel error a capability error is reported as.
pub open spec fn cap_error_to_kernel(err: CapError) -> KernelError {
    match err {
        CapError::InvalidCapability | CapError::InvalidSlot => KernelError::InvalidParameter,
        CapError::RightsViolation => KernelError::PermissionDenied,
        CapError::TableFull => KernelError::OutOfMemory,
        CapError::ProcessNotFound => KernelError::NotFound,
        CapError::SameProcess | CapError::CannotDeriveMoreRights => KernelError::InvalidParameter,
    }
}

impl From<CapError> for KernelError {
    fn from(err: CapError) -> (r: KernelError) {
        match err {
            CapError::InvalidCapability | CapError::InvalidSlot => KernelError::InvalidParameter,
            CapError::RightsViolation => KernelError::PermissionDenied,
            CapError::TableFull => KernelError::OutOfMemory,
            CapError::ProcessNotFound => KernelError::NotFound,
            CapError::SameProcess | CapError::CannotDeriveMoreRights => KernelError::InvalidParameter,
        }
    }
}

impl vstd::std_specs::convert::FromSpecImpl<CapError> for KernelError {
    open spec fn obeys_from_spec() -> bool {
        true
    }

    open spec fn from_spec(err: CapError) -> KernelError {
        cap_error_to_kernel(err)
    }
}

/// Derive a capability from a parent: a process capability on object 1
/// with the requested rights and a fresh identifier.
pub fn derive_capability(ids: &mut IdCounter, parent: CapabilityId, rights: CapRights) -> (r: Result<Capability, CapError>)
    ensures
        r matches Ok(c) && c.object_type == ObjectType::Process && c.object_id == 1 && c.rights == rights
            && c.id.0 == old(ids).peek(),
        final(ids).peek() == (if old(ids).peek() == u64::MAX { 0 } else { (old(ids).peek() + 1) as u64 }),
{
    Ok(Capability { id: CapabilityId::new(ids), object_type: ObjectType::Process, object_id: 1, rights })
}

} // verus!
