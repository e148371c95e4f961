use vstd::prelude::*;

verus! {

/// The five trust tiers of the directory, from most to least privileged.
#[derive(Clone, Copy, Debug, PartialEq, Eq, Structural)]
pub enum TrustType {
    Staff,
    Ndaed,
    Vouched,
    Authenticated,
    Public,
}

impl TrustType {
    /// Privilege rank of a tier: `Staff` is the highest, `Public` the lowest.
    pub open spec fn privilege(self) -> nat {
        match self {
            TrustType::Staff => 4,
            TrustType::Ndaed => 3,
            TrustType::Vouched => 2,
            TrustType::Authenticated => 1,
            TrustType::Public => 0,
        }
    }
}

/// A viewer holding tier `viewer` sees a user of trust `trust` only when the
/// user's trust asks for no more privilege than the viewer holds.
pub open spec fn visible_to(viewer: TrustType, trust: TrustType) -> bool {
    trust.privilege() <= viewer.privilege()
}

/// Privilege rank of a tier as a machine integer.
pub fn privilege_of(tier: TrustType) -> (n: u8)
    ensures
        n as nat == tier.privilege(),
{
    match tier {
        TrustType::Staff => 4,
        TrustType::Ndaed => 3,
        TrustType::Vouched => 2,
        TrustType::Authenticated => 1,
        TrustType::Public => 0,
    }
}

/// Decides whether a viewer of tier `viewer` sees a user of trust `trust`.
pub fn tier_allows(viewer: TrustType, trust: TrustType) -> (b: bool)
    ensures
        b == visible_to(viewer, trust),
{
    privilege_of(trust) <= privilege_of(viewer)
}

/// The kind of record an audit entry is about.
#[derive(Clone, Copy, Debug, PartialEq, Eq, Structural)]
pub enum LogTargetType {
    Invitation,
    Membership,
}

/// The kind of mutation an audit entry records.
#[derive(Clone, Copy, Debug, PartialEq, Eq, Structural)]
pub enum LogOperationType {
    Created,
    Updated,
    Deleted,
}

/// Error kinds surfaced at the core's boundary: `NotFound` for an unknown or
/// inactive group or a missing invitation, `Conflict` for a duplicate
/// invitation, and `StorageFailure` for failures of an underlying storage
/// engine (never produced by the in-memory store itself).
#[derive(Clone, Copy, Debug, PartialEq, Eq, Structural)]
pub enum StoreError {
    NotFound,
    Conflict,
    StorageFailure,
}

} // verus!
