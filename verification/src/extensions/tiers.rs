//! Mutability tiers, capabilities, and slot access policies.

use vstd::prelude::*;
use vstd::string::*;

verus! {

/// How an extension slot may change during a pipeline.
#[derive(Debug, Clone, Copy, PartialEq, Eq, Structural)]
pub enum MutabilityTier {
    /// Never changes after the host sets it.
    Immutable,
    /// Only grows (add-only).
    Monotonic,
    /// May change freely (subject to write capabilities).
    Mutable,
}

/// A capability a plugin declares to read or write a gated slot.
#[derive(Debug, Clone, Copy, PartialEq, Eq, Structural)]
pub enum Capability {
    ReadSubject,
    ReadRoles,
    ReadTeams,
    ReadClaims,
    ReadPermissions,
    ReadAgent,
    ReadHeaders,
    WriteHeaders,
    ReadLabels,
    AppendLabels,
    ReadDelegation,
    AppendDelegation,
}

/// Who may read a slot.
#[derive(Debug, Clone, Copy, PartialEq, Eq, Structural)]
pub enum AccessPolicy {
    /// Every plugin.
    Unrestricted,
    /// Only plugins holding the slot's read capability.
    CapabilityGated,
}

/// The static policy of one extension slot.
#[derive(Debug, Clone, Copy, PartialEq, Eq, Structural)]
pub struct SlotPolicy {
    pub tier: MutabilityTier,
    pub access: AccessPolicy,
    pub read_cap: Option<Capability>,
    pub write_cap: Option<Capability>,
}

/// The name a capability is declared by in configuration (its
/// snake_case form).
pub open spec fn capability_name(c: Capability) -> Seq<char> {
    match c {
        Capability::ReadSubject => "read_subject"@,
        Capability::ReadRoles => "read_roles"@,
        Capability::ReadTeams => "read_teams"@,
        Capability::ReadClaims => "read_claims"@,
        Capability::ReadPermissions => "read_permissions"@,
        Capability::ReadAgent => "read_agent"@,
        Capability::ReadHeaders => "read_headers"@,
        Capability::WriteHeaders => "write_headers"@,
        Capability::ReadLabels => "read_labels"@,
        Capability::AppendLabels => "append_labels"@,
        Capability::ReadDelegation => "read_delegation"@,
        Capability::AppendDelegation => "append_delegation"@,
    }
}

impl Capability {
    /// The name this capability is declared by.
    pub fn as_str(&self) -> (s: &'static str)
        ensures
            s@ == capability_name(*self),
    {
        match self {
            Capability::ReadSubject => "read_subject",
            Capability::ReadRoles => "read_roles",
            Capability::ReadTeams => "read_teams",
            Capability::ReadClaims => "read_claims",
            Capability::ReadPermissions => "read_permissions",
            Capability::ReadAgent => "read_agent",
            Capability::ReadHeaders => "read_headers",
            Capability::WriteHeaders => "write_headers",
            Capability::ReadLabels => "read_labels",
            Capability::AppendLabels => "append_labels",
            Capability::ReadDelegation => "read_delegation",
            Capability::AppendDelegation => "append_delegation",
        }
    }
}

impl MutabilityTier {
    /// The snake_case name of the tier.
    pub fn as_str(&self) -> (s: &'static str)
        ensures
            s@ == match *self {
                MutabilityTier::Immutable => "immutable"@,
                MutabilityTier::Monotonic => "monotonic"@,
                MutabilityTier::Mutable => "mutable"@,
            },
    {
        match self {
            MutabilityTier::Immutable => "immutable",
            MutabilityTier::Monotonic => "monotonic",
            MutabilityTier::Mutable => "mutable",
        }
    }
}

} // verus!
