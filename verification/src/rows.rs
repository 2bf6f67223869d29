//! Rows of the tables in which types, groups and memberships are stored.

use vstd::prelude::*;

use crate::ids::Uuid;

verus! {

/// A stored type.
#[derive(Debug)]
pub struct TypeRow {
    /// The identifier under which the type is stored.
    pub id: i16,
    /// The type's path.
    pub schema_id: String,
    /// The stored form of the metadata schema.
    pub metadata_schema: Option<serde_json::Value>,
}

/// A row that links a type with another type that it allows: as a parent, or
/// as the type of a member.
#[derive(Clone, Copy, Debug, PartialEq, Eq)]
pub struct AllowedTypeRow {
    pub type_id: i16,
    pub allowed_type_id: i16,
}

/// A stored group.
#[derive(Debug)]
pub struct GroupRow {
    pub id: Uuid,
    pub parent_id: Option<Uuid>,
    pub gts_type_id: i16,
    pub name: String,
    pub metadata: Option<serde_json::Value>,
    pub tenant_id: Uuid,
}

/// A stored membership.
#[derive(Debug)]
pub struct MembershipRow {
    pub group_id: Uuid,
    pub gts_type_id: i16,
    pub resource_id: String,
}

/// How many entries a page of a list has.
#[derive(Clone, Copy, Debug, PartialEq, Eq)]
pub struct PageLimits {
    /// The size where the query names none.
    pub default: u64,
    /// The largest size that a query can ask for.
    pub max: u64,
}

/// The order of a list whose query names none.
#[derive(Clone, Copy, Debug, PartialEq, Eq)]
pub struct DefaultOrder {
    /// The field that the list is ordered by.
    pub field: &'static str,
    /// Whether the largest value comes first.
    pub descending: bool,
}

} // verus!
