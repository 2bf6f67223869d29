//! The bodies of requests and answers about types, groups and memberships.

use vstd::prelude::*;
use vstd::string::*;

use crate::error::DomainError;
use crate::ids::Uuid;
use crate::models::{
    CreateGroupRequest, CreateTypeRequest, ResourceGroup, ResourceGroupMembership, ResourceGroupType,
    ResourceGroupWithDepth, UpdateGroupRequest, UpdateTypeRequest,
};
use crate::text::concat3;

verus! {

/// The refusal of a body without a key that it must have.
pub open spec fn missing_key_refusal(field: Seq<char>, hint: Seq<char>) -> crate::error::ErrorView {
    crate::error::invalid(
        "'"@ + field
            + "' is required: this endpoint performs a full replacement, so an omitted key cannot be distinguished from a request to keep the stored value. "@
            + hint,
    )
}

/// The value of a key that a body must have: an omitted key is refused, an
/// explicit null is a value.
pub fn require_key<T>(value: Option<T>, field: &str, hint: &str) -> (r: Result<T, DomainError>)
    ensures
        match value {
            Some(v) => r == Ok::<T, DomainError>(v),
            None => r matches Err(e) && e@ == missing_key_refusal(field@, hint@),
        },
{
    match value {
        Some(v) => Ok(v),
        None => {
            let message: String = concat3(
                "'",
                field,
                "' is required: this endpoint performs a full replacement, so an omitted key cannot be distinguished from a request to keep the stored value. ",
            ).concat(hint);
            Err(DomainError::validation(message))
        },
    }
}

/// The hint to a body without a metadata schema.
pub const METADATA_SCHEMA_HINT: &'static str =
    "Send \"metadata_schema\": null to clear the stored JSON Schema.";

/// The hint to a body without a name.
pub const NAME_HINT: &'static str = "Send the group's display name; PUT replaces it.";

/// The hint to a body without metadata.
pub const METADATA_HINT: &'static str = "Send \"metadata\": null to clear the stored metadata.";

/// The hint to a body without a parent.
pub const PARENT_HINT: &'static str =
    "Send \"parent_id\": null to move the group to the root, or a group UUID to move it under that group.";

// -- Types --

/// A type, in an answer.
#[derive(Debug, Clone)]
pub struct TypeDto {
    pub code: String,
    pub can_be_root: bool,
    pub allowed_parent_types: Vec<String>,
    pub allowed_membership_types: Vec<String>,
    pub metadata_schema: Option<serde_json::Value>,
}

/// The body of a create of a type.
#[derive(Debug, Clone)]
pub struct CreateTypeDto {
    pub code: String,
    pub can_be_root: bool,
    pub allowed_parent_types: Vec<String>,
    pub allowed_membership_types: Vec<String>,
    pub metadata_schema: Option<serde_json::Value>,
}

/// The body of a replacement of a type.
#[derive(Debug, Clone)]
pub struct UpdateTypeDto {
    pub can_be_root: bool,
    pub allowed_parent_types: Vec<String>,
    pub allowed_membership_types: Vec<String>,
    /// None for an omitted key, an inner none for an explicit null.
    pub metadata_schema: Option<Option<serde_json::Value>>,
}

impl From<ResourceGroupType> for TypeDto {
    fn from(t: ResourceGroupType) -> (r: Self)
        ensures
            r.code == t.code,
            r.can_be_root == t.can_be_root,
            r.allowed_parent_types == t.allowed_parent_types,
            r.allowed_membership_types == t.allowed_membership_types,
            r.metadata_schema == t.metadata_schema,
    {
        TypeDto {
            code: t.code,
            can_be_root: t.can_be_root,
            allowed_parent_types: t.allowed_parent_types,
            allowed_membership_types: t.allowed_membership_types,
            metadata_schema: t.metadata_schema,
        }
    }
}

impl vstd::std_specs::convert::FromSpecImpl<ResourceGroupType> for TypeDto {
    open spec fn obeys_from_spec() -> bool {
        true
    }

    open spec fn from_spec(t: ResourceGroupType) -> Self {
        TypeDto {
            code: t.code,
            can_be_root: t.can_be_root,
            allowed_parent_types: t.allowed_parent_types,
            allowed_membership_types: t.allowed_membership_types,
            metadata_schema: t.metadata_schema,
        }
    }
}

impl From<CreateTypeDto> for CreateTypeRequest {
    fn from(dto: CreateTypeDto) -> (r: Self)
        ensures
            r.code == dto.code,
            r.can_be_root == dto.can_be_root,
            r.allowed_parent_types == dto.allowed_parent_types,
            r.allowed_membership_types == dto.allowed_membership_types,
            r.metadata_schema == dto.metadata_schema,
    {
        CreateTypeRequest {
            code: dto.code,
            can_be_root: dto.can_be_root,
            allowed_parent_types: dto.allowed_parent_types,
            allowed_membership_types: dto.allowed_membership_types,
            metadata_schema: dto.metadata_schema,
        }
    }
}

impl vstd::std_specs::convert::FromSpecImpl<CreateTypeDto> for CreateTypeRequest {
    open spec fn obeys_from_spec() -> bool {
        true
    }

    open spec fn from_spec(dto: CreateTypeDto) -> Self {
        CreateTypeRequest {
            code: dto.code,
            can_be_root: dto.can_be_root,
            allowed_parent_types: dto.allowed_parent_types,
            allowed_membership_types: dto.allowed_membership_types,
            metadata_schema: dto.metadata_schema,
        }
    }
}

impl TryFrom<UpdateTypeDto> for UpdateTypeRequest {
    type Error = DomainError;

    fn try_from(dto: UpdateTypeDto) -> (r: Result<Self, DomainError>)
        ensures
            match dto.metadata_schema {
                Some(schema) => r == Ok::<UpdateTypeRequest, DomainError>(
                    UpdateTypeRequest {
                        can_be_root: dto.can_be_root,
                        allowed_parent_types: dto.allowed_parent_types,
                        allowed_membership_types: dto.allowed_membership_types,
                        metadata_schema: schema,
                    },
                ),
                None => r matches Err(e) && e@ == missing_key_refusal(
                    "metadata_schema"@,
                    METADATA_SCHEMA_HINT@,
                ),
            },
    {
        match require_key(dto.metadata_schema, "metadata_schema", METADATA_SCHEMA_HINT) {
            Ok(metadata_schema) => Ok(
                UpdateTypeRequest {
                    can_be_root: dto.can_be_root,
                    allowed_parent_types: dto.allowed_parent_types,
                    allowed_membership_types: dto.allowed_membership_types,
                    metadata_schema,
                },
            ),
            Err(e) => Err(e),
        }
    }
}

impl vstd::std_specs::convert::TryFromSpecImpl<UpdateTypeDto> for UpdateTypeRequest {
    open spec fn obeys_try_from_spec() -> bool {
        false
    }

    open spec fn try_from_spec(dto: UpdateTypeDto) -> Result<Self, DomainError> {
        arbitrary()
    }
}

// -- Groups --

/// Where a group stands, in an answer.
#[derive(Clone, Copy, Debug, PartialEq, Eq)]
pub struct HierarchyDto {
    pub parent_id: Option<Uuid>,
    pub tenant_id: Uuid,
}

/// Where a group stands seen from a reference group, in an answer.
#[derive(Clone, Copy, Debug, PartialEq, Eq)]
pub struct HierarchyWithDepthDto {
    pub parent_id: Option<Uuid>,
    pub tenant_id: Uuid,
    pub depth: i32,
}

/// A group, in an answer.
#[derive(Debug, Clone)]
pub struct GroupDto {
    pub id: Uuid,
    pub type_path: String,
    pub name: String,
    pub hierarchy: HierarchyDto,
    pub metadata: Option<serde_json::Value>,
}

/// A group seen from a reference group, in an answer.
#[derive(Debug, Clone)]
pub struct GroupWithDepthDto {
    pub id: Uuid,
    pub type_path: String,
    pub name: String,
    pub hierarchy: HierarchyWithDepthDto,
    pub metadata: Option<serde_json::Value>,
}

/// The body of a create of a group.
#[derive(Debug, Clone)]
pub struct CreateGroupDto {
    pub id: Option<Uuid>,
    pub type_path: String,
    pub name: String,
    pub parent_id: Option<Uuid>,
    pub tenant_id: Option<Uuid>,
    pub metadata: Option<serde_json::Value>,
}

/// The body of a replacement of a group's ordinary attributes.
#[derive(Debug, Clone)]
pub struct UpdateGroupDto {
    /// None for an omitted key or a null.
    pub name: Option<String>,
    /// None for an omitted key, an inner none for an explicit null.
    pub metadata: Option<Option<serde_json::Value>>,
}

/// The body of a move of a group.
#[derive(Clone, Copy, Debug, PartialEq, Eq)]
pub struct MoveGroupDto {
    /// None for an omitted key, an inner none for an explicit null, which makes
    /// the group a root.
    pub parent_id: Option<Option<Uuid>>,
}

impl MoveGroupDto {
    /// The new parent; none makes the group a root. An omitted key is refused.
    pub fn into_new_parent_id(self) -> (r: Result<Option<Uuid>, DomainError>)
        ensures
            match self.parent_id {
                Some(p) => r == Ok::<Option<Uuid>, DomainError>(p),
                None => r matches Err(e) && e@ == missing_key_refusal("parent_id"@, PARENT_HINT@),
            },
    {
        require_key(self.parent_id, "parent_id", PARENT_HINT)
    }
}

impl From<ResourceGroup> for GroupDto {
    fn from(g: ResourceGroup) -> (r: Self)
        ensures
            r.id == g.id,
            r.type_path == g.code,
            r.name == g.name,
            r.hierarchy.parent_id == g.hierarchy.parent_id,
            r.hierarchy.tenant_id == g.hierarchy.tenant_id,
            r.metadata == g.metadata,
    {
        GroupDto {
            id: g.id,
            type_path: g.code,
            name: g.name,
            hierarchy: HierarchyDto {
                parent_id: g.hierarchy.parent_id,
                tenant_id: g.hierarchy.tenant_id,
            },
            metadata: g.metadata,
        }
    }
}

impl vstd::std_specs::convert::FromSpecImpl<ResourceGroup> for GroupDto {
    open spec fn obeys_from_spec() -> bool {
        true
    }

    open spec fn from_spec(g: ResourceGroup) -> Self {
        GroupDto {
            id: g.id,
            type_path: g.code,
            name: g.name,
            hierarchy: HierarchyDto {
                parent_id: g.hierarchy.parent_id,
                tenant_id: g.hierarchy.tenant_id,
            },
            metadata: g.metadata,
        }
    }
}

impl From<ResourceGroupWithDepth> for GroupWithDepthDto {
    fn from(g: ResourceGroupWithDepth) -> (r: Self)
        ensures
            r.id == g.id,
            r.type_path == g.code,
            r.name == g.name,
            r.hierarchy.parent_id == g.hierarchy.parent_id,
            r.hierarchy.tenant_id == g.hierarchy.tenant_id,
            r.hierarchy.depth == g.hierarchy.depth,
            r.metadata == g.metadata,
    {
        GroupWithDepthDto {
            id: g.id,
            type_path: g.code,
            name: g.name,
            hierarchy: HierarchyWithDepthDto {
                parent_id: g.hierarchy.parent_id,
                tenant_id: g.hierarchy.tenant_id,
                depth: g.hierarchy.depth,
            },
            metadata: g.metadata,
        }
    }
}

impl vstd::std_specs::convert::FromSpecImpl<ResourceGroupWithDepth> for GroupWithDepthDto {
    open spec fn obeys_from_spec() -> bool {
        true
    }

    open spec fn from_spec(g: ResourceGroupWithDepth) -> Self {
        GroupWithDepthDto {
            id: g.id,
            type_path: g.code,
            name: g.name,
            hierarchy: HierarchyWithDepthDto {
                parent_id: g.hierarchy.parent_id,
                tenant_id: g.hierarchy.tenant_id,
                depth: g.hierarchy.depth,
            },
            metadata: g.metadata,
        }
    }
}

impl From<CreateGroupDto> for CreateGroupRequest {
    fn from(dto: CreateGroupDto) -> (r: Self)
        ensures
            r.id == dto.id,
            r.code == dto.type_path,
            r.name == dto.name,
            r.parent_id == dto.parent_id,
            r.tenant_id == dto.tenant_id,
            r.metadata == dto.metadata,
    {
        CreateGroupRequest {
            id: dto.id,
            code: dto.type_path,
            name: dto.name,
            parent_id: dto.parent_id,
            tenant_id: dto.tenant_id,
            metadata: dto.metadata,
        }
    }
}

impl vstd::std_specs::convert::FromSpecImpl<CreateGroupDto> for CreateGroupRequest {
    open spec fn obeys_from_spec() -> bool {
        true
    }

    open spec fn from_spec(dto: CreateGroupDto) -> Self {
        CreateGroupRequest {
            id: dto.id,
            code: dto.type_path,
            name: dto.name,
            parent_id: dto.parent_id,
            tenant_id: dto.tenant_id,
            metadata: dto.metadata,
        }
    }
}

impl TryFrom<UpdateGroupDto> for UpdateGroupRequest {
    type Error = DomainError;

    fn try_from(dto: UpdateGroupDto) -> (r: Result<Self, DomainError>)
        ensures
            match (dto.name, dto.metadata) {
                (None, _) => r matches Err(e) && e@ == missing_key_refusal("name"@, NAME_HINT@),
                (Some(_), None) => r matches Err(e) && e@ == missing_key_refusal(
                    "metadata"@,
                    METADATA_HINT@,
                ),
                (Some(name), Some(metadata)) => r == Ok::<UpdateGroupRequest, DomainError>(
                    UpdateGroupRequest { name, metadata },
                ),
            },
    {
        let name: String = match require_key(dto.name, "name", NAME_HINT) {
            Ok(name) => name,
            Err(e) => {
                return Err(e);
            },
        };
        match require_key(dto.metadata, "metadata", METADATA_HINT) {
            Ok(metadata) => Ok(UpdateGroupRequest { name, metadata }),
            Err(e) => Err(e),
        }
    }
}

impl vstd::std_specs::convert::TryFromSpecImpl<UpdateGroupDto> for UpdateGroupRequest {
    open spec fn obeys_try_from_spec() -> bool {
        false
    }

    open spec fn try_from_spec(dto: UpdateGroupDto) -> Result<Self, DomainError> {
        arbitrary()
    }
}

// -- Memberships --

/// A membership, in an answer. It does not name the tenant, which is the
/// group's.
#[derive(Debug, Clone)]
pub struct MembershipDto {
    pub group_id: Uuid,
    pub resource_type: String,
    pub resource_id: String,
}

impl From<ResourceGroupMembership> for MembershipDto {
    fn from(m: ResourceGroupMembership) -> (r: Self)
        ensures
            r.group_id == m.group_id,
            r.resource_type == m.resource_type,
            r.resource_id == m.resource_id,
    {
        MembershipDto {
            group_id: m.group_id,
            resource_type: m.resource_type,
            resource_id: m.resource_id,
        }
    }
}

impl vstd::std_specs::convert::FromSpecImpl<ResourceGroupMembership> for MembershipDto {
    open spec fn obeys_from_spec() -> bool {
        true
    }

    open spec fn from_spec(m: ResourceGroupMembership) -> Self {
        MembershipDto {
            group_id: m.group_id,
            resource_type: m.resource_type,
            resource_id: m.resource_id,
        }
    }
}

} // verus!
