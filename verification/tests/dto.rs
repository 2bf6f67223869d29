use resource_group::dto::{
    CreateGroupDto, CreateTypeDto, GroupDto, GroupWithDepthDto, MembershipDto, MoveGroupDto, TypeDto,
    UpdateGroupDto, UpdateTypeDto,
};
use resource_group::ids::Uuid;
use resource_group::models::{
    CreateGroupRequest, CreateTypeRequest, GroupHierarchy, GroupHierarchyWithDepth, ResourceGroup,
    ResourceGroupMembership, ResourceGroupType, ResourceGroupWithDepth, UpdateGroupRequest,
    UpdateTypeRequest,
};

const MYTYPE: &str = "gts.cf.system.rg.type.v1~x.test.dto.mytype.v1~";
const BASE: &str = "gts.cf.system.rg.type.v1~";

fn fresh() -> Uuid {
    Uuid(uuid::Uuid::now_v7().as_u128())
}

fn object(key: &str, value: &str) -> serde_json::Value {
    let mut map = serde_json::Map::new();
    map.insert(key.to_owned(), serde_json::Value::String(value.to_owned()));
    serde_json::Value::Object(map)
}

#[test]
fn dto_type_from_resource_group_type() {
    let rgt = ResourceGroupType {
        code: MYTYPE.to_owned(),
        can_be_root: true,
        allowed_parent_types: vec!["gts.parent~".to_owned()],
        allowed_membership_types: vec!["gts.member~".to_owned()],
        metadata_schema: Some(object("type", "object")),
    };
    let dto: TypeDto = rgt.into();
    assert_eq!(dto.code, MYTYPE);
    assert!(dto.can_be_root);
    assert_eq!(dto.allowed_parent_types, vec!["gts.parent~".to_owned()]);
    assert_eq!(dto.allowed_membership_types, vec!["gts.member~".to_owned()]);
    assert!(dto.metadata_schema.is_some());
}

#[test]
fn dto_create_type_to_request() {
    let dto = CreateTypeDto {
        code: MYTYPE.to_owned(),
        can_be_root: false,
        allowed_parent_types: vec!["gts.parent~".to_owned()],
        allowed_membership_types: vec![],
        metadata_schema: None,
    };
    let req: CreateTypeRequest = dto.into();
    assert_eq!(req.code, MYTYPE);
    assert!(!req.can_be_root);
    assert_eq!(req.allowed_parent_types, vec!["gts.parent~".to_owned()]);
    assert!(req.allowed_membership_types.is_empty());
    assert!(req.metadata_schema.is_none());
}

#[test]
fn dto_group_from_resource_group() {
    let parent_id = fresh();
    let tenant_id = fresh();
    let group = ResourceGroup {
        id: fresh(),
        code: BASE.to_owned(),
        name: "My Group".to_owned(),
        hierarchy: GroupHierarchy { parent_id: Some(parent_id), tenant_id },
        metadata: Some(object("k", "v")),
    };
    let dto: GroupDto = group.clone().into();
    assert_eq!(dto.id, group.id);
    assert_eq!(dto.type_path, BASE);
    assert_eq!(dto.name, "My Group");
    assert_eq!(dto.hierarchy.parent_id, Some(parent_id));
    assert_eq!(dto.hierarchy.tenant_id, tenant_id);
    assert!(dto.metadata.is_some());
}

#[test]
fn dto_group_with_depth_from_resource_group() {
    let tenant_id = fresh();
    let gwd = ResourceGroupWithDepth {
        id: fresh(),
        code: BASE.to_owned(),
        name: "Depth Group".to_owned(),
        hierarchy: GroupHierarchyWithDepth { parent_id: None, tenant_id, depth: 3 },
        metadata: None,
    };
    let dto: GroupWithDepthDto = gwd.into();
    assert_eq!(dto.name, "Depth Group");
    assert_eq!(dto.hierarchy.depth, 3);
    assert!(dto.hierarchy.parent_id.is_none());
    assert_eq!(dto.hierarchy.tenant_id, tenant_id);
}

#[test]
fn dto_create_group_id_passthrough() {
    let id = fresh();
    let dto = CreateGroupDto {
        id: Some(id),
        type_path: MYTYPE.to_owned(),
        name: "X".to_owned(),
        parent_id: None,
        tenant_id: None,
        metadata: None,
    };
    assert_eq!(dto.id, Some(id));
    let req: CreateGroupRequest = dto.into();
    assert_eq!(req.id, Some(id));
    assert_eq!(req.code, MYTYPE);
    assert_eq!(req.name, "X");
}

#[test]
fn dto_create_group_no_id_maps_to_none() {
    let dto = CreateGroupDto {
        id: None,
        type_path: MYTYPE.to_owned(),
        name: "X".to_owned(),
        parent_id: None,
        tenant_id: None,
        metadata: None,
    };
    let req: CreateGroupRequest = dto.into();
    assert!(req.id.is_none());
}

#[test]
fn dto_create_group_tenant_id_passthrough() {
    let tenant_id = fresh();
    let dto = CreateGroupDto {
        id: None,
        type_path: MYTYPE.to_owned(),
        name: "X".to_owned(),
        parent_id: None,
        tenant_id: Some(tenant_id),
        metadata: None,
    };
    assert_eq!(dto.tenant_id, Some(tenant_id));
    let req: CreateGroupRequest = dto.into();
    assert_eq!(req.tenant_id, Some(tenant_id));
}

#[test]
fn dto_create_group_no_tenant_id_maps_to_none() {
    let dto = CreateGroupDto {
        id: None,
        type_path: MYTYPE.to_owned(),
        name: "X".to_owned(),
        parent_id: None,
        tenant_id: None,
        metadata: None,
    };
    let req: CreateGroupRequest = dto.into();
    assert!(req.tenant_id.is_none());
}

#[test]
fn membership_dto_carries_the_membership() {
    let group_id = fresh();
    let membership = ResourceGroupMembership {
        group_id,
        resource_type: BASE.to_owned(),
        resource_id: "res-001".to_owned(),
    };
    let MembershipDto { group_id: g, resource_type, resource_id } = membership.into();
    assert_eq!(g, group_id);
    assert_eq!(resource_type, BASE);
    assert_eq!(resource_id, "res-001");
}

#[test]
fn dto_update_group_omitted_metadata_is_rejected() {
    let dto = UpdateGroupDto { name: Some("X".to_owned()), metadata: None };
    assert_eq!(dto.metadata, None, "an omitted key must stay observable");
    let err = UpdateGroupRequest::try_from(dto).expect_err("omitted metadata must be rejected");
    let msg = err.describe();
    assert!(msg.contains("metadata"), "error must name the key: {msg}");
    assert_eq!(
        msg,
        "Validation failed: 'metadata' is required: this endpoint performs a full replacement, \
         so an omitted key cannot be distinguished from a request to keep the stored value. \
         Send \"metadata\": null to clear the stored metadata."
    );
}

#[test]
fn dto_update_group_explicit_null_metadata_clears() {
    let dto = UpdateGroupDto { name: Some("X".to_owned()), metadata: Some(None) };
    let req = UpdateGroupRequest::try_from(dto).expect("explicit null is a valid instruction");
    assert_eq!(req.name, "X");
    assert!(req.metadata.is_none(), "null clears the metadata");
}

#[test]
fn dto_update_group_metadata_value_round_trips() {
    let dto = UpdateGroupDto { name: Some("X".to_owned()), metadata: Some(Some(object("k", "v"))) };
    let req = UpdateGroupRequest::try_from(dto).expect("value is valid");
    assert_eq!(req.metadata, Some(object("k", "v")));
}

#[test]
fn dto_update_group_requires_name() {
    let dto = UpdateGroupDto { name: None, metadata: Some(None) };
    let err = UpdateGroupRequest::try_from(dto).expect_err("a missing or null name must be rejected");
    assert!(err.describe().contains("name"), "error must name the key: {}", err.describe());
    let both = UpdateGroupDto { name: None, metadata: None };
    let err = UpdateGroupRequest::try_from(both).expect_err("rejected");
    assert!(err.describe().contains("'name' is required"));
}

#[test]
fn dto_move_group_requires_parent_id_key() {
    let omitted = MoveGroupDto { parent_id: None };
    let err = omitted.into_new_parent_id().expect_err("an omitted parent_id must be rejected");
    assert!(err.describe().contains("parent_id"), "error must name the key: {}", err.describe());

    let to_root = MoveGroupDto { parent_id: Some(None) };
    assert_eq!(
        to_root.into_new_parent_id().expect("null is valid"),
        None,
        "explicit null means move to root"
    );

    let target = fresh();
    let to_parent = MoveGroupDto { parent_id: Some(Some(target)) };
    assert_eq!(to_parent.into_new_parent_id().expect("uuid is valid"), Some(target));
}

#[test]
fn dto_update_type_omitted_metadata_schema_is_rejected() {
    let dto = UpdateTypeDto {
        can_be_root: true,
        allowed_parent_types: vec![],
        allowed_membership_types: vec![],
        metadata_schema: None,
    };
    assert_eq!(dto.metadata_schema, None);
    let err = UpdateTypeRequest::try_from(dto).expect_err("omitted schema must be rejected");
    assert!(err.describe().contains("metadata_schema"), "error must name the key");
}

#[test]
fn dto_update_type_explicit_null_metadata_schema_clears() {
    let dto = UpdateTypeDto {
        can_be_root: true,
        allowed_parent_types: vec![],
        allowed_membership_types: vec![],
        metadata_schema: Some(None),
    };
    assert_eq!(dto.metadata_schema, Some(None));
    let req = UpdateTypeRequest::try_from(dto).expect("explicit null is valid");
    assert!(req.metadata_schema.is_none());
}
