use resource_group::error::DomainError;
use resource_group::group_service::{
    AccessScope, CreateCommand, CreateFacts, CreateGate, CreateNeed, DeleteFacts, DeleteNeed,
    DeletePlan, GroupService, InsertPlan, MoveFacts, MoveNeed, MovePlan, QueryProfile, Step,
    UpdateNeed,
};
use resource_group::ids::Uuid;
use resource_group::models::{
    CreateGroupRequest, GroupHierarchy, ResourceGroup, ResourceGroupType, UpdateGroupRequest,
};
use resource_group::rows::GroupRow;
use resource_group::validation::{SchemaLookup, TENANT_RG_TYPE_PATH};

fn s(text: &str) -> String {
    text.to_owned()
}

const TEAM: &str = "gts.cf.core.rg.type.v1~x.core.ns.team.v1~";
const CALLER: Uuid = Uuid(0xb0);
const OTHER: Uuid = Uuid(0xc0);
const ID: Uuid = Uuid(0xd0);
const ID_TEXT: &str = "00000000-0000-0000-0000-0000000000d0";
const PARENT: Uuid = Uuid(0xe0);
const PARENT_TEXT: &str = "00000000-0000-0000-0000-0000000000e0";

fn request(code: &str) -> CreateGroupRequest {
    CreateGroupRequest {
        id: None,
        code: s(code),
        name: s("Team"),
        parent_id: None,
        tenant_id: None,
        metadata: None,
    }
}

fn no_scope() -> AccessScope {
    AccessScope { unconstrained: false, owner_tenant_ids: vec![] }
}

fn refused<N, P>(step: Step<N, P>) -> DomainError {
    match step {
        Step::Reject(e) => e,
        _ => panic!("not refused"),
    }
}

fn gate(req: &CreateGroupRequest, scope: &AccessScope) -> Step<CreateGate, CreateCommand> {
    GroupService::create_group(req, CALLER, Some(scope), None)
}

#[test]
fn profile_has_a_default() {
    let p = QueryProfile::default();
    assert_eq!(p.max_depth, Some(10));
    assert_eq!(p.max_width, None);
    assert_eq!(GroupService::new(p).profile, p);
}

#[test]
fn create_is_checked_before_anything_is_asked() {
    let reject = |req: &CreateGroupRequest| {
        refused(GroupService::create_group(req, CALLER, None, None)).describe()
    };
    assert_eq!(reject(&request(" ")), "Validation failed: Type code must not be empty");
    let mut req = request(TEAM);
    req.name = String::new();
    assert_eq!(
        reject(&req),
        "Validation failed: Group name must be between 1 and 255 characters"
    );
    req.name = "é".repeat(256);
    assert_eq!(
        reject(&req),
        "Validation failed: Group name must be between 1 and 255 characters"
    );
    req.name = "é".repeat(255);
    assert!(matches!(
        GroupService::create_group(&req, CALLER, None, None),
        Step::Need(CreateGate::Scope(_))
    ));
    let mut req = request(TENANT_RG_TYPE_PATH);
    req.tenant_id = Some(CALLER);
    assert_eq!(
        reject(&req),
        "Validation failed: tenant_id must not be set when creating a tenant-typed group: its tenant scope is always the group's own id, never a caller-supplied value"
    );
    let mut req = request(TEAM);
    req.id = Some(ID);
    req.tenant_id = Some(OTHER);
    assert!(reject(&req).contains("id and tenant_id cannot both be set on group creation"));
    req.tenant_id = Some(CALLER);
    assert!(matches!(
        GroupService::create_group(&req, CALLER, None, None),
        Step::Need(CreateGate::Scope(_))
    ));
}

#[test]
fn policy_is_asked_about_the_target() {
    let mut req = request(" GTS.CF.Core.RG.Type.V1~CF.Core._.Tenant.V1~");
    req.parent_id = Some(PARENT);
    match GroupService::create_group(&req, CALLER, None, None) {
        Step::Need(CreateGate::Scope(access)) => {
            assert!(access.is_tenant);
            assert_eq!(access.parent_id, Some(PARENT));
            assert_eq!(access.owner_tenant_id, CALLER);
        }
        _ => panic!("policy not asked"),
    }
    let mut req = request(TEAM);
    req.tenant_id = Some(OTHER);
    match GroupService::create_group(&req, CALLER, None, None) {
        Step::Need(CreateGate::Scope(access)) => {
            assert!(!access.is_tenant);
            assert_eq!(access.owner_tenant_id, OTHER);
        }
        _ => panic!("policy not asked"),
    }
}

#[test]
fn foreign_tenant_is_found_only_within_the_scope() {
    let mut req = request(TEAM);
    req.tenant_id = Some(OTHER);
    assert_eq!(
        refused(gate(&req, &no_scope())).describe(),
        "Tenant not found: 00000000-0000-0000-0000-0000000000c0"
    );
    let named = AccessScope { unconstrained: false, owner_tenant_ids: vec![CALLER, OTHER] };
    match gate(&req, &named) {
        Step::Commit(cmd) => assert_eq!(cmd.tenant_id, OTHER),
        _ => panic!("not admitted"),
    }
    let all = AccessScope { unconstrained: true, owner_tenant_ids: vec![] };
    assert!(matches!(gate(&req, &all), Step::Commit(_)));
    req.tenant_id = None;
    match gate(&req, &no_scope()) {
        Step::Commit(cmd) => assert_eq!(cmd.tenant_id, CALLER),
        _ => panic!("not admitted"),
    }
}

#[test]
fn code_goes_on_in_canonical_form() {
    let req = request("  GTS.CF.Core.RG.Type.V1~X.Core.NS.Team.V1~ ");
    match gate(&req, &no_scope()) {
        Step::Commit(cmd) => {
            assert_eq!(cmd.code, TEAM);
            assert_eq!(cmd.name, "Team");
            assert_eq!(cmd.id, None);
            let id = GroupService::group_id_of(&cmd);
            assert_eq!((id.0 >> 76) & 0xf, 7);
            assert_ne!(GroupService::group_id_of(&cmd), id);
        }
        _ => panic!("not admitted"),
    }
}

#[test]
fn metadata_are_checked_before_the_transaction() {
    let mut req = request(TEAM);
    req.metadata = Some(serde_json::Value::Bool(true));
    assert!(matches!(gate(&req, &no_scope()), Step::Need(CreateGate::Schema)));
    let with = |lookup: &SchemaLookup| {
        GroupService::create_group(&req, CALLER, Some(&no_scope()), Some(lookup))
    };
    match with(&SchemaLookup::NotFound) {
        Step::Commit(cmd) => assert_eq!(cmd.metadata, Some(serde_json::Value::Bool(true))),
        _ => panic!("not admitted"),
    }
    assert_eq!(
        refused(with(&SchemaLookup::Failed(s("down")))).describe(),
        format!("Validation failed: Failed to resolve GTS type '{TEAM}' for metadata validation: down")
    );
    let strict = serde_json::from_str(r#"{"metadata": {"type": "object"}}"#).expect("JSON");
    assert!(refused(with(&SchemaLookup::Found(strict)))
        .describe()
        .starts_with("Validation failed: Metadata does not match type schema: "));
}

#[test]
fn trusted_create_needs_an_agreeing_tenant() {
    let mut req = request(TEAM);
    match GroupService::create_group_unscoped(&req, CALLER, None) {
        Step::Commit(cmd) => assert_eq!(cmd.tenant_id, CALLER),
        _ => panic!("not admitted"),
    }
    req.tenant_id = Some(CALLER);
    assert!(matches!(GroupService::create_group_unscoped(&req, CALLER, None), Step::Commit(_)));
    req.tenant_id = Some(OTHER);
    assert_eq!(
        refused(GroupService::create_group_unscoped(&req, CALLER, None)).describe(),
        "Validation failed: create_group_unscoped: req.tenant_id (00000000-0000-0000-0000-0000000000c0) disagrees with the trusted tenant_id argument (00000000-0000-0000-0000-0000000000b0); this indicates a caller bug, not a policy decision to make silently"
    );
    let bad = request("x");
    assert!(refused(GroupService::create_group_unscoped(&bad, CALLER, None))
        .describe()
        .starts_with("Validation failed: Type code must start with prefix"));
    let mut with_metadata = request(TEAM);
    with_metadata.metadata = Some(serde_json::Value::Null);
    assert!(matches!(
        GroupService::create_group_unscoped(&with_metadata, CALLER, None),
        Step::Need(CreateGate::Schema)
    ));
}

fn command(code: &str, parent_id: Option<Uuid>) -> CreateCommand {
    CreateCommand {
        id: Some(ID),
        code: s(code),
        name: s("Team"),
        parent_id,
        tenant_id: CALLER,
        metadata: None,
    }
}

fn team_type(code: &str, parents: &[&str], can_be_root: bool) -> ResourceGroupType {
    ResourceGroupType {
        code: s(code),
        can_be_root,
        allowed_parent_types: parents.iter().map(|p| s(p)).collect(),
        allowed_membership_types: vec![],
        metadata_schema: None,
    }
}

fn group_row(id: Uuid, tenant_id: Uuid) -> GroupRow {
    GroupRow { id, parent_id: None, gts_type_id: 5, name: s("p"), metadata: None, tenant_id }
}

fn create_facts() -> CreateFacts {
    CreateFacts {
        group_type: None,
        retired: None,
        parent: None,
        parent_type_path: None,
        parent_depth: None,
        sibling_count: None,
        tenant_root: None,
    }
}

fn service(max_depth: Option<u32>, max_width: Option<u32>) -> GroupService {
    GroupService::new(QueryProfile { max_depth, max_width })
}

#[test]
fn child_is_created_step_by_step() {
    let svc = service(Some(3), Some(2));
    let cmd = command(TEAM, Some(PARENT));
    let mut facts = create_facts();
    let step = |facts: &CreateFacts| svc.create_group_inner(&cmd, ID, facts);
    assert!(matches!(step(&facts), Step::Need(CreateNeed::GroupType)));
    facts.group_type = Some(Some((4, team_type(TEAM, &["p~"], false))));
    assert!(matches!(step(&facts), Step::Need(CreateNeed::Parent(p)) if p == PARENT));
    facts.parent = Some(Some(group_row(PARENT, CALLER)));
    assert!(matches!(step(&facts), Step::Need(CreateNeed::TypePath(5))));
    facts.parent_type_path = Some(s("p~"));
    assert!(matches!(step(&facts), Step::Need(CreateNeed::Depth(p)) if p == PARENT));
    facts.parent_depth = Some(1);
    assert!(matches!(step(&facts), Step::Need(CreateNeed::ChildCount(p)) if p == PARENT));
    facts.sibling_count = Some(1);
    match step(&facts) {
        Step::Commit(plan) => {
            let InsertPlan { group_id, parent_id, type_id, name, metadata, tenant_id } = plan;
            assert_eq!((group_id, parent_id, type_id), (ID, Some(PARENT), 4));
            assert_eq!(name, "Team");
            assert_eq!(metadata, None);
            assert_eq!(tenant_id, CALLER);
        }
        _ => panic!("not created"),
    }
}

#[test]
fn child_is_refused_with_the_reason() {
    let svc = service(Some(3), Some(2));
    let cmd = command(TEAM, Some(PARENT));
    let reject = |facts: &CreateFacts| refused(svc.create_group_inner(&cmd, ID, facts)).describe();
    let mut facts = create_facts();
    facts.group_type = Some(None);
    assert_eq!(reject(&facts), format!("Type not found: {TEAM}"));
    facts.group_type = Some(Some((4, team_type(TEAM, &["p~"], false))));
    facts.parent = Some(None);
    assert_eq!(reject(&facts), format!("Group not found: {PARENT_TEXT}"));
    facts.parent = Some(Some(group_row(PARENT, OTHER)));
    facts.parent_type_path = Some(s("q~"));
    assert_eq!(
        reject(&facts),
        format!("Invalid parent type: Type '{TEAM}' does not allow parent type 'q~'")
    );
    facts.parent_type_path = Some(s("p~"));
    assert_eq!(
        reject(&facts),
        "Validation failed: Cannot create group under this parent; parent belongs to a different tenant"
    );
    facts.parent = Some(Some(group_row(PARENT, CALLER)));
    facts.parent_depth = Some(2);
    assert_eq!(
        reject(&facts),
        "Limit violation: Depth limit exceeded: adding child at depth 3 exceeds max_depth 3"
    );
    facts.parent_depth = Some(1);
    facts.sibling_count = Some(2);
    assert_eq!(
        reject(&facts),
        "Limit violation: Width limit exceeded: parent already has 2 children, max_width is 2"
    );
}

#[test]
fn limits_beyond_32_bits_do_not_wrap() {
    let svc = service(Some(u32::MAX), None);
    let cmd = command(TEAM, Some(PARENT));
    let mut facts = create_facts();
    facts.group_type = Some(Some((4, team_type(TEAM, &["p~"], false))));
    facts.parent = Some(Some(group_row(PARENT, CALLER)));
    facts.parent_type_path = Some(s("p~"));
    facts.parent_depth = Some(i32::MAX);
    assert!(matches!(svc.create_group_inner(&cmd, ID, &facts), Step::Commit(_)));
}

#[test]
fn tenant_typed_group_is_its_own_tenant() {
    let svc = service(None, None);
    let cmd = command(TENANT_RG_TYPE_PATH, Some(PARENT));
    let mut facts = create_facts();
    facts.group_type = Some(Some((4, team_type(TENANT_RG_TYPE_PATH, &["p~"], true))));
    assert!(matches!(
        svc.create_group_inner(&cmd, ID, &facts),
        Step::Need(CreateNeed::Retired(id)) if id == ID
    ));
    facts.retired = Some(false);
    facts.parent = Some(Some(group_row(PARENT, OTHER)));
    facts.parent_type_path = Some(s("p~"));
    match svc.create_group_inner(&cmd, ID, &facts) {
        Step::Commit(plan) => assert_eq!(plan.tenant_id, ID),
        _ => panic!("not created"),
    }
}

#[test]
fn retired_identifier_is_not_reissued() {
    let svc = service(None, None);
    let mut facts = create_facts();
    facts.group_type = Some(Some((4, team_type(TENANT_RG_TYPE_PATH, &[], true))));
    facts.retired = Some(true);
    assert_eq!(
        refused(svc.create_group_inner(&command(TENANT_RG_TYPE_PATH, None), ID, &facts)).describe(),
        format!("Group already exists: {ID_TEXT}")
    );
    facts.group_type = Some(Some((4, team_type(TEAM, &[], true))));
    assert!(matches!(svc.create_group_inner(&command(TEAM, None), ID, &facts), Step::Commit(_)));
}

#[test]
fn root_is_refused_with_the_reason() {
    let svc = service(None, None);
    let mut facts = create_facts();
    facts.group_type = Some(Some((4, team_type(TEAM, &[], false))));
    assert_eq!(
        refused(svc.create_group_inner(&command(TEAM, None), ID, &facts)).describe(),
        format!("Invalid parent type: Type '{TEAM}' cannot be a root group (can_be_root=false)")
    );
    let tenant = command(TENANT_RG_TYPE_PATH, None);
    facts.group_type = Some(Some((4, team_type(TENANT_RG_TYPE_PATH, &[], true))));
    facts.retired = Some(false);
    assert!(matches!(
        svc.create_group_inner(&tenant, ID, &facts),
        Step::Need(CreateNeed::TenantRoot)
    ));
    facts.tenant_root = Some(Some(PARENT));
    match refused(svc.create_group_inner(&tenant, ID, &facts)) {
        DomainError::TenantRootAlreadyExists { existing_root_id, detail } => {
            assert_eq!(existing_root_id, PARENT);
            assert_eq!(
                detail,
                format!("Cannot create tenant-type root 'Team' ({TENANT_RG_TYPE_PATH}): tenant root already exists")
            );
        }
        other => panic!("unexpected {other:?}"),
    }
    facts.tenant_root = Some(None);
    assert!(matches!(svc.create_group_inner(&tenant, ID, &facts), Step::Commit(_)));
}

#[test]
fn update_writes_name_and_metadata_only() {
    let req = UpdateGroupRequest { name: s("New"), metadata: None };
    let code = s(TEAM);
    assert!(matches!(
        GroupService::update_group(ID, &req, None, None),
        Step::Need(UpdateNeed::Group)
    ));
    assert_eq!(
        refused(GroupService::update_group(ID, &req, Some(None), None)).describe(),
        format!("Group not found: {ID_TEXT}")
    );
    match GroupService::update_group(ID, &req, Some(Some(&code)), None) {
        Step::Commit(plan) => {
            assert_eq!((plan.group_id, plan.name.as_str(), plan.metadata), (ID, "New", None));
        }
        _ => panic!("not updated"),
    }
    let with = UpdateGroupRequest { name: s("New"), metadata: Some(serde_json::Value::Null) };
    assert!(matches!(
        GroupService::update_group(ID, &with, Some(Some(&code)), None),
        Step::Need(UpdateNeed::Schema)
    ));
    assert!(matches!(
        GroupService::update_group(ID, &with, Some(Some(&code)), Some(&SchemaLookup::NotFound)),
        Step::Commit(_)
    ));
    let bad = UpdateGroupRequest { name: String::new(), metadata: None };
    assert!(refused(GroupService::update_group(ID, &bad, None, None))
        .describe()
        .contains("Group name"));
    assert_eq!(GroupService::update_group_inner(ID, &req, true).expect("visible").name, "New");
    assert_eq!(
        GroupService::update_group_inner(ID, &req, false).unwrap_err().describe(),
        format!("Group not found: {ID_TEXT}")
    );
}

fn move_facts() -> MoveFacts {
    MoveFacts {
        visible: None,
        group: None,
        parent: None,
        type_path: None,
        group_type: None,
        is_descendant: None,
        parent_type_path: None,
        parent_depth: None,
        subtree: None,
        sibling_count: None,
        tenant_root: None,
        root_siblings: None,
    }
}

#[test]
fn move_under_a_parent_goes_step_by_step() {
    let svc = service(Some(4), Some(2));
    let mut f = move_facts();
    let step = |f: &MoveFacts| svc.move_group_inner(ID, Some(PARENT), f);
    assert!(matches!(step(&f), Step::Need(MoveNeed::Visible(id)) if id == ID));
    f.visible = Some(true);
    assert!(matches!(step(&f), Step::Need(MoveNeed::Group(id)) if id == ID));
    f.group = Some(Some(group_row(ID, CALLER)));
    assert!(matches!(step(&f), Step::Need(MoveNeed::Parent(id)) if id == PARENT));
    f.parent = Some(Some(group_row(PARENT, CALLER)));
    assert!(matches!(step(&f), Step::Need(MoveNeed::TypePath(5))));
    f.type_path = Some(s(TEAM));
    assert!(matches!(step(&f), Step::Need(MoveNeed::GroupType)));
    f.group_type = Some(Some(team_type(TEAM, &["p~"], false)));
    assert!(matches!(step(&f), Step::Need(MoveNeed::IsDescendant(a, b)) if (a, b) == (ID, PARENT)));
    f.is_descendant = Some(false);
    assert!(matches!(step(&f), Step::Need(MoveNeed::ParentTypePath(5))));
    f.parent_type_path = Some(s("p~"));
    assert!(matches!(step(&f), Step::Need(MoveNeed::Depth(id)) if id == PARENT));
    f.parent_depth = Some(0);
    assert!(matches!(step(&f), Step::Need(MoveNeed::Subtree(id)) if id == ID));
    f.subtree = Some(vec![(Uuid(1), 1), (Uuid(2), 2), (Uuid(3), 1)]);
    assert!(matches!(step(&f), Step::Need(MoveNeed::ChildCount(id)) if id == PARENT));
    f.sibling_count = Some(1);
    match step(&f) {
        Step::Commit(plan) => {
            assert_eq!(plan, MovePlan { group_id: ID, new_parent_id: Some(PARENT) });
        }
        _ => panic!("not moved"),
    }
}

#[test]
fn move_under_a_parent_is_refused_with_the_reason() {
    let svc = service(Some(4), Some(2));
    let reject =
        |f: &MoveFacts| refused(svc.move_group_inner(ID, Some(PARENT), f)).describe();
    let mut f = move_facts();
    f.visible = Some(false);
    assert_eq!(reject(&f), format!("Group not found: {ID_TEXT}"));
    f.visible = Some(true);
    f.group = Some(None);
    assert_eq!(reject(&f), format!("Group not found: {ID_TEXT}"));
    f.group = Some(Some(group_row(ID, CALLER)));
    f.parent = Some(None);
    assert_eq!(reject(&f), format!("Group not found: {PARENT_TEXT}"));
    f.parent = Some(Some(group_row(PARENT, OTHER)));
    assert_eq!(
        reject(&f),
        format!("Validation failed: Cannot move group {ID_TEXT} to a parent in a different tenant; cross-tenant moves are not supported")
    );
    f.parent = Some(Some(group_row(PARENT, CALLER)));
    f.type_path = Some(s(TEAM));
    f.group_type = Some(None);
    assert_eq!(reject(&f), format!("Type not found: {TEAM}"));
    f.group_type = Some(Some(team_type(TEAM, &["p~"], false)));
    f.is_descendant = Some(true);
    assert_eq!(
        reject(&f),
        format!("Cycle detected: Cannot move group '{ID_TEXT}' under '{PARENT_TEXT}': would create a cycle")
    );
    f.is_descendant = Some(false);
    f.parent_type_path = Some(s("q~"));
    assert_eq!(
        reject(&f),
        format!("Invalid parent type: Type '{TEAM}' does not allow parent type 'q~'")
    );
    f.parent_type_path = Some(s("p~"));
    f.parent_depth = Some(1);
    f.subtree = Some(vec![(Uuid(1), 1), (Uuid(2), 2)]);
    assert_eq!(
        reject(&f),
        "Limit violation: Depth limit exceeded: moving subtree would create depth 4, max_depth is 4"
    );
    f.subtree = Some(vec![]);
    f.sibling_count = Some(5);
    assert_eq!(
        reject(&f),
        "Limit violation: Width limit exceeded: new parent already has 5 children, max_width is 2"
    );
}

#[test]
fn move_to_the_root_is_decided() {
    let svc = service(Some(4), Some(2));
    let step = |f: &MoveFacts| svc.move_group_inner(ID, None, f);
    let mut f = move_facts();
    f.visible = Some(true);
    f.group = Some(Some(group_row(ID, CALLER)));
    f.type_path = Some(s(TEAM));
    f.group_type = Some(Some(team_type(TEAM, &[], false)));
    assert_eq!(
        refused(step(&f)).describe(),
        format!("Invalid parent type: Type '{TEAM}' cannot be a root group (can_be_root=false)")
    );
    f.group_type = Some(Some(team_type(TEAM, &[], true)));
    assert!(matches!(
        step(&f),
        Step::Need(MoveNeed::RootSiblings(t, g)) if (t, g) == (CALLER, ID)
    ));
    f.root_siblings = Some(2);
    assert_eq!(
        refused(step(&f)).describe(),
        "Limit violation: Width limit exceeded: the tenant already has 2 root group(s), max_width is 2"
    );
    f.root_siblings = Some(1);
    match step(&f) {
        Step::Commit(plan) => {
            assert_eq!(plan, MovePlan { group_id: ID, new_parent_id: None });
        }
        _ => panic!("not moved"),
    }
    f.group_type = Some(Some(team_type(TENANT_RG_TYPE_PATH, &[], true)));
    assert!(matches!(step(&f), Step::Need(MoveNeed::TenantRoot)));
    f.tenant_root = Some(Some(PARENT));
    match refused(step(&f)) {
        DomainError::TenantRootAlreadyExists { existing_root_id, detail } => {
            assert_eq!(existing_root_id, PARENT);
            assert_eq!(
                detail,
                format!("Cannot move tenant-type group '{TENANT_RG_TYPE_PATH}' ({ID_TEXT}) to root: tenant root already exists")
            );
        }
        other => panic!("unexpected {other:?}"),
    }
    f.tenant_root = Some(Some(ID));
    assert!(matches!(step(&f), Step::Commit(_)));
}

fn delete_facts() -> DeleteFacts {
    DeleteFacts {
        visible: None,
        exists: None,
        descendants: None,
        children: None,
        membership_count: None,
        type_paths: vec![],
    }
}

fn delete(force: bool, f: &DeleteFacts) -> Step<DeleteNeed, DeletePlan> {
    GroupService::delete_group_inner(ID, force, f)
}

#[test]
fn leaf_is_deleted_and_its_identifier_retired() {
    let mut f = delete_facts();
    assert!(matches!(delete(false, &f), Step::Need(DeleteNeed::Visible(id)) if id == ID));
    f.visible = Some(true);
    assert!(matches!(delete(false, &f), Step::Need(DeleteNeed::Group(id)) if id == ID));
    f.exists = Some(true);
    assert!(matches!(delete(false, &f), Step::Need(DeleteNeed::Children(id)) if id == ID));
    f.children = Some(vec![]);
    assert!(matches!(delete(false, &f), Step::Need(DeleteNeed::MembershipCount(id)) if id == ID));
    f.membership_count = Some(0);
    match delete(false, &f) {
        Step::Commit(plan) => {
            assert_eq!(plan.groups, vec![ID]);
            assert!(!plan.memberships);
            assert_eq!(plan.levels, vec![(0, vec![ID])]);
        }
        _ => panic!("not deleted"),
    }
}

#[test]
fn missing_group_is_not_deleted() {
    let mut f = delete_facts();
    f.visible = Some(false);
    assert_eq!(refused(delete(true, &f)).describe(), format!("Group not found: {ID_TEXT}"));
    f.visible = Some(true);
    f.exists = Some(false);
    assert_eq!(refused(delete(true, &f)).describe(), format!("Group not found: {ID_TEXT}"));
}

fn child(id: u128, type_id: i16) -> GroupRow {
    GroupRow {
        id: Uuid(id),
        parent_id: Some(ID),
        gts_type_id: type_id,
        name: s("c"),
        metadata: None,
        tenant_id: CALLER,
    }
}

#[test]
fn blocked_delete_names_what_may_be_named() {
    let mut f = delete_facts();
    f.visible = Some(true);
    f.exists = Some(true);
    f.children = Some(vec![child(1, 5), child(2, 6), child(3, 5)]);
    f.membership_count = Some(4);
    assert!(matches!(delete(false, &f), Step::Need(DeleteNeed::TypePath(5))));
    f.type_paths.push((5, s(TEAM)));
    assert!(matches!(delete(false, &f), Step::Need(DeleteNeed::TypePath(6))));
    f.type_paths.push((6, s(TENANT_RG_TYPE_PATH)));
    match refused(delete(false, &f)) {
        DomainError::ConflictActiveReferences { message, blocking_entity_ids } => {
            assert_eq!(
                message,
                format!("Cannot delete group '{ID_TEXT}': blocked by 2 child group(s) and additional child group(s) in another tenant and 4 membership(s). Use force=true to cascade.")
            );
            assert_eq!(
                blocking_entity_ids,
                vec![
                    s("00000000-0000-0000-0000-000000000001"),
                    s("00000000-0000-0000-0000-000000000003"),
                ]
            );
        }
        other => panic!("unexpected {other:?}"),
    }
    f.children = Some(vec![]);
    assert_eq!(
        refused(delete(false, &f)).describe(),
        format!("Active references exist: Cannot delete group '{ID_TEXT}': blocked by 4 membership(s). Use force=true to cascade.")
    );
}

#[test]
fn subtree_is_deleted_from_the_bottom_up() {
    let mut f = delete_facts();
    f.visible = Some(true);
    f.exists = Some(true);
    assert!(matches!(delete(true, &f), Step::Need(DeleteNeed::Descendants(id)) if id == ID));
    f.descendants = Some(vec![
        (Uuid(1), 1),
        (Uuid(3), 3),
        (Uuid(2), 2),
        (Uuid(4), 1),
        (Uuid(5), 3),
    ]);
    match delete(true, &f) {
        Step::Commit(plan) => {
            assert_eq!(plan.groups, vec![ID, Uuid(1), Uuid(3), Uuid(2), Uuid(4), Uuid(5)]);
            assert!(plan.memberships);
            assert_eq!(
                plan.levels,
                vec![
                    (3, vec![Uuid(3), Uuid(5)]),
                    (2, vec![Uuid(2)]),
                    (1, vec![Uuid(1), Uuid(4)]),
                    (0, vec![ID]),
                ]
            );
        }
        _ => panic!("not deleted"),
    }
}

#[test]
fn found_groups_are_given_back() {
    let group = || ResourceGroup {
        id: ID,
        code: s(TEAM),
        name: s("Team"),
        hierarchy: GroupHierarchy { parent_id: None, tenant_id: CALLER },
        metadata: None,
    };
    assert_eq!(GroupService::get_group(Some(group()), ID).expect("found").name, "Team");
    assert_eq!(
        GroupService::get_group(None, ID).unwrap_err().describe(),
        format!("Group not found: {ID_TEXT}")
    );
    assert_eq!(GroupService::created_group(Some(group())).expect("found").id, ID);
    assert_eq!(
        GroupService::created_group(None).unwrap_err().describe(),
        "Database error: Custom Error: Insert succeeded but group not found"
    );
}
