use resource_group::ids::Uuid;
use resource_group::operations::{
    access_query, isolation, supported_properties, tries_again, Isolation, Operation,
    ProtectedResource, ScopeProperty, MAX_ATTEMPTS,
};
use resource_group::routes::GroupOperation;

const ID: Uuid = Uuid(7);

fn asked(op: Operation) -> (ProtectedResource, &'static str, Option<Uuid>) {
    let q = access_query(op, ID);
    (q.resource, q.action, q.resource_id)
}

#[test]
fn policy_is_asked_for_each_operation() {
    let group = ProtectedResource::Group;
    let membership = ProtectedResource::Membership;
    let cases = [
        (Operation::Group(GroupOperation::CreateGroup), (group, "create", None)),
        (Operation::Group(GroupOperation::GetGroup), (group, "get", Some(ID))),
        (Operation::Group(GroupOperation::ListGroups), (group, "list", None)),
        (Operation::Group(GroupOperation::UpdateGroup), (group, "update", Some(ID))),
        (Operation::Group(GroupOperation::DeleteGroup), (group, "delete", Some(ID))),
        (Operation::Group(GroupOperation::GetDescendants), (group, "list", Some(ID))),
        (Operation::Group(GroupOperation::GetAncestors), (group, "list", Some(ID))),
        (Operation::AddMembership, (membership, "create", None)),
        (Operation::RemoveMembership, (membership, "delete", None)),
        (Operation::ListMemberships, (membership, "list", None)),
    ];
    for (op, wanted) in cases {
        assert_eq!(asked(op), wanted);
    }
}

#[test]
fn moving_needs_the_permission_to_update() {
    assert_eq!(
        asked(Operation::Group(GroupOperation::MoveGroup)),
        asked(Operation::Group(GroupOperation::UpdateGroup))
    );
}

#[test]
fn changes_of_the_forest_are_serializable() {
    for op in [
        GroupOperation::CreateGroup,
        GroupOperation::MoveGroup,
        GroupOperation::DeleteGroup,
    ] {
        assert_eq!(isolation(Operation::Group(op)), Some(Isolation::Serializable));
    }
    assert_eq!(
        isolation(Operation::Group(GroupOperation::UpdateGroup)),
        Some(Isolation::BackendDefault)
    );
    assert_eq!(isolation(Operation::Group(GroupOperation::GetGroup)), None);
    assert_eq!(isolation(Operation::AddMembership), Some(Isolation::Serializable));
    assert_eq!(isolation(Operation::RemoveMembership), Some(Isolation::BackendDefault));
    assert_eq!(isolation(Operation::ListMemberships), None);
}

#[test]
fn membership_scopes_name_tenants_only() {
    assert_eq!(
        supported_properties(ProtectedResource::Membership),
        vec![ScopeProperty::OwnerTenantId]
    );
    assert_eq!(
        supported_properties(ProtectedResource::Group),
        vec![ScopeProperty::OwnerTenantId, ScopeProperty::ResourceId]
    );
}

#[test]
fn contended_transactions_are_tried_three_times() {
    assert_eq!(MAX_ATTEMPTS, 3);
    assert!(tries_again(1, true));
    assert!(tries_again(2, true));
    assert!(!tries_again(3, true));
    assert!(!tries_again(1, false));
}
