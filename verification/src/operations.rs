//! What each operation asks the policy before it starts, and how its
//! transaction is kept apart from others.

use vstd::prelude::*;

use crate::ids::Uuid;
use crate::routes::GroupOperation;

verus! {

/// An operation of the service.
#[derive(Clone, Copy, Debug, PartialEq, Eq, Structural)]
pub enum Operation {
    Group(GroupOperation),
    AddMembership,
    RemoveMembership,
    ListMemberships,
}

/// What the policy protects.
#[derive(Clone, Copy, Debug, PartialEq, Eq, Structural)]
pub enum ProtectedResource {
    Group,
    Membership,
}

/// A property that the scope of a caller can be constrained by.
#[derive(Clone, Copy, Debug, PartialEq, Eq, Structural)]
pub enum ScopeProperty {
    OwnerTenantId,
    ResourceId,
}

/// How far a transaction is kept apart from others.
#[derive(Clone, Copy, Debug, PartialEq, Eq, Structural)]
pub enum Isolation {
    /// As far as the database does by default.
    BackendDefault,
    /// As if the transactions ran one after the other.
    Serializable,
}

/// What the policy is asked.
#[derive(Clone, Copy, Debug)]
pub struct AccessQuery {
    pub resource: ProtectedResource,
    pub action: &'static str,
    /// The group that the operation is about, where it is about one.
    pub resource_id: Option<Uuid>,
}

/// What a question to the policy holds.
pub struct QueryView {
    pub resource: ProtectedResource,
    pub action: Seq<char>,
    pub resource_id: Option<Uuid>,
}

impl View for AccessQuery {
    type V = QueryView;

    open spec fn view(&self) -> QueryView {
        QueryView {
            resource: self.resource,
            action: self.action@,
            resource_id: self.resource_id,
        }
    }
}

/// What an operation is done to.
pub open spec fn resource_of(op: Operation) -> ProtectedResource {
    match op {
        Operation::Group(_) => ProtectedResource::Group,
        _ => ProtectedResource::Membership,
    }
}

/// The action that an operation needs permission for.
pub open spec fn action_of(op: Operation) -> Seq<char> {
    match op {
        Operation::Group(GroupOperation::CreateGroup) => "create"@,
        Operation::Group(GroupOperation::GetGroup) => "get"@,
        Operation::Group(GroupOperation::ListGroups) => "list"@,
        Operation::Group(GroupOperation::GetDescendants) => "list"@,
        Operation::Group(GroupOperation::GetAncestors) => "list"@,
        Operation::Group(GroupOperation::UpdateGroup) => "update"@,
        Operation::Group(GroupOperation::MoveGroup) => "update"@,
        Operation::Group(GroupOperation::DeleteGroup) => "delete"@,
        Operation::AddMembership => "create"@,
        Operation::RemoveMembership => "delete"@,
        Operation::ListMemberships => "list"@,
    }
}

/// Whether the policy is asked about one group: not for a group that does not
/// exist yet, nor for a list, nor for memberships.
pub open spec fn is_about_one_group(op: Operation) -> bool {
    match op {
        Operation::Group(GroupOperation::CreateGroup) => false,
        Operation::Group(GroupOperation::ListGroups) => false,
        Operation::Group(_) => true,
        _ => false,
    }
}

/// What the policy is asked before an operation on this group.
pub open spec fn query_of(op: Operation, group_id: Uuid) -> QueryView {
    QueryView {
        resource: resource_of(op),
        action: action_of(op),
        resource_id: if is_about_one_group(op) {
            Some(group_id)
        } else {
            None
        },
    }
}

/// The isolation of an operation's transaction; none where it only reads.
pub open spec fn isolation_of(op: Operation) -> Option<Isolation> {
    match op {
        Operation::Group(GroupOperation::CreateGroup) => Some(Isolation::Serializable),
        Operation::Group(GroupOperation::MoveGroup) => Some(Isolation::Serializable),
        Operation::Group(GroupOperation::DeleteGroup) => Some(Isolation::Serializable),
        Operation::Group(GroupOperation::UpdateGroup) => Some(Isolation::BackendDefault),
        Operation::AddMembership => Some(Isolation::Serializable),
        Operation::RemoveMembership => Some(Isolation::BackendDefault),
        _ => None,
    }
}

/// The properties that the scope of a caller can be constrained by.
pub open spec fn properties_of(resource: ProtectedResource) -> Seq<ScopeProperty> {
    match resource {
        ProtectedResource::Group => seq![ScopeProperty::OwnerTenantId, ScopeProperty::ResourceId],
        ProtectedResource::Membership => seq![ScopeProperty::OwnerTenantId],
    }
}

/// What the policy is asked before an operation. `group_id` is the group that
/// the operation is about, and does not matter where it is about none.
pub fn access_query(op: Operation, group_id: Uuid) -> (r: AccessQuery)
    ensures
        r@ == query_of(op, group_id),
{
    let (resource, action, about_one): (ProtectedResource, &'static str, bool) = match op {
        Operation::Group(g) => {
            let (action, about_one): (&'static str, bool) = match g {
                GroupOperation::CreateGroup => ("create", false),
                GroupOperation::GetGroup => ("get", true),
                GroupOperation::ListGroups => ("list", false),
                GroupOperation::GetDescendants => ("list", true),
                GroupOperation::GetAncestors => ("list", true),
                GroupOperation::UpdateGroup => ("update", true),
                GroupOperation::MoveGroup => ("update", true),
                GroupOperation::DeleteGroup => ("delete", true),
            };
            (ProtectedResource::Group, action, about_one)
        },
        Operation::AddMembership => (ProtectedResource::Membership, "create", false),
        Operation::RemoveMembership => (ProtectedResource::Membership, "delete", false),
        Operation::ListMemberships => (ProtectedResource::Membership, "list", false),
    };
    AccessQuery {
        resource,
        action,
        resource_id: if about_one {
            Some(group_id)
        } else {
            None
        },
    }
}

/// The properties that the scope of a caller can be constrained by.
pub fn supported_properties(resource: ProtectedResource) -> (r: Vec<ScopeProperty>)
    ensures
        r@ == properties_of(resource),
{
    match resource {
        ProtectedResource::Group => vec![ScopeProperty::OwnerTenantId, ScopeProperty::ResourceId],
        ProtectedResource::Membership => vec![ScopeProperty::OwnerTenantId],
    }
}

/// The isolation of an operation's transaction; none where it only reads.
pub fn isolation(op: Operation) -> (r: Option<Isolation>)
    ensures
        r == isolation_of(op),
{
    match op {
        Operation::Group(g) => match g {
            GroupOperation::CreateGroup => Some(Isolation::Serializable),
            GroupOperation::MoveGroup => Some(Isolation::Serializable),
            GroupOperation::DeleteGroup => Some(Isolation::Serializable),
            GroupOperation::UpdateGroup => Some(Isolation::BackendDefault),
            GroupOperation::ListGroups => None,
            GroupOperation::GetGroup => None,
            GroupOperation::GetDescendants => None,
            GroupOperation::GetAncestors => None,
        },
        Operation::AddMembership => Some(Isolation::Serializable),
        Operation::RemoveMembership => Some(Isolation::BackendDefault),
        Operation::ListMemberships => None,
    }
}

/// How often a transaction is tried in all.
pub const MAX_ATTEMPTS: u32 = 3;

/// Whether a transaction that failed is tried again, given how often it was
/// tried and whether another one stood in its way.
pub fn tries_again(attempts: u32, contended: bool) -> (r: bool)
    ensures
        r == (contended && attempts < MAX_ATTEMPTS),
        r <==> contended && attempts < 3,
{
    contended && attempts < MAX_ATTEMPTS
}

// -- Laws --

/// Whoever may change a group may move it, and nobody else: a move asks the
/// policy exactly what an update asks.
pub proof fn move_asks_what_update_asks(group_id: Uuid)
    ensures
        query_of(Operation::Group(GroupOperation::MoveGroup), group_id) == query_of(
            Operation::Group(GroupOperation::UpdateGroup),
            group_id,
        ),
{
}

/// An operation on a group writes under full isolation exactly where it changes
/// the shape of the forest.
pub proof fn forest_changes_are_serializable(op: GroupOperation)
    ensures
        isolation_of(Operation::Group(op)) == Some(Isolation::Serializable) <==> (op
            is CreateGroup || op is MoveGroup || op is DeleteGroup),
{
}

/// The scope for an operation on memberships names tenants only, so that it can
/// be applied to the groups that the memberships are in.
pub proof fn membership_scope_names_tenants_only(op: Operation, k: int)
    requires
        resource_of(op) == ProtectedResource::Membership,
        0 <= k < properties_of(resource_of(op)).len(),
    ensures
        properties_of(resource_of(op))[k] == ScopeProperty::OwnerTenantId,
{
}

/// An operation that reads asks for permission to read, one that writes for
/// permission to write: what is listed is asked for as a list, what is made as a
/// create, what is taken away as a delete, and what stays as an update. A
/// membership is asked for as a membership, a group as a group.
pub proof fn action_says_what_is_done(op: Operation, group_id: Uuid)
    ensures
        query_of(op, group_id).action == "create"@ || query_of(op, group_id).action == "get"@
            || query_of(op, group_id).action == "list"@ || query_of(op, group_id).action
            == "update"@ || query_of(op, group_id).action == "delete"@,
        op matches Operation::Group(g) ==> query_of(op, group_id).resource
            == ProtectedResource::Group && query_of(op, group_id).action == match g {
            GroupOperation::CreateGroup => "create"@,
            GroupOperation::GetGroup => "get"@,
            GroupOperation::ListGroups
            | GroupOperation::GetDescendants
            | GroupOperation::GetAncestors => "list"@,
            GroupOperation::UpdateGroup | GroupOperation::MoveGroup => "update"@,
            GroupOperation::DeleteGroup => "delete"@,
        },
        !(op is Group) ==> query_of(op, group_id).resource == ProtectedResource::Membership,
        query_of(Operation::AddMembership, group_id).action == "create"@,
        query_of(Operation::RemoveMembership, group_id).action == "delete"@,
        query_of(Operation::ListMemberships, group_id).action == "list"@,
{
}

/// The policy is asked about the group that an operation names, wherever there is
/// one that exists already; about no group for a create, a list and memberships.
pub proof fn policy_is_asked_about_the_named_group(op: Operation, group_id: Uuid)
    ensures
        query_of(op, group_id).resource_id == match op {
            Operation::Group(g) => if g is CreateGroup || g is ListGroups {
                None
            } else {
                Some(group_id)
            },
            _ => None,
        },
{
}

/// What writes has a transaction, and what only reads has none; adding a
/// membership, which depends on others, is serializable, removing one is not.
pub proof fn writes_have_a_transaction(op: Operation)
    ensures
        isolation_of(op) is Some <==> (op is AddMembership || op is RemoveMembership || (
        op matches Operation::Group(g) && (g is CreateGroup || g is UpdateGroup || g is MoveGroup
            || g is DeleteGroup))),
        isolation_of(Operation::AddMembership) == Some(Isolation::Serializable),
        isolation_of(Operation::RemoveMembership) == Some(Isolation::BackendDefault),
        isolation_of(Operation::Group(GroupOperation::UpdateGroup)) == Some(
            Isolation::BackendDefault,
        ),
{
}

/// The scope for an operation on groups can be constrained by tenant and by
/// group, that for memberships by tenant.
pub proof fn scope_properties_are_those_of_the_resource(p: ScopeProperty)
    ensures
        properties_of(ProtectedResource::Group).contains(p),
        properties_of(ProtectedResource::Membership).contains(p) <==> p
            == ScopeProperty::OwnerTenantId,
{
    assert(properties_of(ProtectedResource::Group)[0] == ScopeProperty::OwnerTenantId);
    assert(properties_of(ProtectedResource::Group)[1] == ScopeProperty::ResourceId);
    assert(properties_of(ProtectedResource::Membership)[0] == ScopeProperty::OwnerTenantId);
}

} // verus!
