//! The operations on groups that the service publishes.

use vstd::prelude::*;

use crate::hierarchy_filter::FILTER_PARAM_DESCRIPTION;

verus! {

/// The tag of the operations in the published interface.
pub const API_TAG: &'static str = "Resource Groups";

/// An operation on groups.
#[derive(Clone, Copy, Debug, PartialEq, Eq, Structural)]
pub enum GroupOperation {
    ListGroups,
    CreateGroup,
    GetGroup,
    UpdateGroup,
    MoveGroup,
    DeleteGroup,
    GetDescendants,
    GetAncestors,
}

/// An HTTP method.
#[derive(Clone, Copy, Debug, PartialEq, Eq, Structural)]
pub enum HttpMethod {
    Get,
    Post,
    Put,
    Delete,
}

/// The body of a request.
#[derive(Clone, Copy, Debug, PartialEq, Eq, Structural)]
pub enum RequestBody {
    CreateGroup,
    UpdateGroup,
    MoveGroup,
}

/// The body of a successful answer.
#[derive(Clone, Copy, Debug, PartialEq, Eq, Structural)]
pub enum ResponseBody {
    GroupPage,
    Group,
    GroupWithDepthPage,
    Nothing,
}

/// The type of a query parameter.
#[derive(Clone, Copy, Debug, PartialEq, Eq, Structural)]
pub enum ParamType {
    Text,
    Integer,
    Boolean,
}

/// An optional query parameter.
#[derive(Clone, Copy, Debug)]
pub struct QueryParam {
    pub name: &'static str,
    pub description: &'static str,
    pub param_type: ParamType,
}

/// What a query parameter holds.
pub struct ParamView {
    pub name: Seq<char>,
    pub description: Seq<char>,
    pub param_type: ParamType,
}

/// What query parameters hold.
pub open spec fn param_views(params: Seq<QueryParam>) -> Seq<ParamView> {
    params.map_values(
        |p: QueryParam| (ParamView {
            name: p.name@,
            description: p.description@,
            param_type: p.param_type,
        }),
    )
}

/// A published operation.
#[derive(Debug)]
pub struct Route {
    pub operation: GroupOperation,
    pub method: HttpMethod,
    pub path: &'static str,
    pub operation_id: &'static str,
    pub summary: &'static str,
    pub description: &'static str,
    /// The tag under which the operation is published.
    pub tag: &'static str,
    /// Whether the caller must be authenticated.
    pub authenticated: bool,
    /// Whether the caller must hold a license.
    pub license_required: bool,
    /// The description of the path parameter `group_id`, where there is one.
    pub path_param: Option<&'static str>,
    pub query_params: Vec<QueryParam>,
    /// Whether the `$filter` over the fields of a group is published with every
    /// operator that the kind of each field has.
    pub generic_filter: bool,
    pub request: Option<(RequestBody, &'static str)>,
    pub response_status: u16,
    pub response_body: ResponseBody,
    pub response_description: &'static str,
    /// The statuses of the errors that an operation can end in.
    pub errors: Vec<u16>,
}

/// The HTTP method of an operation.
pub open spec fn method_of(op: GroupOperation) -> HttpMethod {
    match op {
        GroupOperation::ListGroups => HttpMethod::Get,
        GroupOperation::CreateGroup => HttpMethod::Post,
        GroupOperation::GetGroup => HttpMethod::Get,
        GroupOperation::UpdateGroup => HttpMethod::Put,
        GroupOperation::MoveGroup => HttpMethod::Post,
        GroupOperation::DeleteGroup => HttpMethod::Delete,
        GroupOperation::GetDescendants => HttpMethod::Get,
        GroupOperation::GetAncestors => HttpMethod::Get,
    }
}

/// The path of an operation.
pub open spec fn path_of(op: GroupOperation) -> Seq<char> {
    match op {
        GroupOperation::ListGroups => "/resource-group/v1/groups"@,
        GroupOperation::CreateGroup => "/resource-group/v1/groups"@,
        GroupOperation::GetGroup => "/resource-group/v1/groups/{group_id}"@,
        GroupOperation::UpdateGroup => "/resource-group/v1/groups/{group_id}"@,
        GroupOperation::MoveGroup => "/resource-group/v1/groups/{group_id}/move"@,
        GroupOperation::DeleteGroup => "/resource-group/v1/groups/{group_id}"@,
        GroupOperation::GetDescendants => "/resource-group/v1/groups/{group_id}/descendants"@,
        GroupOperation::GetAncestors => "/resource-group/v1/groups/{group_id}/ancestors"@,
    }
}

/// The identifier of an operation in the published interface.
pub open spec fn operation_id_of(op: GroupOperation) -> Seq<char> {
    match op {
        GroupOperation::ListGroups => "resource_group.list_groups"@,
        GroupOperation::CreateGroup => "resource_group.create_group"@,
        GroupOperation::GetGroup => "resource_group.get_group"@,
        GroupOperation::UpdateGroup => "resource_group.update_group"@,
        GroupOperation::MoveGroup => "resource_group.move_group"@,
        GroupOperation::DeleteGroup => "resource_group.delete_group"@,
        GroupOperation::GetDescendants => "resource_group.get_group_descendants"@,
        GroupOperation::GetAncestors => "resource_group.get_group_ancestors"@,
    }
}

/// The one-line summary of an operation.
pub open spec fn summary_of(op: GroupOperation) -> Seq<char> {
    match op {
        GroupOperation::ListGroups => "List resource groups"@,
        GroupOperation::CreateGroup => "Create a new resource group"@,
        GroupOperation::GetGroup => "Get resource group by ID"@,
        GroupOperation::UpdateGroup => "Update resource group"@,
        GroupOperation::MoveGroup => "Move resource group to a new parent"@,
        GroupOperation::DeleteGroup => "Delete resource group"@,
        GroupOperation::GetDescendants => "Get group descendants"@,
        GroupOperation::GetAncestors => "Get group ancestors"@,
    }
}

/// The description of an operation.
pub open spec fn description_of(op: GroupOperation) -> Seq<char> {
    match op {
        GroupOperation::ListGroups => "Retrieve a paginated list of resource groups with OData filtering"@,
        GroupOperation::CreateGroup => "Create a new resource group with the provided type, name, and optional parent"@,
        GroupOperation::GetGroup => "Retrieve a specific resource group by its UUID"@,
        GroupOperation::UpdateGroup => "Replace a resource group's ordinary attributes: `name` and `metadata`. Both keys are required -- an omitted key is a 400, not \"keep the stored value\"; send `\"metadata\": null` to clear the metadata. The group's `type` is immutable and its parent is not part of this payload: use POST /resource-group/v1/groups/{group_id}/move to re-parent a group. Unknown fields are rejected."@,
        GroupOperation::MoveGroup => "Atomically move a resource group -- and its entire subtree -- to a new parent, or to the forest root. `parent_id` is required: an explicit `null` means \"make this group a root\", while omitting the key is a 400. Cycle detection, parent-type compatibility, depth/width limits, tenant-root uniqueness and the closure-table rebuild all run inside one SERIALIZABLE transaction, so the group is never left detached from both parents. Cross-tenant moves are rejected."@,
        GroupOperation::DeleteGroup => "Delete a resource group. Use ?force=true to cascade delete subtree and memberships."@,
        GroupOperation::GetDescendants => "Get descendants of a reference group (depth >= 0) with OData filtering"@,
        GroupOperation::GetAncestors => "Get ancestors of a reference group (depth <= 0) with OData filtering"@,
    }
}

/// The description of the path parameter `group_id`, where an operation has it.
pub open spec fn path_param_of(op: GroupOperation) -> Option<Seq<char>> {
    match op {
        GroupOperation::ListGroups => None,
        GroupOperation::CreateGroup => None,
        GroupOperation::GetGroup => Some("Group UUID"@),
        GroupOperation::UpdateGroup => Some("Group UUID"@),
        GroupOperation::MoveGroup => Some("Group UUID"@),
        GroupOperation::DeleteGroup => Some("Group UUID"@),
        GroupOperation::GetDescendants => Some("Reference group UUID"@),
        GroupOperation::GetAncestors => Some("Reference group UUID"@),
    }
}

/// The body that an operation takes, with its description.
pub open spec fn request_of(op: GroupOperation) -> Option<(RequestBody, Seq<char>)> {
    match op {
        GroupOperation::ListGroups => None,
        GroupOperation::CreateGroup => Some((RequestBody::CreateGroup, "Group creation data"@)),
        GroupOperation::GetGroup => None,
        GroupOperation::UpdateGroup => Some((RequestBody::UpdateGroup, "Group update data"@)),
        GroupOperation::MoveGroup => Some((RequestBody::MoveGroup, "Move destination"@)),
        GroupOperation::DeleteGroup => None,
        GroupOperation::GetDescendants => None,
        GroupOperation::GetAncestors => None,
    }
}

/// The status of a successful answer.
pub open spec fn response_status_of(op: GroupOperation) -> u16 {
    match op {
        GroupOperation::ListGroups => 200,
        GroupOperation::CreateGroup => 201,
        GroupOperation::GetGroup => 200,
        GroupOperation::UpdateGroup => 200,
        GroupOperation::MoveGroup => 200,
        GroupOperation::DeleteGroup => 204,
        GroupOperation::GetDescendants => 200,
        GroupOperation::GetAncestors => 200,
    }
}

/// The body of a successful answer.
pub open spec fn response_body_of(op: GroupOperation) -> ResponseBody {
    match op {
        GroupOperation::ListGroups => ResponseBody::GroupPage,
        GroupOperation::CreateGroup => ResponseBody::Group,
        GroupOperation::GetGroup => ResponseBody::Group,
        GroupOperation::UpdateGroup => ResponseBody::Group,
        GroupOperation::MoveGroup => ResponseBody::Group,
        GroupOperation::DeleteGroup => ResponseBody::Nothing,
        GroupOperation::GetDescendants => ResponseBody::GroupWithDepthPage,
        GroupOperation::GetAncestors => ResponseBody::GroupWithDepthPage,
    }
}

/// The description of a successful answer.
pub open spec fn response_description_of(op: GroupOperation) -> Seq<char> {
    match op {
        GroupOperation::ListGroups => "Paginated list of resource groups"@,
        GroupOperation::CreateGroup => "Created resource group"@,
        GroupOperation::GetGroup => "Resource group found"@,
        GroupOperation::UpdateGroup => "Updated resource group"@,
        GroupOperation::MoveGroup => "Moved resource group"@,
        GroupOperation::DeleteGroup => "Group deleted successfully"@,
        GroupOperation::GetDescendants => "Paginated descendants with relative depth"@,
        GroupOperation::GetAncestors => "Paginated ancestors with relative depth"@,
    }
}

/// The query parameters of an operation.
pub open spec fn query_params_of(op: GroupOperation) -> Seq<ParamView> {
    match op {
        GroupOperation::ListGroups => seq![
            ParamView {
                name: "limit"@,
                description: "Maximum number of groups to return"@,
                param_type: ParamType::Integer,
            },
            ParamView {
                name: "cursor"@,
                description: "Cursor for pagination"@,
                param_type: ParamType::Text,
            },
        ],
        GroupOperation::DeleteGroup => seq![
            ParamView {
                name: "force"@,
                description: "Force cascade delete of subtree and memberships"@,
                param_type: ParamType::Boolean,
            },
        ],
        GroupOperation::GetDescendants | GroupOperation::GetAncestors => seq![
            ParamView {
                name: "limit"@,
                description: "Maximum entries to return"@,
                param_type: ParamType::Integer,
            },
            ParamView {
                name: "cursor"@,
                description: "Cursor for pagination"@,
                param_type: ParamType::Text,
            },
            ParamView {
                name: "$filter"@,
                description: FILTER_PARAM_DESCRIPTION@,
                param_type: ParamType::Text,
            },
        ],
        _ => Seq::empty(),
    }
}

/// The statuses of the errors that an operation can end in.
pub open spec fn errors_of(op: GroupOperation) -> Seq<u16> {
    match op {
        GroupOperation::ListGroups => seq![400, 401, 403, 500],
        GroupOperation::CreateGroup | GroupOperation::MoveGroup => seq![
            400,
            401,
            403,
            404,
            409,
            500,
        ],
        _ => seq![400, 401, 403, 404, 500],
    }
}

/// The operations, in the order in which they are published.
pub open spec fn operations() -> Seq<GroupOperation> {
    seq![
        GroupOperation::ListGroups,
        GroupOperation::CreateGroup,
        GroupOperation::GetGroup,
        GroupOperation::UpdateGroup,
        GroupOperation::MoveGroup,
        GroupOperation::DeleteGroup,
        GroupOperation::GetDescendants,
        GroupOperation::GetAncestors,
    ]
}

/// Whether a route publishes an operation.
pub open spec fn publishes(r: Route, op: GroupOperation) -> bool {
    &&& r.operation == op
    &&& r.method == method_of(op)
    &&& r.path@ == path_of(op)
    &&& r.operation_id@ == operation_id_of(op)
    &&& r.summary@ == summary_of(op)
    &&& r.description@ == description_of(op)
    &&& r.tag@ == API_TAG@
    &&& r.authenticated
    &&& !r.license_required
    &&& match (r.path_param, path_param_of(op)) {
        (Some(a), Some(b)) => a@ == b,
        (None, None) => true,
        _ => false,
    }
    &&& param_views(r.query_params@) == query_params_of(op)
    &&& r.generic_filter == (op == GroupOperation::ListGroups)
    &&& match (r.request, request_of(op)) {
        (Some(a), Some(b)) => a.0 == b.0 && a.1@ == b.1,
        (None, None) => true,
        _ => false,
    }
    &&& r.response_status == response_status_of(op)
    &&& r.response_body == response_body_of(op)
    &&& r.response_description@ == response_description_of(op)
    &&& r.errors@ == errors_of(op)
}

fn query_params(op: GroupOperation) -> (r: Vec<QueryParam>)
    ensures
        param_views(r@) == query_params_of(op),
{
    let mut out: Vec<QueryParam> = Vec::new();
    match op {
        GroupOperation::ListGroups => {
            out.push(
                QueryParam {
                    name: "limit",
                    description: "Maximum number of groups to return",
                    param_type: ParamType::Integer,
                },
            );
            out.push(
                QueryParam {
                    name: "cursor",
                    description: "Cursor for pagination",
                    param_type: ParamType::Text,
                },
            );
        },
        GroupOperation::DeleteGroup => {
            out.push(
                QueryParam {
                    name: "force",
                    description: "Force cascade delete of subtree and memberships",
                    param_type: ParamType::Boolean,
                },
            );
        },
        GroupOperation::GetDescendants | GroupOperation::GetAncestors => {
            out.push(
                QueryParam {
                    name: "limit",
                    description: "Maximum entries to return",
                    param_type: ParamType::Integer,
                },
            );
            out.push(
                QueryParam {
                    name: "cursor",
                    description: "Cursor for pagination",
                    param_type: ParamType::Text,
                },
            );
            out.push(
                QueryParam {
                    name: "$filter",
                    description: FILTER_PARAM_DESCRIPTION,
                    param_type: ParamType::Text,
                },
            );
        },
        _ => {},
    }
    proof {
        assert(param_views(out@) =~= query_params_of(op));
    }
    out
}

fn errors(op: GroupOperation) -> (r: Vec<u16>)
    ensures
        r@ == errors_of(op),
{
    let mut out: Vec<u16> = Vec::new();
    out.push(400);
    out.push(401);
    out.push(403);
    match op {
        GroupOperation::ListGroups => {},
        GroupOperation::CreateGroup | GroupOperation::MoveGroup => {
            out.push(404);
            out.push(409);
        },
        _ => {
            out.push(404);
        },
    }
    out.push(500);
    proof {
        assert(out@ =~= errors_of(op));
    }
    out
}

/// The route that publishes an operation.
pub fn route(op: GroupOperation) -> (r: Route)
    ensures
        publishes(r, op),
        r.operation == op,
        r.authenticated,
        !r.license_required,
        r.path_param is None <==> (op is ListGroups || op is CreateGroup),
        r.generic_filter <==> op is ListGroups,
        r.method == match op {
            GroupOperation::CreateGroup | GroupOperation::MoveGroup => HttpMethod::Post,
            GroupOperation::UpdateGroup => HttpMethod::Put,
            GroupOperation::DeleteGroup => HttpMethod::Delete,
            _ => HttpMethod::Get,
        },
        r.response_status == match op {
            GroupOperation::CreateGroup => 201u16,
            GroupOperation::DeleteGroup => 204u16,
            _ => 200u16,
        },
{
    match op {
        GroupOperation::ListGroups => Route {
            operation: op,
            method: HttpMethod::Get,
            path: "/resource-group/v1/groups",
            operation_id: "resource_group.list_groups",
            summary: "List resource groups",
            description: "Retrieve a paginated list of resource groups with OData filtering",
            tag: API_TAG,
            authenticated: true,
            license_required: false,
            path_param: None,
            request: None,
            response_status: 200,
            response_body: ResponseBody::GroupPage,
            response_description: "Paginated list of resource groups",
            query_params: query_params(op),
            generic_filter: true,
            errors: errors(op),
        },
        GroupOperation::CreateGroup => Route {
            operation: op,
            method: HttpMethod::Post,
            path: "/resource-group/v1/groups",
            operation_id: "resource_group.create_group",
            summary: "Create a new resource group",
            description: "Create a new resource group with the provided type, name, and optional parent",
            tag: API_TAG,
            authenticated: true,
            license_required: false,
            path_param: None,
            request: Some((RequestBody::CreateGroup, "Group creation data")),
            response_status: 201,
            response_body: ResponseBody::Group,
            response_description: "Created resource group",
            query_params: query_params(op),
            generic_filter: false,
            errors: errors(op),
        },
        GroupOperation::GetGroup => Route {
            operation: op,
            method: HttpMethod::Get,
            path: "/resource-group/v1/groups/{group_id}",
            operation_id: "resource_group.get_group",
            summary: "Get resource group by ID",
            description: "Retrieve a specific resource group by its UUID",
            tag: API_TAG,
            authenticated: true,
            license_required: false,
            path_param: Some("Group UUID"),
            request: None,
            response_status: 200,
            response_body: ResponseBody::Group,
            response_description: "Resource group found",
            query_params: query_params(op),
            generic_filter: false,
            errors: errors(op),
        },
        GroupOperation::UpdateGroup => Route {
            operation: op,
            method: HttpMethod::Put,
            path: "/resource-group/v1/groups/{group_id}",
            operation_id: "resource_group.update_group",
            summary: "Update resource group",
            description: "Replace a resource group's ordinary attributes: `name` and `metadata`. Both keys are required -- an omitted key is a 400, not \"keep the stored value\"; send `\"metadata\": null` to clear the metadata. The group's `type` is immutable and its parent is not part of this payload: use POST /resource-group/v1/groups/{group_id}/move to re-parent a group. Unknown fields are rejected.",
            tag: API_TAG,
            authenticated: true,
            license_required: false,
            path_param: Some("Group UUID"),
            request: Some((RequestBody::UpdateGroup, "Group update data")),
            response_status: 200,
            response_body: ResponseBody::Group,
            response_description: "Updated resource group",
            query_params: query_params(op),
            generic_filter: false,
            errors: errors(op),
        },
        GroupOperation::MoveGroup => Route {
            operation: op,
            method: HttpMethod::Post,
            path: "/resource-group/v1/groups/{group_id}/move",
            operation_id: "resource_group.move_group",
            summary: "Move resource group to a new parent",
            description: "Atomically move a resource group -- and its entire subtree -- to a new parent, or to the forest root. `parent_id` is required: an explicit `null` means \"make this group a root\", while omitting the key is a 400. Cycle detection, parent-type compatibility, depth/width limits, tenant-root uniqueness and the closure-table rebuild all run inside one SERIALIZABLE transaction, so the group is never left detached from both parents. Cross-tenant moves are rejected.",
            tag: API_TAG,
            authenticated: true,
            license_required: false,
            path_param: Some("Group UUID"),
            request: Some((RequestBody::MoveGroup, "Move destination")),
            response_status: 200,
            response_body: ResponseBody::Group,
            response_description: "Moved resource group",
            query_params: query_params(op),
            generic_filter: false,
            errors: errors(op),
        },
        GroupOperation::DeleteGroup => Route {
            operation: op,
            method: HttpMethod::Delete,
            path: "/resource-group/v1/groups/{group_id}",
            operation_id: "resource_group.delete_group",
            summary: "Delete resource group",
            description: "Delete a resource group. Use ?force=true to cascade delete subtree and memberships.",
            tag: API_TAG,
            authenticated: true,
            license_required: false,
            path_param: Some("Group UUID"),
            request: None,
            response_status: 204,
            response_body: ResponseBody::Nothing,
            response_description: "Group deleted successfully",
            query_params: query_params(op),
            generic_filter: false,
            errors: errors(op),
        },
        GroupOperation::GetDescendants => Route {
            operation: op,
            method: HttpMethod::Get,
            path: "/resource-group/v1/groups/{group_id}/descendants",
            operation_id: "resource_group.get_group_descendants",
            summary: "Get group descendants",
            description: "Get descendants of a reference group (depth >= 0) with OData filtering",
            tag: API_TAG,
            authenticated: true,
            license_required: false,
            path_param: Some("Reference group UUID"),
            request: None,
            response_status: 200,
            response_body: ResponseBody::GroupWithDepthPage,
            response_description: "Paginated descendants with relative depth",
            query_params: query_params(op),
            generic_filter: false,
            errors: errors(op),
        },
        GroupOperation::GetAncestors => Route {
            operation: op,
            method: HttpMethod::Get,
            path: "/resource-group/v1/groups/{group_id}/ancestors",
            operation_id: "resource_group.get_group_ancestors",
            summary: "Get group ancestors",
            description: "Get ancestors of a reference group (depth <= 0) with OData filtering",
            tag: API_TAG,
            authenticated: true,
            license_required: false,
            path_param: Some("Reference group UUID"),
            request: None,
            response_status: 200,
            response_body: ResponseBody::GroupWithDepthPage,
            response_description: "Paginated ancestors with relative depth",
            query_params: query_params(op),
            generic_filter: false,
            errors: errors(op),
        },
    }
}

/// The routes of all operations, in the order in which they are published.
pub fn register_group_routes() -> (r: Vec<Route>)
    ensures
        r@.len() == operations().len(),
        forall|i: int| 0 <= i < operations().len() ==> publishes(#[trigger] r@[i], operations()[i]),
{
    let mut out: Vec<Route> = Vec::new();
    out.push(route(GroupOperation::ListGroups));
    out.push(route(GroupOperation::CreateGroup));
    out.push(route(GroupOperation::GetGroup));
    out.push(route(GroupOperation::UpdateGroup));
    out.push(route(GroupOperation::MoveGroup));
    out.push(route(GroupOperation::DeleteGroup));
    out.push(route(GroupOperation::GetDescendants));
    out.push(route(GroupOperation::GetAncestors));
    out
}

// -- Laws --

/// Every refusal of a create is answered with a status that the operation
/// publishes.
pub proof fn create_answers_as_published(
    cmd: crate::group_service::CommandView,
    group_id: crate::ids::Uuid,
    profile: crate::group_service::QueryProfile,
    facts: crate::group_service::CreateFacts,
    e: crate::error::ErrorView,
)
    requires
        crate::group_service::create_step(cmd, group_id, profile, facts)
            == crate::group_service::Decision::<
            crate::group_service::CreateNeed,
            crate::group_service::InsertView,
        >::Reject(e),
    ensures
        errors_of(GroupOperation::CreateGroup).contains(
            crate::canonical::status(crate::canonical::answer_of(e)),
        ),
{
    lemma_published(GroupOperation::CreateGroup);
}

/// Every refusal of a move is answered with a status that the operation
/// publishes.
pub proof fn move_answers_as_published(
    group_id: crate::ids::Uuid,
    new_parent_id: Option<crate::ids::Uuid>,
    profile: crate::group_service::QueryProfile,
    facts: crate::group_service::MoveFacts,
    e: crate::error::ErrorView,
)
    requires
        crate::group_service::move_step(group_id, new_parent_id, profile, facts)
            == crate::group_service::Decision::<
            crate::group_service::MoveNeed,
            crate::group_service::MovePlan,
        >::Reject(e),
    ensures
        errors_of(GroupOperation::MoveGroup).contains(
            crate::canonical::status(crate::canonical::answer_of(e)),
        ),
{
    lemma_published(GroupOperation::MoveGroup);
}

/// Every refusal of a delete is answered with a status that the operation
/// publishes; a group that something refers to is no conflict but a broken
/// precondition, so no delete is answered with 409.
pub proof fn delete_answers_as_published(
    group_id: crate::ids::Uuid,
    force: bool,
    facts: crate::group_service::DeleteFacts,
    e: crate::error::ErrorView,
)
    requires
        crate::group_service::is_delete_step(
            crate::group_service::Decision::<
                crate::group_service::DeleteNeed,
                crate::group_service::DeleteView,
            >::Reject(e),
            group_id,
            force,
            facts,
        ),
    ensures
        errors_of(GroupOperation::DeleteGroup).contains(
            crate::canonical::status(crate::canonical::answer_of(e)),
        ),
        crate::canonical::status(crate::canonical::answer_of(e)) != 409,
{
    lemma_published(GroupOperation::DeleteGroup);
}

/// Every refusal of a create before its transaction is answered with a status
/// that the operation publishes.
pub proof fn create_gate_answers_as_published(
    req: crate::models::CreateGroupRequest,
    caller_tenant: crate::ids::Uuid,
    scope: Option<crate::group_service::AccessScope>,
    schema: Option<crate::validation::SchemaLookup>,
    e: crate::error::ErrorView,
)
    requires
        crate::group_service::is_create_gate(
            crate::group_service::Decision::Reject(e),
            req,
            caller_tenant,
            scope,
            schema,
        ),
    ensures
        errors_of(GroupOperation::CreateGroup).contains(
            crate::canonical::status(crate::canonical::answer_of(e)),
        ),
{
    lemma_published(GroupOperation::CreateGroup);
}

/// Every refusal of an update is answered with a status that the operation
/// publishes; it writes nothing that could be taken, so none is 409.
pub proof fn update_answers_as_published(
    group_id: crate::ids::Uuid,
    req: crate::models::UpdateGroupRequest,
    group_code: Option<Option<Seq<char>>>,
    schema: Option<crate::validation::SchemaLookup>,
    e: crate::error::ErrorView,
)
    requires
        crate::group_service::is_update_step(
            crate::group_service::Decision::Reject(e),
            group_id,
            req,
            group_code,
            schema,
        ),
    ensures
        errors_of(GroupOperation::UpdateGroup).contains(
            crate::canonical::status(crate::canonical::answer_of(e)),
        ),
        crate::canonical::status(crate::canonical::answer_of(e)) != 409,
{
    lemma_published(GroupOperation::UpdateGroup);
}

proof fn lemma_published(op: GroupOperation)
    ensures
        errors_of(op).contains(400),
        op != GroupOperation::ListGroups ==> errors_of(op).contains(404),
        op == GroupOperation::CreateGroup || op == GroupOperation::MoveGroup ==> errors_of(
            op,
        ).contains(409),
{
    assert(errors_of(op)[0] == 400);
    if op != GroupOperation::ListGroups {
        assert(errors_of(op)[3] == 404);
    }
    if op == GroupOperation::CreateGroup || op == GroupOperation::MoveGroup {
        assert(errors_of(op)[4] == 409);
    }
}

/// No two operations share a method and a path, nor an identifier.
pub proof fn routes_are_told_apart(a: GroupOperation, b: GroupOperation)
    requires
        a != b,
    ensures
        method_of(a) != method_of(b) || path_of(a) != path_of(b),
        operation_id_of(a) != operation_id_of(b),
{
    reveal_strlit("/resource-group/v1/groups");
    reveal_strlit("/resource-group/v1/groups/{group_id}");
    reveal_strlit("/resource-group/v1/groups/{group_id}/move");
    reveal_strlit("/resource-group/v1/groups/{group_id}/descendants");
    reveal_strlit("/resource-group/v1/groups/{group_id}/ancestors");
    reveal_strlit("resource_group.list_groups");
    reveal_strlit("resource_group.create_group");
    reveal_strlit("resource_group.get_group");
    reveal_strlit("resource_group.update_group");
    reveal_strlit("resource_group.move_group");
    reveal_strlit("resource_group.delete_group");
    reveal_strlit("resource_group.get_group_descendants");
    reveal_strlit("resource_group.get_group_ancestors");
    assert("/resource-group/v1/groups"@.len() == 25);
    assert("/resource-group/v1/groups/{group_id}"@.len() == 36);
    assert("/resource-group/v1/groups/{group_id}/move"@.len() == 41);
    assert("/resource-group/v1/groups/{group_id}/descendants"@.len() == 48);
    assert("/resource-group/v1/groups/{group_id}/ancestors"@.len() == 46);
    assert("resource_group.list_groups"@.len() == 26);
    assert("resource_group.create_group"@.len() == 27);
    assert("resource_group.get_group"@.len() == 24);
    assert("resource_group.update_group"@.len() == 27);
    assert("resource_group.move_group"@.len() == 25);
    assert("resource_group.delete_group"@.len() == 27);
    assert("resource_group.get_group_descendants"@.len() == 36);
    assert("resource_group.get_group_ancestors"@.len() == 34);
    assert("resource_group.create_group"@[15] == 'c');
    assert("resource_group.update_group"@[15] == 'u');
    assert("resource_group.delete_group"@[15] == 'd');
}

/// An operation is published as what it does: what reads with `GET`, what makes
/// something or moves it with `POST`, what replaces with `PUT`, what takes away
/// with `DELETE`; it takes a body exactly where it is told something, and has the
/// path parameter exactly where it is about one group.
pub proof fn operation_is_published_as_what_it_does(op: GroupOperation)
    ensures
        method_of(op) == HttpMethod::Get <==> (op is ListGroups || op is GetGroup || op
            is GetDescendants || op is GetAncestors),
        method_of(op) == HttpMethod::Post <==> (op is CreateGroup || op is MoveGroup),
        method_of(op) == HttpMethod::Put <==> op is UpdateGroup,
        method_of(op) == HttpMethod::Delete <==> op is DeleteGroup,
        request_of(op) is Some <==> (op is CreateGroup || op is UpdateGroup || op is MoveGroup),
        request_of(op) matches Some(body) ==> match body.0 {
            RequestBody::CreateGroup => op is CreateGroup,
            RequestBody::UpdateGroup => op is UpdateGroup,
            RequestBody::MoveGroup => op is MoveGroup,
        },
        path_param_of(op) is Some <==> !(op is ListGroups || op is CreateGroup),
        response_body_of(op) == ResponseBody::Nothing <==> response_status_of(op) == 204,
        response_status_of(op) == 204 <==> op is DeleteGroup,
        response_status_of(op) == 201 <==> op is CreateGroup,
        response_status_of(op) == 200 || response_status_of(op) == 201 || response_status_of(op)
            == 204,
        response_body_of(op) == ResponseBody::GroupPage <==> op is ListGroups,
        response_body_of(op) == ResponseBody::GroupWithDepthPage <==> (op is GetDescendants || op
            is GetAncestors),
{
}

/// Every operation can be refused as malformed, unauthenticated or denied, and can
/// fail; one that is about a group that has to exist can miss it, and only one
/// that makes or moves a group can meet another in its way.
pub proof fn published_errors_are_those_that_can_come(op: GroupOperation, status: u16)
    ensures
        errors_of(op).contains(status) <==> {
            ||| status == 400
            ||| status == 401
            ||| status == 403
            ||| status == 404 && !(op is ListGroups)
            ||| status == 409 && (op is CreateGroup || op is MoveGroup)
            ||| status == 500
        },
{
    let e = errors_of(op);
    assert(e[0] == 400 && e[1] == 401 && e[2] == 403);
    assert(e[e.len() - 1] == 500);
    if !(op is ListGroups) {
        assert(e[3] == 404);
    }
    if op is CreateGroup || op is MoveGroup {
        assert(e[4] == 409);
    }
}

/// A list can be paged and a hierarchy filtered; a delete can be forced; nothing
/// else takes a parameter.
pub proof fn query_parameters_are_those_of_the_operation(op: GroupOperation)
    ensures
        op is ListGroups ==> query_params_of(op).len() == 2 && query_params_of(op)[0].name
            == "limit"@ && query_params_of(op)[1].name == "cursor"@,
        op is GetDescendants || op is GetAncestors ==> query_params_of(op).len() == 3
            && query_params_of(op)[0].name == "limit"@ && query_params_of(op)[1].name == "cursor"@
            && query_params_of(op)[2].name == "$filter"@,
        op is DeleteGroup ==> query_params_of(op).len() == 1 && query_params_of(op)[0].name
            == "force"@ && query_params_of(op)[0].param_type == ParamType::Boolean,
        query_params_of(op).len() == 0 <==> (op is CreateGroup || op is GetGroup || op is UpdateGroup
            || op is MoveGroup),
{
}

} // verus!
