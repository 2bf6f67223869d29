//! The rules for creating, changing, moving and deleting groups.
//!
//! Each operation is a function from what is known so far to what to do next:
//! to read one more thing, to refuse, or to write. What was read is handed back
//! and the function is asked again, so that nothing is read that the decision
//! does not need, and every refusal comes before the first write.

use vstd::prelude::*;
use vstd::string::*;

use crate::error::DomainError;
use crate::ids::{fresh_uuid, uuid_text, Uuid};
use crate::models::{CreateGroupRequest, ResourceGroup, ResourceGroupType, UpdateGroupRequest};
use crate::rows::GroupRow;
use crate::text::{
    concat2, concat3, concat5, decimal_i64, decimal_u64, join_texts, lists_text,
};
use crate::validation::{
    canonical_type_code, is_tenant_type_code, validate_metadata_via_gts, SchemaLookup,
};

verus! {

/// How deep and how wide the forest may grow.
#[derive(Clone, Copy, Debug, PartialEq, Eq, Structural)]
pub struct QueryProfile {
    /// The depth that no group may reach; none for no limit.
    pub max_depth: Option<u32>,
    /// How many children a group may have; none for no limit.
    pub max_width: Option<u32>,
}

impl Default for QueryProfile {
    fn default() -> (r: Self)
        ensures
            r.max_depth == Some(10u32),
            r.max_width is None,
    {
        QueryProfile { max_depth: Some(10), max_width: None }
    }
}

/// The rules of groups, under one profile.
#[derive(Clone, Copy, Debug)]
pub struct GroupService {
    pub profile: QueryProfile,
}

/// What an operation does next: read what `N` names, refuse, or do what `P`
/// describes.
#[derive(Debug)]
pub enum Step<N, P> {
    Need(N),
    Reject(DomainError),
    Commit(P),
}

/// What a step holds.
pub enum Decision<N, P> {
    Need(N),
    Reject(crate::error::ErrorView),
    Commit(P),
}

impl<N, P: View> View for Step<N, P> {
    type V = Decision<N, P::V>;

    open spec fn view(&self) -> Decision<N, P::V> {
        match *self {
            Step::Need(n) => Decision::Need(n),
            Step::Reject(e) => Decision::Reject(e@),
            Step::Commit(p) => Decision::Commit(p@),
        }
    }
}

/// Which owner tenants a caller may act in.
#[derive(Debug)]
pub struct AccessScope {
    /// Whether the caller may act in every tenant.
    pub unconstrained: bool,
    /// The tenants that the scope names one by one. A subtree of tenants that
    /// the scope names by its root is not among them.
    pub owner_tenant_ids: Vec<Uuid>,
}

/// Whether a scope covers a tenant.
pub open spec fn covers(scope: AccessScope, tenant_id: Uuid) -> bool {
    scope.unconstrained || scope.owner_tenant_ids@.contains(tenant_id)
}

impl AccessScope {
    /// Whether the scope covers a tenant.
    pub fn permits(&self, tenant_id: Uuid) -> (r: bool)
        ensures
            r == covers(*self, tenant_id),
    {
        if self.unconstrained {
            return true;
        }
        let mut i: usize = 0;
        while i < self.owner_tenant_ids.len()
            invariant
                i <= self.owner_tenant_ids.len(),
                forall|k: int| 0 <= k < i ==> (#[trigger] self.owner_tenant_ids@[k]) != tenant_id,
            decreases self.owner_tenant_ids.len() - i,
        {
            if self.owner_tenant_ids[i] == tenant_id {
                return true;
            }
            i = i + 1;
        }
        false
    }
}

// -- Names --

/// Whether a display name has 1 to 255 characters.
pub open spec fn is_name(name: Seq<char>) -> bool {
    1 <= name.len() <= 255
}

/// The refusal of a display name.
pub open spec fn name_refusal() -> crate::error::ErrorView {
    crate::error::invalid("Group name must be between 1 and 255 characters"@)
}

impl GroupService {
    /// The rules under a profile.
    pub fn new(profile: QueryProfile) -> (r: Self)
        ensures
            r.profile == profile,
    {
        GroupService { profile }
    }

    fn validate_name(name: &str) -> (r: Result<(), DomainError>)
        ensures
            r is Ok <==> is_name(name@),
            r matches Err(e) ==> e@ == name_refusal(),
    {
        if name.is_empty() || name.unicode_len() > 255 {
            return Err(
                DomainError::validation(
                    "Group name must be between 1 and 255 characters".to_owned(),
                ),
            );
        }
        Ok(())
    }

    fn reject_tenant_id_on_tenant_type(is_tenant: bool, tenant_id: Option<Uuid>) -> (r: Result<
        (),
        DomainError,
    >)
        ensures
            r is Ok <==> !(is_tenant && tenant_id is Some),
            r matches Err(e) ==> e@ == tenant_id_refusal(),
    {
        if is_tenant && tenant_id.is_some() {
            return Err(
                DomainError::validation(
                    "tenant_id must not be set when creating a tenant-typed group: its tenant scope is always the group's own id, never a caller-supplied value".to_owned(),
                ),
            );
        }
        Ok(())
    }

    /// The group that was found, or the refusal that names it. A group that
    /// the caller may not see was not found.
    pub fn get_group(found: Option<ResourceGroup>, group_id: Uuid) -> (r: Result<
        ResourceGroup,
        DomainError,
    >)
        ensures
            match found {
                Some(g) => r == Ok::<ResourceGroup, DomainError>(g),
                None => r matches Err(e) && e@ == (crate::error::ErrorView::GroupNotFound {
                    id: group_id,
                }),
            },
    {
        match found {
            Some(g) => Ok(g),
            None => Err(DomainError::group_not_found(group_id)),
        }
    }

    /// The group that was written, or the failure that it is not there.
    pub fn created_group(found: Option<ResourceGroup>) -> (r: Result<ResourceGroup, DomainError>)
        ensures
            match found {
                Some(g) => r == Ok::<ResourceGroup, DomainError>(g),
                None => r matches Err(e) && e@ == crate::error::database_error(
                    "Insert succeeded but group not found"@,
                ),
            },
    {
        match found {
            Some(g) => Ok(g),
            None => Err(DomainError::database("Insert succeeded but group not found".to_owned())),
        }
    }
}

// -- Creating a group: before the transaction --

/// The refusal of a tenant on a group that is its own tenant.
pub open spec fn tenant_id_refusal() -> crate::error::ErrorView {
    crate::error::invalid(
        "tenant_id must not be set when creating a tenant-typed group: its tenant scope is always the group's own id, never a caller-supplied value"@,
    )
}

/// What the policy is asked about a create.
#[derive(Clone, Copy, Debug, PartialEq, Eq)]
pub struct CreateAccessRequest {
    /// Whether the group is to be a tenant of its own.
    pub is_tenant: bool,
    pub parent_id: Option<Uuid>,
    /// The tenant that the group is to be created in.
    pub owner_tenant_id: Uuid,
}

/// What a create needs before its transaction.
#[derive(Debug)]
pub enum CreateGate {
    /// The caller's scope for this create.
    Scope(CreateAccessRequest),
    /// What the types registry has for the group's type.
    Schema,
}

/// A create that may go into its transaction.
#[derive(Debug)]
pub struct CreateCommand {
    pub id: Option<Uuid>,
    /// The path of the group's type, in canonical form.
    pub code: String,
    pub name: String,
    pub parent_id: Option<Uuid>,
    /// The tenant to create the group in.
    pub tenant_id: Uuid,
    pub metadata: Option<serde_json::Value>,
}

/// What a create command holds.
pub struct CommandView {
    pub id: Option<Uuid>,
    pub code: Seq<char>,
    pub name: Seq<char>,
    pub parent_id: Option<Uuid>,
    pub tenant_id: Uuid,
    pub metadata: Option<serde_json::Value>,
}

impl View for CreateCommand {
    type V = CommandView;

    open spec fn view(&self) -> CommandView {
        CommandView {
            id: self.id,
            code: self.code@,
            name: self.name@,
            parent_id: self.parent_id,
            tenant_id: self.tenant_id,
            metadata: self.metadata,
        }
    }
}

/// The tenant that a create is aimed at.
pub open spec fn target_tenant(req: CreateGroupRequest, caller_tenant: Uuid) -> Uuid {
    match req.tenant_id {
        Some(t) => t,
        None => caller_tenant,
    }
}

/// Why a create is refused on the request alone, where it is.
pub open spec fn create_refusal(req: CreateGroupRequest) -> Option<crate::error::ErrorView> {
    match crate::validation::type_code_refusal(req.code@) {
        Some(message) => Some(crate::error::invalid(message)),
        None => if !is_name(req.name@) {
            Some(name_refusal())
        } else if crate::validation::is_tenant_code(req.code@) && req.tenant_id is Some {
            Some(tenant_id_refusal())
        } else {
            None
        },
    }
}

/// The refusal of an explicit identifier in a foreign tenant.
pub open spec fn id_and_tenant_refusal() -> crate::error::ErrorView {
    crate::error::invalid(
        "id and tenant_id cannot both be set on group creation: an explicit id combined with a cross-tenant target is not accepted while identifier ownership policy is undecided (VHP-2343)"@,
    )
}

/// What the policy is asked about a create.
pub open spec fn access_request(req: CreateGroupRequest, caller_tenant: Uuid) -> CreateAccessRequest {
    CreateAccessRequest {
        is_tenant: crate::validation::is_tenant_code(req.code@),
        parent_id: req.parent_id,
        owner_tenant_id: target_tenant(req, caller_tenant),
    }
}

/// The command that an admitted create becomes.
pub open spec fn command_of(req: CreateGroupRequest, tenant_id: Uuid) -> CommandView {
    CommandView {
        id: req.id,
        code: crate::validation::canonical(req.code@),
        name: req.name@,
        parent_id: req.parent_id,
        tenant_id,
        metadata: req.metadata,
    }
}

/// Whether a command is the one that a request asks for.
pub open spec fn is_command_for(cmd: CreateCommand, req: CreateGroupRequest) -> bool {
    &&& cmd.id == req.id
    &&& cmd.code@ == crate::validation::canonical(req.code@)
    &&& cmd.name@ == req.name@
    &&& cmd.parent_id == req.parent_id
    &&& req.tenant_id matches Some(t) ==> cmd.tenant_id == t
    &&& cmd.metadata == req.metadata
}

/// Whether `d` is the right step for a request that needs no more than its
/// metadata checked: the registry is asked where there are metadata, they are
/// refused where it does not accept them, and else `commit` is due.
pub open spec fn is_metadata_step<N, P>(
    d: Decision<N, P>,
    need: N,
    commit: P,
    metadata: Option<serde_json::Value>,
    code: Seq<char>,
    schema: Option<SchemaLookup>,
) -> bool {
    if metadata is Some && schema is None {
        d == Decision::<N, P>::Need(need)
    } else if metadata is None || crate::validation::registry_accepts(metadata, schema->0) {
        d == Decision::<N, P>::Commit(commit)
    } else {
        d matches Decision::Reject(e) && crate::validation::is_registry_refusal(
            e,
            metadata->0,
            code,
            schema->0,
        )
    }
}

/// Whether `d` is what a create does next before its transaction, given the
/// caller's scope and the registry's answer as far as they are known.
pub open spec fn is_create_gate(
    d: Decision<CreateGate, CommandView>,
    req: CreateGroupRequest,
    caller_tenant: Uuid,
    scope: Option<AccessScope>,
    schema: Option<SchemaLookup>,
) -> bool {
    let target = target_tenant(req, caller_tenant);
    match create_refusal(req) {
        Some(e) => d == Decision::<CreateGate, CommandView>::Reject(e),
        None => if req.id is Some && target != caller_tenant {
            d == Decision::<CreateGate, CommandView>::Reject(id_and_tenant_refusal())
        } else if scope is None {
            d == Decision::<CreateGate, CommandView>::Need(
                CreateGate::Scope(access_request(req, caller_tenant)),
            )
        } else if target != caller_tenant && !covers(scope->0, target) {
            d == Decision::<CreateGate, CommandView>::Reject(
                crate::error::ErrorView::TenantNotFound { tenant_id: target },
            )
        } else {
            is_metadata_step(
                d,
                CreateGate::Schema,
                command_of(req, target),
                req.metadata,
                crate::validation::canonical(req.code@),
                schema,
            )
        },
    }
}

/// A copy of optional metadata.
fn copy_json(v: &Option<serde_json::Value>) -> (r: Option<serde_json::Value>)
    ensures
        r == *v,
{
    match v {
        Some(x) => Some(x.clone()),
        None => None,
    }
}

/// The metadata check of a request, given what is known of the registry.
fn metadata_step(
    metadata: &Option<serde_json::Value>,
    code: &str,
    schema: Option<&SchemaLookup>,
) -> (r: Option<Result<(), DomainError>>)
    ensures
        match r {
            None => *metadata is Some && schema is None,
            Some(Ok(())) => *metadata is None || (schema is Some
                && crate::validation::registry_accepts(*metadata, *schema->0)),
            Some(Err(e)) => *metadata is Some && schema is Some
                && !crate::validation::registry_accepts(*metadata, *schema->0)
                && crate::validation::is_registry_refusal(
                e@,
                metadata->0,
                code@,
                *schema->0,
            ),
        },
{
    match metadata {
        None => Some(Ok(())),
        Some(m) => match schema {
            None => None,
            Some(lookup) => Some(validate_metadata_via_gts(Some(m), code, lookup)),
        },
    }
}

impl GroupService {
    /// What a create does before its transaction, given the caller's scope and
    /// the registry's answer as far as they are known.
    ///
    /// The request is checked first; then the policy decides; a target tenant
    /// other than the caller's own must be covered by the scope, and is not
    /// found otherwise; then the metadata are checked.
    pub fn create_group(
        req: &CreateGroupRequest,
        caller_tenant: Uuid,
        scope: Option<&AccessScope>,
        schema: Option<&SchemaLookup>,
    ) -> (r: Step<CreateGate, CreateCommand>)
        ensures
            is_create_gate(
                r@,
                *req,
                caller_tenant,
                match scope {
                    Some(s) => Some(*s),
                    None => None,
                },
                match schema {
                    Some(s) => Some(*s),
                    None => None,
                },
            ),
            r matches Step::Commit(cmd) ==> {
                &&& is_command_for(cmd, *req)
                &&& req.tenant_id is None ==> cmd.tenant_id == caller_tenant
            },
    {
        let code: String = match canonical_type_code(req.code.as_str()) {
            Ok(code) => code,
            Err(e) => {
                return Step::Reject(e);
            },
        };
        if let Err(e) = Self::validate_name(req.name.as_str()) {
            return Step::Reject(e);
        }
        let is_tenant: bool = is_tenant_type_code(code.as_str());
        if let Err(e) = Self::reject_tenant_id_on_tenant_type(is_tenant, req.tenant_id) {
            return Step::Reject(e);
        }
        let target: Uuid = match req.tenant_id {
            Some(t) => t,
            None => caller_tenant,
        };
        if req.id.is_some() && target != caller_tenant {
            return Step::Reject(
                DomainError::validation(
                    "id and tenant_id cannot both be set on group creation: an explicit id combined with a cross-tenant target is not accepted while identifier ownership policy is undecided (VHP-2343)".to_owned(),
                ),
            );
        }
        let scope: &AccessScope = match scope {
            Some(s) => s,
            None => {
                return Step::Need(
                    CreateGate::Scope(
                        CreateAccessRequest {
                            is_tenant,
                            parent_id: req.parent_id,
                            owner_tenant_id: target,
                        },
                    ),
                );
            },
        };
        if target != caller_tenant && !scope.permits(target) {
            return Step::Reject(DomainError::tenant_not_found(target));
        }
        match metadata_step(&req.metadata, code.as_str(), schema) {
            None => Step::Need(CreateGate::Schema),
            Some(Err(e)) => Step::Reject(e),
            Some(Ok(())) => Step::Commit(
                CreateCommand {
                    id: req.id,
                    code,
                    name: req.name.clone(),
                    parent_id: req.parent_id,
                    tenant_id: target,
                    metadata: copy_json(&req.metadata),
                },
            ),
        }
    }

    /// What a create on behalf of the service itself does before its
    /// transaction: no policy is asked. A tenant in the request must agree with
    /// the trusted one.
    pub fn create_group_unscoped(
        req: &CreateGroupRequest,
        tenant_id: Uuid,
        schema: Option<&SchemaLookup>,
    ) -> (r: Step<CreateGate, CreateCommand>)
        ensures
            match create_refusal(*req) {
                Some(e) => r@ == Decision::<CreateGate, CommandView>::Reject(e),
                None => if target_tenant(*req, tenant_id) != tenant_id {
                    r@ == Decision::<CreateGate, CommandView>::Reject(
                        disagreement(req.tenant_id->0, tenant_id),
                    )
                } else {
                    is_metadata_step(
                        r@,
                        CreateGate::Schema,
                        command_of(*req, tenant_id),
                        req.metadata,
                        crate::validation::canonical(req.code@),
                        match schema {
                            Some(s) => Some(*s),
                            None => None,
                        },
                    )
                },
            },
            r matches Step::Commit(cmd) ==> is_command_for(cmd, *req) && cmd.tenant_id == tenant_id,
            r is Commit <==> {
                &&& crate::validation::type_code_refusal(req.code@) is None
                &&& 1 <= req.name@.len() <= 255
                &&& match req.tenant_id {
                    None => true,
                    Some(t) => !crate::validation::is_tenant_code(req.code@) && t == tenant_id,
                }
                &&& req.metadata is None || (schema matches Some(found)
                    && crate::validation::registry_accepts(req.metadata, *found))
            },
    {
        let code: String = match canonical_type_code(req.code.as_str()) {
            Ok(code) => code,
            Err(e) => {
                return Step::Reject(e);
            },
        };
        if let Err(e) = Self::validate_name(req.name.as_str()) {
            return Step::Reject(e);
        }
        let is_tenant: bool = is_tenant_type_code(code.as_str());
        if let Err(e) = Self::reject_tenant_id_on_tenant_type(is_tenant, req.tenant_id) {
            return Step::Reject(e);
        }
        if let Some(named) = req.tenant_id {
            if named != tenant_id {
                let head: String = concat5(
                    "create_group_unscoped: req.tenant_id (",
                    uuid_text(named).as_str(),
                    ") disagrees with the trusted tenant_id argument (",
                    uuid_text(tenant_id).as_str(),
                    "); this indicates a caller bug, not a policy decision to make silently",
                );
                return Step::Reject(DomainError::validation(head));
            }
        }
        match metadata_step(&req.metadata, code.as_str(), schema) {
            None => Step::Need(CreateGate::Schema),
            Some(Err(e)) => Step::Reject(e),
            Some(Ok(())) => Step::Commit(
                CreateCommand {
                    id: req.id,
                    code,
                    name: req.name.clone(),
                    parent_id: req.parent_id,
                    tenant_id,
                    metadata: copy_json(&req.metadata),
                },
            ),
        }
    }
}

/// The refusal of a request whose tenant is not the trusted one.
pub open spec fn disagreement(named: Uuid, trusted: Uuid) -> crate::error::ErrorView {
    crate::error::invalid(
        "create_group_unscoped: req.tenant_id ("@ + crate::ids::hyphenated(named)
            + ") disagrees with the trusted tenant_id argument ("@ + crate::ids::hyphenated(trusted)
            + "); this indicates a caller bug, not a policy decision to make silently"@,
    )
}

// -- Creating a group: in the transaction --

/// What is known in the transaction of a create; each part is none until it
/// has been read.
#[derive(Debug)]
pub struct CreateFacts {
    /// The stored identifier and definition of the group's type, where the type
    /// exists.
    pub group_type: Option<Option<(i16, ResourceGroupType)>>,
    /// Whether the group's identifier is a tenant identifier that was retired.
    pub retired: Option<bool>,
    /// The parent, where it exists.
    pub parent: Option<Option<GroupRow>>,
    /// The path of the parent's type.
    pub parent_type_path: Option<String>,
    /// The depth of the parent.
    pub parent_depth: Option<i32>,
    /// How many children the parent has.
    pub sibling_count: Option<u64>,
    /// A root of a tenant type, where there is one.
    pub tenant_root: Option<Option<Uuid>>,
}

/// What a create reads next.
#[derive(Clone, Copy, Debug, PartialEq, Eq, Structural)]
pub enum CreateNeed {
    GroupType,
    Retired(Uuid),
    Parent(Uuid),
    /// The path of the type with this stored identifier.
    TypePath(i16),
    Depth(Uuid),
    ChildCount(Uuid),
    TenantRoot,
}

/// A group to insert, with its row of the closure table for itself and, where
/// it has a parent, one more for every ancestor of that parent.
#[derive(Debug)]
pub struct InsertPlan {
    pub group_id: Uuid,
    pub parent_id: Option<Uuid>,
    pub type_id: i16,
    pub name: String,
    pub metadata: Option<serde_json::Value>,
    pub tenant_id: Uuid,
}

/// What an insert holds.
pub struct InsertView {
    pub group_id: Uuid,
    pub parent_id: Option<Uuid>,
    pub type_id: i16,
    pub name: Seq<char>,
    pub metadata: Option<serde_json::Value>,
    pub tenant_id: Uuid,
}

impl View for InsertPlan {
    type V = InsertView;

    open spec fn view(&self) -> InsertView {
        InsertView {
            group_id: self.group_id,
            parent_id: self.parent_id,
            type_id: self.type_id,
            name: self.name@,
            metadata: self.metadata,
            tenant_id: self.tenant_id,
        }
    }
}

/// Whether a type allows a parent of the type with this path.
pub open spec fn allows_parent(t: ResourceGroupType, path: Seq<char>) -> bool {
    crate::text::texts(t.allowed_parent_types@).contains(path)
}

/// The refusal of a parent of a type that is not allowed.
pub open spec fn parent_type_refusal(code: Seq<char>, path: Seq<char>) -> crate::error::ErrorView {
    crate::error::ErrorView::InvalidParentType {
        message: "Type '"@ + code + "' does not allow parent type '"@ + path + "'"@,
    }
}

/// The refusal of a root of a type that cannot be one.
pub open spec fn root_type_refusal(code: Seq<char>) -> crate::error::ErrorView {
    crate::error::ErrorView::InvalidParentType {
        message: "Type '"@ + code + "' cannot be a root group (can_be_root=false)"@,
    }
}

/// The tenant of a new group: itself for a tenant type, else the tenant it is
/// created in.
pub open spec fn tenant_of_new(code: Seq<char>, group_id: Uuid, tenant_id: Uuid) -> Uuid {
    if crate::validation::is_tenant_code(code) {
        group_id
    } else {
        tenant_id
    }
}

/// The insert that a create ends in.
pub open spec fn insert_of(cmd: CommandView, group_id: Uuid, type_id: i16) -> InsertView {
    InsertView {
        group_id,
        parent_id: cmd.parent_id,
        type_id,
        name: cmd.name,
        metadata: cmd.metadata,
        tenant_id: tenant_of_new(cmd.code, group_id, cmd.tenant_id),
    }
}

/// Whether an insert is the one that a command asks for.
spec fn is_insert_for(
    plan: InsertPlan,
    cmd: CreateCommand,
    group_id: Uuid,
    type_id: i16,
    is_tenant: bool,
) -> bool {
    &&& plan.group_id == group_id
    &&& plan.parent_id == cmd.parent_id
    &&& plan.type_id == type_id
    &&& plan.name@ == cmd.name@
    &&& plan.metadata == cmd.metadata
    &&& plan.tenant_id == if is_tenant {
        group_id
    } else {
        cmd.tenant_id
    }
}

/// The refusal of a new child that would stand too deep.
pub open spec fn child_depth_refusal(depth: int, max_depth: u32) -> crate::error::ErrorView {
    crate::error::ErrorView::LimitViolation {
        message: "Depth limit exceeded: adding child at depth "@ + crate::text::signed_decimal(depth)
            + " exceeds max_depth "@ + crate::text::decimal(max_depth as nat),
    }
}

/// The refusal of a new child of a parent that has too many.
pub open spec fn child_width_refusal(count: u64, max_width: u32) -> crate::error::ErrorView {
    crate::error::ErrorView::LimitViolation {
        message: "Width limit exceeded: parent already has "@ + crate::text::decimal(count as nat)
            + " children, max_width is "@ + crate::text::decimal(max_width as nat),
    }
}

/// The refusal of a second tenant root.
pub open spec fn second_root_refusal(cmd: CommandView, existing: Uuid) -> crate::error::ErrorView {
    crate::error::ErrorView::TenantRootAlreadyExists {
        existing_root_id: existing,
        detail: "Cannot create tenant-type root '"@ + cmd.name + "' ("@ + cmd.code
            + "): tenant root already exists"@,
    }
}

/// What a create under a parent does next.
pub open spec fn create_under(
    cmd: CommandView,
    group_id: Uuid,
    parent_id: Uuid,
    type_id: i16,
    t: ResourceGroupType,
    profile: QueryProfile,
    facts: CreateFacts,
) -> Decision<CreateNeed, InsertView> {
    match facts.parent {
        None => Decision::Need(CreateNeed::Parent(parent_id)),
        Some(None) => Decision::Reject(crate::error::ErrorView::GroupNotFound { id: parent_id }),
        Some(Some(parent)) => match facts.parent_type_path {
            None => Decision::Need(CreateNeed::TypePath(parent.gts_type_id)),
            Some(path) => if !allows_parent(t, path@) {
                Decision::Reject(parent_type_refusal(cmd.code, path@))
            } else if !crate::validation::is_tenant_code(cmd.code) && parent.tenant_id
                != cmd.tenant_id {
                Decision::Reject(
                    crate::error::invalid(
                        "Cannot create group under this parent; parent belongs to a different tenant"@,
                    ),
                )
            } else if profile.max_depth is Some && facts.parent_depth is None {
                Decision::Need(CreateNeed::Depth(parent_id))
            } else if profile.max_depth is Some && facts.parent_depth->0 + 1
                >= profile.max_depth->0 {
                Decision::Reject(
                    child_depth_refusal(facts.parent_depth->0 + 1, profile.max_depth->0),
                )
            } else if profile.max_width is Some && facts.sibling_count is None {
                Decision::Need(CreateNeed::ChildCount(parent_id))
            } else if profile.max_width is Some && facts.sibling_count->0 >= profile.max_width->0 {
                Decision::Reject(child_width_refusal(facts.sibling_count->0, profile.max_width->0))
            } else {
                Decision::Commit(insert_of(cmd, group_id, type_id))
            },
        },
    }
}

/// What a create of a root does next.
pub open spec fn create_root(
    cmd: CommandView,
    group_id: Uuid,
    type_id: i16,
    t: ResourceGroupType,
    facts: CreateFacts,
) -> Decision<CreateNeed, InsertView> {
    if !t.can_be_root {
        Decision::Reject(root_type_refusal(cmd.code))
    } else if crate::validation::is_tenant_code(cmd.code) {
        match facts.tenant_root {
            None => Decision::Need(CreateNeed::TenantRoot),
            Some(Some(existing)) => Decision::Reject(second_root_refusal(cmd, existing)),
            Some(None) => Decision::Commit(insert_of(cmd, group_id, type_id)),
        }
    } else {
        Decision::Commit(insert_of(cmd, group_id, type_id))
    }
}

/// What a create does next in its transaction.
pub open spec fn create_step(
    cmd: CommandView,
    group_id: Uuid,
    profile: QueryProfile,
    facts: CreateFacts,
) -> Decision<CreateNeed, InsertView> {
    match facts.group_type {
        None => Decision::Need(CreateNeed::GroupType),
        Some(None) => Decision::Reject(crate::error::ErrorView::TypeNotFound { code: cmd.code }),
        Some(Some((type_id, t))) => if crate::validation::is_tenant_code(cmd.code) && facts.retired
            is None {
            Decision::Need(CreateNeed::Retired(group_id))
        } else if crate::validation::is_tenant_code(cmd.code) && facts.retired->0 {
            Decision::Reject(crate::error::ErrorView::GroupAlreadyExists { id: group_id })
        } else {
            match cmd.parent_id {
                Some(parent_id) => create_under(
                    cmd,
                    group_id,
                    parent_id,
                    type_id,
                    t,
                    profile,
                    facts,
                ),
                None => create_root(cmd, group_id, type_id, t, facts),
            }
        },
    }
}

impl GroupService {
    /// The identifier of a new group: the one that the caller wants, else a
    /// fresh one, made of the time and of chance.
    pub fn group_id_of(cmd: &CreateCommand) -> (r: Uuid)
        ensures
            match cmd.id {
                Some(id) => r == id,
                None => crate::ids::is_version_7(r),
            },
    {
        match cmd.id {
            Some(id) => id,
            None => fresh_uuid(),
        }
    }

    /// What a create does next in its transaction, for a group that gets the
    /// identifier `group_id`.
    pub fn create_group_inner(
        &self,
        cmd: &CreateCommand,
        group_id: Uuid,
        facts: &CreateFacts,
    ) -> (r: Step<CreateNeed, InsertPlan>)
        ensures
            r@ == create_step(cmd@, group_id, self.profile, *facts),
            r matches Step::Commit(plan) ==> {
                &&& plan.group_id == group_id
                &&& plan.parent_id == cmd.parent_id
                &&& facts.group_type matches Some(Some(found)) && plan.type_id == found.0
                &&& plan.name@ == cmd.name@
                &&& plan.metadata == cmd.metadata
                &&& plan.tenant_id == if crate::validation::is_tenant_code(cmd.code@) {
                    group_id
                } else {
                    cmd.tenant_id
                }
            },
    {
        let (type_id, t): (i16, &ResourceGroupType) = match &facts.group_type {
            None => {
                return Step::Need(CreateNeed::GroupType);
            },
            Some(None) => {
                return Step::Reject(DomainError::type_not_found(cmd.code.clone()));
            },
            Some(Some(found)) => (found.0, &found.1),
        };
        let is_tenant: bool = is_tenant_type_code(cmd.code.as_str());
        if is_tenant {
            match facts.retired {
                None => {
                    return Step::Need(CreateNeed::Retired(group_id));
                },
                Some(true) => {
                    return Step::Reject(DomainError::group_already_exists(group_id));
                },
                Some(false) => {},
            }
        }
        match cmd.parent_id {
            Some(parent_id) => self.create_child_step(
                cmd,
                group_id,
                parent_id,
                type_id,
                t,
                is_tenant,
                facts,
            ),
            None => Self::create_root_step(cmd, group_id, type_id, t, is_tenant, facts),
        }
    }

    fn insert_plan(cmd: &CreateCommand, group_id: Uuid, type_id: i16, is_tenant: bool) -> (r:
        InsertPlan)
        requires
            is_tenant == crate::validation::is_tenant_code(cmd.code@),
        ensures
            r@ == insert_of(cmd@, group_id, type_id),
            r.group_id == group_id,
            r.parent_id == cmd.parent_id,
            r.type_id == type_id,
            r.name@ == cmd.name@,
            r.metadata == cmd.metadata,
            r.tenant_id == if is_tenant {
                group_id
            } else {
                cmd.tenant_id
            },
    {
        InsertPlan {
            group_id,
            parent_id: cmd.parent_id,
            type_id,
            name: cmd.name.clone(),
            metadata: copy_json(&cmd.metadata),
            tenant_id: if is_tenant {
                group_id
            } else {
                cmd.tenant_id
            },
        }
    }

    fn create_child_step(
        &self,
        cmd: &CreateCommand,
        group_id: Uuid,
        parent_id: Uuid,
        type_id: i16,
        t: &ResourceGroupType,
        is_tenant: bool,
        facts: &CreateFacts,
    ) -> (r: Step<CreateNeed, InsertPlan>)
        requires
            cmd.parent_id == Some(parent_id),
            is_tenant == crate::validation::is_tenant_code(cmd.code@),
        ensures
            r@ == create_under(cmd@, group_id, parent_id, type_id, *t, self.profile, *facts),
            r matches Step::Commit(plan) ==> is_insert_for(plan, *cmd, group_id, type_id, is_tenant),
    {
        let parent: &GroupRow = match &facts.parent {
            None => {
                return Step::Need(CreateNeed::Parent(parent_id));
            },
            Some(None) => {
                return Step::Reject(DomainError::group_not_found(parent_id));
            },
            Some(Some(row)) => row,
        };
        let path: &String = match &facts.parent_type_path {
            None => {
                return Step::Need(CreateNeed::TypePath(parent.gts_type_id));
            },
            Some(path) => path,
        };
        if !lists_text(&t.allowed_parent_types, path.as_str()) {
            return Step::Reject(Self::parent_type_error(cmd.code.as_str(), path.as_str()));
        }
        if !is_tenant && parent.tenant_id != cmd.tenant_id {
            return Step::Reject(
                DomainError::validation(
                    "Cannot create group under this parent; parent belongs to a different tenant".to_owned(),
                ),
            );
        }
        if let Some(max_depth) = self.profile.max_depth {
            match facts.parent_depth {
                None => {
                    return Step::Need(CreateNeed::Depth(parent_id));
                },
                Some(d) => {
                    let depth: i64 = d as i64 + 1;
                    if depth >= max_depth as i64 {
                        let head: String = concat2(
                            "Depth limit exceeded: adding child at depth ",
                            decimal_i64(depth).as_str(),
                        );
                        return Step::Reject(
                            DomainError::limit_violation(
                                head.concat(" exceeds max_depth ").concat(
                                    decimal_u64(max_depth as u64).as_str(),
                                ),
                            ),
                        );
                    }
                },
            }
        }
        if let Some(max_width) = self.profile.max_width {
            match facts.sibling_count {
                None => {
                    return Step::Need(CreateNeed::ChildCount(parent_id));
                },
                Some(count) => {
                    if count >= max_width as u64 {
                        let head: String = concat2(
                            "Width limit exceeded: parent already has ",
                            decimal_u64(count).as_str(),
                        );
                        return Step::Reject(
                            DomainError::limit_violation(
                                head.concat(" children, max_width is ").concat(
                                    decimal_u64(max_width as u64).as_str(),
                                ),
                            ),
                        );
                    }
                },
            }
        }
        Step::Commit(Self::insert_plan(cmd, group_id, type_id, is_tenant))
    }

    fn create_root_step(
        cmd: &CreateCommand,
        group_id: Uuid,
        type_id: i16,
        t: &ResourceGroupType,
        is_tenant: bool,
        facts: &CreateFacts,
    ) -> (r: Step<CreateNeed, InsertPlan>)
        requires
            is_tenant == crate::validation::is_tenant_code(cmd.code@),
        ensures
            r@ == create_root(cmd@, group_id, type_id, *t, *facts),
            r matches Step::Commit(plan) ==> is_insert_for(plan, *cmd, group_id, type_id, is_tenant),
    {
        if !t.can_be_root {
            return Step::Reject(Self::root_type_error(cmd.code.as_str()));
        }
        if is_tenant {
            match facts.tenant_root {
                None => {
                    return Step::Need(CreateNeed::TenantRoot);
                },
                Some(Some(existing)) => {
                    let detail: String = concat5(
                        "Cannot create tenant-type root '",
                        cmd.name.as_str(),
                        "' (",
                        cmd.code.as_str(),
                        "): tenant root already exists",
                    );
                    return Step::Reject(DomainError::tenant_root_already_exists(existing, detail));
                },
                Some(None) => {},
            }
        }
        Step::Commit(Self::insert_plan(cmd, group_id, type_id, is_tenant))
    }

    fn parent_type_error(code: &str, path: &str) -> (r: DomainError)
        ensures
            r@ == parent_type_refusal(code@, path@),
    {
        DomainError::invalid_parent_type(
            concat5("Type '", code, "' does not allow parent type '", path, "'"),
        )
    }

    fn root_type_error(code: &str) -> (r: DomainError)
        ensures
            r@ == root_type_refusal(code@),
    {
        DomainError::invalid_parent_type(
            concat3("Type '", code, "' cannot be a root group (can_be_root=false)"),
        )
    }
}

// -- Updating a group --

/// What an update reads next.
#[derive(Clone, Copy, Debug, PartialEq, Eq, Structural)]
pub enum UpdateNeed {
    /// The group, as far as the caller may see it.
    Group,
    /// What the types registry has for the group's type.
    Schema,
}

/// New ordinary attributes of a group. Nothing else of the row is written: not
/// its parent, not its type, not its tenant.
#[derive(Debug)]
pub struct UpdatePlan {
    pub group_id: Uuid,
    pub name: String,
    pub metadata: Option<serde_json::Value>,
}

/// What an update holds.
pub struct UpdateView {
    pub group_id: Uuid,
    pub name: Seq<char>,
    pub metadata: Option<serde_json::Value>,
}

impl View for UpdatePlan {
    type V = UpdateView;

    open spec fn view(&self) -> UpdateView {
        UpdateView { group_id: self.group_id, name: self.name@, metadata: self.metadata }
    }
}

/// The attributes that an update writes.
pub open spec fn update_of(group_id: Uuid, req: UpdateGroupRequest) -> UpdateView {
    UpdateView { group_id, name: req.name@, metadata: req.metadata }
}

/// Whether `d` is what an update does next before its transaction, given the
/// path of the group's type, where the caller may see the group, and the
/// registry's answer.
pub open spec fn is_update_step(
    d: Decision<UpdateNeed, UpdateView>,
    group_id: Uuid,
    req: UpdateGroupRequest,
    group_code: Option<Option<Seq<char>>>,
    schema: Option<SchemaLookup>,
) -> bool {
    if !is_name(req.name@) {
        d == Decision::<UpdateNeed, UpdateView>::Reject(name_refusal())
    } else {
        match group_code {
            None => d == Decision::<UpdateNeed, UpdateView>::Need(UpdateNeed::Group),
            Some(None) => d == Decision::<UpdateNeed, UpdateView>::Reject(
                crate::error::ErrorView::GroupNotFound { id: group_id },
            ),
            Some(Some(code)) => is_metadata_step(
                d,
                UpdateNeed::Schema,
                update_of(group_id, req),
                req.metadata,
                code,
                schema,
            ),
        }
    }
}

impl GroupService {
    /// What an update does before its transaction, given the path of the type
    /// of the group, where the caller may see it, and the registry's answer.
    pub fn update_group(
        group_id: Uuid,
        req: &UpdateGroupRequest,
        group_code: Option<Option<&String>>,
        schema: Option<&SchemaLookup>,
    ) -> (r: Step<UpdateNeed, UpdatePlan>)
        ensures
            is_update_step(
                r@,
                group_id,
                *req,
                match group_code {
                    Some(Some(code)) => Some(Some(code@)),
                    Some(None) => Some(None),
                    None => None,
                },
                match schema {
                    Some(s) => Some(*s),
                    None => None,
                },
            ),
            r matches Step::Commit(p) ==> p.group_id == group_id && p.name@ == req.name@
                && p.metadata == req.metadata,
    {
        if let Err(e) = Self::validate_name(req.name.as_str()) {
            return Step::Reject(e);
        }
        let code: &String = match group_code {
            None => {
                return Step::Need(UpdateNeed::Group);
            },
            Some(None) => {
                return Step::Reject(DomainError::group_not_found(group_id));
            },
            Some(Some(code)) => code,
        };
        match metadata_step(&req.metadata, code.as_str(), schema) {
            None => Step::Need(UpdateNeed::Schema),
            Some(Err(e)) => Step::Reject(e),
            Some(Ok(())) => Step::Commit(
                UpdatePlan { group_id, name: req.name.clone(), metadata: copy_json(&req.metadata) },
            ),
        }
    }

    /// What an update does in its transaction, given whether the caller may
    /// see the group.
    pub fn update_group_inner(group_id: Uuid, req: &UpdateGroupRequest, visible: bool) -> (r: Result<
        UpdatePlan,
        DomainError,
    >)
        ensures
            if visible {
                r matches Ok(p) && p@ == update_of(group_id, *req)
            } else {
                r matches Err(e) && e@ == (crate::error::ErrorView::GroupNotFound { id: group_id })
            },
            r matches Ok(p) ==> p.group_id == group_id && p.name@ == req.name@ && p.metadata
                == req.metadata,
    {
        if !visible {
            return Err(DomainError::group_not_found(group_id));
        }
        Ok(UpdatePlan { group_id, name: req.name.clone(), metadata: copy_json(&req.metadata) })
    }
}

// -- Moving a group --

/// What is known in the transaction of a move; each part is none until it has
/// been read.
#[derive(Debug)]
pub struct MoveFacts {
    /// Whether the caller may see the group.
    pub visible: Option<bool>,
    /// The group, where it exists.
    pub group: Option<Option<GroupRow>>,
    /// The new parent, where it exists.
    pub parent: Option<Option<GroupRow>>,
    /// The path of the group's type.
    pub type_path: Option<String>,
    /// The definition of the group's type, where it exists.
    pub group_type: Option<Option<ResourceGroupType>>,
    /// Whether the new parent is the group itself or one of its descendants.
    pub is_descendant: Option<bool>,
    /// The path of the new parent's type.
    pub parent_type_path: Option<String>,
    /// The depth of the new parent.
    pub parent_depth: Option<i32>,
    /// The descendants of the group, with their distances from it.
    pub subtree: Option<Vec<(Uuid, i32)>>,
    /// How many children the new parent has.
    pub sibling_count: Option<u64>,
    /// A root of a tenant type, where there is one.
    pub tenant_root: Option<Option<Uuid>>,
    /// How many other roots the group's tenant has.
    pub root_siblings: Option<u64>,
}

/// What a move reads next.
#[derive(Clone, Copy, Debug, PartialEq, Eq, Structural)]
pub enum MoveNeed {
    Visible(Uuid),
    Group(Uuid),
    Parent(Uuid),
    /// The path of the group's type, by its stored identifier.
    TypePath(i16),
    GroupType,
    /// Whether the second group is the first or one of its descendants.
    IsDescendant(Uuid, Uuid),
    /// The path of the parent's type, by its stored identifier.
    ParentTypePath(i16),
    Depth(Uuid),
    Subtree(Uuid),
    ChildCount(Uuid),
    TenantRoot,
    /// How many roots of the tenant there are besides the group.
    RootSiblings(Uuid, Uuid),
}

/// A move: the rows of the closure table of the whole subtree are rebuilt under
/// the new parent, and the group's parent is written. Nothing else of the row
/// is written.
#[derive(Clone, Copy, Debug, PartialEq, Eq)]
pub struct MovePlan {
    pub group_id: Uuid,
    pub new_parent_id: Option<Uuid>,
}

impl View for MovePlan {
    type V = MovePlan;

    open spec fn view(&self) -> MovePlan {
        *self
    }
}

/// The largest distance of a list of descendants; zero where there is none.
pub open spec fn height(subtree: Seq<(Uuid, i32)>) -> int
    decreases subtree.len(),
{
    if subtree.len() == 0 {
        0
    } else if subtree.len() == 1 {
        subtree[0].1 as int
    } else if height(subtree.drop_last()) >= subtree.last().1 {
        height(subtree.drop_last())
    } else {
        subtree.last().1 as int
    }
}

/// The refusal of a move across tenants.
pub open spec fn cross_tenant_refusal(group_id: Uuid) -> crate::error::ErrorView {
    crate::error::invalid(
        "Cannot move group "@ + crate::ids::hyphenated(group_id)
            + " to a parent in a different tenant; cross-tenant moves are not supported"@,
    )
}

/// The refusal of a move into the group's own subtree.
pub open spec fn cycle_refusal(group_id: Uuid, parent_id: Uuid) -> crate::error::ErrorView {
    crate::error::ErrorView::CycleDetected {
        message: "Cannot move group '"@ + crate::ids::hyphenated(group_id) + "' under '"@
            + crate::ids::hyphenated(parent_id) + "': would create a cycle"@,
    }
}

/// The refusal of a move that would put a group too deep.
pub open spec fn move_depth_refusal(deepest: int, max_depth: u32) -> crate::error::ErrorView {
    crate::error::ErrorView::LimitViolation {
        message: "Depth limit exceeded: moving subtree would create depth "@
            + crate::text::signed_decimal(deepest) + ", max_depth is "@ + crate::text::decimal(
            max_depth as nat,
        ),
    }
}

/// The refusal of a move under a parent that has too many children.
pub open spec fn move_width_refusal(count: u64, max_width: u32) -> crate::error::ErrorView {
    crate::error::ErrorView::LimitViolation {
        message: "Width limit exceeded: new parent already has "@ + crate::text::decimal(
            count as nat,
        ) + " children, max_width is "@ + crate::text::decimal(max_width as nat),
    }
}

/// The refusal of a move to the root of a tenant that has too many.
pub open spec fn root_width_refusal(count: u64, max_width: u32) -> crate::error::ErrorView {
    crate::error::ErrorView::LimitViolation {
        message: "Width limit exceeded: the tenant already has "@ + crate::text::decimal(
            count as nat,
        ) + " root group(s), max_width is "@ + crate::text::decimal(max_width as nat),
    }
}

/// The refusal of a move that would make a second tenant root.
pub open spec fn second_root_move_refusal(
    code: Seq<char>,
    group_id: Uuid,
    existing: Uuid,
) -> crate::error::ErrorView {
    crate::error::ErrorView::TenantRootAlreadyExists {
        existing_root_id: existing,
        detail: "Cannot move tenant-type group '"@ + code + "' ("@ + crate::ids::hyphenated(group_id)
            + ") to root: tenant root already exists"@,
    }
}

/// What a move under a parent does next, once the group and its type are known
/// and the tenants agree.
pub open spec fn move_under(
    group_id: Uuid,
    parent_id: Uuid,
    parent: GroupRow,
    t: ResourceGroupType,
    profile: QueryProfile,
    facts: MoveFacts,
) -> Decision<MoveNeed, MovePlan> {
    if facts.is_descendant is None {
        Decision::Need(MoveNeed::IsDescendant(group_id, parent_id))
    } else if facts.is_descendant->0 {
        Decision::Reject(cycle_refusal(group_id, parent_id))
    } else if facts.parent_type_path is None {
        Decision::Need(MoveNeed::ParentTypePath(parent.gts_type_id))
    } else if !allows_parent(t, (facts.parent_type_path->0)@) {
        Decision::Reject(parent_type_refusal(t.code@, (facts.parent_type_path->0)@))
    } else if profile.max_depth is Some && facts.parent_depth is None {
        Decision::Need(MoveNeed::Depth(parent_id))
    } else if profile.max_depth is Some && facts.subtree is None {
        Decision::Need(MoveNeed::Subtree(group_id))
    } else if profile.max_depth is Some && facts.parent_depth->0 + 1 + height((facts.subtree->0)@)
        >= profile.max_depth->0 {
        Decision::Reject(
            move_depth_refusal(
                facts.parent_depth->0 + 1 + height((facts.subtree->0)@),
                profile.max_depth->0,
            ),
        )
    } else if profile.max_width is Some && facts.sibling_count is None {
        Decision::Need(MoveNeed::ChildCount(parent_id))
    } else if profile.max_width is Some && facts.sibling_count->0 >= profile.max_width->0 {
        Decision::Reject(move_width_refusal(facts.sibling_count->0, profile.max_width->0))
    } else {
        Decision::Commit(MovePlan { group_id, new_parent_id: Some(parent_id) })
    }
}

/// What a move to the root does next, once the group and its type are known.
pub open spec fn move_to_root(
    group_id: Uuid,
    tenant_id: Uuid,
    t: ResourceGroupType,
    profile: QueryProfile,
    facts: MoveFacts,
) -> Decision<MoveNeed, MovePlan> {
    let tenant_type = crate::validation::is_tenant_code(t.code@);
    if !t.can_be_root {
        Decision::Reject(root_type_refusal(t.code@))
    } else if tenant_type && facts.tenant_root is None {
        Decision::Need(MoveNeed::TenantRoot)
    } else if tenant_type && facts.tenant_root->0 is Some && facts.tenant_root->0->0 != group_id {
        Decision::Reject(second_root_move_refusal(t.code@, group_id, facts.tenant_root->0->0))
    } else if profile.max_width is Some && facts.root_siblings is None {
        Decision::Need(MoveNeed::RootSiblings(tenant_id, group_id))
    } else if profile.max_width is Some && facts.root_siblings->0 >= profile.max_width->0 {
        Decision::Reject(root_width_refusal(facts.root_siblings->0, profile.max_width->0))
    } else {
        Decision::Commit(MovePlan { group_id, new_parent_id: None })
    }
}

/// What a move does next once the group is known and the tenants agree.
pub open spec fn move_with_type(
    group: GroupRow,
    group_id: Uuid,
    new_parent: Option<(Uuid, GroupRow)>,
    profile: QueryProfile,
    facts: MoveFacts,
) -> Decision<MoveNeed, MovePlan> {
    match facts.type_path {
        None => Decision::Need(MoveNeed::TypePath(group.gts_type_id)),
        Some(path) => match facts.group_type {
            None => Decision::Need(MoveNeed::GroupType),
            Some(None) => Decision::Reject(crate::error::ErrorView::TypeNotFound { code: path@ }),
            Some(Some(t)) => match new_parent {
                Some((parent_id, parent)) => move_under(
                    group_id,
                    parent_id,
                    parent,
                    t,
                    profile,
                    facts,
                ),
                None => move_to_root(group_id, group.tenant_id, t, profile, facts),
            },
        },
    }
}

/// What a move does next in its transaction. The tenants are compared before
/// anything about the new parent is said, so that a foreign parent is answered
/// alike whatever it is.
pub open spec fn move_step(
    group_id: Uuid,
    new_parent_id: Option<Uuid>,
    profile: QueryProfile,
    facts: MoveFacts,
) -> Decision<MoveNeed, MovePlan> {
    if facts.visible is None {
        Decision::Need(MoveNeed::Visible(group_id))
    } else if !facts.visible->0 {
        Decision::Reject(crate::error::ErrorView::GroupNotFound { id: group_id })
    } else {
        match facts.group {
            None => Decision::Need(MoveNeed::Group(group_id)),
            Some(None) => Decision::Reject(crate::error::ErrorView::GroupNotFound { id: group_id }),
            Some(Some(group)) => match new_parent_id {
                None => move_with_type(group, group_id, None, profile, facts),
                Some(parent_id) => match facts.parent {
                    None => Decision::Need(MoveNeed::Parent(parent_id)),
                    Some(None) => Decision::Reject(
                        crate::error::ErrorView::GroupNotFound { id: parent_id },
                    ),
                    Some(Some(parent)) => if parent.tenant_id != group.tenant_id {
                        Decision::Reject(cross_tenant_refusal(group_id))
                    } else {
                        move_with_type(group, group_id, Some((parent_id, parent)), profile, facts)
                    },
                },
            },
        }
    }
}

impl GroupService {
    /// What a move does next in its transaction; no new parent makes the group
    /// a root.
    pub fn move_group_inner(
        &self,
        group_id: Uuid,
        new_parent_id: Option<Uuid>,
        facts: &MoveFacts,
    ) -> (r: Step<MoveNeed, MovePlan>)
        ensures
            r@ == move_step(group_id, new_parent_id, self.profile, *facts),
            r matches Step::Commit(plan) ==> plan.group_id == group_id && plan.new_parent_id
                == new_parent_id,
    {
        match facts.visible {
            None => {
                return Step::Need(MoveNeed::Visible(group_id));
            },
            Some(false) => {
                return Step::Reject(DomainError::group_not_found(group_id));
            },
            Some(true) => {},
        }
        let group: &GroupRow = match &facts.group {
            None => {
                return Step::Need(MoveNeed::Group(group_id));
            },
            Some(None) => {
                return Step::Reject(DomainError::group_not_found(group_id));
            },
            Some(Some(row)) => row,
        };
        let parent: Option<(Uuid, &GroupRow)> = match new_parent_id {
            None => None,
            Some(parent_id) => match &facts.parent {
                None => {
                    return Step::Need(MoveNeed::Parent(parent_id));
                },
                Some(None) => {
                    return Step::Reject(DomainError::group_not_found(parent_id));
                },
                Some(Some(row)) => {
                    if row.tenant_id != group.tenant_id {
                        return Step::Reject(
                            DomainError::validation(
                                concat3(
                                    "Cannot move group ",
                                    uuid_text(group_id).as_str(),
                                    " to a parent in a different tenant; cross-tenant moves are not supported",
                                ),
                            ),
                        );
                    }
                    Some((parent_id, row))
                },
            },
        };
        let type_path: &String = match &facts.type_path {
            None => {
                return Step::Need(MoveNeed::TypePath(group.gts_type_id));
            },
            Some(path) => path,
        };
        let t: &ResourceGroupType = match &facts.group_type {
            None => {
                return Step::Need(MoveNeed::GroupType);
            },
            Some(None) => {
                return Step::Reject(DomainError::type_not_found(type_path.clone()));
            },
            Some(Some(t)) => t,
        };
        self.move_group_internal_impl(group_id, group.tenant_id, parent, t, facts)
    }

    /// What a move does next once the group and its type are known and the
    /// tenants agree.
    fn move_group_internal_impl(
        &self,
        group_id: Uuid,
        tenant_id: Uuid,
        new_parent: Option<(Uuid, &GroupRow)>,
        t: &ResourceGroupType,
        facts: &MoveFacts,
    ) -> (r: Step<MoveNeed, MovePlan>)
        ensures
            r@ == (match new_parent {
                Some((parent_id, parent)) => move_under(
                    group_id,
                    parent_id,
                    *parent,
                    *t,
                    self.profile,
                    *facts,
                ),
                None => move_to_root(group_id, tenant_id, *t, self.profile, *facts),
            }),
    {
        match new_parent {
            Some((parent_id, parent)) => self.move_child_step(group_id, parent_id, parent, t, facts),
            None => self.move_root_step(group_id, tenant_id, t, facts),
        }
    }

    fn move_child_step(
        &self,
        group_id: Uuid,
        parent_id: Uuid,
        parent: &GroupRow,
        t: &ResourceGroupType,
        facts: &MoveFacts,
    ) -> (r: Step<MoveNeed, MovePlan>)
        ensures
            r@ == move_under(group_id, parent_id, *parent, *t, self.profile, *facts),
    {
        match facts.is_descendant {
            None => {
                return Step::Need(MoveNeed::IsDescendant(group_id, parent_id));
            },
            Some(true) => {
                return Step::Reject(
                    DomainError::cycle_detected(
                        concat5(
                            "Cannot move group '",
                            uuid_text(group_id).as_str(),
                            "' under '",
                            uuid_text(parent_id).as_str(),
                            "': would create a cycle",
                        ),
                    ),
                );
            },
            Some(false) => {},
        }
        let path: &String = match &facts.parent_type_path {
            None => {
                return Step::Need(MoveNeed::ParentTypePath(parent.gts_type_id));
            },
            Some(path) => path,
        };
        if !lists_text(&t.allowed_parent_types, path.as_str()) {
            return Step::Reject(Self::parent_type_error(t.code.as_str(), path.as_str()));
        }
        if let Some(max_depth) = self.profile.max_depth {
            let parent_depth: i32 = match facts.parent_depth {
                None => {
                    return Step::Need(MoveNeed::Depth(parent_id));
                },
                Some(d) => d,
            };
            let subtree: &Vec<(Uuid, i32)> = match &facts.subtree {
                None => {
                    return Step::Need(MoveNeed::Subtree(group_id));
                },
                Some(list) => list,
            };
            let deepest: i64 = parent_depth as i64 + 1 + max_distance(subtree) as i64;
            if deepest >= max_depth as i64 {
                let head: String = concat2(
                    "Depth limit exceeded: moving subtree would create depth ",
                    decimal_i64(deepest).as_str(),
                );
                return Step::Reject(
                    DomainError::limit_violation(
                        head.concat(", max_depth is ").concat(decimal_u64(max_depth as u64).as_str()),
                    ),
                );
            }
        }
        if let Some(max_width) = self.profile.max_width {
            match facts.sibling_count {
                None => {
                    return Step::Need(MoveNeed::ChildCount(parent_id));
                },
                Some(count) => {
                    if count >= max_width as u64 {
                        let head: String = concat2(
                            "Width limit exceeded: new parent already has ",
                            decimal_u64(count).as_str(),
                        );
                        return Step::Reject(
                            DomainError::limit_violation(
                                head.concat(" children, max_width is ").concat(
                                    decimal_u64(max_width as u64).as_str(),
                                ),
                            ),
                        );
                    }
                },
            }
        }
        Step::Commit(MovePlan { group_id, new_parent_id: Some(parent_id) })
    }

    fn move_root_step(
        &self,
        group_id: Uuid,
        tenant_id: Uuid,
        t: &ResourceGroupType,
        facts: &MoveFacts,
    ) -> (r: Step<MoveNeed, MovePlan>)
        ensures
            r@ == move_to_root(group_id, tenant_id, *t, self.profile, *facts),
    {
        if !t.can_be_root {
            return Step::Reject(Self::root_type_error(t.code.as_str()));
        }
        if is_tenant_type_code(t.code.as_str()) {
            match facts.tenant_root {
                None => {
                    return Step::Need(MoveNeed::TenantRoot);
                },
                Some(Some(existing)) => {
                    if existing != group_id {
                        let detail: String = concat5(
                            "Cannot move tenant-type group '",
                            t.code.as_str(),
                            "' (",
                            uuid_text(group_id).as_str(),
                            ") to root: tenant root already exists",
                        );
                        return Step::Reject(
                            DomainError::tenant_root_already_exists(existing, detail),
                        );
                    }
                },
                Some(None) => {},
            }
        }
        if let Some(max_width) = self.profile.max_width {
            match facts.root_siblings {
                None => {
                    return Step::Need(MoveNeed::RootSiblings(tenant_id, group_id));
                },
                Some(count) => {
                    if count >= max_width as u64 {
                        let head: String = concat2(
                            "Width limit exceeded: the tenant already has ",
                            decimal_u64(count).as_str(),
                        );
                        return Step::Reject(
                            DomainError::limit_violation(
                                head.concat(" root group(s), max_width is ").concat(
                                    decimal_u64(max_width as u64).as_str(),
                                ),
                            ),
                        );
                    }
                },
            }
        }
        Step::Commit(MovePlan { group_id, new_parent_id: None })
    }
}

/// The largest distance of a list of descendants; zero where there is none.
fn max_distance(subtree: &Vec<(Uuid, i32)>) -> (r: i32)
    ensures
        r == height(subtree@),
{
    if subtree.len() == 0 {
        return 0;
    }
    let mut max: i32 = subtree[0].1;
    let mut i: usize = 1;
    proof {
        assert(subtree@.take(1).len() == 1);
    }
    while i < subtree.len()
        invariant
            1 <= i <= subtree.len(),
            max == height(subtree@.take(i as int)),
        decreases subtree.len() - i,
    {
        proof {
            assert(subtree@.take(i as int + 1).drop_last() =~= subtree@.take(i as int));
        }
        if max < subtree[i].1 {
            max = subtree[i].1;
        }
        i = i + 1;
    }
    proof {
        assert(subtree@.take(subtree@.len() as int) =~= subtree@);
    }
    max
}

// -- Deleting a group --

/// What is known in the transaction of a delete; each part is none until it
/// has been read.
#[derive(Debug)]
pub struct DeleteFacts {
    /// Whether the caller may see the group.
    pub visible: Option<bool>,
    /// Whether the group exists.
    pub exists: Option<bool>,
    /// The descendants of the group, with their distances from it.
    pub descendants: Option<Vec<(Uuid, i32)>>,
    /// The children of the group.
    pub children: Option<Vec<GroupRow>>,
    /// How many members the group has.
    pub membership_count: Option<u64>,
    /// The paths of types, by their stored identifiers, as far as they were
    /// read.
    pub type_paths: Vec<(i16, String)>,
}

/// What a delete reads next.
#[derive(Clone, Copy, Debug, PartialEq, Eq, Structural)]
pub enum DeleteNeed {
    Visible(Uuid),
    Group(Uuid),
    Descendants(Uuid),
    Children(Uuid),
    MembershipCount(Uuid),
    /// The path of the type with this stored identifier.
    TypePath(i16),
}

/// A delete, in the order in which it is carried out.
#[derive(Debug)]
pub struct DeletePlan {
    /// The groups that go. Those of their identifiers that are tenant
    /// identifiers are retired first.
    pub groups: Vec<Uuid>,
    /// Whether the memberships of these groups are deleted next. Their rows of
    /// the closure table are deleted in any case.
    pub memberships: bool,
    /// The groups that are deleted, by their distance from the given group,
    /// the deepest first.
    pub levels: Vec<(i32, Vec<Uuid>)>,
}

/// What a delete holds.
pub struct DeleteView {
    pub groups: Seq<Uuid>,
    pub memberships: bool,
    pub levels: Seq<(i32, Seq<Uuid>)>,
}

impl View for DeletePlan {
    type V = DeleteView;

    open spec fn view(&self) -> DeleteView {
        DeleteView {
            groups: self.groups@,
            memberships: self.memberships,
            levels: level_views(self.levels@),
        }
    }
}

/// What a list of levels holds.
pub open spec fn level_views(levels: Seq<(i32, Vec<Uuid>)>) -> Seq<(i32, Seq<Uuid>)> {
    levels.map_values(|l: (i32, Vec<Uuid>)| (l.0, l.1@))
}

/// The path of the type with this stored identifier, as far as it was read.
pub open spec fn path_of(paths: Seq<(i16, String)>, type_id: i16) -> Option<Seq<char>>
    decreases paths.len(),
{
    if paths.len() == 0 {
        None
    } else if paths.last().0 == type_id {
        Some(paths.last().1@)
    } else {
        path_of(paths.drop_last(), type_id)
    }
}

/// The first child whose type's path was not read yet.
pub open spec fn first_unread(children: Seq<GroupRow>, paths: Seq<(i16, String)>) -> Option<i16>
    decreases children.len(),
{
    if children.len() == 0 {
        None
    } else {
        match first_unread(children.drop_last(), paths) {
            Some(id) => Some(id),
            None => if path_of(paths, children.last().gts_type_id) is None {
                Some(children.last().gts_type_id)
            } else {
                None
            },
        }
    }
}

/// Whether a child is a tenant of its own, so that its identifier is that of
/// another tenant.
pub open spec fn is_hidden(child: GroupRow, paths: Seq<(i16, String)>) -> bool {
    crate::validation::is_tenant_code(path_of(paths, child.gts_type_id)->0)
}

/// The identifiers of the children that may be named.
pub open spec fn named_children(children: Seq<GroupRow>, paths: Seq<(i16, String)>) -> Seq<Seq<char>>
    decreases children.len(),
{
    if children.len() == 0 {
        Seq::empty()
    } else if is_hidden(children.last(), paths) {
        named_children(children.drop_last(), paths)
    } else {
        named_children(children.drop_last(), paths).push(
            crate::ids::hyphenated(children.last().id),
        )
    }
}

/// Whether some child may not be named.
pub open spec fn hides_children(children: Seq<GroupRow>, paths: Seq<(i16, String)>) -> bool {
    exists|i: int| 0 <= i < children.len() && is_hidden(#[trigger] children[i], paths)
}

/// What blocks a delete, in words: how many children there are that may be
/// named, that there are others, and how many members.
pub open spec fn blockers(named: nat, hidden: bool, memberships: u64) -> Seq<Seq<char>> {
    (if named > 0 {
        seq![crate::text::decimal(named) + " child group(s)"@]
    } else {
        Seq::empty()
    }) + (if hidden {
        seq!["additional child group(s) in another tenant"@]
    } else {
        Seq::empty()
    }) + (if memberships > 0 {
        seq![crate::text::decimal(memberships as nat) + " membership(s)"@]
    } else {
        Seq::empty()
    })
}

/// The refusal of a delete that something blocks.
pub open spec fn blocked_refusal(
    group_id: Uuid,
    children: Seq<GroupRow>,
    paths: Seq<(i16, String)>,
    memberships: u64,
) -> crate::error::ErrorView {
    crate::error::ErrorView::ConflictActiveReferences {
        message: "Cannot delete group '"@ + crate::ids::hyphenated(group_id) + "': blocked by "@
            + crate::text::joined(
            blockers(
                named_children(children, paths).len(),
                hides_children(children, paths),
                memberships,
            ),
            " and "@,
        ) + ". Use force=true to cascade."@,
        blocking_entity_ids: named_children(children, paths),
    }
}

/// The groups of a list that are at this distance.
pub open spec fn ids_at(entries: Seq<(Uuid, i32)>, depth: i32) -> Seq<Uuid>
    decreases entries.len(),
{
    if entries.len() == 0 {
        Seq::empty()
    } else if entries.last().1 == depth {
        ids_at(entries.drop_last(), depth).push(entries.last().0)
    } else {
        ids_at(entries.drop_last(), depth)
    }
}

/// Whether levels hold the groups of a list by their distances, the largest
/// distance first.
pub open spec fn is_deepest_first(
    levels: Seq<(i32, Seq<Uuid>)>,
    entries: Seq<(Uuid, i32)>,
) -> bool {
    &&& forall|i: int, j: int|
        0 <= i < j < levels.len() ==> (#[trigger] levels[i]).0 > (#[trigger] levels[j]).0
    &&& forall|k: int|
        0 <= k < levels.len() ==> (#[trigger] levels[k]).1 == ids_at(entries, levels[k].0)
            && levels[k].1.len() > 0
    &&& forall|e: int|
        0 <= e < entries.len() ==> has_level(levels, (#[trigger] entries[e]).1)
}

/// Whether there is a level for this distance.
pub open spec fn has_level(levels: Seq<(i32, Seq<Uuid>)>, depth: i32) -> bool {
    exists|k: int| 0 <= k < levels.len() && (#[trigger] levels[k]).0 == depth
}

/// The group and its descendants.
pub open spec fn whole_subtree(root: Uuid, descendants: Seq<(Uuid, i32)>) -> Seq<(Uuid, i32)> {
    seq![(root, 0i32)] + descendants
}

/// The identifiers of a list.
pub open spec fn ids_of(entries: Seq<(Uuid, i32)>) -> Seq<Uuid> {
    entries.map_values(|e: (Uuid, i32)| e.0)
}

/// Whether a delete removes exactly the groups of a list.
pub open spec fn is_delete_of(plan: DeleteView, entries: Seq<(Uuid, i32)>) -> bool {
    &&& plan.groups == ids_of(entries)
    &&& is_deepest_first(plan.levels, entries)
}

/// Whether `d` is what a delete does next in its transaction.
pub open spec fn is_delete_step(
    d: Decision<DeleteNeed, DeleteView>,
    group_id: Uuid,
    force: bool,
    facts: DeleteFacts,
) -> bool {
    if facts.visible is None {
        d == Decision::<DeleteNeed, DeleteView>::Need(DeleteNeed::Visible(group_id))
    } else if !facts.visible->0 {
        d == Decision::<DeleteNeed, DeleteView>::Reject(
            crate::error::ErrorView::GroupNotFound { id: group_id },
        )
    } else if facts.exists is None {
        d == Decision::<DeleteNeed, DeleteView>::Need(DeleteNeed::Group(group_id))
    } else if !facts.exists->0 {
        d == Decision::<DeleteNeed, DeleteView>::Reject(
            crate::error::ErrorView::GroupNotFound { id: group_id },
        )
    } else if force {
        match facts.descendants {
            None => d == Decision::<DeleteNeed, DeleteView>::Need(DeleteNeed::Descendants(group_id)),
            Some(list) => d matches Decision::Commit(plan) && is_delete_of(
                plan,
                whole_subtree(group_id, list@),
            ) && plan.memberships,
        }
    } else {
        match facts.children {
            None => d == Decision::<DeleteNeed, DeleteView>::Need(DeleteNeed::Children(group_id)),
            Some(children) => match facts.membership_count {
                None => d == Decision::<DeleteNeed, DeleteView>::Need(
                    DeleteNeed::MembershipCount(group_id),
                ),
                Some(count) => if children@.len() == 0 && count == 0 {
                    d matches Decision::Commit(plan) && is_delete_of(
                        plan,
                        whole_subtree(group_id, Seq::empty()),
                    ) && !plan.memberships
                } else {
                    match first_unread(children@, facts.type_paths@) {
                        Some(type_id) => d == Decision::<DeleteNeed, DeleteView>::Need(
                            DeleteNeed::TypePath(type_id),
                        ),
                        None => d == Decision::<DeleteNeed, DeleteView>::Reject(
                            blocked_refusal(group_id, children@, facts.type_paths@, count),
                        ),
                    }
                },
            },
        }
    }
}

impl GroupService {
    /// What a delete does next in its transaction. Without `force` a group with
    /// children or members stays; with it the whole subtree goes.
    pub fn delete_group_inner(group_id: Uuid, force: bool, facts: &DeleteFacts) -> (r: Step<
        DeleteNeed,
        DeletePlan,
    >)
        ensures
            is_delete_step(r@, group_id, force, *facts),
            r matches Step::Commit(plan) ==> {
                &&& plan.groups@.len() > 0
                &&& plan.groups@[0] == group_id
                &&& force ==> plan.memberships
                &&& !force ==> plan.groups@.len() == 1 && facts.membership_count == Some(0u64)
            },
    {
        match facts.visible {
            None => {
                return Step::Need(DeleteNeed::Visible(group_id));
            },
            Some(false) => {
                return Step::Reject(DomainError::group_not_found(group_id));
            },
            Some(true) => {},
        }
        match facts.exists {
            None => {
                return Step::Need(DeleteNeed::Group(group_id));
            },
            Some(false) => {
                return Step::Reject(DomainError::group_not_found(group_id));
            },
            Some(true) => {},
        }
        if force {
            match &facts.descendants {
                None => Step::Need(DeleteNeed::Descendants(group_id)),
                Some(list) => Step::Commit(Self::force_delete_subtree(group_id, list)),
            }
        } else {
            let children: &Vec<GroupRow> = match &facts.children {
                None => {
                    return Step::Need(DeleteNeed::Children(group_id));
                },
                Some(children) => children,
            };
            let count: u64 = match facts.membership_count {
                None => {
                    return Step::Need(DeleteNeed::MembershipCount(group_id));
                },
                Some(count) => count,
            };
            if children.len() == 0 && count == 0 {
                let none: Vec<(Uuid, i32)> = Vec::new();
                proof {
                    assert(none@ =~= Seq::<(Uuid, i32)>::empty());
                }
                let whole: DeletePlan = Self::force_delete_subtree(group_id, &none);
                return Step::Commit(
                    DeletePlan { groups: whole.groups, memberships: false, levels: whole.levels },
                );
            }
            match Self::classify_children_for_delete(children, &facts.type_paths) {
                Err(type_id) => Step::Need(DeleteNeed::TypePath(type_id)),
                Ok((ids, hidden)) => Step::Reject(
                    Self::blocked_error(group_id, ids, hidden, count),
                ),
            }
        }
    }

    fn blocked_error(group_id: Uuid, ids: Vec<String>, hidden: bool, count: u64) -> (r: DomainError)
        ensures
            r@ == (crate::error::ErrorView::ConflictActiveReferences {
                message: "Cannot delete group '"@ + crate::ids::hyphenated(group_id)
                    + "': blocked by "@ + crate::text::joined(
                    blockers(ids@.len(), hidden, count),
                    " and "@,
                ) + ". Use force=true to cascade."@,
                blocking_entity_ids: crate::text::texts(ids@),
            }),
    {
        let mut parts: Vec<String> = Vec::new();
        let named: usize = ids.len();
        if named > 0 {
            parts.push(concat2(decimal_u64(named as u64).as_str(), " child group(s)"));
        }
        if hidden {
            parts.push("additional child group(s) in another tenant".to_owned());
        }
        if count > 0 {
            parts.push(concat2(decimal_u64(count).as_str(), " membership(s)"));
        }
        proof {
            assert(crate::text::texts(parts@) =~= blockers(ids@.len(), hidden, count));
        }
        let message: String = concat5(
            "Cannot delete group '",
            uuid_text(group_id).as_str(),
            "': blocked by ",
            join_texts(&parts, " and ").as_str(),
            ". Use force=true to cascade.",
        );
        DomainError::conflict_active_references(message).with_blocking_entity_ids(ids)
    }

    /// The identifiers of the children that may be named, and whether there are
    /// others; or the type whose path has to be read first.
    ///
    /// A child of a tenant type is a tenant of its own and may belong to
    /// another tenant than its parent, so neither its identifier nor how many
    /// of its kind there are is told.
    fn classify_children_for_delete(
        children: &Vec<GroupRow>,
        type_paths: &Vec<(i16, String)>,
    ) -> (r: Result<(Vec<String>, bool), i16>)
        ensures
            match first_unread(children@, type_paths@) {
                Some(type_id) => r == Err::<(Vec<String>, bool), i16>(type_id),
                None => r matches Ok((ids, hidden)) && crate::text::texts(ids@) == named_children(
                    children@,
                    type_paths@,
                ) && hidden == hides_children(children@, type_paths@),
            },
    {
        let mut ids: Vec<String> = Vec::new();
        let mut hidden: bool = false;
        let mut i: usize = 0;
        proof {
            assert(crate::text::texts(ids@) =~= named_children(children@.take(0), type_paths@));
        }
        while i < children.len()
            invariant
                i <= children.len(),
                first_unread(children@.take(i as int), type_paths@) is None,
                crate::text::texts(ids@) == named_children(children@.take(i as int), type_paths@),
                hidden <==> exists|k: int|
                    0 <= k < i && is_hidden(#[trigger] children@[k], type_paths@),
            decreases children.len() - i,
        {
            proof {
                assert(children@.take(i as int + 1).drop_last() =~= children@.take(i as int));
            }
            match read_path(type_paths, children[i].gts_type_id) {
                None => {
                    proof {
                        lemma_first_unread(children@, type_paths@, i as int + 1);
                    }
                    return Err(children[i].gts_type_id);
                },
                Some(path) => {
                    let ghost before = crate::text::texts(ids@);
                    if is_tenant_type_code(path) {
                        hidden = true;
                        proof {
                            assert(is_hidden(children@[i as int], type_paths@));
                        }
                    } else {
                        ids.push(uuid_text(children[i].id));
                        proof {
                            assert(crate::text::texts(ids@) =~= before.push(
                                crate::ids::hyphenated(children@[i as int].id),
                            ));
                        }
                    }
                },
            }
            i = i + 1;
        }
        proof {
            assert(children@.take(children@.len() as int) =~= children@);
        }
        Ok((ids, hidden))
    }

    /// The delete of a whole subtree. A group goes only after every group below
    /// it, since a parent must not go before its children.
    fn force_delete_subtree(root: Uuid, descendants: &Vec<(Uuid, i32)>) -> (r: DeletePlan)
        ensures
            is_delete_of(r@, whole_subtree(root, descendants@)),
            r.memberships,
    {
        let ghost entries = whole_subtree(root, descendants@);
        let mut ids: Vec<Uuid> = Vec::new();
        ids.push(root);
        let mut levels: Vec<(i32, Vec<Uuid>)> = Vec::new();
        let mut own: Vec<Uuid> = Vec::new();
        own.push(root);
        levels.push((0, own));
        let mut i: usize = 0;
        proof {
            assert(entries.take(1) =~= seq![(root, 0i32)]);
            assert(seq![(root, 0i32)].drop_last() =~= Seq::<(Uuid, i32)>::empty());
            reveal_with_fuel(ids_at, 2);
            assert(ids_at(entries.take(1), 0) =~= seq![root]);
            let lv = level_views(levels@);
            assert(lv[0].0 == 0);
            assert(own@ =~= seq![root]);
            assert(is_deepest_first(lv, entries.take(1))) by {
                assert forall|e: int| 0 <= e < entries.take(1).len() implies has_level(
                    lv,
                    (#[trigger] entries.take(1)[e]).1,
                ) by {
                    assert(lv[0].0 == entries.take(1)[e].1);
                }
            }
        }
        while i < descendants.len()
            invariant
                i <= descendants.len(),
                entries == whole_subtree(root, descendants@),
                ids@.len() == i + 1,
                forall|k: int| 0 <= k < i + 1 ==> (#[trigger] ids@[k]) == entries[k].0,
                is_deepest_first(level_views(levels@), entries.take(i as int + 1)),
            decreases descendants.len() - i,
        {
            let (id, depth): (Uuid, i32) = descendants[i];
            ids.push(id);
            proof {
                assert(entries[i as int + 1] == descendants@[i as int]);
                assert(entries.take(i as int + 2) =~= entries.take(i as int + 1).push((id, depth)));
            }
            add_to_level(&mut levels, Ghost(entries.take(i as int + 1)), id, depth);
            i = i + 1;
        }
        proof {
            assert(entries.take(entries.len() as int) =~= entries);
            assert(ids@ =~= ids_of(entries));
        }
        DeletePlan { groups: ids, memberships: true, levels }
    }
}

/// The path of the type with this stored identifier, as far as it was read.
fn read_path(paths: &Vec<(i16, String)>, type_id: i16) -> (r: Option<&str>)
    ensures
        r is Some <==> path_of(paths@, type_id) is Some,
        r matches Some(p) ==> path_of(paths@, type_id) == Some(p@),
{
    let mut i: usize = paths.len();
    proof {
        assert(paths@.take(paths@.len() as int) =~= paths@);
    }
    while i > 0
        invariant
            i <= paths.len(),
            path_of(paths@, type_id) == path_of(paths@.take(i as int), type_id),
        decreases i,
    {
        i = i - 1;
        proof {
            assert(paths@.take(i as int + 1).drop_last() =~= paths@.take(i as int));
        }
        if paths[i].0 == type_id {
            return Some(paths[i].1.as_str());
        }
    }
    None
}

proof fn lemma_first_unread(children: Seq<GroupRow>, paths: Seq<(i16, String)>, k: int)
    requires
        0 <= k <= children.len(),
        first_unread(children.take(k), paths) is Some,
    ensures
        first_unread(children, paths) == first_unread(children.take(k), paths),
    decreases children.len(),
{
    if k == children.len() {
        assert(children.take(k) =~= children);
    } else {
        assert(children.drop_last().take(k) =~= children.take(k));
        lemma_first_unread(children.drop_last(), paths, k);
    }
}

/// Adds a group to the level of its distance.
fn add_to_level(
    levels: &mut Vec<(i32, Vec<Uuid>)>,
    entries: Ghost<Seq<(Uuid, i32)>>,
    id: Uuid,
    depth: i32,
)
    requires
        is_deepest_first(level_views(old(levels)@), entries@),
    ensures
        is_deepest_first(level_views(final(levels)@), entries@.push((id, depth))),
{
    let ghost before = level_views(levels@);
    let mut at: usize = 0;
    while at < levels.len() && levels[at].0 > depth
        invariant
            at <= levels.len(),
            before == level_views(levels@),
            forall|k: int| 0 <= k < at ==> (#[trigger] before[k]).0 > depth,
        decreases levels.len() - at,
    {
        at = at + 1;
        assert(before[at as int - 1].0 == levels@[at as int - 1].0);
    }
    let ghost more = entries@.push((id, depth));
    proof {
        assert(more.drop_last() =~= entries@);
    }
    if at < levels.len() && levels[at].0 == depth {
        let (d, mut ids): (i32, Vec<Uuid>) = levels.remove(at);
        ids.push(id);
        levels.insert(at, (d, ids));
        proof {
            let after = level_views(levels@);
            assert(after =~= before.update(at as int, (depth, before[at as int].1.push(id))));
            lemma_level_grows(before, after, entries@, at as int, id, depth);
        }
    } else {
        let mut ids: Vec<Uuid> = Vec::new();
        ids.push(id);
        proof {
            if at < before.len() {
                assert(before[at as int].0 == levels@[at as int].0);
            }
        }
        levels.insert(at, (depth, ids));
        proof {
            let after = level_views(levels@);
            assert(after =~= before.insert(at as int, (depth, seq![id])));
            lemma_level_appears(before, after, entries@, at as int, id, depth);
        }
    }
}

proof fn lemma_ids_at_empty(entries: Seq<(Uuid, i32)>, depth: i32)
    requires
        forall|e: int| 0 <= e < entries.len() ==> (#[trigger] entries[e]).1 != depth,
    ensures
        ids_at(entries, depth).len() == 0,
    decreases entries.len(),
{
    if entries.len() > 0 {
        assert(entries[entries.len() - 1].1 != depth);
        assert forall|e: int| 0 <= e < entries.drop_last().len() implies (
        #[trigger] entries.drop_last()[e]).1 != depth by {
            assert(entries[e].1 != depth);
        }
        lemma_ids_at_empty(entries.drop_last(), depth);
    }
}

proof fn lemma_level_grows(
    before: Seq<(i32, Seq<Uuid>)>,
    after: Seq<(i32, Seq<Uuid>)>,
    entries: Seq<(Uuid, i32)>,
    at: int,
    id: Uuid,
    depth: i32,
)
    requires
        is_deepest_first(before, entries),
        0 <= at < before.len(),
        before[at].0 == depth,
        after == before.update(at, (depth, before[at].1.push(id))),
    ensures
        is_deepest_first(after, entries.push((id, depth))),
{
    let more = entries.push((id, depth));
    assert(more.drop_last() =~= entries);
    assert forall|k: int| 0 <= k < after.len() implies (#[trigger] after[k]).1 == ids_at(
        more,
        after[k].0,
    ) && after[k].1.len() > 0 by {
        assert(before[k].1 == ids_at(entries, before[k].0));
        if k < at {
            assert(before[k].0 > before[at].0);
        } else if k > at {
            assert(before[at].0 > before[k].0);
        }
    }
    assert forall|i: int, j: int| 0 <= i < j < after.len() implies (#[trigger] after[i]).0 > (
    #[trigger] after[j]).0 by {
        assert(before[i].0 > before[j].0);
    }
    assert forall|e: int| 0 <= e < more.len() implies has_level(after, (#[trigger] more[e]).1) by {
        if e < entries.len() {
            assert(has_level(before, entries[e].1));
            let k = choose|k: int| 0 <= k < before.len() && (#[trigger] before[k]).0 == entries[e].1;
            assert(after[k].0 == more[e].1);
        } else {
            assert(after[at].0 == more[e].1);
        }
    }
}

proof fn lemma_level_appears(
    before: Seq<(i32, Seq<Uuid>)>,
    after: Seq<(i32, Seq<Uuid>)>,
    entries: Seq<(Uuid, i32)>,
    at: int,
    id: Uuid,
    depth: i32,
)
    requires
        is_deepest_first(before, entries),
        0 <= at <= before.len(),
        forall|k: int| 0 <= k < at ==> (#[trigger] before[k]).0 > depth,
        at < before.len() ==> before[at].0 < depth,
        after == before.insert(at, (depth, seq![id])),
    ensures
        is_deepest_first(after, entries.push((id, depth))),
{
    let more = entries.push((id, depth));
    assert(more.drop_last() =~= entries);
    assert forall|k: int| at <= k < before.len() implies (#[trigger] before[k]).0 < depth by {
        if k > at {
            assert(before[at].0 > before[k].0);
        }
    }
    assert forall|e: int| 0 <= e < entries.len() implies (#[trigger] entries[e]).1 != depth by {
        assert(has_level(before, entries[e].1));
        let k = choose|k: int| 0 <= k < before.len() && (#[trigger] before[k]).0 == entries[e].1;
        assert(before[k].0 != depth);
    }
    lemma_ids_at_empty(entries, depth);
    assert(ids_at(entries, depth) =~= Seq::<Uuid>::empty());
    assert(ids_at(more, depth) =~= seq![id]);
    assert forall|k: int| 0 <= k < after.len() implies (#[trigger] after[k]).1 == ids_at(
        more,
        after[k].0,
    ) && after[k].1.len() > 0 by {
        if k < at {
            assert(after[k] == before[k]);
            assert(before[k].1 == ids_at(entries, before[k].0));
        } else if k > at {
            assert(after[k] == before[k - 1]);
            assert(before[k - 1].1 == ids_at(entries, before[k - 1].0));
        }
    }
    assert forall|i: int, j: int| 0 <= i < j < after.len() implies (#[trigger] after[i]).0 > (
    #[trigger] after[j]).0 by {
        let i0 = if i < at { i } else { i - 1 };
        let j0 = if j < at { j } else { j - 1 };
        if i != at && j != at {
            assert(after[i] == before[i0]);
            assert(after[j] == before[j0]);
        } else if i == at {
            assert(after[j] == before[j - 1]);
        } else {
            assert(after[i] == before[i]);
        }
    }
    assert forall|e: int| 0 <= e < more.len() implies has_level(after, (#[trigger] more[e]).1) by {
        if e < entries.len() {
            assert(has_level(before, entries[e].1));
            let k = choose|k: int| 0 <= k < before.len() && (#[trigger] before[k]).0 == entries[e].1;
            if k < at {
                assert(after[k].0 == more[e].1);
            } else {
                assert(after[k + 1] == before[k]);
                assert(after[k + 1].0 == more[e].1);
            }
        } else {
            assert(after[at].0 == more[e].1);
        }
    }
}

// -- Laws --

/// A create never asks for what it was told: each round of reading brings it
/// nearer to its end.
pub proof fn create_never_asks_twice(
    cmd: CommandView,
    group_id: Uuid,
    profile: QueryProfile,
    facts: CreateFacts,
    need: CreateNeed,
)
    requires
        create_step(cmd, group_id, profile, facts) == Decision::<CreateNeed, InsertView>::Need(need),
    ensures
        match need {
            CreateNeed::GroupType => facts.group_type is None,
            CreateNeed::Retired(_) => facts.retired is None,
            CreateNeed::Parent(_) => facts.parent is None,
            CreateNeed::TypePath(_) => facts.parent_type_path is None,
            CreateNeed::Depth(_) => facts.parent_depth is None,
            CreateNeed::ChildCount(_) => facts.sibling_count is None,
            CreateNeed::TenantRoot => facts.tenant_root is None,
        },
{
}

/// A move never asks for what it was told.
pub proof fn move_never_asks_twice(
    group_id: Uuid,
    new_parent_id: Option<Uuid>,
    profile: QueryProfile,
    facts: MoveFacts,
    need: MoveNeed,
)
    requires
        move_step(group_id, new_parent_id, profile, facts) == Decision::<MoveNeed, MovePlan>::Need(
            need,
        ),
    ensures
        match need {
            MoveNeed::Visible(_) => facts.visible is None,
            MoveNeed::Group(_) => facts.group is None,
            MoveNeed::Parent(_) => facts.parent is None,
            MoveNeed::TypePath(_) => facts.type_path is None,
            MoveNeed::GroupType => facts.group_type is None,
            MoveNeed::IsDescendant(_, _) => facts.is_descendant is None,
            MoveNeed::ParentTypePath(_) => facts.parent_type_path is None,
            MoveNeed::Depth(_) => facts.parent_depth is None,
            MoveNeed::Subtree(_) => facts.subtree is None,
            MoveNeed::ChildCount(_) => facts.sibling_count is None,
            MoveNeed::TenantRoot => facts.tenant_root is None,
            MoveNeed::RootSiblings(_, _) => facts.root_siblings is None,
        },
{
}

/// A delete never asks for what it was told.
pub proof fn delete_never_asks_twice(
    group_id: Uuid,
    force: bool,
    facts: DeleteFacts,
    need: DeleteNeed,
)
    requires
        is_delete_step(
            Decision::<DeleteNeed, DeleteView>::Need(need),
            group_id,
            force,
            facts,
        ),
    ensures
        match need {
            DeleteNeed::Visible(_) => facts.visible is None,
            DeleteNeed::Group(_) => facts.exists is None,
            DeleteNeed::Descendants(_) => facts.descendants is None,
            DeleteNeed::Children(_) => facts.children is None,
            DeleteNeed::MembershipCount(_) => facts.membership_count is None,
            DeleteNeed::TypePath(type_id) => path_of(facts.type_paths@, type_id) is None,
        },
{
    if let DeleteNeed::TypePath(type_id) = need {
        lemma_unread_is_unread((facts.children->0)@, facts.type_paths@);
    }
}

proof fn lemma_unread_is_unread(children: Seq<GroupRow>, paths: Seq<(i16, String)>)
    ensures
        first_unread(children, paths) matches Some(id) ==> path_of(paths, id) is None,
    decreases children.len(),
{
    if children.len() > 0 {
        lemma_unread_is_unread(children.drop_last(), paths);
    }
}

/// A group that the caller may not see is answered as one that does not exist,
/// whatever else holds of it.
pub proof fn hidden_group_is_answered_as_missing(
    group_id: Uuid,
    new_parent_id: Option<Uuid>,
    profile: QueryProfile,
    hidden: MoveFacts,
    missing: MoveFacts,
)
    requires
        hidden.visible == Some(false),
        missing.visible == Some(true),
        missing.group == Some(None::<GroupRow>),
    ensures
        move_step(group_id, new_parent_id, profile, hidden) == move_step(
            group_id,
            new_parent_id,
            profile,
            missing,
        ),
{
}

/// A delete of a group that the caller may not see is answered as that of a
/// group that does not exist.
pub proof fn hidden_group_is_deleted_like_a_missing_one(
    d: Decision<DeleteNeed, DeleteView>,
    group_id: Uuid,
    force: bool,
    hidden: DeleteFacts,
    missing: DeleteFacts,
)
    requires
        hidden.visible == Some(false),
        missing.visible == Some(true),
        missing.exists == Some(false),
    ensures
        is_delete_step(d, group_id, force, hidden) <==> is_delete_step(
            d,
            group_id,
            force,
            missing,
        ),
{
}

/// A create in a tenant other than the caller's own that the scope does not
/// cover is answered as not found, with nothing but the identifier that the
/// caller named.
pub proof fn uncovered_tenant_is_not_found(
    d: Decision<CreateGate, CommandView>,
    req: CreateGroupRequest,
    caller_tenant: Uuid,
    scope: AccessScope,
    schema: Option<SchemaLookup>,
)
    requires
        is_create_gate(d, req, caller_tenant, Some(scope), schema),
        create_refusal(req) is None,
        req.id is None,
        req.tenant_id matches Some(target) && target != caller_tenant && !covers(scope, target),
    ensures
        d == Decision::<CreateGate, CommandView>::Reject(
            crate::error::ErrorView::TenantNotFound { tenant_id: req.tenant_id->0 },
        ),
{
}

/// A move under a parent of another tenant is answered alike, whatever the
/// parent is: neither its type nor its tenant is disclosed.
pub proof fn foreign_parent_is_answered_alike(
    group_id: Uuid,
    parent_id: Uuid,
    profile: QueryProfile,
    facts: MoveFacts,
)
    requires
        facts.visible == Some(true),
        facts.group matches Some(Some(_)),
        facts.parent matches Some(Some(_)),
        facts.group->0->0.tenant_id != facts.parent->0->0.tenant_id,
    ensures
        move_step(group_id, Some(parent_id), profile, facts) == Decision::<
            MoveNeed,
            MovePlan,
        >::Reject(cross_tenant_refusal(group_id)),
{
}

/// A blocked delete names at least one blocker.
pub proof fn blocked_delete_names_a_blocker(
    children: Seq<GroupRow>,
    paths: Seq<(i16, String)>,
    memberships: u64,
)
    requires
        children.len() > 0 || memberships > 0,
    ensures
        blockers(
            named_children(children, paths).len(),
            hides_children(children, paths),
            memberships,
        ).len() > 0,
{
    if children.len() > 0 {
        let last = children.len() - 1;
        if is_hidden(children[last], paths) {
            assert(hides_children(children, paths));
        } else {
            assert(named_children(children, paths).len() > 0);
        }
    }
}

/// A blocked delete names only children that are no tenants of their own, so
/// it discloses no tenant's identifier.
pub proof fn blocked_delete_names_no_tenant(
    children: Seq<GroupRow>,
    paths: Seq<(i16, String)>,
    k: int,
)
    requires
        0 <= k < named_children(children, paths).len(),
    ensures
        exists|i: int|
            0 <= i < children.len() && !is_hidden(#[trigger] children[i], paths)
                && named_children(children, paths)[k] == crate::ids::hyphenated(children[i].id),
    decreases children.len(),
{
    let head = named_children(children.drop_last(), paths);
    if k < head.len() {
        blocked_delete_names_no_tenant(children.drop_last(), paths, k);
        let i = choose|i: int|
            0 <= i < children.drop_last().len() && !is_hidden(
                #[trigger] children.drop_last()[i],
                paths,
            ) && head[k] == crate::ids::hyphenated(children.drop_last()[i].id);
        assert(!is_hidden(children[i], paths));
    } else {
        assert(!is_hidden(children[children.len() - 1], paths));
    }
}

// -- Laws: what an operation ends in, told by what was read --

/// What a create inserts is what was asked for: the group gets the identifier
/// that was settled on, the parent, the name and the metadata of the command,
/// the stored identifier that was read for its type, and as its tenant itself
/// where its type is a tenant type, else the tenant of the command.
pub proof fn create_inserts_what_was_asked_for(
    cmd: CommandView,
    group_id: Uuid,
    profile: QueryProfile,
    facts: CreateFacts,
    plan: InsertView,
)
    requires
        create_step(cmd, group_id, profile, facts) == Decision::<CreateNeed, InsertView>::Commit(
            plan,
        ),
    ensures
        plan.group_id == group_id,
        plan.parent_id == cmd.parent_id,
        plan.name == cmd.name,
        plan.metadata == cmd.metadata,
        facts.group_type matches Some(Some(found)) && plan.type_id == found.0,
        plan.tenant_id == if "gts.cf.core.rg.type.v1~cf.core._.tenant.v1~"@.is_prefix_of(
            crate::text::unicode_lowercase(crate::text::trim(cmd.code)),
        ) {
            group_id
        } else {
            cmd.tenant_id
        },
{
}

/// A create under a parent inserts exactly where what it read says that the type
/// exists, that a tenant identifier is not retired, that the parent exists and
/// its type is one of those that the group's type lists, that the parent belongs
/// to the tenant of the command unless the group is a tenant of its own, that the
/// group would stand at a depth below the limit, and that the parent has fewer
/// children than the limit.
pub proof fn create_under_a_parent_inserts_where_the_rules_allow(
    cmd: CommandView,
    group_id: Uuid,
    profile: QueryProfile,
    facts: CreateFacts,
    parent_id: Uuid,
)
    requires
        cmd.parent_id == Some(parent_id),
    ensures
        create_step(cmd, group_id, profile, facts) is Commit <==> {
            &&& facts.group_type matches Some(Some(found)) && facts.parent_type_path matches Some(
                path,
            ) && exists|i: int|
                0 <= i < found.1.allowed_parent_types@.len() && (
                #[trigger] found.1.allowed_parent_types@[i])@ == path@
            &&& crate::validation::is_tenant_code(cmd.code) ==> facts.retired == Some(false)
            &&& facts.parent matches Some(Some(parent)) && (crate::validation::is_tenant_code(
                cmd.code,
            ) || parent.tenant_id == cmd.tenant_id)
            &&& profile.max_depth matches Some(max) ==> (facts.parent_depth matches Some(d) && d + 1
                < max)
            &&& profile.max_width matches Some(max) ==> (facts.sibling_count matches Some(c) && c
                < max)
        },
{
    if let Some(Some(found)) = facts.group_type {
        if let Some(path) = facts.parent_type_path {
            crate::text::lemma_texts_contains(found.1.allowed_parent_types@, path@);
        }
    }
}

/// A create of a root inserts exactly where what it read says that the type can
/// be a root and, for a group that is a tenant of its own, that its identifier is
/// not retired and that no root is a tenant yet.
pub proof fn create_of_a_root_inserts_where_the_rules_allow(
    cmd: CommandView,
    group_id: Uuid,
    profile: QueryProfile,
    facts: CreateFacts,
)
    requires
        cmd.parent_id is None,
    ensures
        create_step(cmd, group_id, profile, facts) is Commit <==> {
            &&& facts.group_type matches Some(Some(found)) && found.1.can_be_root
            &&& crate::validation::is_tenant_code(cmd.code) ==> facts.retired == Some(false)
                && facts.tenant_root == Some(None::<Uuid>)
        },
{
}

/// Whether no path of a list is this one.
pub open spec fn lists_no(list: Seq<String>, path: Seq<char>) -> bool {
    forall|i: int| 0 <= i < list.len() ==> (#[trigger] list[i])@ != path
}

/// A refused create has one cause in what was read: an unknown type, a retired
/// identifier, a missing parent, a parent of a type that is not listed, a foreign
/// parent, a depth or a width that reaches its limit, a type that cannot be a
/// root, or a root that is a tenant already. The rules are checked in this order,
/// so that each error says that the ones before it are kept, and each names the
/// code or the identifier that it is about.
pub proof fn refused_create_has_its_cause(
    cmd: CommandView,
    group_id: Uuid,
    profile: QueryProfile,
    facts: CreateFacts,
    e: crate::error::ErrorView,
)
    requires
        create_step(cmd, group_id, profile, facts) == Decision::<CreateNeed, InsertView>::Reject(e),
    ensures
        e is TypeNotFound || (facts.group_type matches Some(Some(_))),
        e is TypeNotFound || e is GroupAlreadyExists || (crate::validation::is_tenant_code(cmd.code)
            ==> facts.retired == Some(false)),
        match e {
            crate::error::ErrorView::TypeNotFound { code } => code == cmd.code && facts.group_type
                == Some(None::<(i16, ResourceGroupType)>),
            crate::error::ErrorView::GroupAlreadyExists { id } => id == group_id && facts.retired
                == Some(true) && crate::validation::is_tenant_code(cmd.code),
            crate::error::ErrorView::GroupNotFound { id } => cmd.parent_id == Some(id)
                && facts.parent == Some(None::<GroupRow>),
            crate::error::ErrorView::InvalidParentType { message } => match cmd.parent_id {
                Some(_) => facts.parent matches Some(Some(_)) && facts.parent_type_path matches Some(
                    path,
                ) && lists_no((facts.group_type->0->0).1.allowed_parent_types@, path@) && message
                    == "Type '"@ + cmd.code + "' does not allow parent type '"@ + path@ + "'"@,
                None => !(facts.group_type->0->0).1.can_be_root && message == "Type '"@ + cmd.code
                    + "' cannot be a root group (can_be_root=false)"@,
            },
            crate::error::ErrorView::Validation { message } => {
                &&& cmd.parent_id is Some
                &&& message
                    == "Cannot create group under this parent; parent belongs to a different tenant"@
                &&& !crate::validation::is_tenant_code(cmd.code)
                &&& facts.parent matches Some(Some(row)) && row.tenant_id != cmd.tenant_id
                &&& facts.parent_type_path matches Some(path) && !lists_no(
                    (facts.group_type->0->0).1.allowed_parent_types@,
                    path@,
                )
            },
            crate::error::ErrorView::LimitViolation { message } => {
                &&& cmd.parent_id is Some
                &&& facts.parent matches Some(Some(row)) && (crate::validation::is_tenant_code(
                    cmd.code,
                ) || row.tenant_id == cmd.tenant_id)
                &&& facts.parent_type_path matches Some(path) && !lists_no(
                    (facts.group_type->0->0).1.allowed_parent_types@,
                    path@,
                )
                &&& {
                    ||| profile.max_depth matches Some(max) && facts.parent_depth matches Some(d)
                        && d + 1 >= max && message == "Depth limit exceeded: adding child at depth "@
                        + crate::text::signed_decimal(d + 1) + " exceeds max_depth "@
                        + crate::text::decimal(max as nat)
                    ||| profile.max_width matches Some(max) && facts.sibling_count matches Some(c)
                        && c >= max && message == "Width limit exceeded: parent already has "@
                        + crate::text::decimal(c as nat) + " children, max_width is "@
                        + crate::text::decimal(max as nat) && (profile.max_depth matches Some(m)
                        ==> facts.parent_depth->0 + 1 < m)
                }
            },
            crate::error::ErrorView::TenantRootAlreadyExists { existing_root_id, detail } =>
                cmd.parent_id is None && crate::validation::is_tenant_code(cmd.code)
                    && facts.tenant_root == Some(Some(existing_root_id)) && detail
                    == "Cannot create tenant-type root '"@ + cmd.name + "' ("@ + cmd.code
                    + "): tenant root already exists"@
                    && (facts.group_type->0->0).1.can_be_root,
            _ => false,
        },
{
    if let Some(Some(found)) = facts.group_type {
        if let Some(path) = facts.parent_type_path {
            crate::text::lemma_texts_contains(found.1.allowed_parent_types@, path@);
        }
    }
}

/// What a create asks for is about its own group, its own parent, and that
/// parent's type.
pub proof fn create_asks_about_its_own(
    cmd: CommandView,
    group_id: Uuid,
    profile: QueryProfile,
    facts: CreateFacts,
    need: CreateNeed,
)
    requires
        create_step(cmd, group_id, profile, facts) == Decision::<CreateNeed, InsertView>::Need(need),
    ensures
        match need {
            CreateNeed::GroupType => true,
            CreateNeed::Retired(id) => id == group_id && crate::validation::is_tenant_code(cmd.code),
            CreateNeed::Parent(id) => cmd.parent_id == Some(id),
            CreateNeed::TypePath(id) => facts.parent matches Some(Some(row)) && row.gts_type_id
                == id,
            CreateNeed::Depth(id) => cmd.parent_id == Some(id) && profile.max_depth is Some,
            CreateNeed::ChildCount(id) => cmd.parent_id == Some(id) && profile.max_width is Some,
            CreateNeed::TenantRoot => cmd.parent_id is None && crate::validation::is_tenant_code(
                cmd.code,
            ),
        },
{
}

/// A create goes into its transaction exactly where its code is that of a type,
/// its name has 1 to 255 characters, a tenant is named only for a group that is
/// no tenant of its own and an identifier only in the caller's own tenant, the
/// policy was asked and its scope covers a tenant that is not the caller's, and
/// the registry was asked and accepts the metadata, if there are any.
pub proof fn create_is_admitted_where_the_request_is_in_order(
    d: Decision<CreateGate, CommandView>,
    req: CreateGroupRequest,
    caller_tenant: Uuid,
    scope: Option<AccessScope>,
    schema: Option<SchemaLookup>,
)
    requires
        is_create_gate(d, req, caller_tenant, scope, schema),
    ensures
        d is Commit <==> {
            &&& crate::validation::type_code_refusal(req.code@) is None
            &&& 1 <= req.name@.len() <= 255
            &&& scope is Some
            &&& match req.tenant_id {
                None => true,
                Some(t) => !crate::validation::is_tenant_code(req.code@) && (t == caller_tenant || (
                req.id is None && ((scope->0).unconstrained || exists|i: int|
                    0 <= i < (scope->0).owner_tenant_ids@.len()
                        && #[trigger] (scope->0).owner_tenant_ids@[i] == t))),
            }
            &&& req.metadata is None || (schema matches Some(found)
                && crate::validation::registry_accepts(req.metadata, found))
        },
        scope is Some && (req.metadata is Some ==> schema is Some) ==> !(d is Need),
{
}

/// An admitted create carries the request: its identifier, its code in
/// canonical form, its name, parent and metadata, and the tenant that it names,
/// else the caller's.
pub proof fn admitted_create_carries_the_request(
    d: Decision<CreateGate, CommandView>,
    req: CreateGroupRequest,
    caller_tenant: Uuid,
    scope: Option<AccessScope>,
    schema: Option<SchemaLookup>,
    cmd: CommandView,
)
    requires
        is_create_gate(d, req, caller_tenant, scope, schema),
        d == Decision::<CreateGate, CommandView>::Commit(cmd),
    ensures
        cmd.id == req.id,
        cmd.code == crate::text::unicode_lowercase(crate::text::trim(req.code@)),
        cmd.name == req.name@,
        cmd.parent_id == req.parent_id,
        cmd.metadata == req.metadata,
        req.tenant_id matches Some(t) ==> cmd.tenant_id == t,
        req.tenant_id is None ==> cmd.tenant_id == caller_tenant,
        scope is Some,
        req.metadata is Some ==> schema is Some,
{
}

/// A create that still has to ask asks the policy about the tenant that it is
/// aimed at, the parent and whether the group is to be a tenant, or it asks the
/// registry because there are metadata to check.
pub proof fn create_gate_asks_about_the_request(
    d: Decision<CreateGate, CommandView>,
    req: CreateGroupRequest,
    caller_tenant: Uuid,
    scope: Option<AccessScope>,
    schema: Option<SchemaLookup>,
    need: CreateGate,
)
    requires
        is_create_gate(d, req, caller_tenant, scope, schema),
        d == Decision::<CreateGate, CommandView>::Need(need),
    ensures
        match need {
            CreateGate::Scope(asked) => {
                &&& scope is None
                &&& asked.parent_id == req.parent_id
                &&& asked.is_tenant == crate::validation::is_tenant_code(req.code@)
                &&& req.tenant_id matches Some(t) ==> asked.owner_tenant_id == t
                &&& req.tenant_id is None ==> asked.owner_tenant_id == caller_tenant
            },
            CreateGate::Schema => req.metadata is Some && schema is None && scope is Some,
        },
{
}

/// A refused request of a create is refused for one cause: for the request
/// itself, or because it is aimed at a tenant that is not the caller's and that
/// the scope does not cover, which is then not found. Metadata are looked at
/// last.
pub proof fn refused_request_has_its_cause(
    d: Decision<CreateGate, CommandView>,
    req: CreateGroupRequest,
    caller_tenant: Uuid,
    scope: Option<AccessScope>,
    schema: Option<SchemaLookup>,
    e: crate::error::ErrorView,
)
    requires
        is_create_gate(d, req, caller_tenant, scope, schema),
        d == Decision::<CreateGate, CommandView>::Reject(e),
    ensures
        match e {
            crate::error::ErrorView::TenantNotFound { tenant_id } => {
                &&& req.tenant_id == Some(tenant_id)
                &&& tenant_id != caller_tenant
                &&& scope matches Some(s) && !s.unconstrained && forall|i: int|
                    0 <= i < s.owner_tenant_ids@.len() ==> #[trigger] s.owner_tenant_ids@[i]
                        != tenant_id
                &&& crate::validation::type_code_refusal(req.code@) is None
                &&& 1 <= req.name@.len() <= 255
                &&& !crate::validation::is_tenant_code(req.code@)
                &&& req.id is None
            },
            crate::error::ErrorView::Validation { message } => {
                ||| crate::validation::type_code_refusal(req.code@) == Some(message)
                ||| crate::validation::type_code_refusal(req.code@) is None && {
                    ||| !(1 <= req.name@.len() <= 255) && message
                        == "Group name must be between 1 and 255 characters"@
                    ||| 1 <= req.name@.len() <= 255 && req.tenant_id is Some
                        && crate::validation::is_tenant_code(req.code@) && message
                        == "tenant_id must not be set when creating a tenant-typed group: its tenant scope is always the group's own id, never a caller-supplied value"@
                    ||| 1 <= req.name@.len() <= 255 && req.tenant_id is Some
                        && !crate::validation::is_tenant_code(req.code@) && req.id is Some
                        && req.tenant_id != Some(caller_tenant) && message
                        == "id and tenant_id cannot both be set on group creation: an explicit id combined with a cross-tenant target is not accepted while identifier ownership policy is undecided (VHP-2343)"@
                    ||| 1 <= req.name@.len() <= 255 && scope is Some && req.metadata is Some
                        && schema is Some && !crate::validation::registry_accepts(
                        req.metadata,
                        schema->0,
                    )
                }
            },
            _ => false,
        },
{
}

/// A code that is refused is named in the refusal of the create as it is named
/// when it is checked alone, before anything else is looked at.
pub proof fn refused_code_is_reported_first(
    d: Decision<CreateGate, CommandView>,
    req: CreateGroupRequest,
    caller_tenant: Uuid,
    scope: Option<AccessScope>,
    schema: Option<SchemaLookup>,
)
    requires
        is_create_gate(d, req, caller_tenant, scope, schema),
        crate::validation::type_code_refusal(req.code@) is Some,
    ensures
        d == Decision::<CreateGate, CommandView>::Reject(
            crate::error::ErrorView::Validation {
                message: crate::validation::type_code_refusal(req.code@)->0,
            },
        ),
{
}

/// An update writes the name and the metadata of the request to the group and
/// nothing else, exactly where the name has 1 to 255 characters, the caller may
/// see the group, and there are no metadata or the registry was asked and accepts
/// them. A group that the caller may not see is not found, and everything else
/// that is refused is refused as invalid.
pub proof fn update_writes_the_request(
    d: Decision<UpdateNeed, UpdateView>,
    group_id: Uuid,
    req: UpdateGroupRequest,
    group_code: Option<Option<Seq<char>>>,
    schema: Option<SchemaLookup>,
)
    requires
        is_update_step(d, group_id, req, group_code, schema),
    ensures
        d is Commit <==> {
            &&& 1 <= req.name@.len() <= 255
            &&& group_code matches Some(Some(_))
            &&& req.metadata is None || (schema matches Some(found)
                && crate::validation::registry_accepts(req.metadata, found))
        },
        d matches Decision::Commit(plan) ==> plan.group_id == group_id && plan.name == req.name@
            && plan.metadata == req.metadata,
        d matches Decision::Reject(e) ==> match e {
            crate::error::ErrorView::GroupNotFound { id } => id == group_id && group_code == Some(
                None::<Seq<char>>,
            ) && 1 <= req.name@.len() <= 255,
            crate::error::ErrorView::Validation { message } => {
                ||| !(1 <= req.name@.len() <= 255) && message
                    == "Group name must be between 1 and 255 characters"@
                ||| 1 <= req.name@.len() <= 255 && (group_code matches Some(Some(_)))
                    && req.metadata is Some && schema is Some
                    && !crate::validation::registry_accepts(req.metadata, schema->0)
            },
            _ => false,
        },
{
}

/// An update asks for the group where it was not read, and for the schema only
/// where there are metadata to check.
pub proof fn update_never_asks_twice(
    d: Decision<UpdateNeed, UpdateView>,
    group_id: Uuid,
    req: UpdateGroupRequest,
    group_code: Option<Option<Seq<char>>>,
    schema: Option<SchemaLookup>,
    need: UpdateNeed,
)
    requires
        is_update_step(d, group_id, req, group_code, schema),
        d == Decision::<UpdateNeed, UpdateView>::Need(need),
    ensures
        match need {
            UpdateNeed::Group => group_code is None,
            UpdateNeed::Schema => group_code matches Some(Some(_)) && schema is None
                && req.metadata is Some,
        },
{
}

proof fn lemma_height_is_reached(list: Seq<(Uuid, i32)>)
    requires
        list.len() > 0,
    ensures
        exists|i: int| 0 <= i < list.len() && (#[trigger] list[i]).1 == height(list),
        forall|i: int| 0 <= i < list.len() ==> (#[trigger] list[i]).1 <= height(list),
    decreases list.len(),
{
    if list.len() == 1 {
        assert(list[0].1 == height(list));
    } else {
        let head = list.drop_last();
        lemma_height_is_reached(head);
        if height(head) >= list.last().1 {
            let i = choose|i: int| 0 <= i < head.len() && (#[trigger] head[i]).1 == height(head);
            assert(list[i].1 == height(list));
        } else {
            assert(list[list.len() - 1].1 == height(list));
        }
        assert forall|i: int| 0 <= i < list.len() implies (#[trigger] list[i]).1 <= height(list) by {
            if i < head.len() {
                assert(head[i].1 <= height(head));
            }
        }
    }
}

/// Whether the group itself and each of its descendants, moved under a parent
/// at this depth, would stand at a depth below the limit. The descendants are
/// listed with their distances from the group.
pub open spec fn fits_below(parent_depth: i32, subtree: Seq<(Uuid, i32)>, max_depth: u32) -> bool {
    &&& parent_depth + 1 < max_depth
    &&& forall|i: int|
        0 <= i < subtree.len() ==> parent_depth + 1 + (#[trigger] subtree[i]).1 < max_depth
}

/// A move under a parent is carried out exactly where what it read says that the
/// caller may see the group, that group and parent exist in the same tenant, that
/// the group's type exists, that the parent is not in the group's subtree and its
/// type is one of those that the group's type lists, that the group and each of
/// its descendants would stand at a depth below the limit, and that the parent
/// has fewer children than the limit. The plan names this group and this parent.
pub proof fn move_under_a_parent_is_carried_out_where_the_rules_allow(
    group_id: Uuid,
    parent_id: Uuid,
    profile: QueryProfile,
    facts: MoveFacts,
)
    requires
        facts.subtree matches Some(list) ==> forall|i: int|
            0 <= i < list@.len() ==> (#[trigger] list@[i]).1 >= 1,
    ensures
        move_step(group_id, Some(parent_id), profile, facts) is Commit <==> {
            &&& facts.visible == Some(true)
            &&& facts.group matches Some(Some(group)) && facts.parent matches Some(Some(parent))
                && parent.tenant_id == group.tenant_id
            &&& facts.type_path is Some
            &&& facts.is_descendant == Some(false)
            &&& facts.group_type matches Some(Some(t)) && facts.parent_type_path matches Some(path)
                && exists|i: int|
                0 <= i < t.allowed_parent_types@.len() && (#[trigger] t.allowed_parent_types@[i])@
                    == path@
            &&& profile.max_depth matches Some(max) ==> (facts.parent_depth matches Some(d)
                && facts.subtree matches Some(list) && fits_below(d, list@, max))
            &&& profile.max_width matches Some(max) ==> (facts.sibling_count matches Some(c) && c
                < max)
        },
        move_step(group_id, Some(parent_id), profile, facts) matches Decision::Commit(plan) ==> plan
            == (MovePlan { group_id, new_parent_id: Some(parent_id) }),
{
    if let Some(Some(t)) = facts.group_type {
        if let Some(path) = facts.parent_type_path {
            crate::text::lemma_texts_contains(t.allowed_parent_types@, path@);
        }
    }
    if let Some(list) = facts.subtree {
        if list@.len() > 0 {
            lemma_height_is_reached(list@);
            assert(list@[0].1 >= 1);
        }
    }
}

/// A move to the root is carried out exactly where what it read says that the
/// caller may see the group, that it and its type exist, that the type can be a
/// root, that no other root is a tenant where the group is one, and that the
/// tenant has fewer other roots than the limit. The plan names this group and no
/// parent.
pub proof fn move_to_the_root_is_carried_out_where_the_rules_allow(
    group_id: Uuid,
    profile: QueryProfile,
    facts: MoveFacts,
)
    ensures
        move_step(group_id, None, profile, facts) is Commit <==> {
            &&& facts.visible == Some(true)
            &&& facts.group matches Some(Some(_))
            &&& facts.type_path is Some
            &&& facts.group_type matches Some(Some(t)) && t.can_be_root && (
            crate::validation::is_tenant_code(t.code@) ==> (facts.tenant_root matches Some(root) && (
            root is None || root == Some(group_id))))
            &&& profile.max_width matches Some(max) ==> (facts.root_siblings matches Some(c) && c
                < max)
        },
        move_step(group_id, None, profile, facts) matches Decision::Commit(plan) ==> plan == (
        MovePlan { group_id, new_parent_id: None }),
{
}

/// A refused move has one cause in what was read: a group that is missing or not
/// to be seen, a missing parent, a foreign parent, an unknown type, a parent in
/// the group's own subtree, a parent of a type that is not listed, a depth or a
/// width that reaches its limit; or, to the root, a type that cannot be one,
/// another root that is a tenant, or a width that reaches its limit. The rules
/// are checked in this order, so that each error says that the ones before it are
/// kept. A depth limit is reported only where the group or one of its descendants
/// would stand at it or beyond, and with the depth of the deepest of them.
pub proof fn refused_move_has_its_cause(
    group_id: Uuid,
    new_parent_id: Option<Uuid>,
    profile: QueryProfile,
    facts: MoveFacts,
    e: crate::error::ErrorView,
)
    requires
        move_step(group_id, new_parent_id, profile, facts) == Decision::<
            MoveNeed,
            MovePlan,
        >::Reject(e),
        facts.subtree matches Some(list) ==> forall|i: int|
            0 <= i < list@.len() ==> (#[trigger] list@[i]).1 >= 1,
    ensures
        e is GroupNotFound || (facts.visible == Some(true) && facts.group matches Some(Some(_))),
        !(e is GroupNotFound) && new_parent_id is Some ==> (facts.parent matches Some(Some(_))),
        !(e is GroupNotFound) && !(e is Validation) && new_parent_id is Some
            ==> facts.group->0->0.tenant_id == facts.parent->0->0.tenant_id,
        !(e is GroupNotFound) && !(e is Validation) && !(e is TypeNotFound) ==> (
        facts.group_type matches Some(Some(_))),
        match e {
            crate::error::ErrorView::GroupNotFound { id } => {
                ||| id == group_id && (facts.visible == Some(false) || (facts.visible == Some(true)
                    && facts.group == Some(None::<GroupRow>)))
                ||| new_parent_id == Some(id) && facts.parent == Some(None::<GroupRow>)
                    && facts.visible == Some(true) && facts.group matches Some(Some(_))
            },
            crate::error::ErrorView::Validation { message } => {
                &&& new_parent_id is Some
                &&& message == "Cannot move group "@ + crate::ids::hyphenated(group_id)
                    + " to a parent in a different tenant; cross-tenant moves are not supported"@
                &&& facts.group matches Some(Some(g)) && facts.parent matches Some(Some(p))
                    && g.tenant_id != p.tenant_id
            },
            crate::error::ErrorView::TypeNotFound { code } => {
                &&& facts.group_type == Some(None::<ResourceGroupType>)
                &&& facts.type_path matches Some(path) && path@ == code
            },
            crate::error::ErrorView::CycleDetected { message } => new_parent_id is Some
                && facts.is_descendant == Some(true) && message == "Cannot move group '"@
                + crate::ids::hyphenated(group_id) + "' under '"@ + crate::ids::hyphenated(
                new_parent_id->0,
            ) + "': would create a cycle"@,
            crate::error::ErrorView::InvalidParentType { message } => match new_parent_id {
                Some(_) => facts.is_descendant == Some(false) && facts.parent_type_path is Some
                    && lists_no(
                    facts.group_type->0->0.allowed_parent_types@,
                    (facts.parent_type_path->0)@,
                ) && message == "Type '"@ + facts.group_type->0->0.code@
                    + "' does not allow parent type '"@ + (facts.parent_type_path->0)@ + "'"@,
                None => !facts.group_type->0->0.can_be_root && message == "Type '"@
                    + facts.group_type->0->0.code@
                    + "' cannot be a root group (can_be_root=false)"@,
            },
            crate::error::ErrorView::LimitViolation { message } => match new_parent_id {
                Some(_) => {
                    &&& facts.is_descendant == Some(false)
                    &&& facts.parent_type_path is Some && !lists_no(
                        facts.group_type->0->0.allowed_parent_types@,
                        (facts.parent_type_path->0)@,
                    )
                    &&& {
                        ||| profile.max_depth matches Some(max) && facts.parent_depth matches Some(d)
                            && facts.subtree matches Some(list) && !fits_below(d, list@, max)
                            && names_the_deepest(message, d, list@, max)
                        ||| profile.max_width matches Some(max) && facts.sibling_count matches Some(
                            c,
                        ) && c >= max && message
                            == "Width limit exceeded: new parent already has "@
                            + crate::text::decimal(c as nat) + " children, max_width is "@
                            + crate::text::decimal(max as nat) && (profile.max_depth matches Some(m)
                            ==> facts.parent_depth is Some && facts.subtree is Some && fits_below(
                            facts.parent_depth->0,
                            (facts.subtree->0)@,
                            m,
                        ))
                    }
                },
                None => facts.group_type->0->0.can_be_root && (profile.max_width matches Some(max)
                    && facts.root_siblings matches Some(c) && c >= max && message
                    == "Width limit exceeded: the tenant already has "@ + crate::text::decimal(
                    c as nat,
                ) + " root group(s), max_width is "@ + crate::text::decimal(max as nat)),
            },
            crate::error::ErrorView::TenantRootAlreadyExists { existing_root_id, detail } =>
                new_parent_id is None && facts.tenant_root == Some(Some(existing_root_id))
                    && detail == "Cannot move tenant-type group '"@ + facts.group_type->0->0.code@
                    + "' ("@ + crate::ids::hyphenated(group_id)
                    + ") to root: tenant root already exists"@
                    && existing_root_id != group_id && facts.group_type->0->0.can_be_root
                    && crate::validation::is_tenant_code(facts.group_type->0->0.code@),
            _ => false,
        },
{
    if let Some(Some(t)) = facts.group_type {
        if let Some(path) = facts.parent_type_path {
            crate::text::lemma_texts_contains(t.allowed_parent_types@, path@);
        }
    }
    if let Some(list) = facts.subtree {
        if list@.len() > 0 {
            lemma_height_is_reached(list@);
            assert(list@[0].1 >= 1);
        }
        if profile.max_depth is Some && facts.parent_depth is Some {
            let deepest = facts.parent_depth->0 + 1 + height(list@);
            assert(is_deepest(deepest, facts.parent_depth->0, list@)) by {
                if list@.len() > 0 {
                    let i = choose|i: int|
                        0 <= i < list@.len() && (#[trigger] list@[i]).1 == height(list@);
                    assert(list@[i].1 == deepest - facts.parent_depth->0 - 1);
                }
            }
        }
    }
}

/// Whether this is the depth of the deepest group of a subtree that is moved
/// under a parent at `parent_depth`.
pub open spec fn is_deepest(deepest: int, parent_depth: i32, subtree: Seq<(Uuid, i32)>) -> bool {
    &&& deepest >= parent_depth + 1
    &&& forall|i: int|
        0 <= i < subtree.len() ==> deepest >= parent_depth + 1 + (#[trigger] subtree[i]).1
    &&& deepest == parent_depth + 1 || exists|i: int|
        0 <= i < subtree.len() && (#[trigger] subtree[i]).1 == deepest - parent_depth - 1
}

/// Whether a message names the depth that the deepest group of a subtree would
/// have, and the limit.
pub open spec fn names_the_deepest(
    message: Seq<char>,
    parent_depth: i32,
    subtree: Seq<(Uuid, i32)>,
    max_depth: u32,
) -> bool {
    exists|deepest: int| #[trigger]
        is_deepest(deepest, parent_depth, subtree) && message
            == "Depth limit exceeded: moving subtree would create depth "@
            + crate::text::signed_decimal(deepest) + ", max_depth is "@ + crate::text::decimal(
            max_depth as nat,
        )
}

/// What a move asks for is about its own group, its tenant and type, and its own
/// new parent.
pub proof fn move_asks_about_its_own(
    group_id: Uuid,
    new_parent_id: Option<Uuid>,
    profile: QueryProfile,
    facts: MoveFacts,
    need: MoveNeed,
)
    requires
        move_step(group_id, new_parent_id, profile, facts) == Decision::<MoveNeed, MovePlan>::Need(
            need,
        ),
    ensures
        match need {
            MoveNeed::Visible(id) => id == group_id,
            MoveNeed::Group(id) => id == group_id,
            MoveNeed::Parent(id) => new_parent_id == Some(id),
            MoveNeed::TypePath(id) => facts.group matches Some(Some(row)) && row.gts_type_id == id,
            MoveNeed::GroupType => facts.type_path is Some,
            MoveNeed::IsDescendant(ancestor, id) => ancestor == group_id && new_parent_id == Some(
                id,
            ),
            MoveNeed::ParentTypePath(id) => {
                &&& new_parent_id is Some
                &&& facts.parent matches Some(Some(row)) && row.gts_type_id == id
            },
            MoveNeed::Depth(id) => new_parent_id == Some(id) && profile.max_depth is Some,
            MoveNeed::Subtree(id) => id == group_id && profile.max_depth is Some,
            MoveNeed::ChildCount(id) => new_parent_id == Some(id) && profile.max_width is Some,
            MoveNeed::TenantRoot => {
                &&& new_parent_id is None
                &&& facts.group_type matches Some(Some(t)) && crate::validation::is_tenant_code(
                    t.code@,
                )
            },
            MoveNeed::RootSiblings(tenant, id) => {
                &&& new_parent_id is None
                &&& id == group_id
                &&& facts.group matches Some(Some(row)) && row.tenant_id == tenant
                &&& profile.max_width is Some
            },
        },
{
}

/// A delete is carried out exactly where what it read says that the caller may
/// see the group and that it exists, and it is forced or the group has neither
/// children nor members. A forced one takes the group and every descendant and
/// their memberships; any other takes the group alone.
pub proof fn delete_is_carried_out_where_nothing_blocks_it(
    d: Decision<DeleteNeed, DeleteView>,
    group_id: Uuid,
    force: bool,
    facts: DeleteFacts,
)
    requires
        is_delete_step(d, group_id, force, facts),
    ensures
        d is Commit <==> facts.visible == Some(true) && facts.exists == Some(true) && if force {
            facts.descendants is Some
        } else {
            facts.children is Some && (facts.children->0)@.len() == 0 && facts.membership_count
                == Some(0u64)
        },
        d matches Decision::Commit(plan) ==> {
            &&& plan.groups.contains(group_id)
            &&& plan.groups.len() == if force {
                (facts.descendants->0)@.len() + 1
            } else {
                1
            }
            &&& force ==> plan.memberships && forall|i: int|
                0 <= i < (facts.descendants->0)@.len() ==> plan.groups.contains(
                    (#[trigger] (facts.descendants->0)@[i]).0,
                )
        },
        facts.visible == Some(false) ==> d == Decision::<DeleteNeed, DeleteView>::Reject(
            crate::error::ErrorView::GroupNotFound { id: group_id },
        ),
        facts.visible == Some(true) && facts.exists == Some(false) ==> d == Decision::<
            DeleteNeed,
            DeleteView,
        >::Reject(crate::error::ErrorView::GroupNotFound { id: group_id }),
        d matches Decision::Reject(e) ==> e is GroupNotFound || e is ConflictActiveReferences,
{
    if let Decision::Commit(plan) = d {
        let list = if force {
            (facts.descendants->0)@
        } else {
            Seq::empty()
        };
        let entries = whole_subtree(group_id, list);
        assert(entries[0] == (group_id, 0i32));
        assert(plan.groups[0] == group_id);
        if force {
            assert forall|i: int| 0 <= i < list.len() implies plan.groups.contains(
                (#[trigger] list[i]).0,
            ) by {
                assert(entries[i + 1] == list[i]);
                assert(plan.groups[i + 1] == list[i].0);
            }
        }
    }
}

/// A delete writes each group that it takes in one of its levels, and nothing
/// else: a group stands in a level exactly where it is one of the groups of the
/// plan.
pub proof fn delete_levels_hold_the_groups(
    d: Decision<DeleteNeed, DeleteView>,
    group_id: Uuid,
    force: bool,
    facts: DeleteFacts,
    plan: DeleteView,
    x: Uuid,
)
    requires
        is_delete_step(d, group_id, force, facts),
        d == Decision::<DeleteNeed, DeleteView>::Commit(plan),
    ensures
        plan.groups.contains(x) <==> exists|k: int|
            0 <= k < plan.levels.len() && (#[trigger] plan.levels[k]).1.contains(x),
{
    let list = if force {
        (facts.descendants->0)@
    } else {
        Seq::empty()
    };
    let entries = whole_subtree(group_id, list);
    if plan.groups.contains(x) {
        let i = choose|i: int| 0 <= i < plan.groups.len() && plan.groups[i] == x;
        assert(entries[i].0 == x);
        assert(has_level(plan.levels, entries[i].1));
        let k = choose|k: int|
            0 <= k < plan.levels.len() && (#[trigger] plan.levels[k]).0 == entries[i].1;
        lemma_ids_at(entries, entries[i].1, x);
        assert(plan.levels[k].1.contains(x));
    }
    if exists|k: int| 0 <= k < plan.levels.len() && (#[trigger] plan.levels[k]).1.contains(x) {
        let k = choose|k: int|
            0 <= k < plan.levels.len() && (#[trigger] plan.levels[k]).1.contains(x);
        lemma_ids_at(entries, plan.levels[k].0, x);
        let i = choose|i: int|
            0 <= i < entries.len() && (#[trigger] entries[i]).0 == x && entries[i].1
                == plan.levels[k].0;
        assert(plan.groups[i] == x);
    }
}

pub(crate) proof fn lemma_ids_at(entries: Seq<(Uuid, i32)>, depth: i32, x: Uuid)
    ensures
        ids_at(entries, depth).contains(x) <==> exists|i: int|
            0 <= i < entries.len() && (#[trigger] entries[i]).0 == x && entries[i].1 == depth,
    decreases entries.len(),
{
    if entries.len() > 0 {
        let head = entries.drop_last();
        let before = ids_at(head, depth);
        let all = ids_at(entries, depth);
        lemma_ids_at(head, depth, x);
        if all.contains(x) {
            let m = choose|m: int| 0 <= m < all.len() && all[m] == x;
            if m < before.len() {
                assert(before[m] == x);
                let i = choose|i: int|
                    0 <= i < head.len() && (#[trigger] head[i]).0 == x && head[i].1 == depth;
                assert(entries[i].0 == x);
            } else {
                assert(entries[entries.len() - 1].0 == x);
            }
        }
        if exists|i: int|
            0 <= i < entries.len() && (#[trigger] entries[i]).0 == x && entries[i].1 == depth {
            let i = choose|i: int|
                0 <= i < entries.len() && (#[trigger] entries[i]).0 == x && entries[i].1 == depth;
            if i < head.len() {
                assert(head[i].0 == x);
                let m = choose|m: int| 0 <= m < before.len() && before[m] == x;
                assert(all[m] == x);
            } else {
                assert(all[before.len() as int] == x);
            }
        }
    }
}

/// A blocked delete names every child that is no tenant of its own, and only
/// those, once each and in the order of the children.
pub proof fn blocked_delete_names_the_other_children(
    children: Seq<GroupRow>,
    paths: Seq<(i16, String)>,
)
    ensures
        named_children(children, paths) == children.filter(
            |c: GroupRow|
                !crate::validation::is_tenant_code(path_of(paths, c.gts_type_id)->0),
        ).map_values(|c: GroupRow| crate::ids::hyphenated(c.id)),
    decreases children.len(),
{
    reveal(Seq::filter);
    let keep = |c: GroupRow| !crate::validation::is_tenant_code(path_of(paths, c.gts_type_id)->0);
    let name = |c: GroupRow| crate::ids::hyphenated(c.id);
    if children.len() > 0 {
        blocked_delete_names_the_other_children(children.drop_last(), paths);
        let head = children.drop_last().filter(keep);
        if keep(children.last()) {
            assert(head.push(children.last()).map_values(name) =~= head.map_values(name).push(
                name(children.last()),
            ));
        }
    }
    assert(named_children(children, paths) =~= children.filter(keep).map_values(name));
}

/// What blocks a delete is told in this order: how many children may be named,
/// that there are others, and how many members there are; each only where there
/// are any.
pub proof fn blockers_are_told_in_order(named: nat, hidden: bool, memberships: u64)
    ensures
        blockers(named, hidden, memberships).len() == (if named > 0 {
            1int
        } else {
            0
        }) + (if hidden {
            1int
        } else {
            0
        }) + (if memberships > 0 {
            1int
        } else {
            0
        }),
        named > 0 ==> blockers(named, hidden, memberships)[0] == crate::text::decimal(named)
            + " child group(s)"@,
        hidden ==> blockers(named, hidden, memberships)[if named > 0 {
            1int
        } else {
            0
        }] == "additional child group(s) in another tenant"@,
        memberships > 0 ==> blockers(named, hidden, memberships).last() == crate::text::decimal(
            memberships as nat,
        ) + " membership(s)"@,
{
}

/// A blocked delete is refused for the group that it was asked for, with the
/// identifiers of the children that may be named and with what blocks it in
/// words; nothing blocks it where there is neither child nor member. How many
/// children may not be named is not told.
pub proof fn blocked_delete_has_its_cause(
    d: Decision<DeleteNeed, DeleteView>,
    group_id: Uuid,
    force: bool,
    facts: DeleteFacts,
    e: crate::error::ErrorView,
)
    requires
        is_delete_step(d, group_id, force, facts),
        d == Decision::<DeleteNeed, DeleteView>::Reject(e),
    ensures
        match e {
            crate::error::ErrorView::GroupNotFound { id } => id == group_id && (facts.visible
                == Some(false) || (facts.visible == Some(true) && facts.exists == Some(false))),
            crate::error::ErrorView::ConflictActiveReferences { message, blocking_entity_ids } => {
                &&& !force
                &&& facts.visible == Some(true)
                &&& facts.exists == Some(true)
                &&& facts.children matches Some(children) && facts.membership_count matches Some(
                    count,
                ) && (children@.len() > 0 || count > 0) && blocking_entity_ids == named_children(
                    children@,
                    facts.type_paths@,
                ) && message == "Cannot delete group '"@ + crate::ids::hyphenated(group_id)
                    + "': blocked by "@ + crate::text::joined(
                    blockers(
                        blocking_entity_ids.len(),
                        hides_children(children@, facts.type_paths@),
                        count,
                    ),
                    " and "@,
                ) + ". Use force=true to cascade."@
            },
            _ => false,
        },
{
}

/// There are children that may not be named exactly where the type of one of
/// them is that of a tenant.
pub proof fn children_that_are_tenants_are_hidden(
    children: Seq<GroupRow>,
    paths: Seq<(i16, String)>,
)
    ensures
        hides_children(children, paths) <==> exists|i: int|
            0 <= i < children.len() && crate::validation::is_tenant_code(
                path_of(paths, (#[trigger] children[i]).gts_type_id)->0,
            ),
{
    if exists|i: int|
        0 <= i < children.len() && crate::validation::is_tenant_code(
            path_of(paths, (#[trigger] children[i]).gts_type_id)->0,
        ) {
        let i = choose|i: int|
            0 <= i < children.len() && crate::validation::is_tenant_code(
                path_of(paths, (#[trigger] children[i]).gts_type_id)->0,
            );
        assert(is_hidden(children[i], paths));
    }
}

/// A path that was read for a type is one of those that were read for it; where
/// one was read there is one.
pub proof fn read_path_is_one_that_was_read(paths: Seq<(i16, String)>, type_id: i16)
    ensures
        path_of(paths, type_id) is Some <==> exists|i: int|
            0 <= i < paths.len() && (#[trigger] paths[i]).0 == type_id,
        path_of(paths, type_id) matches Some(path) ==> exists|i: int|
            0 <= i < paths.len() && (#[trigger] paths[i]).0 == type_id && paths[i].1@ == path,
    decreases paths.len(),
{
    if paths.len() > 0 {
        let head = paths.drop_last();
        read_path_is_one_that_was_read(head, type_id);
        assert(forall|i: int| 0 <= i < head.len() ==> head[i] == #[trigger] paths[i]);
        if paths.last().0 == type_id {
            assert(paths[paths.len() - 1].0 == type_id);
        } else if path_of(head, type_id) is Some {
            let i = choose|i: int|
                0 <= i < head.len() && (#[trigger] head[i]).0 == type_id && head[i].1@
                    == path_of(head, type_id)->0;
            assert(paths[i].0 == type_id);
        } else {
            assert forall|i: int| 0 <= i < paths.len() implies (#[trigger] paths[i]).0
                != type_id by {
                if i < head.len() {
                    assert(head[i].0 != type_id);
                }
            }
        }
    }
}

/// A create that has read everything it could ask for asks no more.
pub proof fn create_ends_once_all_is_read(
    cmd: CommandView,
    group_id: Uuid,
    profile: QueryProfile,
    facts: CreateFacts,
)
    requires
        facts.group_type is Some,
        facts.retired is Some,
        facts.parent is Some,
        facts.parent_type_path is Some,
        facts.parent_depth is Some,
        facts.sibling_count is Some,
        facts.tenant_root is Some,
    ensures
        !(create_step(cmd, group_id, profile, facts) is Need),
{
}

/// A move that has read everything it could ask for asks no more.
pub proof fn move_ends_once_all_is_read(
    group_id: Uuid,
    new_parent_id: Option<Uuid>,
    profile: QueryProfile,
    facts: MoveFacts,
)
    requires
        facts.visible is Some,
        facts.group is Some,
        facts.parent is Some,
        facts.type_path is Some,
        facts.group_type is Some,
        facts.is_descendant is Some,
        facts.parent_type_path is Some,
        facts.parent_depth is Some,
        facts.subtree is Some,
        facts.sibling_count is Some,
        facts.tenant_root is Some,
        facts.root_siblings is Some,
    ensures
        !(move_step(group_id, new_parent_id, profile, facts) is Need),
{
}

/// What a delete asks for is about its own group, or about the type of one of
/// its children.
pub proof fn delete_asks_about_its_own(
    group_id: Uuid,
    force: bool,
    facts: DeleteFacts,
    need: DeleteNeed,
)
    requires
        is_delete_step(
            Decision::<DeleteNeed, DeleteView>::Need(need),
            group_id,
            force,
            facts,
        ),
    ensures
        match need {
            DeleteNeed::Visible(id) => id == group_id,
            DeleteNeed::Group(id) => id == group_id,
            DeleteNeed::Descendants(id) => id == group_id && force,
            DeleteNeed::Children(id) => id == group_id && !force,
            DeleteNeed::MembershipCount(id) => id == group_id && !force,
            DeleteNeed::TypePath(type_id) => {
                &&& !force
                &&& facts.children matches Some(children) && exists|i: int|
                    0 <= i < children@.len() && (#[trigger] children@[i]).gts_type_id == type_id
            },
        },
{
    if let Some(children) = facts.children {
        lemma_unread_is_a_childs(children@, facts.type_paths@);
    }
}

proof fn lemma_unread_is_a_childs(children: Seq<GroupRow>, paths: Seq<(i16, String)>)
    ensures
        first_unread(children, paths) matches Some(id) ==> exists|i: int|
            0 <= i < children.len() && (#[trigger] children[i]).gts_type_id == id,
    decreases children.len(),
{
    if children.len() > 0 {
        let head = children.drop_last();
        lemma_unread_is_a_childs(head, paths);
        match first_unread(head, paths) {
            Some(id) => {
                let i = choose|i: int| 0 <= i < head.len() && (#[trigger] head[i]).gts_type_id == id;
                assert(children[i].gts_type_id == id);
            },
            None => {
                assert(children[children.len() - 1].gts_type_id == children.last().gts_type_id);
            },
        }
    }
}

/// The type whose path is read next is that of the first child whose type has
/// none yet; where there is no such child, the path of every child's type was
/// read.
pub proof fn paths_are_read_child_by_child(children: Seq<GroupRow>, paths: Seq<(i16, String)>)
    ensures
        match first_unread(children, paths) {
            None => forall|i: int|
                0 <= i < children.len() ==> path_of(paths, (#[trigger] children[i]).gts_type_id)
                    is Some,
            Some(id) => exists|i: int|
                0 <= i < children.len() && (#[trigger] children[i]).gts_type_id == id && path_of(
                    paths,
                    id,
                ) is None && all_read(children.take(i), paths),
        },
    decreases children.len(),
{
    if children.len() > 0 {
        let head = children.drop_last();
        paths_are_read_child_by_child(head, paths);
        match first_unread(head, paths) {
            Some(id) => {
                let i = choose|i: int|
                    0 <= i < head.len() && (#[trigger] head[i]).gts_type_id == id && path_of(
                        paths,
                        id,
                    ) is None && all_read(head.take(i), paths);
                assert(children[i].gts_type_id == id);
                assert(children.take(i) =~= head.take(i));
            },
            None => {
                let last = children.len() - 1;
                assert(children.take(last) =~= head);
                assert(children[last].gts_type_id == children.last().gts_type_id);
                assert forall|i: int| 0 <= i < children.len() && path_of(
                    paths,
                    children.last().gts_type_id,
                ) is Some implies path_of(paths, (#[trigger] children[i]).gts_type_id) is Some by {
                    if i < last {
                        assert(head[i] == children[i]);
                    }
                }
            },
        }
    }
}

/// Whether the path of every child's type was read.
pub open spec fn all_read(children: Seq<GroupRow>, paths: Seq<(i16, String)>) -> bool {
    forall|i: int|
        0 <= i < children.len() ==> path_of(paths, (#[trigger] children[i]).gts_type_id) is Some
}

} // verus!
