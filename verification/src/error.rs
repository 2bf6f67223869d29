//! The errors that the rules of the library end in.

use vstd::prelude::*;
use vstd::string::*;

use crate::ids::{uuid_text, Uuid};
use crate::text::{concat2, concat3, text_contains};

verus! {

/// A failure that the database driver reported, by the driver's own text.
#[derive(Debug)]
pub struct DbFailure {
    /// What the driver says of the failure.
    pub text: String,
}

/// Errors of the resource-group rules.
#[derive(Debug)]
pub enum DomainError {
    /// No type has this code.
    TypeNotFound { code: String },
    /// A type with this code exists already.
    TypeAlreadyExists { code: String },
    /// A group with this identifier exists already, or the identifier was the
    /// tenant identifier of a group that has been deleted.
    GroupAlreadyExists { id: Uuid },
    /// The request breaks a rule that the caller can see.
    Validation { message: String },
    /// A change of a type would leave groups under parents it forbids.
    AllowedParentTypesViolation { message: String },
    /// Other entities refer to the one that was to go. `blocking_entity_ids`
    /// names those that may be disclosed; it is empty where only a count is
    /// known.
    ConflictActiveReferences { message: String, blocking_entity_ids: Vec<String> },
    /// No group has this identifier, or the caller may not see it.
    GroupNotFound { id: Uuid },
    /// The target tenant of a create lies outside what the caller may create
    /// in. A foreign tenant and a tenant that does not exist look the same.
    TenantNotFound { tenant_id: Uuid },
    /// No membership has this key.
    MembershipNotFound { key: String },
    /// The membership exists already.
    DuplicateMembership { key: String, message: String },
    /// The group's type does not fit under the requested parent.
    InvalidParentType { message: String },
    /// The move would make a group its own ancestor.
    CycleDetected { message: String },
    /// The forest would grow beyond its configured depth or width.
    LimitViolation { message: String },
    /// The request conflicts with the current state.
    Conflict { message: String },
    /// A second root of a tenant type was refused. `existing_root_id` is for
    /// logs: it may name a tenant that the caller has no grant for.
    TenantRootAlreadyExists { existing_root_id: Uuid, detail: String },
    /// The resource is a member of groups of another tenant. The message
    /// names neither tenants nor the resource.
    TenantIncompatibility { message: String },
    /// The policy decision point denied the request.
    AccessDenied { message: String },
    /// The database failed.
    Database(DbFailure),
    /// Something failed that the caller cannot act on.
    InternalError,
}

/// What a `DomainError` holds.
pub enum ErrorView {
    TypeNotFound { code: Seq<char> },
    TypeAlreadyExists { code: Seq<char> },
    GroupAlreadyExists { id: Uuid },
    Validation { message: Seq<char> },
    AllowedParentTypesViolation { message: Seq<char> },
    ConflictActiveReferences { message: Seq<char>, blocking_entity_ids: Seq<Seq<char>> },
    GroupNotFound { id: Uuid },
    TenantNotFound { tenant_id: Uuid },
    MembershipNotFound { key: Seq<char> },
    DuplicateMembership { key: Seq<char>, message: Seq<char> },
    InvalidParentType { message: Seq<char> },
    CycleDetected { message: Seq<char> },
    LimitViolation { message: Seq<char> },
    Conflict { message: Seq<char> },
    TenantRootAlreadyExists { existing_root_id: Uuid, detail: Seq<char> },
    TenantIncompatibility { message: Seq<char> },
    AccessDenied { message: Seq<char> },
    Database { text: Seq<char> },
    InternalError,
}

impl View for DomainError {
    type V = ErrorView;

    open spec fn view(&self) -> ErrorView {
        match *self {
            DomainError::TypeNotFound { code } => ErrorView::TypeNotFound { code: code@ },
            DomainError::TypeAlreadyExists { code } => ErrorView::TypeAlreadyExists { code: code@ },
            DomainError::GroupAlreadyExists { id } => ErrorView::GroupAlreadyExists { id },
            DomainError::Validation { message } => ErrorView::Validation { message: message@ },
            DomainError::AllowedParentTypesViolation { message } =>
                ErrorView::AllowedParentTypesViolation { message: message@ },
            DomainError::ConflictActiveReferences { message, blocking_entity_ids } =>
                ErrorView::ConflictActiveReferences {
                    message: message@,
                    blocking_entity_ids: crate::text::texts(blocking_entity_ids@),
                },
            DomainError::GroupNotFound { id } => ErrorView::GroupNotFound { id },
            DomainError::TenantNotFound { tenant_id } => ErrorView::TenantNotFound { tenant_id },
            DomainError::MembershipNotFound { key } => ErrorView::MembershipNotFound { key: key@ },
            DomainError::DuplicateMembership { key, message } =>
                ErrorView::DuplicateMembership { key: key@, message: message@ },
            DomainError::InvalidParentType { message } =>
                ErrorView::InvalidParentType { message: message@ },
            DomainError::CycleDetected { message } =>
                ErrorView::CycleDetected { message: message@ },
            DomainError::LimitViolation { message } =>
                ErrorView::LimitViolation { message: message@ },
            DomainError::Conflict { message } => ErrorView::Conflict { message: message@ },
            DomainError::TenantRootAlreadyExists { existing_root_id, detail } =>
                ErrorView::TenantRootAlreadyExists { existing_root_id, detail: detail@ },
            DomainError::TenantIncompatibility { message } =>
                ErrorView::TenantIncompatibility { message: message@ },
            DomainError::AccessDenied { message } => ErrorView::AccessDenied { message: message@ },
            DomainError::Database(failure) => ErrorView::Database { text: failure.text@ },
            DomainError::InternalError => ErrorView::InternalError,
        }
    }
}

/// A validation error with this message.
pub open spec fn invalid(message: Seq<char>) -> ErrorView {
    ErrorView::Validation { message }
}

/// The text of a database failure that is no driver's but the library's own.
pub open spec fn custom_failure_text(message: Seq<char>) -> Seq<char> {
    "Custom Error: "@ + message
}

/// A database error with this message.
pub open spec fn database_error(message: Seq<char>) -> ErrorView {
    ErrorView::Database { text: custom_failure_text(message) }
}

/// The sentence that describes an error in a log.
pub open spec fn description(e: ErrorView) -> Seq<char> {
    match e {
        ErrorView::TypeNotFound { code } => "Type not found: "@ + code,
        ErrorView::TypeAlreadyExists { code } => "Type already exists: "@ + code,
        ErrorView::GroupAlreadyExists { id } => "Group already exists: "@ + crate::ids::hyphenated(id),
        ErrorView::Validation { message } => "Validation failed: "@ + message,
        ErrorView::AllowedParentTypesViolation { message } =>
            "Allowed parents violation: "@ + message,
        ErrorView::ConflictActiveReferences { message, .. } =>
            "Active references exist: "@ + message,
        ErrorView::GroupNotFound { id } => "Group not found: "@ + crate::ids::hyphenated(id),
        ErrorView::TenantNotFound { tenant_id } =>
            "Tenant not found: "@ + crate::ids::hyphenated(tenant_id),
        ErrorView::MembershipNotFound { key } => "Membership not found: "@ + key,
        ErrorView::DuplicateMembership { message, .. } => "Duplicate membership: "@ + message,
        ErrorView::InvalidParentType { message } => "Invalid parent type: "@ + message,
        ErrorView::CycleDetected { message } => "Cycle detected: "@ + message,
        ErrorView::LimitViolation { message } => "Limit violation: "@ + message,
        ErrorView::Conflict { message } => "Conflict: "@ + message,
        ErrorView::TenantRootAlreadyExists { existing_root_id, detail } =>
            "Tenant root already exists (id="@ + crate::ids::hyphenated(existing_root_id) + "): "@
                + detail,
        ErrorView::TenantIncompatibility { message } => "Tenant incompatibility: "@ + message,
        ErrorView::AccessDenied { message } => "Access denied: "@ + message,
        ErrorView::Database { text } => "Database error: "@ + text,
        ErrorView::InternalError => "Internal error"@,
    }
}

/// `sea_orm::DbErr::Custom`'s `Display`: the message behind a fixed prefix.
#[verifier::external_body]
fn custom_failure(message: String) -> (r: String)
    ensures
        r@ == custom_failure_text(message@),
{
    sea_orm::DbErr::Custom(message).to_string()
}

impl DomainError {
    /// The driver's failure, where this is one: what a retry policy decides on.
    pub fn db_err(&self) -> (r: Option<&DbFailure>)
        ensures
            r is Some <==> self@ is Database,
            r matches Some(f) ==> self@ == (ErrorView::Database { text: f.text@ }),
            r matches Some(f) ==> *self == DomainError::Database(*f),
            *self is Database ==> r is Some,
    {
        match self {
            DomainError::Database(failure) => Some(failure),
            _ => None,
        }
    }

    /// Whether this is PostgreSQL's serialization failure, by its code or by
    /// its canonical sentence in the driver's text.
    pub fn is_serialization_failure(&self) -> (r: bool)
        ensures
            r <==> (self@ matches ErrorView::Database { text } && (crate::text::has_part(
                text,
                "40001"@,
            ) || crate::text::has_part(text, "could not serialize access"@))),
    {
        match self.db_err() {
            None => false,
            Some(failure) => {
                let s: &str = failure.text.as_str();
                text_contains(s, "40001") || text_contains(s, "could not serialize access")
            },
        }
    }

    /// The sentence that describes the error in a log.
    pub fn describe(&self) -> (r: String)
        ensures
            r@ == description(self@),
    {
        match self {
            DomainError::TypeNotFound { code } => concat2("Type not found: ", code.as_str()),
            DomainError::TypeAlreadyExists { code } => concat2(
                "Type already exists: ",
                code.as_str(),
            ),
            DomainError::GroupAlreadyExists { id } => concat2(
                "Group already exists: ",
                uuid_text(*id).as_str(),
            ),
            DomainError::Validation { message } => concat2("Validation failed: ", message.as_str()),
            DomainError::AllowedParentTypesViolation { message } => concat2(
                "Allowed parents violation: ",
                message.as_str(),
            ),
            DomainError::ConflictActiveReferences { message, .. } => concat2(
                "Active references exist: ",
                message.as_str(),
            ),
            DomainError::GroupNotFound { id } => concat2(
                "Group not found: ",
                uuid_text(*id).as_str(),
            ),
            DomainError::TenantNotFound { tenant_id } => concat2(
                "Tenant not found: ",
                uuid_text(*tenant_id).as_str(),
            ),
            DomainError::MembershipNotFound { key } => concat2("Membership not found: ", key.as_str()),
            DomainError::DuplicateMembership { message, .. } => concat2(
                "Duplicate membership: ",
                message.as_str(),
            ),
            DomainError::InvalidParentType { message } => concat2(
                "Invalid parent type: ",
                message.as_str(),
            ),
            DomainError::CycleDetected { message } => concat2("Cycle detected: ", message.as_str()),
            DomainError::LimitViolation { message } => concat2("Limit violation: ", message.as_str()),
            DomainError::Conflict { message } => concat2("Conflict: ", message.as_str()),
            DomainError::TenantRootAlreadyExists { existing_root_id, detail } => concat3(
                "Tenant root already exists (id=",
                uuid_text(*existing_root_id).as_str(),
                "): ",
            ).concat(detail.as_str()),
            DomainError::TenantIncompatibility { message } => concat2(
                "Tenant incompatibility: ",
                message.as_str(),
            ),
            DomainError::AccessDenied { message } => concat2("Access denied: ", message.as_str()),
            DomainError::Database(failure) => concat2("Database error: ", failure.text.as_str()),
            DomainError::InternalError => "Internal error".to_owned(),
        }
    }

    pub fn type_not_found(code: String) -> (r: Self)
        ensures
            r@ == (ErrorView::TypeNotFound { code: code@ }),
            r == (DomainError::TypeNotFound { code }),
    {
        DomainError::TypeNotFound { code }
    }

    pub fn type_already_exists(code: String) -> (r: Self)
        ensures
            r@ == (ErrorView::TypeAlreadyExists { code: code@ }),
            r == (DomainError::TypeAlreadyExists { code }),
    {
        DomainError::TypeAlreadyExists { code }
    }

    pub fn group_already_exists(id: Uuid) -> (r: Self)
        ensures
            r@ == (ErrorView::GroupAlreadyExists { id }),
            r == (DomainError::GroupAlreadyExists { id }),
    {
        DomainError::GroupAlreadyExists { id }
    }

    pub fn validation(message: String) -> (r: Self)
        ensures
            r@ == invalid(message@),
            r == (DomainError::Validation { message }),
    {
        DomainError::Validation { message }
    }

    pub fn allowed_parent_types_violation(message: String) -> (r: Self)
        ensures
            r@ == (ErrorView::AllowedParentTypesViolation { message: message@ }),
            r == (DomainError::AllowedParentTypesViolation { message }),
    {
        DomainError::AllowedParentTypesViolation { message }
    }

    pub fn conflict_active_references(message: String) -> (r: Self)
        ensures
            r@ == (ErrorView::ConflictActiveReferences {
                message: message@,
                blocking_entity_ids: Seq::empty(),
            }),
    {
        let blocking_entity_ids: Vec<String> = Vec::new();
        proof {
            assert(crate::text::texts(blocking_entity_ids@) =~= Seq::empty());
        }
        DomainError::ConflictActiveReferences { message, blocking_entity_ids }
    }

    /// Names the entities that block the operation; leaves every error but
    /// `ConflictActiveReferences` as it is.
    pub fn with_blocking_entity_ids(self, ids: Vec<String>) -> (r: Self)
        ensures
            r@ == (match self@ {
                ErrorView::ConflictActiveReferences { message, .. } =>
                    ErrorView::ConflictActiveReferences {
                        message,
                        blocking_entity_ids: crate::text::texts(ids@),
                    },
                other => other,
            }),
            r == (match self {
                DomainError::ConflictActiveReferences { message, .. } =>
                    DomainError::ConflictActiveReferences { message, blocking_entity_ids: ids },
                other => other,
            }),
    {
        match self {
            DomainError::ConflictActiveReferences { message, .. } =>
                DomainError::ConflictActiveReferences { message, blocking_entity_ids: ids },
            other => other,
        }
    }

    pub fn group_not_found(id: Uuid) -> (r: Self)
        ensures
            r@ == (ErrorView::GroupNotFound { id }),
            r == (DomainError::GroupNotFound { id }),
    {
        DomainError::GroupNotFound { id }
    }

    pub fn tenant_not_found(tenant_id: Uuid) -> (r: Self)
        ensures
            r@ == (ErrorView::TenantNotFound { tenant_id }),
            r == (DomainError::TenantNotFound { tenant_id }),
    {
        DomainError::TenantNotFound { tenant_id }
    }

    pub fn membership_not_found(key: String) -> (r: Self)
        ensures
            r@ == (ErrorView::MembershipNotFound { key: key@ }),
            r == (DomainError::MembershipNotFound { key }),
    {
        DomainError::MembershipNotFound { key }
    }

    pub fn duplicate_membership(key: String, message: String) -> (r: Self)
        ensures
            r@ == (ErrorView::DuplicateMembership { key: key@, message: message@ }),
            r == (DomainError::DuplicateMembership { key, message }),
    {
        DomainError::DuplicateMembership { key, message }
    }

    pub fn invalid_parent_type(message: String) -> (r: Self)
        ensures
            r@ == (ErrorView::InvalidParentType { message: message@ }),
            r == (DomainError::InvalidParentType { message }),
    {
        DomainError::InvalidParentType { message }
    }

    pub fn cycle_detected(message: String) -> (r: Self)
        ensures
            r@ == (ErrorView::CycleDetected { message: message@ }),
            r == (DomainError::CycleDetected { message }),
    {
        DomainError::CycleDetected { message }
    }

    pub fn limit_violation(message: String) -> (r: Self)
        ensures
            r@ == (ErrorView::LimitViolation { message: message@ }),
            r == (DomainError::LimitViolation { message }),
    {
        DomainError::LimitViolation { message }
    }

    pub fn conflict(message: String) -> (r: Self)
        ensures
            r@ == (ErrorView::Conflict { message: message@ }),
            r == (DomainError::Conflict { message }),
    {
        DomainError::Conflict { message }
    }

    pub fn tenant_root_already_exists(existing_root_id: Uuid, detail: String) -> (r: Self)
        ensures
            r@ == (ErrorView::TenantRootAlreadyExists { existing_root_id, detail: detail@ }),
            r == (DomainError::TenantRootAlreadyExists { existing_root_id, detail }),
    {
        DomainError::TenantRootAlreadyExists { existing_root_id, detail }
    }

    pub fn tenant_incompatibility(message: String) -> (r: Self)
        ensures
            r@ == (ErrorView::TenantIncompatibility { message: message@ }),
            r == (DomainError::TenantIncompatibility { message }),
    {
        DomainError::TenantIncompatibility { message }
    }

    /// A database failure that no driver reported, such as a row that the
    /// schema promises and that is missing.
    pub fn database(message: String) -> (r: Self)
        ensures
            r@ == database_error(message@),
    {
        DomainError::Database(DbFailure { text: custom_failure(message) })
    }
}

// -- Failures of the layers below --

/// A failure of the database layer: the driver's, or one of its own that is
/// known by its text alone.
#[derive(Debug)]
pub enum DbError {
    Sea(DbFailure),
    Other(String),
}

/// What went wrong in paging through a filtered list.
#[derive(Clone, Copy, Debug, PartialEq, Eq, Structural)]
pub enum ODataErrorKind {
    Db,
    ParsingUnavailable,
    InvalidFilter,
    InvalidOrderByField,
    OrderMismatch,
    FilterMismatch,
    InvalidCursor,
    InvalidLimit,
    OrderWithCursor,
    CursorInvalidBase64,
    CursorInvalidJson,
    CursorInvalidVersion,
    CursorInvalidKeys,
    CursorInvalidFields,
    CursorInvalidDirection,
}

/// A failure in paging through a filtered list, with its text.
#[derive(Debug)]
pub struct ODataError {
    pub kind: ODataErrorKind,
    pub text: String,
}

/// What the policy enforcer reported.
#[derive(Debug)]
pub enum EnforcerError {
    /// The request was denied, perhaps with a reason.
    Denied { deny_reason: Option<String> },
    /// The decision point could not be asked.
    EvaluationFailed,
    /// The decision could not be turned into a scope.
    CompileFailed,
}

/// Whether the caller's own query caused the failure.
pub open spec fn is_caller_fault(kind: ODataErrorKind) -> bool {
    !(kind is Db) && !(kind is ParsingUnavailable)
}

/// The message of a denial.
pub open spec fn denial_message(deny_reason: Option<Seq<char>>) -> Seq<char> {
    match deny_reason {
        None => "access denied by PDP"@,
        Some(reason) => "access denied by PDP: "@ + reason,
    }
}

impl From<DbFailure> for DomainError {
    fn from(e: DbFailure) -> (r: DomainError)
        ensures
            r@ == (ErrorView::Database { text: e.text@ }),
    {
        DomainError::Database(e)
    }
}

impl vstd::std_specs::convert::FromSpecImpl<DbFailure> for DomainError {
    open spec fn obeys_from_spec() -> bool {
        true
    }

    open spec fn from_spec(e: DbFailure) -> DomainError {
        DomainError::Database(e)
    }
}

impl From<DbError> for DomainError {
    fn from(e: DbError) -> (r: DomainError)
        ensures
            r@ == (match e {
                DbError::Sea(failure) => ErrorView::Database { text: failure.text@ },
                DbError::Other(text) => database_error(text@),
            }),
    {
        match e {
            DbError::Sea(failure) => DomainError::Database(failure),
            DbError::Other(text) => DomainError::database(text),
        }
    }
}

impl vstd::std_specs::convert::FromSpecImpl<DbError> for DomainError {
    open spec fn obeys_from_spec() -> bool {
        false
    }

    open spec fn from_spec(e: DbError) -> DomainError {
        arbitrary()
    }
}

impl From<ODataError> for DomainError {
    fn from(e: ODataError) -> (r: DomainError)
        ensures
            r@ == if is_caller_fault(e.kind) {
                invalid(e.text@)
            } else {
                database_error(e.text@)
            },
    {
        match e.kind {
            ODataErrorKind::Db | ODataErrorKind::ParsingUnavailable => DomainError::database(e.text),
            ODataErrorKind::InvalidFilter
            | ODataErrorKind::InvalidOrderByField
            | ODataErrorKind::OrderMismatch
            | ODataErrorKind::FilterMismatch
            | ODataErrorKind::InvalidCursor
            | ODataErrorKind::InvalidLimit
            | ODataErrorKind::OrderWithCursor
            | ODataErrorKind::CursorInvalidBase64
            | ODataErrorKind::CursorInvalidJson
            | ODataErrorKind::CursorInvalidVersion
            | ODataErrorKind::CursorInvalidKeys
            | ODataErrorKind::CursorInvalidFields
            | ODataErrorKind::CursorInvalidDirection => DomainError::validation(e.text),
        }
    }
}

impl vstd::std_specs::convert::FromSpecImpl<ODataError> for DomainError {
    open spec fn obeys_from_spec() -> bool {
        false
    }

    open spec fn from_spec(e: ODataError) -> DomainError {
        arbitrary()
    }
}

impl From<EnforcerError> for DomainError {
    fn from(e: EnforcerError) -> (r: DomainError)
        ensures
            r@ == (match e {
                EnforcerError::Denied { deny_reason } => ErrorView::AccessDenied {
                    message: denial_message(
                        match deny_reason {
                            Some(reason) => Some(reason@),
                            None => None,
                        },
                    ),
                },
                EnforcerError::EvaluationFailed => ErrorView::InternalError,
                EnforcerError::CompileFailed => ErrorView::InternalError,
            }),
    {
        match e {
            EnforcerError::Denied { deny_reason: None } => DomainError::AccessDenied {
                message: "access denied by PDP".to_owned(),
            },
            EnforcerError::Denied { deny_reason: Some(reason) } => DomainError::AccessDenied {
                message: concat2("access denied by PDP: ", reason.as_str()),
            },
            EnforcerError::EvaluationFailed | EnforcerError::CompileFailed => DomainError::InternalError,
        }
    }
}

impl vstd::std_specs::convert::FromSpecImpl<EnforcerError> for DomainError {
    open spec fn obeys_from_spec() -> bool {
        false
    }

    open spec fn from_spec(e: EnforcerError) -> DomainError {
        arbitrary()
    }
}

// -- Laws --

/// The caller is at fault for every failure in paging but one of the database and
/// a parser that is not there.
pub proof fn caller_is_at_fault_for_the_query(kind: ODataErrorKind)
    ensures
        is_caller_fault(kind) <==> kind != ODataErrorKind::Db && kind
            != ODataErrorKind::ParsingUnavailable,
{
}

/// A denial tells its reason, where it has one.
pub proof fn denial_tells_its_reason(reason: Seq<char>)
    ensures
        denial_message(Some(reason)) == "access denied by PDP: "@ + reason,
        denial_message(None) == "access denied by PDP"@,
{
}

/// What a log says of an error ends in what the error says of itself: its
/// message, its code, its key or its identifier.
pub proof fn description_ends_in_what_the_error_says(e: ErrorView)
    ensures
        match e {
            ErrorView::TypeNotFound { code } => ends_in(description(e), code),
            ErrorView::TypeAlreadyExists { code } => ends_in(description(e), code),
            ErrorView::GroupAlreadyExists { id } => ends_in(
                description(e),
                crate::ids::hyphenated(id),
            ),
            ErrorView::Validation { message } => ends_in(description(e), message),
            ErrorView::AllowedParentTypesViolation { message } => ends_in(description(e), message),
            ErrorView::ConflictActiveReferences { message, .. } => ends_in(description(e), message),
            ErrorView::GroupNotFound { id } => ends_in(description(e), crate::ids::hyphenated(id)),
            ErrorView::TenantNotFound { tenant_id } => ends_in(
                description(e),
                crate::ids::hyphenated(tenant_id),
            ),
            ErrorView::MembershipNotFound { key } => ends_in(description(e), key),
            ErrorView::DuplicateMembership { message, .. } => ends_in(description(e), message),
            ErrorView::InvalidParentType { message } => ends_in(description(e), message),
            ErrorView::CycleDetected { message } => ends_in(description(e), message),
            ErrorView::LimitViolation { message } => ends_in(description(e), message),
            ErrorView::Conflict { message } => ends_in(description(e), message),
            ErrorView::TenantRootAlreadyExists { detail, .. } => ends_in(description(e), detail),
            ErrorView::TenantIncompatibility { message } => ends_in(description(e), message),
            ErrorView::AccessDenied { message } => ends_in(description(e), message),
            ErrorView::Database { text } => ends_in(description(e), text),
            ErrorView::InternalError => true,
        },
{
}

/// Whether a text ends in another.
pub open spec fn ends_in(text: Seq<char>, tail: Seq<char>) -> bool {
    text.len() >= tail.len() && text.skip(text.len() - tail.len()) =~= tail
}

} // verus!
