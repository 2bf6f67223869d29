//! The errors that a client of the service sees, by category.

use vstd::prelude::*;
use vstd::string::*;

use crate::error::DomainError;
use crate::ids::{uuid_text, Uuid};
use crate::text::concat3;
use crate::validation::TENANT_RG_TYPE_PATH;

verus! {

/// The resource type that errors about resource groups carry.
pub const GROUP_RESOURCE_TYPE: &'static str = "gts.cf.core.rg.group.v1~";

/// A field that a request can be wrong in.
#[derive(Clone, Copy, Debug, PartialEq, Eq, Structural)]
pub enum ViolatedField {
    ParentType,
}

/// Why a field is wrong.
#[derive(Clone, Copy, Debug, PartialEq, Eq, Structural)]
pub enum FieldReason {
    InvalidParentType,
}

/// What a failed precondition is about.
#[derive(Clone, Copy, Debug, PartialEq, Eq, Structural)]
pub enum PreconditionSubject {
    AllowedParents,
    Hierarchy,
    ActiveReferences,
    Limit,
    Tenant,
}

/// The kind of a failed precondition.
#[derive(Clone, Copy, Debug, PartialEq, Eq, Structural)]
pub enum PreconditionKind {
    State,
}

/// Why an operation was aborted.
#[derive(Clone, Copy, Debug, PartialEq, Eq, Structural)]
pub enum AbortReason {
    Conflict,
}

/// Why permission was denied.
#[derive(Clone, Copy, Debug, PartialEq, Eq, Structural)]
pub enum PermissionReason {
    AccessDenied,
}

/// An error as the service answers it.
#[derive(Debug)]
pub enum CanonicalError {
    /// The request as a whole is malformed.
    InvalidFormat { message: String },
    /// One field of the request is wrong.
    InvalidField { field: ViolatedField, description: String, violation: FieldReason },
    /// The named resource does not exist for the caller.
    NotFound { detail: String, resource_name: String },
    /// The named resource exists already.
    AlreadyExists { detail: String, resource_name: String },
    /// The state does not allow the operation.
    FailedPrecondition {
        subject: PreconditionSubject,
        description: String,
        kind: PreconditionKind,
        blocking_entity_ids: Vec<String>,
    },
    /// The operation was given up.
    Aborted { detail: String, cause: AbortReason },
    /// The caller may not do this.
    PermissionDenied { reason: PermissionReason },
    /// The service failed. The description is for the log and never part of
    /// an answer.
    Internal { description: String },
}

/// What a `CanonicalError` holds.
pub enum CanonicalView {
    InvalidFormat { message: Seq<char> },
    InvalidField { field: ViolatedField, description: Seq<char>, violation: FieldReason },
    NotFound { detail: Seq<char>, resource_name: Seq<char> },
    AlreadyExists { detail: Seq<char>, resource_name: Seq<char> },
    FailedPrecondition {
        subject: PreconditionSubject,
        description: Seq<char>,
        kind: PreconditionKind,
        blocking_entity_ids: Seq<Seq<char>>,
    },
    Aborted { detail: Seq<char>, cause: AbortReason },
    PermissionDenied { reason: PermissionReason },
    Internal { description: Seq<char> },
}

impl View for CanonicalError {
    type V = CanonicalView;

    open spec fn view(&self) -> CanonicalView {
        match *self {
            CanonicalError::InvalidFormat { message } =>
                CanonicalView::InvalidFormat { message: message@ },
            CanonicalError::InvalidField { field, description, violation } =>
                CanonicalView::InvalidField { field, description: description@, violation },
            CanonicalError::NotFound { detail, resource_name } =>
                CanonicalView::NotFound { detail: detail@, resource_name: resource_name@ },
            CanonicalError::AlreadyExists { detail, resource_name } =>
                CanonicalView::AlreadyExists { detail: detail@, resource_name: resource_name@ },
            CanonicalError::FailedPrecondition {
                subject,
                description,
                kind,
                blocking_entity_ids,
            } => CanonicalView::FailedPrecondition {
                subject,
                description: description@,
                kind,
                blocking_entity_ids: crate::text::texts(blocking_entity_ids@),
            },
            CanonicalError::Aborted { detail, cause } =>
                CanonicalView::Aborted { detail: detail@, cause },
            CanonicalError::PermissionDenied { reason } =>
                CanonicalView::PermissionDenied { reason },
            CanonicalError::Internal { description } =>
                CanonicalView::Internal { description: description@ },
        }
    }
}

/// The HTTP status of an error.
pub open spec fn status(e: CanonicalView) -> u16 {
    match e {
        CanonicalView::InvalidFormat { .. } => 400,
        CanonicalView::InvalidField { .. } => 400,
        CanonicalView::NotFound { .. } => 404,
        CanonicalView::AlreadyExists { .. } => 409,
        CanonicalView::FailedPrecondition { .. } => 400,
        CanonicalView::Aborted { .. } => 409,
        CanonicalView::PermissionDenied { .. } => 403,
        CanonicalView::Internal { .. } => 500,
    }
}

/// What of an error is part of an answer: all of it but the description of an
/// internal failure.
pub open spec fn on_wire(e: CanonicalView) -> CanonicalView {
    match e {
        CanonicalView::Internal { .. } => CanonicalView::Internal { description: Seq::empty() },
        other => other,
    }
}

impl CanonicalError {
    /// The HTTP status of the error.
    pub fn status_code(&self) -> (r: u16)
        ensures
            r == status(self@),
            r == match *self {
                CanonicalError::NotFound { .. } => 404u16,
                CanonicalError::AlreadyExists { .. } | CanonicalError::Aborted { .. } => 409u16,
                CanonicalError::PermissionDenied { .. } => 403u16,
                CanonicalError::Internal { .. } => 500u16,
                _ => 400u16,
            },
    {
        match self {
            CanonicalError::InvalidFormat { .. } => 400,
            CanonicalError::InvalidField { .. } => 400,
            CanonicalError::NotFound { .. } => 404,
            CanonicalError::AlreadyExists { .. } => 409,
            CanonicalError::FailedPrecondition { .. } => 400,
            CanonicalError::Aborted { .. } => 409,
            CanonicalError::PermissionDenied { .. } => 403,
            CanonicalError::Internal { .. } => 500,
        }
    }

    /// The error as an answer carries it.
    pub fn into_wire(self) -> (r: CanonicalError)
        ensures
            r@ == on_wire(self@),
            self is Internal <==> r is Internal,
            r matches CanonicalError::Internal { description } ==> description@.len() == 0,
            !(self is Internal) ==> r == self,
    {
        match self {
            CanonicalError::Internal { .. } => CanonicalError::Internal {
                description: String::new(),
            },
            other => other,
        }
    }
}

/// Constructors of the errors that are about a resource group.
#[derive(Clone, Copy, Debug)]
pub struct RgError;

impl RgError {
    pub fn not_found(detail: String, resource_name: String) -> (r: CanonicalError)
        ensures
            r@ == (CanonicalView::NotFound { detail: detail@, resource_name: resource_name@ }),
            r == (CanonicalError::NotFound { detail, resource_name }),
    {
        CanonicalError::NotFound { detail, resource_name }
    }

    pub fn already_exists(detail: String, resource_name: String) -> (r: CanonicalError)
        ensures
            r@ == (CanonicalView::AlreadyExists { detail: detail@, resource_name: resource_name@ }),
            r == (CanonicalError::AlreadyExists { detail, resource_name }),
    {
        CanonicalError::AlreadyExists { detail, resource_name }
    }

    pub fn failed_precondition(
        subject: PreconditionSubject,
        description: String,
        blocking_entity_ids: Vec<String>,
    ) -> (r: CanonicalError)
        ensures
            r@ == (CanonicalView::FailedPrecondition {
                subject,
                description: description@,
                kind: PreconditionKind::State,
                blocking_entity_ids: crate::text::texts(blocking_entity_ids@),
            }),
            r == (CanonicalError::FailedPrecondition {
                subject,
                description,
                kind: PreconditionKind::State,
                blocking_entity_ids,
            }),
    {
        CanonicalError::FailedPrecondition {
            subject,
            description,
            kind: PreconditionKind::State,
            blocking_entity_ids,
        }
    }
}

/// A precondition on `subject` that failed, with no entities named.
pub open spec fn precondition(subject: PreconditionSubject, message: Seq<char>) -> CanonicalView {
    CanonicalView::FailedPrecondition {
        subject,
        description: message,
        kind: PreconditionKind::State,
        blocking_entity_ids: Seq::empty(),
    }
}

/// An error about the resource named `name`, whose detail names it in quotes
/// between two texts.
pub open spec fn quoting(before: Seq<char>, name: Seq<char>, after: Seq<char>) -> Seq<char> {
    before + name + after
}

/// The answer to an error of the rules.
pub open spec fn answer_of(e: crate::error::ErrorView) -> CanonicalView {
    match e {
        crate::error::ErrorView::Validation { message } => CanonicalView::InvalidFormat { message },
        crate::error::ErrorView::TypeNotFound { code } => CanonicalView::NotFound {
            detail: quoting("GTS type with code '"@, code, "' was not found"@),
            resource_name: code,
        },
        crate::error::ErrorView::GroupNotFound { id } => CanonicalView::NotFound {
            detail: quoting(
                "Resource group with id '"@,
                crate::ids::hyphenated(id),
                "' was not found"@,
            ),
            resource_name: crate::ids::hyphenated(id),
        },
        crate::error::ErrorView::TenantNotFound { tenant_id } => CanonicalView::NotFound {
            detail: quoting("Tenant '"@, crate::ids::hyphenated(tenant_id), "' was not found"@),
            resource_name: crate::ids::hyphenated(tenant_id),
        },
        crate::error::ErrorView::MembershipNotFound { key } => CanonicalView::NotFound {
            detail: quoting("Membership '"@, key, "' was not found"@),
            resource_name: key,
        },
        crate::error::ErrorView::TypeAlreadyExists { code } => CanonicalView::AlreadyExists {
            detail: quoting("GTS type with code '"@, code, "' already exists"@),
            resource_name: code,
        },
        crate::error::ErrorView::GroupAlreadyExists { id } => CanonicalView::AlreadyExists {
            detail: quoting(
                "Resource group with id '"@,
                crate::ids::hyphenated(id),
                "' already exists"@,
            ),
            resource_name: crate::ids::hyphenated(id),
        },
        crate::error::ErrorView::InvalidParentType { message } => CanonicalView::InvalidField {
            field: ViolatedField::ParentType,
            description: message,
            violation: FieldReason::InvalidParentType,
        },
        crate::error::ErrorView::AllowedParentTypesViolation { message } => precondition(
            PreconditionSubject::AllowedParents,
            message,
        ),
        crate::error::ErrorView::CycleDetected { message } => precondition(
            PreconditionSubject::Hierarchy,
            message,
        ),
        crate::error::ErrorView::ConflictActiveReferences { message, blocking_entity_ids } =>
            CanonicalView::FailedPrecondition {
                subject: PreconditionSubject::ActiveReferences,
                description: message,
                kind: PreconditionKind::State,
                blocking_entity_ids,
            },
        crate::error::ErrorView::LimitViolation { message } => precondition(
            PreconditionSubject::Limit,
            message,
        ),
        crate::error::ErrorView::TenantIncompatibility { message } => precondition(
            PreconditionSubject::Tenant,
            message,
        ),
        crate::error::ErrorView::DuplicateMembership { key, message } =>
            CanonicalView::AlreadyExists { detail: message, resource_name: key },
        crate::error::ErrorView::TenantRootAlreadyExists { detail, .. } =>
            CanonicalView::AlreadyExists { detail, resource_name: TENANT_RG_TYPE_PATH@ },
        crate::error::ErrorView::Conflict { message } => CanonicalView::Aborted {
            detail: message,
            cause: AbortReason::Conflict,
        },
        crate::error::ErrorView::AccessDenied { .. } => CanonicalView::PermissionDenied {
            reason: PermissionReason::AccessDenied,
        },
        crate::error::ErrorView::Database { text } => CanonicalView::Internal {
            description: "resource-group DB error: "@ + text,
        },
        crate::error::ErrorView::InternalError => CanonicalView::Internal {
            description: "resource-group internal error"@,
        },
    }
}

fn no_ids() -> (r: Vec<String>)
    ensures
        crate::text::texts(r@) == Seq::<Seq<char>>::empty(),
{
    let r: Vec<String> = Vec::new();
    proof {
        assert(crate::text::texts(r@) =~= Seq::<Seq<char>>::empty());
    }
    r
}

fn group_answer(id: Uuid, after: &str) -> (r: (String, String))
    ensures
        r.0@ == quoting("Resource group with id '"@, crate::ids::hyphenated(id), after@),
        r.1@ == crate::ids::hyphenated(id),
{
    let name: String = uuid_text(id);
    (concat3("Resource group with id '", name.as_str(), after), name)
}

impl From<DomainError> for CanonicalError {
    fn from(e: DomainError) -> (r: CanonicalError)
        ensures
            r@ == answer_of(e@),
            e matches DomainError::Validation { message } ==> r == (CanonicalError::InvalidFormat {
                message,
            }),
            e matches DomainError::ConflictActiveReferences { message, blocking_entity_ids } ==> r
                == (CanonicalError::FailedPrecondition {
                subject: PreconditionSubject::ActiveReferences,
                description: message,
                kind: PreconditionKind::State,
                blocking_entity_ids,
            }),
    {
        match e {
            DomainError::Validation { message } => CanonicalError::InvalidFormat { message },
            DomainError::TypeNotFound { code } => RgError::not_found(
                concat3("GTS type with code '", code.as_str(), "' was not found"),
                code,
            ),
            DomainError::GroupNotFound { id } => {
                let (detail, name) = group_answer(id, "' was not found");
                RgError::not_found(detail, name)
            },
            DomainError::TenantNotFound { tenant_id } => {
                let name: String = uuid_text(tenant_id);
                RgError::not_found(concat3("Tenant '", name.as_str(), "' was not found"), name)
            },
            DomainError::MembershipNotFound { key } => RgError::not_found(
                concat3("Membership '", key.as_str(), "' was not found"),
                key,
            ),
            DomainError::TypeAlreadyExists { code } => RgError::already_exists(
                concat3("GTS type with code '", code.as_str(), "' already exists"),
                code,
            ),
            DomainError::GroupAlreadyExists { id } => {
                let (detail, name) = group_answer(id, "' already exists");
                RgError::already_exists(detail, name)
            },
            DomainError::InvalidParentType { message } => CanonicalError::InvalidField {
                field: ViolatedField::ParentType,
                description: message,
                violation: FieldReason::InvalidParentType,
            },
            DomainError::AllowedParentTypesViolation { message } => RgError::failed_precondition(
                PreconditionSubject::AllowedParents,
                message,
                no_ids(),
            ),
            DomainError::CycleDetected { message } => RgError::failed_precondition(
                PreconditionSubject::Hierarchy,
                message,
                no_ids(),
            ),
            DomainError::ConflictActiveReferences { message, blocking_entity_ids } =>
                RgError::failed_precondition(
                    PreconditionSubject::ActiveReferences,
                    message,
                    blocking_entity_ids,
                ),
            DomainError::LimitViolation { message } => RgError::failed_precondition(
                PreconditionSubject::Limit,
                message,
                no_ids(),
            ),
            DomainError::TenantIncompatibility { message } => RgError::failed_precondition(
                PreconditionSubject::Tenant,
                message,
                no_ids(),
            ),
            DomainError::DuplicateMembership { key, message } => RgError::already_exists(
                message,
                key,
            ),
            DomainError::TenantRootAlreadyExists { detail, .. } => RgError::already_exists(
                detail,
                TENANT_RG_TYPE_PATH.to_owned(),
            ),
            DomainError::Conflict { message } => CanonicalError::Aborted {
                detail: message,
                cause: AbortReason::Conflict,
            },
            DomainError::AccessDenied { .. } => CanonicalError::PermissionDenied {
                reason: PermissionReason::AccessDenied,
            },
            DomainError::Database(failure) => CanonicalError::Internal {
                description: crate::text::concat2(
                    "resource-group DB error: ",
                    failure.text.as_str(),
                ),
            },
            DomainError::InternalError => CanonicalError::Internal {
                description: "resource-group internal error".to_owned(),
            },
        }
    }
}

impl vstd::std_specs::convert::FromSpecImpl<DomainError> for CanonicalError {
    open spec fn obeys_from_spec() -> bool {
        false
    }

    open spec fn from_spec(e: DomainError) -> CanonicalError {
        arbitrary()
    }
}

// -- Laws --

/// What the database driver says of a failure is no part of an answer: two
/// failures are answered alike.
pub proof fn driver_text_stays_off_the_wire(text: Seq<char>, other: Seq<char>)
    ensures
        on_wire(answer_of(crate::error::ErrorView::Database { text })) == on_wire(
            answer_of(crate::error::ErrorView::Database { text: other }),
        ),
{
}

/// The identifier of the existing tenant root is no part of an answer: it may
/// be the identifier of a tenant that the caller has no grant for.
pub proof fn existing_root_stays_off_the_wire(id: Uuid, other: Uuid, detail: Seq<char>)
    ensures
        answer_of(
            crate::error::ErrorView::TenantRootAlreadyExists { existing_root_id: id, detail },
        ) == answer_of(
            crate::error::ErrorView::TenantRootAlreadyExists { existing_root_id: other, detail },
        ),
{
}

/// The reason of a denial is no part of an answer.
pub proof fn denial_reason_stays_off_the_wire(message: Seq<char>, other: Seq<char>)
    ensures
        answer_of(crate::error::ErrorView::AccessDenied { message }) == answer_of(
            crate::error::ErrorView::AccessDenied { message: other },
        ),
{
}

/// A refused duplicate is answered with 409, and so is a conflict; a rule that
/// the state breaks is answered with 400, never with 409.
pub proof fn conflicts_are_409_and_broken_preconditions_400(e: crate::error::ErrorView)
    ensures
        status(answer_of(e)) == 409 <==> (e is TypeAlreadyExists || e is GroupAlreadyExists || e
            is DuplicateMembership || e is TenantRootAlreadyExists || e is Conflict),
        (e is ConflictActiveReferences || e is CycleDetected || e is LimitViolation || e
            is TenantIncompatibility || e is AllowedParentTypesViolation || e is InvalidParentType
            || e is Validation) <==> status(answer_of(e)) == 400,
{
}

/// A failure in paging through a list is answered with 400 where the caller's
/// query caused it and with 500 where the service failed; a denial is answered
/// with 403, and a decision point that could not be asked with 500.
pub proof fn faults_are_answered_by_their_cause(
    text: Seq<char>,
    message: Seq<char>,
)
    ensures
        status(answer_of(crate::error::invalid(text))) == 400,
        status(answer_of(crate::error::database_error(text))) == 500,
        status(answer_of(crate::error::ErrorView::AccessDenied { message })) == 403,
        status(answer_of(crate::error::ErrorView::InternalError)) == 500,
{
}

/// What does not exist for the caller is answered with 404, a denial with 403,
/// and a failure of the service with 500, and nothing else is.
pub proof fn missing_denied_and_failed_have_their_status(e: crate::error::ErrorView)
    ensures
        status(answer_of(e)) == 404 <==> (e is TypeNotFound || e is GroupNotFound || e
            is TenantNotFound || e is MembershipNotFound),
        status(answer_of(e)) == 403 <==> e is AccessDenied,
        status(answer_of(e)) == 500 <==> (e is Database || e is InternalError),
{
}

/// The kind of an answer follows from its status, but for the two that 400 and
/// the two that 409 stand for; a failed precondition says what it is about.
pub proof fn answer_says_what_it_is_about(e: crate::error::ErrorView)
    ensures
        answer_of(e) is InvalidFormat <==> e is Validation,
        answer_of(e) is InvalidField <==> e is InvalidParentType,
        answer_of(e) is Aborted <==> e is Conflict,
        answer_of(e) matches CanonicalView::FailedPrecondition { subject, .. } ==> match subject {
            PreconditionSubject::AllowedParents => e is AllowedParentTypesViolation,
            PreconditionSubject::Hierarchy => e is CycleDetected,
            PreconditionSubject::ActiveReferences => e is ConflictActiveReferences,
            PreconditionSubject::Limit => e is LimitViolation,
            PreconditionSubject::Tenant => e is TenantIncompatibility,
        },
        e is AllowedParentTypesViolation || e is CycleDetected || e is ConflictActiveReferences || e
            is LimitViolation || e is TenantIncompatibility ==> answer_of(e) is FailedPrecondition,
{
}

/// The message of a refusal reaches the caller unchanged, and so do the entities
/// that block an operation.
pub proof fn answer_carries_the_message(
    message: Seq<char>,
    key: Seq<char>,
    ids: Seq<Seq<char>>,
    root: Uuid,
)
    ensures
        on_wire(answer_of(crate::error::ErrorView::Validation { message })) matches
            CanonicalView::InvalidFormat { message: m } && m == message,
        on_wire(answer_of(crate::error::ErrorView::InvalidParentType { message })) matches
            CanonicalView::InvalidField { description, .. } && description == message,
        on_wire(answer_of(crate::error::ErrorView::AllowedParentTypesViolation { message })) matches
            CanonicalView::FailedPrecondition { description, blocking_entity_ids, .. } && description
            == message && blocking_entity_ids.len() == 0,
        on_wire(answer_of(crate::error::ErrorView::CycleDetected { message })) matches
            CanonicalView::FailedPrecondition { description, blocking_entity_ids, .. } && description
            == message && blocking_entity_ids.len() == 0,
        on_wire(answer_of(crate::error::ErrorView::LimitViolation { message })) matches
            CanonicalView::FailedPrecondition { description, blocking_entity_ids, .. } && description
            == message && blocking_entity_ids.len() == 0,
        on_wire(answer_of(crate::error::ErrorView::TenantIncompatibility { message })) matches
            CanonicalView::FailedPrecondition { description, blocking_entity_ids, .. } && description
            == message && blocking_entity_ids.len() == 0,
        on_wire(
            answer_of(
                crate::error::ErrorView::ConflictActiveReferences {
                    message,
                    blocking_entity_ids: ids,
                },
            ),
        ) matches CanonicalView::FailedPrecondition { description, blocking_entity_ids, .. }
            && description == message && blocking_entity_ids == ids,
        on_wire(answer_of(crate::error::ErrorView::Conflict { message })) matches
            CanonicalView::Aborted { detail, .. } && detail == message,
        on_wire(answer_of(crate::error::ErrorView::DuplicateMembership { key, message })) matches
            CanonicalView::AlreadyExists { detail, resource_name } && detail == message
            && resource_name == key,
        on_wire(
            answer_of(
                crate::error::ErrorView::TenantRootAlreadyExists {
                    existing_root_id: root,
                    detail: message,
                },
            ),
        ) matches CanonicalView::AlreadyExists { detail, resource_name } && detail == message
            && resource_name == "gts.cf.core.rg.type.v1~cf.core._.tenant.v1~"@,
{
}

/// What is missing, or there already, is named: by its code, its identifier or
/// its key, which also stands in the detail.
pub proof fn answer_names_the_resource(code: Seq<char>, id: Uuid)
    ensures
        answer_of(crate::error::ErrorView::TypeNotFound { code }) == (CanonicalView::NotFound {
            detail: "GTS type with code '"@ + code + "' was not found"@,
            resource_name: code,
        }),
        answer_of(crate::error::ErrorView::GroupNotFound { id }) == (CanonicalView::NotFound {
            detail: "Resource group with id '"@ + crate::ids::hyphenated(id) + "' was not found"@,
            resource_name: crate::ids::hyphenated(id),
        }),
        answer_of(crate::error::ErrorView::TenantNotFound { tenant_id: id }) == (
        CanonicalView::NotFound {
            detail: "Tenant '"@ + crate::ids::hyphenated(id) + "' was not found"@,
            resource_name: crate::ids::hyphenated(id),
        }),
        answer_of(crate::error::ErrorView::MembershipNotFound { key: code }) == (
        CanonicalView::NotFound {
            detail: "Membership '"@ + code + "' was not found"@,
            resource_name: code,
        }),
        answer_of(crate::error::ErrorView::TypeAlreadyExists { code }) == (
        CanonicalView::AlreadyExists {
            detail: "GTS type with code '"@ + code + "' already exists"@,
            resource_name: code,
        }),
        answer_of(crate::error::ErrorView::GroupAlreadyExists { id }) == (
        CanonicalView::AlreadyExists {
            detail: "Resource group with id '"@ + crate::ids::hyphenated(id) + "' already exists"@,
            resource_name: crate::ids::hyphenated(id),
        }),
{
}

/// An answer carries an error as it is, but for the description of an internal
/// failure, of which it carries nothing; its status is the same.
pub proof fn wire_drops_the_internal_description_only(e: CanonicalView)
    ensures
        !(e is Internal) ==> on_wire(e) == e,
        e is Internal ==> (on_wire(e) matches CanonicalView::Internal { description }
            && description.len() == 0),
        status(on_wire(e)) == status(e),
{
}

} // verus!
