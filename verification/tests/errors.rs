use resource_group::canonical::{
    AbortReason, CanonicalError, FieldReason, PermissionReason, PreconditionSubject, ViolatedField,
};
use resource_group::error::{
    DbError, DbFailure, DomainError, EnforcerError, ODataError, ODataErrorKind,
};
use resource_group::ids::Uuid;

const ID: Uuid = Uuid(0x0123_4567_89ab_cdef_0123_4567_89ab_cdef);
const ID_TEXT: &str = "01234567-89ab-cdef-0123-456789abcdef";

fn s(text: &str) -> String {
    text.to_owned()
}

#[test]
fn errors_describe_themselves() {
    let cases = [
        (DomainError::type_not_found(s("c")), s("Type not found: c")),
        (DomainError::type_already_exists(s("c")), s("Type already exists: c")),
        (DomainError::group_already_exists(ID), format!("Group already exists: {ID_TEXT}")),
        (DomainError::validation(s("m")), s("Validation failed: m")),
        (DomainError::allowed_parent_types_violation(s("m")), s("Allowed parents violation: m")),
        (DomainError::conflict_active_references(s("m")), s("Active references exist: m")),
        (DomainError::group_not_found(ID), format!("Group not found: {ID_TEXT}")),
        (DomainError::tenant_not_found(ID), format!("Tenant not found: {ID_TEXT}")),
        (DomainError::membership_not_found(s("k")), s("Membership not found: k")),
        (DomainError::duplicate_membership(s("k"), s("m")), s("Duplicate membership: m")),
        (DomainError::invalid_parent_type(s("m")), s("Invalid parent type: m")),
        (DomainError::cycle_detected(s("m")), s("Cycle detected: m")),
        (DomainError::limit_violation(s("m")), s("Limit violation: m")),
        (DomainError::conflict(s("m")), s("Conflict: m")),
        (
            DomainError::tenant_root_already_exists(ID, s("d")),
            format!("Tenant root already exists (id={ID_TEXT}): d"),
        ),
        (DomainError::tenant_incompatibility(s("m")), s("Tenant incompatibility: m")),
        (DomainError::AccessDenied { message: s("m") }, s("Access denied: m")),
        (DomainError::database(s("m")), s("Database error: Custom Error: m")),
        (DomainError::InternalError, s("Internal error")),
    ];
    for (error, text) in cases {
        assert_eq!(error.describe(), text);
    }
}

#[test]
fn blocking_entities_are_named_on_active_references_only() {
    let e = DomainError::conflict_active_references(s("m")).with_blocking_entity_ids(vec![s("a")]);
    match e {
        DomainError::ConflictActiveReferences { message, blocking_entity_ids } => {
            assert_eq!(message, "m");
            assert_eq!(blocking_entity_ids, vec![s("a")]);
        }
        other => panic!("unexpected {other:?}"),
    }
    let e = DomainError::conflict(s("m")).with_blocking_entity_ids(vec![s("a")]);
    assert!(matches!(e, DomainError::Conflict { .. }));
}

#[test]
fn serialization_failures_are_recognised_by_their_text() {
    let failing = |text: &str| DomainError::from(DbFailure { text: s(text) });
    assert!(failing("error 40001: x").is_serialization_failure());
    assert!(failing("could not serialize access due to").is_serialization_failure());
    assert!(!failing("deadlock 40P01").is_serialization_failure());
    assert!(!DomainError::validation(s("40001")).is_serialization_failure());
    assert_eq!(failing("t").db_err().map(|f| f.text.as_str()), Some("t"));
    assert!(DomainError::InternalError.db_err().is_none());
}

#[test]
fn failures_of_other_layers_are_classified() {
    assert_eq!(
        DomainError::from(DbError::Sea(DbFailure { text: s("x") })).describe(),
        "Database error: x"
    );
    assert_eq!(
        DomainError::from(DbError::Other(s("x"))).describe(),
        "Database error: Custom Error: x"
    );
    for kind in [
        ODataErrorKind::InvalidFilter,
        ODataErrorKind::InvalidOrderByField,
        ODataErrorKind::OrderMismatch,
        ODataErrorKind::FilterMismatch,
        ODataErrorKind::InvalidCursor,
        ODataErrorKind::InvalidLimit,
        ODataErrorKind::OrderWithCursor,
        ODataErrorKind::CursorInvalidBase64,
        ODataErrorKind::CursorInvalidJson,
        ODataErrorKind::CursorInvalidVersion,
        ODataErrorKind::CursorInvalidKeys,
        ODataErrorKind::CursorInvalidFields,
        ODataErrorKind::CursorInvalidDirection,
    ] {
        let e = DomainError::from(ODataError { kind, text: s("t") });
        assert_eq!(e.describe(), "Validation failed: t");
        assert_eq!(CanonicalError::from(e).status_code(), 400);
    }
    for kind in [ODataErrorKind::Db, ODataErrorKind::ParsingUnavailable] {
        let e = DomainError::from(ODataError { kind, text: s("t") });
        assert_eq!(e.describe(), "Database error: Custom Error: t");
        assert_eq!(CanonicalError::from(e).status_code(), 500);
    }
    assert_eq!(
        DomainError::from(EnforcerError::Denied { deny_reason: None }).describe(),
        "Access denied: access denied by PDP"
    );
    assert_eq!(
        DomainError::from(EnforcerError::Denied { deny_reason: Some(s("r")) }).describe(),
        "Access denied: access denied by PDP: r"
    );
    assert!(matches!(
        DomainError::from(EnforcerError::EvaluationFailed),
        DomainError::InternalError
    ));
    assert!(matches!(
        DomainError::from(EnforcerError::CompileFailed),
        DomainError::InternalError
    ));
}

fn not_found(e: DomainError) -> (String, String) {
    match CanonicalError::from(e) {
        CanonicalError::NotFound { detail, resource_name } => (detail, resource_name),
        other => panic!("unexpected {other:?}"),
    }
}

fn already_exists(e: DomainError) -> (String, String) {
    match CanonicalError::from(e) {
        CanonicalError::AlreadyExists { detail, resource_name } => (detail, resource_name),
        other => panic!("unexpected {other:?}"),
    }
}

#[test]
fn missing_things_are_answered_as_not_found() {
    assert_eq!(
        not_found(DomainError::type_not_found(s("c"))),
        (s("GTS type with code 'c' was not found"), s("c"))
    );
    assert_eq!(
        not_found(DomainError::group_not_found(ID)),
        (format!("Resource group with id '{ID_TEXT}' was not found"), s(ID_TEXT))
    );
    assert_eq!(
        not_found(DomainError::tenant_not_found(ID)),
        (format!("Tenant '{ID_TEXT}' was not found"), s(ID_TEXT))
    );
    assert_eq!(
        not_found(DomainError::membership_not_found(s("k"))),
        (s("Membership 'k' was not found"), s("k"))
    );
}

#[test]
fn duplicates_are_answered_as_existing() {
    assert_eq!(
        already_exists(DomainError::type_already_exists(s("c"))),
        (s("GTS type with code 'c' already exists"), s("c"))
    );
    assert_eq!(
        already_exists(DomainError::group_already_exists(ID)),
        (format!("Resource group with id '{ID_TEXT}' already exists"), s(ID_TEXT))
    );
    assert_eq!(
        already_exists(DomainError::duplicate_membership(s("k"), s("m"))),
        (s("m"), s("k"))
    );
    let (detail, name) = already_exists(DomainError::tenant_root_already_exists(ID, s("d")));
    assert_eq!(detail, "d");
    assert_eq!(name, "gts.cf.core.rg.type.v1~cf.core._.tenant.v1~");
    assert!(!detail.contains(ID_TEXT) && !name.contains(ID_TEXT));
}

#[test]
fn broken_preconditions_are_answered_by_subject() {
    let cases = [
        (
            DomainError::allowed_parent_types_violation(s("m")),
            PreconditionSubject::AllowedParents,
        ),
        (DomainError::cycle_detected(s("m")), PreconditionSubject::Hierarchy),
        (DomainError::limit_violation(s("m")), PreconditionSubject::Limit),
        (DomainError::tenant_incompatibility(s("m")), PreconditionSubject::Tenant),
        (
            DomainError::conflict_active_references(s("m")).with_blocking_entity_ids(vec![]),
            PreconditionSubject::ActiveReferences,
        ),
    ];
    for (error, wanted) in cases {
        let answer = CanonicalError::from(error);
        assert_eq!(answer.status_code(), 400);
        match answer {
            CanonicalError::FailedPrecondition { subject, description, blocking_entity_ids, .. } => {
                assert_eq!(subject, wanted);
                assert_eq!(description, "m");
                assert!(blocking_entity_ids.is_empty());
            }
            other => panic!("unexpected {other:?}"),
        }
    }
    let named = DomainError::conflict_active_references(s("m")).with_blocking_entity_ids(vec![s("x")]);
    match CanonicalError::from(named) {
        CanonicalError::FailedPrecondition { blocking_entity_ids, .. } => {
            assert_eq!(blocking_entity_ids, vec![s("x")]);
        }
        other => panic!("unexpected {other:?}"),
    }
}

#[test]
fn other_errors_are_answered_by_category() {
    match CanonicalError::from(DomainError::validation(s("m"))) {
        CanonicalError::InvalidFormat { message } => assert_eq!(message, "m"),
        other => panic!("unexpected {other:?}"),
    }
    match CanonicalError::from(DomainError::invalid_parent_type(s("m"))) {
        CanonicalError::InvalidField { field, description, violation } => {
            assert_eq!(field, ViolatedField::ParentType);
            assert_eq!(description, "m");
            assert_eq!(violation, FieldReason::InvalidParentType);
        }
        other => panic!("unexpected {other:?}"),
    }
    match CanonicalError::from(DomainError::conflict(s("m"))) {
        CanonicalError::Aborted { detail, cause } => {
            assert_eq!(detail, "m");
            assert_eq!(cause, AbortReason::Conflict);
        }
        other => panic!("unexpected {other:?}"),
    }
    match CanonicalError::from(DomainError::AccessDenied { message: s("m") }) {
        CanonicalError::PermissionDenied { reason } => {
            assert_eq!(reason, PermissionReason::AccessDenied);
        }
        other => panic!("unexpected {other:?}"),
    }
}

#[test]
fn answers_have_their_status() {
    let status = |e: DomainError| CanonicalError::from(e).status_code();
    assert_eq!(status(DomainError::validation(s("m"))), 400);
    assert_eq!(status(DomainError::invalid_parent_type(s("m"))), 400);
    assert_eq!(status(DomainError::group_not_found(ID)), 404);
    assert_eq!(status(DomainError::group_already_exists(ID)), 409);
    assert_eq!(status(DomainError::conflict(s("m"))), 409);
    assert_eq!(status(DomainError::AccessDenied { message: s("m") }), 403);
    assert_eq!(status(DomainError::database(s("m"))), 500);
    assert_eq!(status(DomainError::InternalError), 500);
}

#[test]
fn driver_text_is_logged_but_not_answered() {
    match CanonicalError::from(DomainError::from(DbFailure { text: s("secret") })) {
        CanonicalError::Internal { description } => {
            assert_eq!(description, "resource-group DB error: secret");
        }
        other => panic!("unexpected {other:?}"),
    }
    let answer = CanonicalError::from(DomainError::from(DbFailure { text: s("secret") })).into_wire();
    assert!(!format!("{answer:?}").contains("secret"));
    match CanonicalError::from(DomainError::InternalError) {
        CanonicalError::Internal { description } => {
            assert_eq!(description, "resource-group internal error");
        }
        other => panic!("unexpected {other:?}"),
    }
    match CanonicalError::from(DomainError::conflict(s("m"))).into_wire() {
        CanonicalError::Aborted { detail, .. } => assert_eq!(detail, "m"),
        other => panic!("unexpected {other:?}"),
    }
}
