use resource_group::canonical::CanonicalError;
use resource_group::extract::{
    body_read_detail, is_json_content_type, BodyOutcome, BodyReadFault, StrictJson,
};

fn detail(err: CanonicalError) -> String {
    assert_eq!(err.status_code(), 400);
    match err {
        CanonicalError::InvalidFormat { message } => message,
        other => panic!("unexpected {other:?}"),
    }
}

#[test]
fn json_content_types_are_recognised() {
    for accepted in [
        "application/json",
        "application/json; charset=utf-8",
        "APPLICATION/JSON",
        "  application/json ;q=1",
        "application/merge-patch+json",
        "application/+json",
    ] {
        assert!(is_json_content_type(Some(accepted)), "{accepted}");
        assert!(StrictJson::<u8>::check_content_type(Some(accepted)).is_ok());
    }
    for refused in ["text/plain", "", ";application/json", "application/jsonx", "text/x+json", "json"] {
        assert!(!is_json_content_type(Some(refused)), "{refused}");
    }
    assert!(!is_json_content_type(None));
    assert_eq!(
        detail(StrictJson::<u8>::check_content_type(None).unwrap_err()),
        "request body must be sent as application/json"
    );
}

#[test]
fn bodies_are_answered_by_what_came_of_them() {
    assert_eq!(StrictJson::from_outcome(BodyOutcome::Parsed(7u8)).expect("parsed").0, 7);
    assert_eq!(
        detail(
            StrictJson::<u8>::from_outcome(BodyOutcome::Malformed("unknown field `x`".to_owned()))
                .unwrap_err()
        ),
        "invalid request body: unknown field `x`"
    );
    assert_eq!(
        detail(
            StrictJson::<u8>::from_outcome(BodyOutcome::Unread(BodyReadFault::TooLarge)).unwrap_err()
        ),
        "request body exceeds the maximum accepted size"
    );
    assert_eq!(
        body_read_detail(&BodyReadFault::Other("cut off".to_owned())),
        "could not read the request body: cut off"
    );
}
