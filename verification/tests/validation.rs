use resource_group::error::DomainError;
use resource_group::models::GtsTypePath;
use resource_group::validation::{
    canonical_membership_type_code, canonical_type_code, canonicalize_code, is_tenant_type_code,
    membership_type_code_with_verdict, metadata_verdict, type_code_with_verdict,
    validate_metadata_against_schema, validate_metadata_schema, validate_metadata_via_gts,
    SchemaLookup, RG_TYPE_PREFIX, TENANT_RG_TYPE_PATH,
};

fn message(err: DomainError) -> String {
    match err {
        DomainError::Validation { message } => message,
        other => panic!("not a validation error: {other:?}"),
    }
}

fn json(text: &str) -> serde_json::Value {
    serde_json::from_str(text).expect("fixture is JSON")
}

#[test]
fn canonical_form_is_trimmed_and_lower_case() {
    assert_eq!(canonicalize_code("  GTS.Cf.X~ \t\n"), "gts.cf.x~");
    assert_eq!(canonicalize_code("\u{a0}\u{3000}ÄÖ\u{2003}"), "äö");
    assert_eq!(canonicalize_code(" \t "), "");
    assert_eq!(canonicalize_code("a b"), "a b");
    assert_eq!(canonicalize_code("\u{a0}ABC\u{3000}"), "abc");
}

#[test]
fn canonical_form_is_stable() {
    for code in ["  GTS.Cf.X~ ", "x", "", " A B ", "\tGts.CF.Core.RG.Type.V1~"] {
        let once = canonicalize_code(code);
        assert_eq!(canonicalize_code(&once), once);
    }
}

#[test]
fn tenant_types_are_known_by_their_prefix_however_spelled() {
    assert_eq!(TENANT_RG_TYPE_PATH, "gts.cf.core.rg.type.v1~cf.core._.tenant.v1~");
    assert!(TENANT_RG_TYPE_PATH.starts_with(RG_TYPE_PREFIX));
    assert!(is_tenant_type_code(TENANT_RG_TYPE_PATH));
    assert!(is_tenant_type_code("  GTS.CF.CORE.RG.TYPE.V1~CF.CORE._.TENANT.V1~ "));
    assert!(is_tenant_type_code("gts.cf.core.rg.type.v1~cf.core._.tenant.v1~x.y.z.sub.v1~"));
    assert!(!is_tenant_type_code(RG_TYPE_PREFIX));
    assert!(!is_tenant_type_code("gts.cf.core.rg.type.v1~cf.core._.team.v1~"));
}

#[test]
fn type_codes_are_given_back_in_canonical_form() {
    let code = canonical_type_code("  GTS.CF.Core.RG.Type.V1~X.Core.Ns.Team.V1~ ").expect("valid");
    assert_eq!(code, "gts.cf.core.rg.type.v1~x.core.ns.team.v1~");
    assert_eq!(canonical_type_code(&code).expect("valid again"), code);
    assert_eq!(canonical_type_code(RG_TYPE_PREFIX).expect("valid"), RG_TYPE_PREFIX);
}

#[test]
fn type_codes_are_refused_with_the_reason() {
    assert_eq!(message(canonical_type_code("  ").unwrap_err()), "Type code must not be empty");
    assert_eq!(
        message(canonical_type_code("GTS.other~").unwrap_err()),
        "Type code must start with prefix 'gts.cf.core.rg.type.v1~', got: 'gts.other~'"
    );
    let long = format!("{RG_TYPE_PREFIX}{}", "a".repeat(1024));
    assert_eq!(
        message(canonical_type_code(&long).unwrap_err()),
        "Type code must not exceed 1024 characters"
    );
    assert_eq!(
        message(canonical_type_code("gts.cf.core.rg.type.v1~bad~").unwrap_err()),
        "Invalid type code 'gts.cf.core.rg.type.v1~bad~': Invalid GTS type path format"
    );
    assert_eq!(
        message(canonical_type_code("gts.cf.core.rg.type.v1~x.core.ns.team.v1").unwrap_err()),
        "Invalid type code 'gts.cf.core.rg.type.v1~x.core.ns.team.v1': Invalid GTS type path format"
    );
}

#[test]
fn type_code_verdict_decides() {
    let code = "gts.cf.core.rg.type.v1~any~".to_owned();
    assert_eq!(type_code_with_verdict(code.clone(), true).expect("accepted"), code);
    assert_eq!(
        message(type_code_with_verdict(code, false).unwrap_err()),
        "Invalid type code 'gts.cf.core.rg.type.v1~any~': Invalid GTS type path format"
    );
}

#[test]
fn type_paths_are_checked() {
    let path = GtsTypePath::new(" GTS.CF.Core.RG.Type.V1~ ").expect("valid");
    assert_eq!(path.as_str(), "gts.cf.core.rg.type.v1~");
    assert_eq!(path.into_string(), "gts.cf.core.rg.type.v1~");
    assert_eq!(GtsTypePath::new(" ").unwrap_err(), "GTS type path must not be empty");
    assert_eq!(GtsTypePath::new("nope").unwrap_err(), "Invalid GTS type path format");
    assert_eq!(
        GtsTypePath::new("gts.cf.core.rg.type.v1~x.core.ns.thing.v1").unwrap_err(),
        "Invalid GTS type path format"
    );
}

#[test]
fn type_paths_convert_to_text_and_back() {
    let path = GtsTypePath::try_from(" GTS.CF.Core.RG.Type.V1~".to_owned()).expect("valid");
    let text = String::from(path.clone());
    assert_eq!(text, "gts.cf.core.rg.type.v1~");
    assert_eq!(GtsTypePath::try_from(text).expect("valid"), path);
    assert_eq!(
        GtsTypePath::try_from("nope".to_owned()).unwrap_err(),
        "Invalid GTS type path format"
    );
}

#[test]
fn membership_codes_need_no_prefix_but_are_concrete() {
    assert_eq!(
        canonical_membership_type_code(" GTS.CF.Core.Idp.User.V1~ ").expect("valid"),
        "gts.cf.core.idp.user.v1~"
    );
    assert_eq!(
        message(canonical_membership_type_code("GTS.cf.core.am.*").unwrap_err()),
        "Membership type code 'GTS.cf.core.am.*' must be a concrete GTS type, not a wildcard pattern"
    );
    assert_eq!(
        message(canonical_membership_type_code(" Nope ").unwrap_err()),
        "Invalid membership type code 'nope': Invalid GTS identifier: nope: must start with 'gts.'"
    );
    assert_eq!(
        message(
            membership_type_code_with_verdict("X", "x".to_owned(), Some("bad".to_owned()))
                .unwrap_err()
        ),
        "Invalid membership type code 'x': bad"
    );
    assert_eq!(
        membership_type_code_with_verdict("X", "x".to_owned(), None).expect("accepted"),
        "x"
    );
}

#[test]
fn schemas_are_compiled() {
    assert!(validate_metadata_schema(&json(r#"{"type": "object"}"#)).is_ok());
    let text = message(validate_metadata_schema(&json(r#"{"type": "nonsense"}"#)).unwrap_err());
    assert!(text.starts_with("metadata_schema is not a valid JSON Schema: "), "{text}");
}

#[test]
fn metadata_are_checked_against_a_schema() {
    let schema = json(r#"{"type": "object", "required": ["a"], "properties": {"a": {"type": "integer"}}}"#);
    assert!(validate_metadata_against_schema(None, Some(&schema)).is_ok());
    assert!(validate_metadata_against_schema(Some(&json("7")), None).is_ok());
    assert!(validate_metadata_against_schema(Some(&json(r#"{"a": 1}"#)), Some(&schema)).is_ok());
    let text = message(
        validate_metadata_against_schema(Some(&json(r#"{"a": "x"}"#)), Some(&schema)).unwrap_err(),
    );
    assert!(text.starts_with("Metadata does not match type schema: "), "{text}");
    let text = message(
        validate_metadata_against_schema(Some(&json("{}")), Some(&json(r#"{"type": 5}"#)))
            .unwrap_err(),
    );
    assert!(text.starts_with("metadata_schema is invalid: "), "{text}");
}

#[test]
fn metadata_errors_are_told_word_by_word() {
    assert_eq!(
        message(
            validate_metadata_against_schema(Some(&json("7")), Some(&json(r#"{"type": "string"}"#)))
                .unwrap_err()
        ),
        "Metadata does not match type schema: 7 is not of type \"string\""
    );
}

#[test]
fn metadata_errors_are_joined() {
    assert!(metadata_verdict(vec![]).is_ok());
    assert_eq!(
        message(metadata_verdict(vec!["a".to_owned(), "b".to_owned()]).unwrap_err()),
        "Metadata does not match type schema: a; b"
    );
}

#[test]
fn metadata_are_checked_against_the_registry() {
    let m = json(r#"{"a": 1}"#);
    let check = |lookup: SchemaLookup| validate_metadata_via_gts(Some(&m), "gts.t~", &lookup);
    assert!(check(SchemaLookup::NotFound).is_ok());
    assert!(check(SchemaLookup::Found(json(r#"{"name": {}}"#))).is_ok());
    assert!(check(SchemaLookup::Found(json(r#"{"metadata": {"type": "object"}}"#))).is_ok());
    assert_eq!(
        message(check(SchemaLookup::Failed("down".to_owned())).unwrap_err()),
        "Failed to resolve GTS type 'gts.t~' for metadata validation: down"
    );
    let text =
        message(check(SchemaLookup::Found(json(r#"{"metadata": {"type": "array"}}"#))).unwrap_err());
    assert!(text.starts_with("Metadata does not match type schema: "), "{text}");
    let text = message(check(SchemaLookup::Found(json(r#"{"metadata": {"type": 5}}"#))).unwrap_err());
    assert!(text.starts_with("Type metadata_schema is invalid: "), "{text}");
    assert!(
        validate_metadata_via_gts(None, "gts.t~", &SchemaLookup::Failed("down".to_owned())).is_ok()
    );
}
