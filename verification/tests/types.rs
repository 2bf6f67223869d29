use resource_group::error::DomainError;
use resource_group::ids::Uuid;
use resource_group::odata::{FilterNode, FilterOp, MembershipFilterField, ODataValue};
use resource_group::rows::{AllowedTypeRow, GroupRow, TypeRow};
use resource_group::type_repo::{
    stored_id, type_default_order, type_page_limits, TypeRepository,
};

fn s(text: &str) -> String {
    text.to_owned()
}

fn row(id: i16, schema_id: &str, stored: Option<&str>) -> TypeRow {
    TypeRow {
        id,
        schema_id: s(schema_id),
        metadata_schema: stored.map(|t| serde_json::from_str(t).expect("fixture is JSON")),
    }
}

fn json(text: &str) -> serde_json::Value {
    serde_json::from_str(text).expect("fixture is JSON")
}

fn group(id: u128, parent: Option<u128>, type_id: i16, name: &str) -> GroupRow {
    GroupRow {
        id: Uuid(id),
        parent_id: parent.map(Uuid),
        gts_type_id: type_id,
        name: s(name),
        metadata: None,
        tenant_id: Uuid(1),
    }
}

fn link(type_id: i16, allowed_type_id: i16) -> AllowedTypeRow {
    AllowedTypeRow { type_id, allowed_type_id }
}

fn message(err: DomainError) -> String {
    match err {
        DomainError::Validation { message } => message,
        other => panic!("not a validation error: {other:?}"),
    }
}

fn text(path: &str) -> ODataValue {
    ODataValue::String(s(path))
}

fn compare(field: MembershipFilterField, value: ODataValue) -> FilterNode<MembershipFilterField> {
    FilterNode::Binary { field, op: FilterOp::Eq, value }
}

fn sample_filter() -> FilterNode<MembershipFilterField> {
    FilterNode::Composite {
        op: FilterOp::Or,
        children: vec![
            compare(MembershipFilterField::ResourceType, text("b")),
            compare(MembershipFilterField::ResourceId, text("b")),
            FilterNode::Not(Box::new(FilterNode::InList {
                field: MembershipFilterField::ResourceType,
                values: vec![text("a"), ODataValue::Null, text("b")],
            })),
            FilterNode::InList { field: MembershipFilterField::ResourceId, values: vec![text("c")] },
        ],
    }
}

fn number(value: &ODataValue) -> i64 {
    match value {
        ODataValue::Number(n) => n.to_i64().expect("an integer"),
        other => panic!("no number: {other:?}"),
    }
}

#[test]
fn filter_paths_are_collected_in_order() {
    let mut paths = vec![s("first")];
    TypeRepository::collect_type_filter_paths(&sample_filter(), MembershipFilterField::ResourceType, &mut paths);
    assert_eq!(paths, vec![s("first"), s("b"), s("a"), s("b")]);
    assert_eq!(TypeRepository::unique_paths(&paths), vec![s("first"), s("b"), s("a")]);
}

#[test]
fn filter_paths_are_replaced_by_identifiers() {
    let rows = vec![row(7, "a", None), row(-3, "b", None)];
    let resolved =
        TypeRepository::resolve_type_filter_node(&sample_filter(), MembershipFilterField::ResourceType, &rows)
            .expect("all types are known");
    let children = match resolved {
        FilterNode::Composite { op: FilterOp::Or, children } => children,
        other => panic!("unexpected {other:?}"),
    };
    assert_eq!(children.len(), 4);
    match &children[0] {
        FilterNode::Binary { field: MembershipFilterField::ResourceType, op: FilterOp::Eq, value } => {
            assert_eq!(number(value), -3);
        }
        other => panic!("unexpected {other:?}"),
    }
    match &children[1] {
        FilterNode::Binary { field: MembershipFilterField::ResourceId, value: ODataValue::String(v), .. } => {
            assert_eq!(v, "b");
        }
        other => panic!("unexpected {other:?}"),
    }
    match &children[2] {
        FilterNode::Not(inner) => match inner.as_ref() {
            FilterNode::InList { values, .. } => {
                assert_eq!(number(&values[0]), 7);
                assert!(matches!(values[1], ODataValue::Null));
                assert_eq!(number(&values[2]), -3);
            }
            other => panic!("unexpected {other:?}"),
        },
        other => panic!("unexpected {other:?}"),
    }
    match &children[3] {
        FilterNode::InList { field: MembershipFilterField::ResourceId, values } => {
            assert!(matches!(&values[0], ODataValue::String(v) if v == "c"));
        }
        other => panic!("unexpected {other:?}"),
    }
    let mut left = vec![];
    TypeRepository::collect_type_filter_paths(&children[2], MembershipFilterField::ResourceType, &mut left);
    assert!(left.is_empty());
}

#[test]
fn first_unknown_path_is_named() {
    let rows = vec![row(7, "b", None)];
    let err =
        TypeRepository::resolve_type_filter_node(&sample_filter(), MembershipFilterField::ResourceType, &rows)
            .unwrap_err();
    assert_eq!(message(err), "Unknown type in filter: a");
    let err =
        TypeRepository::resolve_type_filter_node(&sample_filter(), MembershipFilterField::ResourceType, &vec![])
            .unwrap_err();
    assert_eq!(message(err), "Unknown type in filter: b");
}

#[test]
fn filter_without_types_stays_as_it_is() {
    let filter = compare(MembershipFilterField::ResourceId, text("x"));
    let resolved =
        TypeRepository::resolve_type_filter_node(&filter, MembershipFilterField::ResourceType, &vec![])
            .expect("no type to resolve");
    assert!(matches!(
        resolved,
        FilterNode::Binary { field: MembershipFilterField::ResourceId, value: ODataValue::String(v), .. } if v == "x"
    ));
}

#[test]
fn root_flag_is_stored_or_follows_from_the_parents() {
    let build = |stored: Option<&str>, parents: Vec<String>| {
        TypeRepository::build_resource_group_type(&row(1, "c", stored), parents, vec![]).can_be_root
    };
    assert!(build(None, vec![]));
    assert!(!build(None, vec![s("p")]));
    assert!(build(Some(r#"{"__can_be_root": true}"#), vec![s("p")]));
    assert!(!build(Some(r#"{"__can_be_root": false}"#), vec![]));
    assert!(build(Some(r#"{"__can_be_root": "yes"}"#), vec![]));
    assert!(build(Some("[1]"), vec![]));
}

#[test]
fn internal_keys_are_not_shown() {
    let shown = |stored: Option<&str>| {
        TypeRepository::build_resource_group_type(&row(1, "c", stored), vec![], vec![])
            .metadata_schema
    };
    assert_eq!(shown(None), None);
    assert_eq!(shown(Some("[1]")), Some(json("[1]")));
    assert_eq!(shown(Some("null")), Some(json("null")));
    assert_eq!(shown(Some("{}")), None);
    assert_eq!(shown(Some(r#"{"__can_be_root": true}"#)), None);
    assert_eq!(
        shown(Some(r#"{"__can_be_root": true, "type": "object", "_x": 1}"#)),
        Some(json(r#"{"type": "object", "_x": 1}"#))
    );
    assert_eq!(
        shown(Some(r#"{"__user_schema": true, "type": "object"}"#)),
        Some(json("true"))
    );
}

#[test]
fn allowed_codes_are_sorted() {
    let rows = vec![row(1, "b", None), row(2, "a\u{e9}", None), row(3, "az", None), row(4, "a", None)];
    let t = TypeRepository::load_full_type(&row(9, "c", None), &rows, &vec![row(5, "m", None)]);
    assert_eq!(t.code, "c");
    assert_eq!(t.allowed_parent_types, vec![s("a"), s("az"), s("a\u{e9}"), s("b")]);
    assert_eq!(t.allowed_membership_types, vec![s("m")]);
}

#[test]
fn page_of_types_is_assembled() {
    let page = vec![row(1, "one", None), row(2, "two", None)];
    let parents = vec![link(1, 12), link(2, 11), link(1, 11), link(1, 99)];
    let members = vec![link(2, 12)];
    assert_eq!(TypeRepository::referenced_type_ids(&parents, &members), vec![12, 11, 99]);
    let types = vec![row(11, "b", None), row(12, "a", None)];
    let got = TypeRepository::load_full_types_batch(&page, &parents, &members, &types);
    assert_eq!(got.len(), 2);
    assert_eq!(got[0].code, "one");
    assert_eq!(got[0].allowed_parent_types, vec![s("a"), s("b")]);
    assert!(got[0].allowed_membership_types.is_empty());
    assert!(!got[0].can_be_root);
    assert_eq!(got[1].allowed_parent_types, vec![s("b")]);
    assert_eq!(got[1].allowed_membership_types, vec![s("a")]);
    assert!(TypeRepository::load_full_types_batch(&vec![], &parents, &members, &types).is_empty());
}

#[test]
fn groups_under_removed_parents_are_found() {
    let types = vec![row(5, "gone", None)];
    let groups = vec![
        group(1, Some(10), 2, "a"),
        group(2, None, 2, "b"),
        group(3, Some(11), 2, "c"),
        group(4, Some(12), 2, "d"),
    ];
    let parents = vec![group(10, None, 5, "p"), group(12, None, 6, "q")];
    assert_eq!(TypeRepository::parent_ids(&groups), vec![Uuid(10), Uuid(11), Uuid(12)]);
    assert_eq!(
        TypeRepository::find_groups_violating_removed_parents(&types, &groups, &parents),
        vec![(s("gone"), Uuid(1), s("a"))]
    );
    assert!(
        TypeRepository::find_groups_violating_removed_parents(&vec![], &groups, &parents).is_empty()
    );
    assert_eq!(
        TypeRepository::find_root_groups_of_type(&vec![group(2, None, 2, "b")]),
        vec![(Uuid(2), s("b"))]
    );
}

#[test]
fn codes_are_resolved_together() {
    let rows = vec![row(7, "b", None), row(8, "a", None)];
    let codes = vec![s("a"), s("b")];
    assert_eq!(TypeRepository::resolve_ids(&codes, &rows).expect("known"), vec![7, 8]);
    assert!(TypeRepository::resolve_ids(&vec![], &rows).expect("nothing asked").is_empty());
    let err = TypeRepository::resolve_ids(&vec![s("x"), s("a"), s("y")], &rows).unwrap_err();
    assert_eq!(message(err), "Referenced types not found: x, y");
    assert_eq!(stored_id(&rows, "a"), Some(8));
    assert_eq!(stored_id(&rows, "z"), None);
    assert_eq!(TypeRepository::resolve_id(Some(&rows[0])), Some(7));
    assert_eq!(TypeRepository::resolve_id(None), None);
}

#[test]
fn stored_type_failures_are_described() {
    assert_eq!(
        TypeRepository::insert_error("c", true, s("t")).describe(),
        "Type already exists: c"
    );
    assert_eq!(
        TypeRepository::insert_error("c", false, s("t")).describe(),
        "Database error: Custom Error: t"
    );
    assert_eq!(TypeRepository::find_model_by_code(Some(row(1, "c", None)), "c").expect("row").id, 1);
    assert_eq!(
        TypeRepository::find_model_by_code(None, "c").unwrap_err().describe(),
        "Database error: Custom Error: GTS type row with schema_id=c not found after write (concurrent delete?)"
    );
    assert_eq!(
        TypeRepository::type_by_id(None, -12).unwrap_err().describe(),
        "Database error: Custom Error: Type ID -12 not found"
    );
    assert_eq!(TypeRepository::type_by_id(Some(row(4, "c", None)), 4).expect("row").schema_id, "c");
    assert_eq!(TypeRepository::allowed_type_rows(3, &vec![1, 2]), vec![link(3, 1), link(3, 2)]);
    assert_eq!((type_page_limits().default, type_page_limits().max), (25, 200));
    assert_eq!((type_default_order().field, type_default_order().descending), ("code", true));
}
