use resource_group::error::DomainError;
use resource_group::group_service::Step;
use resource_group::ids::{sorted_distinct, Uuid};
use resource_group::membership_repo::{
    membership_default_order, membership_page_limits, MembershipRepository,
};
use resource_group::membership_service::{
    AddFacts, AddNeed, MembershipKey, MembershipService, RemoveFacts, RemoveNeed,
};
use resource_group::models::ResourceGroupType;
use resource_group::odata::{
    FilterNode, FilterOp, MembershipFilterField, ODataQuery, ODataValue, QueryFilter,
};
use resource_group::rows::{GroupRow, MembershipRow, TypeRow};

fn s(text: &str) -> String {
    text.to_owned()
}

const GROUP: Uuid = Uuid(0xa0);
const GROUP_TEXT: &str = "00000000-0000-0000-0000-0000000000a0";
const TENANT: Uuid = Uuid(0xb0);

fn group_row(id: u128, tenant: u128) -> GroupRow {
    GroupRow {
        id: Uuid(id),
        parent_id: None,
        gts_type_id: 3,
        name: s("g"),
        metadata: None,
        tenant_id: Uuid(tenant),
    }
}

fn group_type(members: &[&str]) -> ResourceGroupType {
    ResourceGroupType {
        code: s("gts.group~"),
        can_be_root: true,
        allowed_parent_types: vec![],
        allowed_membership_types: members.iter().map(|m| s(m)).collect(),
        metadata_schema: None,
    }
}

fn nothing_known() -> AddFacts {
    AddFacts { group: None, resource_type_id: None, group_type: None, existing_tenants: None }
}

fn add(facts: &AddFacts) -> Step<AddNeed, MembershipKey> {
    MembershipService::add_membership_in_tx(GROUP, "gts.user~", "u1", facts)
}

fn refused<N, P>(step: Step<N, P>) -> DomainError {
    match step {
        Step::Reject(e) => e,
        _ => panic!("not refused"),
    }
}

#[test]
fn add_reads_what_it_needs_in_order() {
    let mut facts = nothing_known();
    assert!(matches!(add(&facts), Step::Need(AddNeed::Group(id)) if id == GROUP));
    facts.group = Some(Some(group_row(0xa0, 0xb0)));
    assert!(matches!(add(&facts), Step::Need(AddNeed::ResourceType)));
    facts.resource_type_id = Some(Some(9));
    assert!(matches!(add(&facts), Step::Need(AddNeed::GroupType(3))));
    facts.group_type = Some(group_type(&["gts.user~"]));
    assert!(matches!(add(&facts), Step::Need(AddNeed::ExistingTenants(9))));
    facts.existing_tenants = Some(vec![]);
    match add(&facts) {
        Step::Commit(key) => {
            assert_eq!(key.group_id, GROUP);
            assert_eq!(key.gts_type_id, 9);
            assert_eq!(key.resource_id, "u1");
            let m = MembershipService::added_membership(key, "gts.user~");
            assert_eq!(m.group_id, GROUP);
            assert_eq!(m.resource_type, "gts.user~");
            assert_eq!(m.resource_id, "u1");
        }
        _ => panic!("not accepted"),
    }
}

#[test]
fn add_refuses_with_the_reason() {
    let mut facts = nothing_known();
    facts.group = Some(None);
    assert_eq!(refused(add(&facts)).describe(), format!("Group not found: {GROUP_TEXT}"));
    facts.group = Some(Some(group_row(0xa0, 0xb0)));
    facts.resource_type_id = Some(None);
    assert_eq!(
        refused(add(&facts)).describe(),
        "Validation failed: Unknown resource type: gts.user~"
    );
    facts.resource_type_id = Some(Some(9));
    facts.group_type = Some(group_type(&["gts.course~"]));
    assert_eq!(
        refused(add(&facts)).describe(),
        "Validation failed: Resource type 'gts.user~' is not in allowed_membership_types for group type 'gts.group~'"
    );
}

#[test]
fn resource_stays_in_one_tenant() {
    let mut facts = nothing_known();
    facts.group = Some(Some(group_row(0xa0, 0xb0)));
    facts.resource_type_id = Some(Some(9));
    facts.group_type = Some(group_type(&["gts.user~"]));
    facts.existing_tenants = Some(vec![TENANT]);
    assert!(matches!(add(&facts), Step::Commit(_)));
    facts.existing_tenants = Some(vec![Uuid(0xc0)]);
    let text = refused(add(&facts)).describe();
    assert_eq!(
        text,
        "Tenant incompatibility: Resource is already a member of groups in another tenant"
    );
    assert!(!text.contains("u1") && !text.contains("c0"));
}

#[test]
fn remove_reads_and_refuses_in_order() {
    let remove = |facts: &RemoveFacts| {
        MembershipService::remove_membership_in_tx(GROUP, "gts.user~", "u1", facts)
    };
    let mut facts = RemoveFacts { group_visible: None, resource_type_id: None, exists: None };
    assert!(matches!(remove(&facts), Step::Need(RemoveNeed::Group(id)) if id == GROUP));
    facts.group_visible = Some(false);
    assert_eq!(refused(remove(&facts)).describe(), format!("Group not found: {GROUP_TEXT}"));
    facts.group_visible = Some(true);
    assert!(matches!(remove(&facts), Step::Need(RemoveNeed::ResourceType)));
    facts.resource_type_id = Some(None);
    assert_eq!(
        refused(remove(&facts)).describe(),
        "Validation failed: Unknown resource type: gts.user~"
    );
    facts.resource_type_id = Some(Some(9));
    assert!(matches!(remove(&facts), Step::Need(RemoveNeed::Membership(9))));
    facts.exists = Some(false);
    assert_eq!(
        refused(remove(&facts)).describe(),
        format!("Membership not found: ({GROUP_TEXT}, gts.user~, u1)")
    );
    facts.exists = Some(true);
    match remove(&facts) {
        Step::Commit(key) => assert_eq!((key.gts_type_id, key.resource_id), (9, s("u1"))),
        _ => panic!("not accepted"),
    }
}

#[test]
fn remove_names_what_add_inserted() {
    let added = AddFacts {
        group: Some(Some(group_row(0xa0, 0xb0))),
        resource_type_id: Some(Some(9)),
        group_type: Some(group_type(&["gts.user~"])),
        existing_tenants: Some(vec![]),
    };
    let removed = RemoveFacts {
        group_visible: Some(true),
        resource_type_id: Some(Some(9)),
        exists: Some(true),
    };
    let remove = MembershipService::remove_membership_in_tx(GROUP, "gts.user~", "u1", &removed);
    match (add(&added), remove) {
        (Step::Commit(a), Step::Commit(b)) => {
            assert_eq!(
                (a.group_id, a.gts_type_id, a.resource_id),
                (b.group_id, b.gts_type_id, b.resource_id)
            );
        }
        _ => panic!("not accepted"),
    }
}

fn page() -> Vec<MembershipRow> {
    let member = |group: u128, type_id: i16, id: &str| MembershipRow {
        group_id: Uuid(group),
        gts_type_id: type_id,
        resource_id: s(id),
    };
    vec![member(1, 9, "a"), member(2, 8, "b"), member(3, 9, "c")]
}

fn types() -> Vec<TypeRow> {
    vec![TypeRow { id: 9, schema_id: s("gts.user~"), metadata_schema: None }]
}

#[test]
fn memberships_are_listed_with_their_types() {
    let got = MembershipRepository::list_memberships(&page(), None, &types());
    let seen: Vec<(Uuid, &str, &str)> = got
        .iter()
        .map(|m| (m.group_id, m.resource_type.as_str(), m.resource_id.as_str()))
        .collect();
    assert_eq!(
        seen,
        vec![(Uuid(1), "gts.user~", "a"), (Uuid(2), "", "b"), (Uuid(3), "gts.user~", "c")]
    );
}

#[test]
fn memberships_of_groups_outside_the_scope_are_not_listed() {
    let ids = |visible: &Vec<GroupRow>| -> Vec<String> {
        MembershipRepository::list_memberships(&page(), Some(visible), &types())
            .into_iter()
            .map(|m| m.resource_id)
            .collect()
    };
    assert_eq!(ids(&vec![group_row(1, 0xb0)]), vec![s("a")]);
    assert!(ids(&vec![]).is_empty());
    assert!(ids(&vec![group_row(9, 0xb0)]).is_empty());
}

#[test]
fn groups_of_several_tenants_can_be_in_the_scope() {
    let visible = vec![group_row(3, 0xc0), group_row(1, 0xb0)];
    let got = MembershipRepository::list_memberships(&page(), Some(&visible), &types());
    let seen: Vec<&str> = got.iter().map(|m| m.resource_id.as_str()).collect();
    assert_eq!(seen, vec!["a", "c"]);
}

#[test]
fn membership_filter_is_resolved() {
    let by_type = |path: &str| ODataQuery {
        filter: QueryFilter::Expression(FilterNode::Binary {
            field: MembershipFilterField::ResourceType,
            op: FilterOp::Eq,
            value: ODataValue::String(s(path)),
        }),
    };
    assert_eq!(MembershipRepository::filter_paths(&by_type("gts.user~")), vec![s("gts.user~")]);
    match MembershipRepository::resolved_filter(&by_type("gts.user~"), &types()) {
        Ok(Some(FilterNode::Binary { value: ODataValue::Number(n), .. })) => {
            assert_eq!(n.to_i64(), Ok(9));
        }
        other => panic!("unexpected {other:?}"),
    }
    assert_eq!(
        MembershipRepository::resolved_filter(&by_type("x"), &types()).unwrap_err().describe(),
        "Validation failed: Unknown type in filter: x"
    );
    let rejected = ODataQuery { filter: QueryFilter::Rejected(s("bad")) };
    assert!(MembershipRepository::filter_paths(&rejected).is_empty());
    assert_eq!(
        MembershipRepository::resolved_filter(&rejected, &types()).unwrap_err().describe(),
        "Validation failed: invalid $filter: bad"
    );
    let absent = ODataQuery { filter: QueryFilter::Absent };
    assert!(matches!(MembershipRepository::resolved_filter(&absent, &types()), Ok(None)));
}

#[test]
fn failed_inserts_are_classified() {
    match MembershipRepository::insert_error(GROUP, 9, "u1", true, s("t")) {
        DomainError::DuplicateMembership { key, message } => {
            assert_eq!(key, format!("({GROUP_TEXT}, type_id=9, u1)"));
            assert_eq!(
                message,
                format!("Membership already exists: ({GROUP_TEXT}, type_id=9, u1)")
            );
        }
        other => panic!("unexpected {other:?}"),
    }
    assert_eq!(
        MembershipRepository::insert_error(GROUP, 9, "u1", false, s("t")).describe(),
        "Database error: Custom Error: t"
    );
}

#[test]
fn existing_tenants_are_sorted_and_distinct() {
    assert_eq!(
        MembershipRepository::group_ids(&page()),
        vec![Uuid(1), Uuid(2), Uuid(3)]
    );
    let groups = vec![group_row(1, 7), group_row(2, 3), group_row(3, 7), group_row(4, 5)];
    assert_eq!(
        MembershipRepository::get_existing_membership_tenant_ids(&groups),
        vec![Uuid(3), Uuid(5), Uuid(7)]
    );
    assert!(sorted_distinct(&vec![]).is_empty());
    assert_eq!((membership_page_limits().default, membership_page_limits().max), (25, 200));
    let order = membership_default_order();
    assert_eq!((order.field, order.descending), ("group_id", true));
}
