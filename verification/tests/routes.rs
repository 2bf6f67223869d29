use resource_group::canonical::GROUP_RESOURCE_TYPE;
use resource_group::hierarchy_filter::FILTER_PARAM_DESCRIPTION;
use resource_group::routes::{
    register_group_routes, route, GroupOperation, HttpMethod, ParamType, RequestBody, ResponseBody,
    API_TAG,
};
use resource_group::tombstone::{DatabaseBackend, Migration};

#[test]
fn all_operations_are_published() {
    let got: Vec<(HttpMethod, &str, u16)> = register_group_routes()
        .iter()
        .map(|r| (r.method, r.path, r.response_status))
        .collect();
    assert_eq!(
        got,
        vec![
            (HttpMethod::Get, "/resource-group/v1/groups", 200),
            (HttpMethod::Post, "/resource-group/v1/groups", 201),
            (HttpMethod::Get, "/resource-group/v1/groups/{group_id}", 200),
            (HttpMethod::Put, "/resource-group/v1/groups/{group_id}", 200),
            (HttpMethod::Post, "/resource-group/v1/groups/{group_id}/move", 200),
            (HttpMethod::Delete, "/resource-group/v1/groups/{group_id}", 204),
            (HttpMethod::Get, "/resource-group/v1/groups/{group_id}/descendants", 200),
            (HttpMethod::Get, "/resource-group/v1/groups/{group_id}/ancestors", 200),
        ]
    );
    for r in register_group_routes() {
        assert_eq!((r.tag, r.authenticated, r.license_required), ("Resource Groups", true, false));
    }
    assert_eq!(API_TAG, "Resource Groups");
    assert_eq!(GROUP_RESOURCE_TYPE, "gts.cf.core.rg.group.v1~");
}

#[test]
fn errors_are_published_where_they_occur() {
    assert_eq!(route(GroupOperation::ListGroups).errors, vec![400, 401, 403, 500]);
    assert_eq!(route(GroupOperation::CreateGroup).errors, vec![400, 401, 403, 404, 409, 500]);
    assert_eq!(route(GroupOperation::MoveGroup).errors, vec![400, 401, 403, 404, 409, 500]);
    assert_eq!(route(GroupOperation::UpdateGroup).errors, vec![400, 401, 403, 404, 500]);
    assert_eq!(route(GroupOperation::DeleteGroup).errors, vec![400, 401, 403, 404, 500]);
}

#[test]
fn operations_are_described() {
    let r = route(GroupOperation::MoveGroup);
    assert_eq!(r.operation_id, "resource_group.move_group");
    assert_eq!(r.summary, "Move resource group to a new parent");
    assert!(r.description.contains("an explicit `null` means \"make this group a root\""));
    assert_eq!(r.path_param, Some("Group UUID"));
    assert_eq!(r.request, Some((RequestBody::MoveGroup, "Move destination")));
    assert_eq!(r.response_body, ResponseBody::Group);
    assert_eq!(r.response_description, "Moved resource group");
    assert!(r.query_params.is_empty());
    assert!(!r.generic_filter);
    let d = route(GroupOperation::GetDescendants);
    let params: Vec<(&str, &str, ParamType)> =
        d.query_params.iter().map(|p| (p.name, p.description, p.param_type)).collect();
    assert_eq!(
        params,
        vec![
            ("limit", "Maximum entries to return", ParamType::Integer),
            ("cursor", "Cursor for pagination", ParamType::Text),
            ("$filter", FILTER_PARAM_DESCRIPTION, ParamType::Text),
        ]
    );
    let l = route(GroupOperation::ListGroups);
    assert!(l.generic_filter);
    assert_eq!(l.response_body, ResponseBody::GroupPage);
    let x = route(GroupOperation::DeleteGroup);
    assert_eq!(x.query_params[0].param_type, ParamType::Boolean);
    assert_eq!(x.response_body, ResponseBody::Nothing);
}

#[test]
fn tombstone_table_is_created_where_supported() {
    let pg = Migration::up(DatabaseBackend::Postgres).expect("supported");
    assert!(pg.contains("CREATE TABLE IF NOT EXISTS rg_tenant_id_tombstone"));
    assert!(pg.contains("id UUID PRIMARY KEY"));
    assert!(pg.contains("retired_at TIMESTAMPTZ NOT NULL DEFAULT CURRENT_TIMESTAMP"));
    let lite = Migration::up(DatabaseBackend::Sqlite).expect("supported");
    assert!(lite.contains("id TEXT PRIMARY KEY"));
    assert_eq!(
        Migration::up(DatabaseBackend::MySql).unwrap_err(),
        "resource-group migrations: MySQL is not supported"
    );
    assert_eq!(Migration::down(), "DROP TABLE IF EXISTS rg_tenant_id_tombstone;");
}
