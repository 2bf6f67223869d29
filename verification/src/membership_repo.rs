//! Stored memberships: from rows to memberships, and the filter of a list of
//! memberships.

use vstd::prelude::*;
use vstd::string::*;

use crate::error::DomainError;
use crate::ids::{sorted_distinct, uuid_text, Uuid};
use crate::models::ResourceGroupMembership;
use crate::odata::{FilterNode, MembershipFilterField, ODataQuery, QueryFilter};
use crate::rows::{DefaultOrder, GroupRow, MembershipRow, PageLimits, TypeRow};
use crate::text::{concat2, concat3, concat5, decimal_i64};
use crate::type_repo::{stored_code, TypeRepository};

verus! {

/// The page sizes of a list of memberships.
pub fn membership_page_limits() -> (r: PageLimits)
    ensures
        r.default == 25,
        r.max == 200,
{
    PageLimits { default: 25, max: 200 }
}

/// The order of a list of memberships: by their groups, the last one first.
pub fn membership_default_order() -> (r: DefaultOrder)
    ensures
        r.field@ == "group_id"@,
        r.descending,
{
    DefaultOrder { field: "group_id", descending: true }
}

/// What the store of memberships makes of the rows that it reads.
#[derive(Clone, Copy, Debug)]
pub struct MembershipRepository;

/// The path of a member's type; empty where the type is not among the rows.
pub open spec fn member_type(rows: Seq<TypeRow>, type_id: i16) -> Seq<char> {
    match crate::type_repo::code_of(rows, type_id) {
        Some(code) => code,
        None => Seq::empty(),
    }
}

/// What a membership holds.
pub struct MembershipView {
    pub group_id: Uuid,
    pub resource_type: Seq<char>,
    pub resource_id: Seq<char>,
}

/// What a membership holds.
pub open spec fn membership_view(m: ResourceGroupMembership) -> MembershipView {
    MembershipView {
        group_id: m.group_id,
        resource_type: m.resource_type@,
        resource_id: m.resource_id@,
    }
}

/// What a list of memberships holds.
pub open spec fn membership_views(list: Seq<ResourceGroupMembership>) -> Seq<MembershipView> {
    list.map_values(|m: ResourceGroupMembership| membership_view(m))
}

/// The membership that a row is shown as.
pub open spec fn shown_as(row: MembershipRow, types: Seq<TypeRow>) -> MembershipView {
    MembershipView {
        group_id: row.group_id,
        resource_type: member_type(types, row.gts_type_id),
        resource_id: row.resource_id@,
    }
}

/// Whether a group is among the rows.
pub open spec fn holds_group(groups: Seq<GroupRow>, id: Uuid) -> bool {
    exists|i: int| 0 <= i < groups.len() && (#[trigger] groups[i]).id == id
}

/// Whether the memberships of a group are seen, given the groups that were read
/// under the caller's scope; none where the scope is unconstrained.
pub open spec fn shows(group_id: Uuid, visible: Option<Seq<GroupRow>>) -> bool {
    visible matches Some(groups) ==> holds_group(groups, group_id)
}

/// The memberships of a page that are seen.
pub open spec fn shown_memberships(
    page: Seq<MembershipRow>,
    visible: Option<Seq<GroupRow>>,
    types: Seq<TypeRow>,
) -> Seq<MembershipView>
    decreases page.len(),
{
    if page.len() == 0 {
        Seq::empty()
    } else {
        let head = shown_memberships(page.drop_last(), visible, types);
        if shows(page.last().group_id, visible) {
            head.push(shown_as(page.last(), types))
        } else {
            head
        }
    }
}

/// The name of a stored membership in an error.
pub open spec fn stored_name(group_id: Uuid, type_id: i16, resource_id: Seq<char>) -> Seq<char> {
    "("@ + crate::ids::hyphenated(group_id) + ", type_id="@ + crate::text::signed_decimal(
        type_id as int,
    ) + ", "@ + resource_id + ")"@
}

impl MembershipRepository {
    /// The type paths that the filter of a query compares the members' type
    /// with: what the store of types is asked for.
    pub fn filter_paths(query: &ODataQuery<MembershipFilterField>) -> (r: Vec<String>)
        ensures
            crate::text::texts(r@) == match query.filter {
                QueryFilter::Expression(node) => crate::type_repo::firsts(
                    crate::type_repo::paths_in(
                        crate::type_repo::node_view(node),
                        MembershipFilterField::ResourceType,
                    ),
                ),
                _ => Seq::empty(),
            },
    {
        let mut paths: Vec<String> = Vec::new();
        proof {
            assert(crate::text::texts(paths@) =~= Seq::empty());
        }
        if let QueryFilter::Expression(node) = &query.filter {
            TypeRepository::collect_type_filter_paths(
                node,
                MembershipFilterField::ResourceType,
                &mut paths,
            );
            proof {
                let all = crate::type_repo::paths_in(
                    crate::type_repo::node_view(*node),
                    MembershipFilterField::ResourceType,
                );
                assert(Seq::<Seq<char>>::empty() + all =~= all);
            }
            return TypeRepository::unique_paths(&paths);
        }
        paths
    }

    /// The filter of a query with the members' type paths replaced by stored
    /// identifiers, given the stored types among them.
    pub fn resolved_filter(query: &ODataQuery<MembershipFilterField>, rows: &Vec<TypeRow>) -> (r:
        Result<Option<FilterNode<MembershipFilterField>>, DomainError>)
        ensures
            match query.filter {
                QueryFilter::Absent => r matches Ok(None),
                QueryFilter::Rejected(text) => r matches Err(e) && e@ == crate::error::invalid(
                    "invalid $filter: "@ + text@,
                ),
                QueryFilter::Expression(node) => {
                    let view = crate::type_repo::node_view(node);
                    let field = MembershipFilterField::ResourceType;
                    match crate::type_repo::first_unknown(
                        crate::type_repo::firsts(crate::type_repo::paths_in(view, field)),
                        rows@,
                    ) {
                        None => r matches Ok(Some(n)) && crate::type_repo::node_view(n)
                            == crate::type_repo::with_ids(view, field, rows@),
                        Some(path) => r matches Err(e) && e@ == crate::error::invalid(
                            "Unknown type in filter: "@ + path,
                        ),
                    }
                },
            },
    {
        match &query.filter {
            QueryFilter::Absent => Ok(None),
            QueryFilter::Rejected(text) => Err(
                DomainError::validation(concat2("invalid $filter: ", text.as_str())),
            ),
            QueryFilter::Expression(node) => match TypeRepository::resolve_type_filter_node(
                node,
                MembershipFilterField::ResourceType,
                rows,
            ) {
                Ok(n) => Ok(Some(n)),
                Err(e) => Err(e),
            },
        }
    }

    /// The memberships of a page, in its order, with the types of the members.
    ///
    /// `visible` are those groups of the page that were read under the caller's
    /// scope, whatever the scope is constrained by; a membership of any other
    /// group is left out. For an unconstrained scope the groups are not read.
    pub fn list_memberships(
        page: &Vec<MembershipRow>,
        visible: Option<&Vec<GroupRow>>,
        types: &Vec<TypeRow>,
    ) -> (r: Vec<ResourceGroupMembership>)
        ensures
            membership_views(r@) == shown_memberships(
                page@,
                match visible {
                    Some(groups) => Some(groups@),
                    None => None,
                },
                types@,
            ),
            forall|k: int|
                0 <= k < r@.len() ==> exists|i: int|
                    0 <= i < page@.len() && (#[trigger] r@[k]).group_id == (
                    #[trigger] page@[i]).group_id && r@[k].resource_id@ == page@[i].resource_id@
                        && r@[k].resource_type@ == member_type(types@, page@[i].gts_type_id),
    {
        let ghost seen = match visible {
            Some(groups) => Some(groups@),
            None => None,
        };
        let mut out: Vec<ResourceGroupMembership> = Vec::new();
        let mut i: usize = 0;
        proof {
            assert(membership_views(out@) =~= shown_memberships(page@.take(0), seen, types@));
        }
        while i < page.len()
            invariant
                i <= page.len(),
                seen == (match visible {
                    Some(groups) => Some(groups@),
                    None => None,
                }),
                membership_views(out@) == shown_memberships(page@.take(i as int), seen, types@),
                forall|k: int|
                    0 <= k < out@.len() ==> exists|j: int|
                        0 <= j < i && (#[trigger] out@[k]).group_id == (
                        #[trigger] page@[j]).group_id && out@[k].resource_id@
                            == page@[j].resource_id@ && out@[k].resource_type@ == member_type(
                            types@,
                            page@[j].gts_type_id,
                        ),
            decreases page.len() - i,
        {
            proof {
                assert(page@.take(i as int + 1).drop_last() =~= page@.take(i as int));
            }
            let ghost before = membership_views(out@);
            if Self::is_visible(page[i].group_id, visible) {
                let resource_type: String = match stored_code(types, page[i].gts_type_id) {
                    Some(code) => code,
                    None => String::new(),
                };
                let m: ResourceGroupMembership = ResourceGroupMembership {
                    group_id: page[i].group_id,
                    resource_type,
                    resource_id: page[i].resource_id.clone(),
                };
                let ghost view = membership_view(m);
                out.push(m);
                proof {
                    assert(membership_views(out@) =~= before.push(view));
                    assert(view == shown_as(page@[i as int], types@));
                }
            }
            i = i + 1;
        }
        proof {
            assert(page@.take(page@.len() as int) =~= page@);
        }
        out
    }

    fn is_visible(group_id: Uuid, visible: Option<&Vec<GroupRow>>) -> (r: bool)
        ensures
            r == shows(
                group_id,
                match visible {
                    Some(groups) => Some(groups@),
                    None => None,
                },
            ),
    {
        match visible {
            None => true,
            Some(groups) => {
                let mut i: usize = 0;
                while i < groups.len()
                    invariant
                        i <= groups.len(),
                        visible == Some(groups),
                        forall|k: int| 0 <= k < i ==> (#[trigger] groups@[k]).id != group_id,
                    decreases groups.len() - i,
                {
                    if groups[i].id == group_id {
                        return true;
                    }
                    i = i + 1;
                }
                false
            },
        }
    }

    /// The error of a failed insert: a duplicate where the store reports a
    /// violated uniqueness, else a failure with the store's text.
    pub fn insert_error(
        group_id: Uuid,
        gts_type_id: i16,
        resource_id: &str,
        unique_violation: bool,
        text: String,
    ) -> (r: DomainError)
        ensures
            r@ == if unique_violation {
                crate::error::ErrorView::DuplicateMembership {
                    key: stored_name(group_id, gts_type_id, resource_id@),
                    message: "Membership already exists: "@ + stored_name(
                        group_id,
                        gts_type_id,
                        resource_id@,
                    ),
                }
            } else {
                crate::error::database_error(text@)
            },
    {
        if unique_violation {
            let head: String = concat5(
                "(",
                uuid_text(group_id).as_str(),
                ", type_id=",
                decimal_i64(gts_type_id as i64).as_str(),
                ", ",
            );
            let key: String = concat3(head.as_str(), resource_id, ")");
            let message: String = concat2("Membership already exists: ", key.as_str());
            DomainError::duplicate_membership(key, message)
        } else {
            DomainError::database(text)
        }
    }

    /// The groups of memberships: what the store of groups is asked for before
    /// `get_existing_membership_tenant_ids`.
    pub fn group_ids(rows: &Vec<MembershipRow>) -> (r: Vec<Uuid>)
        ensures
            r@ == rows@.map_values(|m: MembershipRow| m.group_id),
    {
        let mut out: Vec<Uuid> = Vec::new();
        let mut i: usize = 0;
        while i < rows.len()
            invariant
                i <= rows.len(),
                out@.len() == i,
                forall|k: int| 0 <= k < i ==> (#[trigger] out@[k]) == rows@[k].group_id,
            decreases rows.len() - i,
        {
            out.push(rows[i].group_id);
            i = i + 1;
        }
        proof {
            assert(out@ =~= rows@.map_values(|m: MembershipRow| m.group_id));
        }
        out
    }

    /// The tenants of groups, in ascending order, each once.
    pub fn get_existing_membership_tenant_ids(groups: &Vec<GroupRow>) -> (r: Vec<Uuid>)
        ensures
            crate::ids::is_sorted_set_of(r@, groups@.map_values(|g: GroupRow| g.tenant_id)),
    {
        let mut tenants: Vec<Uuid> = Vec::new();
        let mut i: usize = 0;
        while i < groups.len()
            invariant
                i <= groups.len(),
                tenants@.len() == i,
                forall|k: int| 0 <= k < i ==> (#[trigger] tenants@[k]) == groups@[k].tenant_id,
            decreases groups.len() - i,
        {
            tenants.push(groups[i].tenant_id);
            i = i + 1;
        }
        proof {
            assert(tenants@ =~= groups@.map_values(|g: GroupRow| g.tenant_id));
        }
        sorted_distinct(&tenants)
    }
}

// -- Laws --

/// Every membership that is listed is that of a group that the caller's scope
/// lets through: where the groups were read under a scope that allows some
/// tenants, each listed membership is that of a group of such a tenant.
pub proof fn list_shows_the_scope_only(
    page: Seq<MembershipRow>,
    groups: Seq<GroupRow>,
    types: Seq<TypeRow>,
    allows: spec_fn(Uuid) -> bool,
    k: int,
)
    requires
        forall|i: int| 0 <= i < groups.len() ==> allows((#[trigger] groups[i]).tenant_id),
        0 <= k < shown_memberships(page, Some(groups), types).len(),
    ensures
        exists|i: int|
            0 <= i < groups.len() && (#[trigger] groups[i]).id == shown_memberships(
                page,
                Some(groups),
                types,
            )[k].group_id && allows(groups[i].tenant_id),
    decreases page.len(),
{
    let head = shown_memberships(page.drop_last(), Some(groups), types);
    if k < head.len() {
        list_shows_the_scope_only(page.drop_last(), groups, types, allows, k);
    } else {
        assert(shows(page.last().group_id, Some(groups)));
    }
}

/// Every membership of the page whose group was read under the caller's scope
/// is listed.
pub proof fn list_shows_all_of_the_scope(
    page: Seq<MembershipRow>,
    visible: Option<Seq<GroupRow>>,
    types: Seq<TypeRow>,
    k: int,
)
    requires
        0 <= k < page.len(),
        shows(page[k].group_id, visible),
    ensures
        shown_memberships(page, visible, types).contains(shown_as(page[k], types)),
    decreases page.len(),
{
    let head = shown_memberships(page.drop_last(), visible, types);
    let all = shown_memberships(page, visible, types);
    if k < page.len() - 1 {
        list_shows_all_of_the_scope(page.drop_last(), visible, types, k);
        let i = choose|i: int| 0 <= i < head.len() && head[i] == shown_as(page[k], types);
        assert(all[i] == head[i]);
    } else {
        assert(all[head.len() as int] == shown_as(page[k], types));
    }
}

/// For an unconstrained scope the whole page is listed, in its order.
pub proof fn unconstrained_list_shows_all(page: Seq<MembershipRow>, types: Seq<TypeRow>)
    ensures
        shown_memberships(page, None, types) == page.map_values(
            |row: MembershipRow| shown_as(row, types),
        ),
    decreases page.len(),
{
    let all = page.map_values(|row: MembershipRow| shown_as(row, types));
    if page.len() > 0 {
        unconstrained_list_shows_all(page.drop_last(), types);
        assert(all.drop_last() =~= page.drop_last().map_values(
            |row: MembershipRow| shown_as(row, types),
        ));
        assert(all =~= all.drop_last().push(all.last()));
    } else {
        assert(shown_memberships(page, None, types) =~= all);
    }
}

/// What is listed are the memberships of the page whose groups are among those
/// that were read under the caller's scope, in the order of the page, each once:
/// with its group, the identifier of its resource, and the path under which its
/// type is stored.
pub proof fn list_is_the_visible_part_of_the_page(
    page: Seq<MembershipRow>,
    visible: Option<Seq<GroupRow>>,
    types: Seq<TypeRow>,
)
    ensures
        shown_memberships(page, visible, types) == page.filter(
            |row: MembershipRow|
                visible matches Some(groups) ==> exists|i: int|
                    0 <= i < groups.len() && (#[trigger] groups[i]).id == row.group_id,
        ).map_values(|row: MembershipRow| shown_as(row, types)),
    decreases page.len(),
{
    reveal(Seq::filter);
    let keep = |row: MembershipRow|
        visible matches Some(groups) ==> exists|i: int|
            0 <= i < groups.len() && (#[trigger] groups[i]).id == row.group_id;
    let show = |row: MembershipRow| shown_as(row, types);
    if page.len() > 0 {
        list_is_the_visible_part_of_the_page(page.drop_last(), visible, types);
        let head = page.drop_last().filter(keep);
        assert(shows(page.last().group_id, visible) == keep(page.last()));
        if keep(page.last()) {
            assert(head.push(page.last()).map_values(show) =~= head.map_values(show).push(
                show(page.last()),
            ));
        }
    }
    assert(shown_memberships(page, visible, types) =~= page.filter(keep).map_values(show));
}

/// A membership is shown as its row has it: with its group, the identifier of its
/// resource, and the path of a stored type with the row's identifier; where no
/// type is stored under it, with no path.
pub proof fn membership_is_shown_as_its_row_has_it(row: MembershipRow, types: Seq<TypeRow>)
    ensures
        shown_as(row, types).group_id == row.group_id,
        shown_as(row, types).resource_id == row.resource_id@,
        (exists|j: int| 0 <= j < types.len() && (#[trigger] types[j]).id == row.gts_type_id)
            ==> exists|j: int|
            0 <= j < types.len() && (#[trigger] types[j]).id == row.gts_type_id
                && types[j].schema_id@ == shown_as(row, types).resource_type,
        (forall|j: int| 0 <= j < types.len() ==> (#[trigger] types[j]).id != row.gts_type_id)
            ==> shown_as(row, types).resource_type.len() == 0,
{
    crate::type_repo::found_code_is_a_rows(types, row.gts_type_id);
}

} // verus!
