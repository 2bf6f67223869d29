//! The rules for adding and removing memberships of resources in groups.

use vstd::prelude::*;
use vstd::string::*;

use crate::error::DomainError;
use crate::group_service::Step;
use crate::ids::{uuid_text, Uuid};
use crate::models::{ResourceGroupMembership, ResourceGroupType};
use crate::rows::GroupRow;
use crate::text::{concat2, concat3, concat5, lists_text};

verus! {

/// The rules of memberships.
#[derive(Clone, Copy, Debug)]
pub struct MembershipService;

/// What is known in the transaction of an add; each part is none until it has
/// been read.
#[derive(Debug)]
pub struct AddFacts {
    /// The group, where it exists and the caller may see it.
    pub group: Option<Option<GroupRow>>,
    /// The stored identifier of the resource's type, where the type exists.
    pub resource_type_id: Option<Option<i16>>,
    /// The definition of the group's type.
    pub group_type: Option<ResourceGroupType>,
    /// The tenants of the groups that the resource is a member of.
    pub existing_tenants: Option<Vec<Uuid>>,
}

/// What an add reads next.
#[derive(Clone, Copy, Debug, PartialEq, Eq, Structural)]
pub enum AddNeed {
    Group(Uuid),
    ResourceType,
    /// The definition of the type with this stored identifier.
    GroupType(i16),
    /// The tenants of the groups that the resource of this type is in.
    ExistingTenants(i16),
}

/// A membership to insert, or to delete.
#[derive(Debug)]
pub struct MembershipKey {
    pub group_id: Uuid,
    pub gts_type_id: i16,
    pub resource_id: String,
}

/// What a membership's key holds.
pub struct KeyView {
    pub group_id: Uuid,
    pub gts_type_id: i16,
    pub resource_id: Seq<char>,
}

impl View for MembershipKey {
    type V = KeyView;

    open spec fn view(&self) -> KeyView {
        KeyView {
            group_id: self.group_id,
            gts_type_id: self.gts_type_id,
            resource_id: self.resource_id@,
        }
    }
}

/// Whether a type allows members of the type with this path.
pub open spec fn allows_member(t: ResourceGroupType, path: Seq<char>) -> bool {
    crate::text::texts(t.allowed_membership_types@).contains(path)
}

/// The refusal of a type that is not registered.
pub open spec fn unknown_type_refusal(resource_type: Seq<char>) -> crate::error::ErrorView {
    crate::error::invalid("Unknown resource type: "@ + resource_type)
}

/// The refusal of a member of a type that the group's type does not allow.
pub open spec fn member_type_refusal(
    resource_type: Seq<char>,
    code: Seq<char>,
) -> crate::error::ErrorView {
    crate::error::invalid(
        "Resource type '"@ + resource_type
            + "' is not in allowed_membership_types for group type '"@ + code + "'"@,
    )
}

/// The refusal of a member that is linked in another tenant. It names neither
/// tenants nor the resource: whoever can guess a resource must not learn where
/// it is linked.
pub open spec fn other_tenant_refusal() -> crate::error::ErrorView {
    crate::error::ErrorView::TenantIncompatibility {
        message: "Resource is already a member of groups in another tenant"@,
    }
}

/// What an add does next in its transaction.
pub open spec fn add_step(
    group_id: Uuid,
    resource_type: Seq<char>,
    resource_id: Seq<char>,
    facts: AddFacts,
) -> crate::group_service::Decision<AddNeed, KeyView> {
    match facts.group {
        None => crate::group_service::Decision::Need(AddNeed::Group(group_id)),
        Some(None) => crate::group_service::Decision::Reject(
            crate::error::ErrorView::GroupNotFound { id: group_id },
        ),
        Some(Some(group)) => match facts.resource_type_id {
            None => crate::group_service::Decision::Need(AddNeed::ResourceType),
            Some(None) => crate::group_service::Decision::Reject(
                unknown_type_refusal(resource_type),
            ),
            Some(Some(type_id)) => match facts.group_type {
                None => crate::group_service::Decision::Need(AddNeed::GroupType(group.gts_type_id)),
                Some(t) => if !allows_member(t, resource_type) {
                    crate::group_service::Decision::Reject(
                        member_type_refusal(resource_type, t.code@),
                    )
                } else {
                    match facts.existing_tenants {
                        None => crate::group_service::Decision::Need(
                            AddNeed::ExistingTenants(type_id),
                        ),
                        Some(tenants) => if tenants@.len() > 0 && !tenants@.contains(
                            group.tenant_id,
                        ) {
                            crate::group_service::Decision::Reject(other_tenant_refusal())
                        } else {
                            crate::group_service::Decision::Commit(
                                KeyView { group_id, gts_type_id: type_id, resource_id },
                            )
                        },
                    }
                },
            },
        },
    }
}

/// What is known in the transaction of a remove; each part is none until it has
/// been read.
#[derive(Clone, Copy, Debug)]
pub struct RemoveFacts {
    /// Whether the group exists and the caller may see it.
    pub group_visible: Option<bool>,
    /// The stored identifier of the resource's type, where the type exists.
    pub resource_type_id: Option<Option<i16>>,
    /// Whether the membership exists.
    pub exists: Option<bool>,
}

/// What a remove reads next.
#[derive(Clone, Copy, Debug, PartialEq, Eq, Structural)]
pub enum RemoveNeed {
    Group(Uuid),
    ResourceType,
    /// Whether the resource of this type is a member of the group.
    Membership(i16),
}

/// The name of a membership in a refusal.
pub open spec fn membership_name(
    group_id: Uuid,
    resource_type: Seq<char>,
    resource_id: Seq<char>,
) -> Seq<char> {
    "("@ + crate::ids::hyphenated(group_id) + ", "@ + resource_type + ", "@ + resource_id + ")"@
}

/// What a remove does next in its transaction.
pub open spec fn remove_step(
    group_id: Uuid,
    resource_type: Seq<char>,
    resource_id: Seq<char>,
    facts: RemoveFacts,
) -> crate::group_service::Decision<RemoveNeed, KeyView> {
    if facts.group_visible is None {
        crate::group_service::Decision::Need(RemoveNeed::Group(group_id))
    } else if !facts.group_visible->0 {
        crate::group_service::Decision::Reject(
            crate::error::ErrorView::GroupNotFound { id: group_id },
        )
    } else {
        match facts.resource_type_id {
            None => crate::group_service::Decision::Need(RemoveNeed::ResourceType),
            Some(None) => crate::group_service::Decision::Reject(
                unknown_type_refusal(resource_type),
            ),
            Some(Some(type_id)) => if facts.exists is None {
                crate::group_service::Decision::Need(RemoveNeed::Membership(type_id))
            } else if !facts.exists->0 {
                crate::group_service::Decision::Reject(
                    crate::error::ErrorView::MembershipNotFound {
                        key: membership_name(group_id, resource_type, resource_id),
                    },
                )
            } else {
                crate::group_service::Decision::Commit(
                    KeyView { group_id, gts_type_id: type_id, resource_id },
                )
            },
        }
    }
}

impl MembershipService {
    fn unknown_type(resource_type: &str) -> (r: DomainError)
        ensures
            r@ == unknown_type_refusal(resource_type@),
    {
        DomainError::validation(concat2("Unknown resource type: ", resource_type))
    }

    /// What an add does next in its transaction. A group that the caller may
    /// not see is not found; the resource's type must be registered and allowed
    /// by the group's type; and a resource is a member of groups of one tenant
    /// only.
    pub fn add_membership_in_tx(
        group_id: Uuid,
        resource_type: &str,
        resource_id: &str,
        facts: &AddFacts,
    ) -> (r: Step<AddNeed, MembershipKey>)
        ensures
            r@ == add_step(group_id, resource_type@, resource_id@, *facts),
            r matches Step::Commit(key) ==> key.group_id == group_id && facts.resource_type_id
                == Some(Some(key.gts_type_id)) && key.resource_id@ == resource_id@,
    {
        let group: &GroupRow = match &facts.group {
            None => {
                return Step::Need(AddNeed::Group(group_id));
            },
            Some(None) => {
                return Step::Reject(DomainError::group_not_found(group_id));
            },
            Some(Some(row)) => row,
        };
        let type_id: i16 = match facts.resource_type_id {
            None => {
                return Step::Need(AddNeed::ResourceType);
            },
            Some(None) => {
                return Step::Reject(Self::unknown_type(resource_type));
            },
            Some(Some(id)) => id,
        };
        let t: &ResourceGroupType = match &facts.group_type {
            None => {
                return Step::Need(AddNeed::GroupType(group.gts_type_id));
            },
            Some(t) => t,
        };
        if !lists_text(&t.allowed_membership_types, resource_type) {
            return Step::Reject(
                DomainError::validation(
                    concat5(
                        "Resource type '",
                        resource_type,
                        "' is not in allowed_membership_types for group type '",
                        t.code.as_str(),
                        "'",
                    ),
                ),
            );
        }
        let tenants: &Vec<Uuid> = match &facts.existing_tenants {
            None => {
                return Step::Need(AddNeed::ExistingTenants(type_id));
            },
            Some(tenants) => tenants,
        };
        if tenants.len() > 0 && !lists_id(tenants, group.tenant_id) {
            return Step::Reject(
                DomainError::tenant_incompatibility(
                    "Resource is already a member of groups in another tenant".to_owned(),
                ),
            );
        }
        Step::Commit(
            MembershipKey { group_id, gts_type_id: type_id, resource_id: resource_id.to_owned() },
        )
    }

    /// The membership that an add made.
    pub fn added_membership(key: MembershipKey, resource_type: &str) -> (r: ResourceGroupMembership)
        ensures
            r.group_id == key.group_id,
            r.resource_type@ == resource_type@,
            r.resource_id@ == key.resource_id@,
    {
        ResourceGroupMembership {
            group_id: key.group_id,
            resource_type: resource_type.to_owned(),
            resource_id: key.resource_id,
        }
    }

    /// What a remove does next in its transaction. A group that the caller may
    /// not see is not found; the resource's type must be registered; and the
    /// membership must exist.
    pub fn remove_membership_in_tx(
        group_id: Uuid,
        resource_type: &str,
        resource_id: &str,
        facts: &RemoveFacts,
    ) -> (r: Step<RemoveNeed, MembershipKey>)
        ensures
            r@ == remove_step(group_id, resource_type@, resource_id@, *facts),
            r matches Step::Commit(key) ==> key.group_id == group_id && facts.resource_type_id
                == Some(Some(key.gts_type_id)) && key.resource_id@ == resource_id@,
    {
        match facts.group_visible {
            None => {
                return Step::Need(RemoveNeed::Group(group_id));
            },
            Some(false) => {
                return Step::Reject(DomainError::group_not_found(group_id));
            },
            Some(true) => {},
        }
        let type_id: i16 = match facts.resource_type_id {
            None => {
                return Step::Need(RemoveNeed::ResourceType);
            },
            Some(None) => {
                return Step::Reject(Self::unknown_type(resource_type));
            },
            Some(Some(id)) => id,
        };
        match facts.exists {
            None => Step::Need(RemoveNeed::Membership(type_id)),
            Some(false) => {
                let head: String = concat5(
                    "(",
                    uuid_text(group_id).as_str(),
                    ", ",
                    resource_type,
                    ", ",
                );
                Step::Reject(
                    DomainError::membership_not_found(concat3(head.as_str(), resource_id, ")")),
                )
            },
            Some(true) => Step::Commit(
                MembershipKey {
                    group_id,
                    gts_type_id: type_id,
                    resource_id: resource_id.to_owned(),
                },
            ),
        }
    }
}

fn lists_id(list: &Vec<Uuid>, id: Uuid) -> (r: bool)
    ensures
        r == list@.contains(id),
{
    let mut i: usize = 0;
    while i < list.len()
        invariant
            i <= list.len(),
            forall|k: int| 0 <= k < i ==> (#[trigger] list@[k]) != id,
        decreases list.len() - i,
    {
        if list[i] == id {
            return true;
        }
        i = i + 1;
    }
    false
}

// -- Laws --

/// An add never asks for what it was told.
pub proof fn add_never_asks_twice(
    group_id: Uuid,
    resource_type: Seq<char>,
    resource_id: Seq<char>,
    facts: AddFacts,
    need: AddNeed,
)
    requires
        add_step(group_id, resource_type, resource_id, facts) == crate::group_service::Decision::<
            AddNeed,
            KeyView,
        >::Need(need),
    ensures
        match need {
            AddNeed::Group(_) => facts.group is None,
            AddNeed::ResourceType => facts.resource_type_id is None,
            AddNeed::GroupType(_) => facts.group_type is None,
            AddNeed::ExistingTenants(_) => facts.existing_tenants is None,
        },
{
}

/// A remove never asks for what it was told.
pub proof fn remove_never_asks_twice(
    group_id: Uuid,
    resource_type: Seq<char>,
    resource_id: Seq<char>,
    facts: RemoveFacts,
    need: RemoveNeed,
)
    requires
        remove_step(group_id, resource_type, resource_id, facts)
            == crate::group_service::Decision::<RemoveNeed, KeyView>::Need(need),
    ensures
        match need {
            RemoveNeed::Group(_) => facts.group_visible is None,
            RemoveNeed::ResourceType => facts.resource_type_id is None,
            RemoveNeed::Membership(_) => facts.exists is None,
        },
{
}

/// Whether every resource is a member of groups of one tenant only. `tenants`
/// gives the tenant of every group.
pub open spec fn resources_keep_to_a_tenant(
    memberships: Set<KeyView>,
    tenants: Map<Uuid, Uuid>,
) -> bool {
    forall|a: KeyView, b: KeyView|
        #![trigger memberships.contains(a), memberships.contains(b)]
        memberships.contains(a) && memberships.contains(b) && a.gts_type_id == b.gts_type_id
            && a.resource_id == b.resource_id ==> tenants[a.group_id] == tenants[b.group_id]
}

/// Whether what an add has read is what the store holds.
pub open spec fn add_facts_hold(
    memberships: Set<KeyView>,
    tenants: Map<Uuid, Uuid>,
    group_id: Uuid,
    resource_id: Seq<char>,
    facts: AddFacts,
) -> bool {
    &&& facts.group matches Some(Some(row)) ==> row.tenant_id == tenants[group_id]
    &&& facts.resource_type_id matches Some(Some(type_id)) ==> facts.existing_tenants matches Some(
        list,
    ) ==> forall|m: KeyView| #[trigger]
        memberships.contains(m) && m.gts_type_id == type_id && m.resource_id == resource_id
            ==> list@.contains(tenants[m.group_id])
    &&& facts.resource_type_id matches Some(Some(type_id)) ==> facts.existing_tenants matches Some(
        list,
    ) ==> forall|t: Uuid| #[trigger]
        list@.contains(t) ==> exists|m: KeyView|
            memberships.contains(m) && m.gts_type_id == type_id && m.resource_id == resource_id
                && #[trigger] tenants[m.group_id] == t
}

/// A resource is a member of groups of one tenant only, and an add keeps it so.
pub proof fn add_keeps_resources_to_a_tenant(
    memberships: Set<KeyView>,
    tenants: Map<Uuid, Uuid>,
    group_id: Uuid,
    resource_type: Seq<char>,
    resource_id: Seq<char>,
    facts: AddFacts,
    key: KeyView,
)
    requires
        resources_keep_to_a_tenant(memberships, tenants),
        add_facts_hold(memberships, tenants, group_id, resource_id, facts),
        add_step(group_id, resource_type, resource_id, facts)
            == crate::group_service::Decision::<AddNeed, KeyView>::Commit(key),
    ensures
        resources_keep_to_a_tenant(memberships.insert(key), tenants),
{
    let list = (facts.existing_tenants->0)@;
    let after = memberships.insert(key);
    let own = tenants[group_id];
    assert forall|m: KeyView| #[trigger]
        memberships.contains(m) && m.gts_type_id == key.gts_type_id && m.resource_id
            == key.resource_id implies tenants[m.group_id] == own by {
        assert(list.contains(tenants[m.group_id]));
        assert(list.len() > 0);
        assert(list.contains(own));
        let w = choose|w: KeyView|
            memberships.contains(w) && w.gts_type_id == key.gts_type_id && w.resource_id
                == key.resource_id && #[trigger] tenants[w.group_id] == own;
        assert(memberships.contains(w));
    }
    assert forall|a: KeyView, b: KeyView|
        #![trigger after.contains(a), after.contains(b)]
        after.contains(a) && after.contains(b) && a.gts_type_id == b.gts_type_id && a.resource_id
            == b.resource_id implies tenants[a.group_id] == tenants[b.group_id] by {
        assert(a == key || memberships.contains(a));
        assert(b == key || memberships.contains(b));
    }
}

/// The refusal of a resource that is linked in another tenant is the same
/// whatever the resource and the tenants are: it discloses neither.
pub proof fn tenant_refusal_discloses_nothing(
    group_id: Uuid,
    resource_type: Seq<char>,
    resource_id: Seq<char>,
    facts: AddFacts,
    e: crate::error::ErrorView,
)
    requires
        add_step(group_id, resource_type, resource_id, facts) == crate::group_service::Decision::<
            AddNeed,
            KeyView,
        >::Reject(e),
        e is TenantIncompatibility,
    ensures
        e == other_tenant_refusal(),
{
}

/// A remove undoes an add: under the same type it deletes the very membership
/// that the add inserted, so that a store that did not hold it is as before.
pub proof fn remove_undoes_add(
    memberships: Set<KeyView>,
    group_id: Uuid,
    resource_type: Seq<char>,
    resource_id: Seq<char>,
    added: AddFacts,
    removed: RemoveFacts,
    inserted: KeyView,
)
    requires
        add_step(group_id, resource_type, resource_id, added) == crate::group_service::Decision::<
            AddNeed,
            KeyView,
        >::Commit(inserted),
        !memberships.contains(inserted),
        removed.group_visible == Some(true),
        removed.resource_type_id == added.resource_type_id,
        removed.exists == Some(memberships.insert(inserted).contains(inserted)),
    ensures
        remove_step(group_id, resource_type, resource_id, removed)
            == crate::group_service::Decision::<RemoveNeed, KeyView>::Commit(inserted),
        memberships.insert(inserted).remove(inserted) == memberships,
{
    assert(memberships.insert(inserted).remove(inserted) =~= memberships);
}

/// An add inserts a membership exactly where what it read says that the group
/// exists and the caller may see it, that the resource's type is registered and
/// is one of those that the group's type lists, and that the resource is a member
/// of no group yet or of one of the group's tenant.
pub proof fn add_inserts_where_the_rules_allow(
    group_id: Uuid,
    resource_type: Seq<char>,
    resource_id: Seq<char>,
    facts: AddFacts,
)
    ensures
        add_step(group_id, resource_type, resource_id, facts) is Commit <==> {
            &&& facts.resource_type_id matches Some(Some(_))
            &&& facts.group_type matches Some(t) && exists|i: int|
                0 <= i < t.allowed_membership_types@.len() && (
                #[trigger] t.allowed_membership_types@[i])@ == resource_type
            &&& facts.group matches Some(Some(group)) && facts.existing_tenants matches Some(
                tenants,
            ) && (tenants@.len() == 0 || exists|i: int|
                0 <= i < tenants@.len() && #[trigger] tenants@[i] == group.tenant_id)
        },
        facts.group is Some && facts.resource_type_id is Some && facts.group_type is Some
            && facts.existing_tenants is Some ==> !(add_step(
            group_id,
            resource_type,
            resource_id,
            facts,
        ) is Need),
{
    if let Some(t) = facts.group_type {
        crate::text::lemma_texts_contains(t.allowed_membership_types@, resource_type);
    }
}

/// What an add inserts is what was asked for: the resource in the group, under
/// the stored identifier that was read for its type.
pub proof fn add_inserts_what_was_asked_for(
    group_id: Uuid,
    resource_type: Seq<char>,
    resource_id: Seq<char>,
    facts: AddFacts,
    key: KeyView,
)
    requires
        add_step(group_id, resource_type, resource_id, facts) == crate::group_service::Decision::<
            AddNeed,
            KeyView,
        >::Commit(key),
    ensures
        key.group_id == group_id,
        key.resource_id == resource_id,
        facts.resource_type_id == Some(Some(key.gts_type_id)),
{
}

/// A refused add has one cause in what was read: a group that is not there or
/// not to be seen, a type that is not registered, a type that is not listed, or
/// a resource that is a member of groups of other tenants only. The rules are
/// checked in this order, so that each error says that the ones before it are
/// kept.
pub proof fn refused_add_has_its_cause(
    group_id: Uuid,
    resource_type: Seq<char>,
    resource_id: Seq<char>,
    facts: AddFacts,
    e: crate::error::ErrorView,
)
    requires
        add_step(group_id, resource_type, resource_id, facts) == crate::group_service::Decision::<
            AddNeed,
            KeyView,
        >::Reject(e),
    ensures
        e is GroupNotFound || (facts.group matches Some(Some(_))),
        match e {
            crate::error::ErrorView::GroupNotFound { id } => id == group_id && facts.group == Some(
                None::<GroupRow>,
            ),
            crate::error::ErrorView::Validation { message } => {
                ||| facts.resource_type_id == Some(None::<i16>) && message
                    == "Unknown resource type: "@ + resource_type
                ||| facts.resource_type_id matches Some(Some(_)) && facts.group_type matches Some(t)
                    && crate::group_service::lists_no(t.allowed_membership_types@, resource_type)
                    && message == "Resource type '"@ + resource_type
                    + "' is not in allowed_membership_types for group type '"@ + t.code@ + "'"@
            },
            crate::error::ErrorView::TenantIncompatibility { message } => {
                &&& message == "Resource is already a member of groups in another tenant"@
                &&& facts.resource_type_id matches Some(Some(_))
                &&& facts.group_type matches Some(t) && !crate::group_service::lists_no(
                    t.allowed_membership_types@,
                    resource_type,
                )
                &&& facts.group matches Some(Some(group)) && facts.existing_tenants matches Some(
                    tenants,
                ) && tenants@.len() > 0 && forall|i: int|
                    0 <= i < tenants@.len() ==> #[trigger] tenants@[i] != group.tenant_id
            },
            _ => false,
        },
{
    if let Some(t) = facts.group_type {
        crate::text::lemma_texts_contains(t.allowed_membership_types@, resource_type);
    }
}

/// What an add asks for is about its own group, that group's type, and the type
/// of its resource.
pub proof fn add_asks_about_its_own(
    group_id: Uuid,
    resource_type: Seq<char>,
    resource_id: Seq<char>,
    facts: AddFacts,
    need: AddNeed,
)
    requires
        add_step(group_id, resource_type, resource_id, facts) == crate::group_service::Decision::<
            AddNeed,
            KeyView,
        >::Need(need),
    ensures
        match need {
            AddNeed::Group(id) => id == group_id,
            AddNeed::ResourceType => true,
            AddNeed::GroupType(id) => facts.group matches Some(Some(group)) && group.gts_type_id
                == id,
            AddNeed::ExistingTenants(id) => facts.resource_type_id == Some(Some(id)),
        },
{
}

/// A remove deletes exactly where what it read says that the group exists and
/// the caller may see it, that the resource's type is registered, and that the
/// membership exists; what it deletes is the resource in the group, under the
/// stored identifier that was read for its type. Otherwise it is refused for the
/// first of these that does not hold.
pub proof fn remove_deletes_the_membership_that_exists(
    group_id: Uuid,
    resource_type: Seq<char>,
    resource_id: Seq<char>,
    facts: RemoveFacts,
)
    ensures
        match remove_step(group_id, resource_type, resource_id, facts) {
            crate::group_service::Decision::Commit(key) => {
                &&& facts.group_visible == Some(true)
                &&& facts.exists == Some(true)
                &&& facts.resource_type_id == Some(Some(key.gts_type_id))
                &&& key.group_id == group_id
                &&& key.resource_id == resource_id
            },
            crate::group_service::Decision::Reject(e) => match e {
                crate::error::ErrorView::GroupNotFound { id } => id == group_id
                    && facts.group_visible == Some(false),
                crate::error::ErrorView::Validation { message } => facts.resource_type_id == Some(
                    None::<i16>,
                ) && facts.group_visible == Some(true) && message == "Unknown resource type: "@
                    + resource_type,
                crate::error::ErrorView::MembershipNotFound { key } => facts.exists == Some(false)
                    && facts.group_visible == Some(true) && (
                facts.resource_type_id matches Some(Some(_))) && key == "("@
                    + crate::ids::hyphenated(group_id) + ", "@ + resource_type + ", "@
                    + resource_id + ")"@,
                _ => false,
            },
            crate::group_service::Decision::Need(_) => facts.group_visible is None
                || facts.resource_type_id is None || facts.exists is None,
        },
        facts.group_visible == Some(true) && facts.exists == Some(true) && (
        facts.resource_type_id matches Some(Some(_))) ==> remove_step(
            group_id,
            resource_type,
            resource_id,
            facts,
        ) is Commit,
{
}

/// What a remove asks for is about its own group and the type of its resource.
pub proof fn remove_asks_about_its_own(
    group_id: Uuid,
    resource_type: Seq<char>,
    resource_id: Seq<char>,
    facts: RemoveFacts,
    need: RemoveNeed,
)
    requires
        remove_step(group_id, resource_type, resource_id, facts)
            == crate::group_service::Decision::<RemoveNeed, KeyView>::Need(need),
    ensures
        match need {
            RemoveNeed::Group(id) => id == group_id,
            RemoveNeed::ResourceType => true,
            RemoveNeed::Membership(id) => facts.resource_type_id == Some(Some(id)),
        },
{
}

} // verus!
