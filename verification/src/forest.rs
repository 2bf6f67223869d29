//! The forest that the groups form, and what every operation keeps true of it.

use vstd::prelude::*;

use crate::group_service::{
    CommandView, CreateFacts, DeleteFacts, DeleteView, InsertView, MoveFacts, MovePlan, QueryProfile,
    UpdateView,
};
use crate::ids::Uuid;

verus! {

/// Where a group stands, and what it is.
pub struct Placed {
    pub parent: Option<Uuid>,
    pub type_path: Seq<char>,
    pub tenant: Uuid,
}

/// Where a group of a type may stand.
pub struct TypeRule {
    pub can_be_root: bool,
    pub parents: Set<Seq<char>>,
}

/// The groups, and the tenant identifiers that were retired.
pub struct Forest {
    pub groups: Map<Uuid, Placed>,
    pub retired: Set<Uuid>,
}

/// Whether a group is a tenant of its own.
pub open spec fn is_tenant(f: Forest, x: Uuid) -> bool {
    crate::validation::is_tenant_code(f.groups[x].type_path)
}

/// The group that stands `n` steps above a group; the group itself for none.
pub open spec fn ancestor(f: Forest, x: Uuid, n: nat) -> Option<Uuid>
    decreases n,
{
    if n == 0 {
        if f.groups.contains_key(x) {
            Some(x)
        } else {
            None
        }
    } else {
        match ancestor(f, x, (n - 1) as nat) {
            Some(a) => f.groups[a].parent,
            None => None,
        }
    }
}

/// Whether a group is `root` or stands below it.
pub open spec fn is_below(f: Forest, root: Uuid, x: Uuid) -> bool {
    exists|n: nat| #[trigger] ancestor(f, x, n) == Some(root)
}

/// Whether a group stands `d` steps below a root of the forest.
pub open spec fn depth_is(f: Forest, x: Uuid, d: int) -> bool {
    d >= 0 && (ancestor(f, x, d as nat) matches Some(r) && f.groups[r].parent is None)
}

/// The children of a group.
pub open spec fn children(f: Forest, x: Uuid) -> Set<Uuid> {
    f.groups.dom().filter(|c: Uuid| f.groups[c].parent == Some(x))
}

/// Whether a group of the forest is placed by the rules. `depth` gives the
/// depth of every group.
pub open spec fn is_sound_at(
    f: Forest,
    types: Map<Seq<char>, TypeRule>,
    profile: QueryProfile,
    depth: Map<Uuid, nat>,
    x: Uuid,
) -> bool {
    let g = f.groups[x];
    &&& types.contains_key(g.type_path)
    &&& match g.parent {
        None => depth[x] == 0 && types[g.type_path].can_be_root,
        Some(p) => {
            &&& f.groups.contains_key(p)
            &&& depth[x] == depth[p] + 1
            &&& types[g.type_path].parents.contains(f.groups[p].type_path)
            &&& profile.max_depth is Some ==> depth[x] < profile.max_depth->0
            &&& !is_tenant(f, x) ==> g.tenant == f.groups[p].tenant
        },
    }
    &&& is_tenant(f, x) ==> g.tenant == x && !f.retired.contains(x)
    &&& profile.max_width is Some ==> children(f, x).len() <= profile.max_width->0
}

/// Whether at most one root is a tenant of its own.
pub open spec fn has_one_tenant_root(f: Forest) -> bool {
    forall|a: Uuid, b: Uuid|
        #![trigger f.groups.contains_key(a), f.groups.contains_key(b)]
        f.groups.contains_key(a) && f.groups.contains_key(b) && f.groups[a].parent is None
            && f.groups[b].parent is None && is_tenant(f, a) && is_tenant(f, b) ==> a == b
}

/// Whether the forest keeps the rules, with these depths.
pub open spec fn is_sound_with(
    f: Forest,
    types: Map<Seq<char>, TypeRule>,
    profile: QueryProfile,
    depth: Map<Uuid, nat>,
) -> bool {
    &&& f.groups.dom().finite()
    &&& has_one_tenant_root(f)
    &&& forall|x: Uuid|
        f.groups.contains_key(x) ==> #[trigger] is_sound_at(f, types, profile, depth, x)
}

/// Whether the forest keeps the rules: it has no cycle and no parent that is
/// missing; every group has a type that allows its parent or allows it to be a
/// root; it belongs to its parent's tenant unless it is a tenant of its own, in
/// which case its identifier is its tenant's and was never retired; at most one
/// root is a tenant of its own; and neither depth nor width exceeds its limit.
pub open spec fn is_sound(
    f: Forest,
    types: Map<Seq<char>, TypeRule>,
    profile: QueryProfile,
) -> bool {
    exists|depth: Map<Uuid, nat>| is_sound_with(f, types, profile, depth)
}

// -- What a transaction reads is what the forest holds --

/// Whether a type's definition is its rule.
pub open spec fn defines(t: crate::models::ResourceGroupType, rule: TypeRule) -> bool {
    &&& t.can_be_root == rule.can_be_root
    &&& forall|path: Seq<char>| #[trigger]
        crate::group_service::allows_parent(t, path) <==> rule.parents.contains(path)
}

/// Whether `found` is a root that is a tenant of its own, where there is one.
pub open spec fn is_tenant_root(f: Forest, found: Option<Uuid>) -> bool {
    match found {
        Some(r) => f.groups.contains_key(r) && f.groups[r].parent is None && is_tenant(f, r),
        None => forall|r: Uuid| #[trigger]
            f.groups.contains_key(r) && f.groups[r].parent is None ==> !is_tenant(f, r),
    }
}

/// Whether what a create has read is what the forest holds.
pub open spec fn create_facts_hold(
    f: Forest,
    types: Map<Seq<char>, TypeRule>,
    cmd: CommandView,
    group_id: Uuid,
    facts: CreateFacts,
) -> bool {
    &&& facts.group_type matches Some(Some(found)) ==> types.contains_key(cmd.code) && defines(
        found.1,
        types[cmd.code],
    )
    &&& facts.retired matches Some(b) ==> b == f.retired.contains(group_id)
    &&& cmd.parent_id matches Some(p) ==> {
        &&& facts.parent matches Some(Some(row)) ==> f.groups.contains_key(p) && row.tenant_id
            == f.groups[p].tenant
        &&& facts.parent_type_path matches Some(path) ==> path@ == f.groups[p].type_path
        &&& facts.parent_depth matches Some(d) ==> depth_is(f, p, d as int)
        &&& facts.sibling_count matches Some(c) ==> c == children(f, p).len()
    }
    &&& facts.tenant_root matches Some(found) ==> is_tenant_root(f, found)
}

/// The forest after an insert of a group of the given type.
pub open spec fn inserted(f: Forest, type_path: Seq<char>, plan: InsertView) -> Forest {
    Forest {
        groups: f.groups.insert(
            plan.group_id,
            Placed { parent: plan.parent_id, type_path, tenant: plan.tenant_id },
        ),
        retired: f.retired,
    }
}

// -- Lemmas on ancestors --

proof fn lemma_ancestor_depth(
    f: Forest,
    types: Map<Seq<char>, TypeRule>,
    profile: QueryProfile,
    depth: Map<Uuid, nat>,
    x: Uuid,
    n: nat,
)
    requires
        is_sound_with(f, types, profile, depth),
        f.groups.contains_key(x),
    ensures
        ancestor(f, x, n) is Some <==> n <= depth[x],
        ancestor(f, x, n) matches Some(a) ==> f.groups.contains_key(a) && depth[a] + n == depth[x],
    decreases n,
{
    if n > 0 {
        lemma_ancestor_depth(f, types, profile, depth, x, (n - 1) as nat);
        if let Some(a) = ancestor(f, x, (n - 1) as nat) {
            assert(is_sound_at(f, types, profile, depth, a));
        }
    }
}

proof fn lemma_depth(
    f: Forest,
    types: Map<Seq<char>, TypeRule>,
    profile: QueryProfile,
    depth: Map<Uuid, nat>,
    x: Uuid,
    d: int,
)
    requires
        is_sound_with(f, types, profile, depth),
        f.groups.contains_key(x),
    ensures
        depth_is(f, x, d) <==> d == depth[x],
{
    if d >= 0 {
        lemma_ancestor_depth(f, types, profile, depth, x, d as nat);
        if let Some(a) = ancestor(f, x, d as nat) {
            assert(is_sound_at(f, types, profile, depth, a));
        }
    }
}

proof fn lemma_ancestor_of_parent(f: Forest, x: Uuid, p: Uuid, n: nat)
    requires
        f.groups.contains_key(x),
        f.groups.contains_key(p),
        f.groups[x].parent == Some(p),
    ensures
        ancestor(f, x, n + 1) == ancestor(f, p, n),
    decreases n,
{
    reveal_with_fuel(ancestor, 2);
    if n > 0 {
        lemma_ancestor_of_parent(f, x, p, (n - 1) as nat);
        assert(ancestor(f, x, n + 1) == match ancestor(f, x, n) {
            Some(a) => f.groups[a].parent,
            None => None,
        });
    }
}

// -- Laws --

/// A create keeps the rules: what it inserts, where what it read is what the
/// forest holds and the identifier is free, leaves the forest sound.
pub proof fn create_keeps_the_forest_sound(
    f: Forest,
    types: Map<Seq<char>, TypeRule>,
    profile: QueryProfile,
    cmd: CommandView,
    group_id: Uuid,
    facts: CreateFacts,
    plan: InsertView,
)
    requires
        is_sound(f, types, profile),
        create_facts_hold(f, types, cmd, group_id, facts),
        !f.groups.contains_key(group_id),
        crate::group_service::create_step(cmd, group_id, profile, facts)
            == crate::group_service::Decision::<
            crate::group_service::CreateNeed,
            InsertView,
        >::Commit(plan),
    ensures
        is_sound(inserted(f, cmd.code, plan), types, profile),
{
    let depth = choose|depth: Map<Uuid, nat>| is_sound_with(f, types, profile, depth);
    let f2 = inserted(f, cmd.code, plan);
    let own: nat = match cmd.parent_id {
        Some(p) => depth[p] + 1,
        None => 0,
    };
    let depth2 = depth.insert(group_id, own);
    if let Some(p) = cmd.parent_id {
        if let Some(d) = facts.parent_depth {
            lemma_depth(f, types, profile, depth, p, d as int);
        }
    }
    assert(f2.groups.dom() =~= f.groups.dom().insert(group_id));
    assert forall|x: Uuid| f2.groups.contains_key(x) implies #[trigger] is_sound_at(
        f2,
        types,
        profile,
        depth2,
        x,
    ) by {
        if x != group_id {
            assert(is_sound_at(f, types, profile, depth, x));
        }
        lemma_children_after_insert(f, types, profile, depth, cmd.code, plan, x);
    }
    assert(has_one_tenant_root(f2));
    assert(is_sound_with(f2, types, profile, depth2));
}

proof fn lemma_children_after_insert(
    f: Forest,
    types: Map<Seq<char>, TypeRule>,
    profile: QueryProfile,
    depth: Map<Uuid, nat>,
    type_path: Seq<char>,
    plan: InsertView,
    x: Uuid,
)
    requires
        is_sound_with(f, types, profile, depth),
        !f.groups.contains_key(plan.group_id),
        plan.parent_id != Some(plan.group_id),
    ensures
        x == plan.group_id ==> children(inserted(f, type_path, plan), x).len() == 0,
        x != plan.group_id && plan.parent_id != Some(x) ==> children(
            inserted(f, type_path, plan),
            x,
        ).len() == children(f, x).len(),
        plan.parent_id == Some(x) ==> children(inserted(f, type_path, plan), x).len() == children(
            f,
            x,
        ).len() + 1,
{
    let f2 = inserted(f, type_path, plan);
    let before = children(f, x);
    let after = children(f2, x);
    assert forall|c: Uuid| before.contains(c) implies c != plan.group_id && f.groups.contains_key(
        x,
    ) by {
        assert(is_sound_at(f, types, profile, depth, c));
    }
    if plan.parent_id == Some(x) {
        assert(after =~= before.insert(plan.group_id));
    } else {
        assert(after =~= before);
        if x == plan.group_id {
            assert(before =~= Set::empty());
        }
    }
}

// -- Moves --

/// Whether a list holds exactly the groups below a group, with their distances
/// from it.
pub open spec fn lists_descendants(f: Forest, root: Uuid, list: Seq<(Uuid, i32)>) -> bool {
    &&& forall|i: int|
        0 <= i < list.len() ==> is_descendant_at(f, root, (#[trigger] list[i]).0, list[i].1 as int)
    &&& forall|x: Uuid, n: nat|
        n >= 1 && #[trigger] ancestor(f, x, n) == Some(root) ==> exists|i: int|
            0 <= i < list.len() && (#[trigger] list[i]).0 == x && list[i].1 == n
}

/// Whether a group stands `n` steps below another, one step or more.
pub open spec fn is_descendant_at(f: Forest, root: Uuid, x: Uuid, n: int) -> bool {
    n >= 1 && ancestor(f, x, n as nat) == Some(root)
}

/// The roots of a tenant besides one group.
pub open spec fn other_roots(f: Forest, tenant: Uuid, group_id: Uuid) -> Set<Uuid> {
    f.groups.dom().filter(
        |x: Uuid| x != group_id && f.groups[x].parent is None && f.groups[x].tenant == tenant,
    )
}

/// Whether what a move has read is what the forest holds.
pub open spec fn move_facts_hold(
    f: Forest,
    types: Map<Seq<char>, TypeRule>,
    group_id: Uuid,
    new_parent_id: Option<Uuid>,
    facts: MoveFacts,
) -> bool {
    &&& facts.group matches Some(Some(row)) ==> f.groups.contains_key(group_id) && row.tenant_id
        == f.groups[group_id].tenant
    &&& facts.type_path matches Some(path) ==> path@ == f.groups[group_id].type_path
    &&& facts.group_type matches Some(Some(t)) ==> {
        &&& t.code@ == f.groups[group_id].type_path
        &&& types.contains_key(t.code@)
        &&& defines(t, types[t.code@])
    }
    &&& new_parent_id matches Some(p) ==> {
        &&& facts.parent matches Some(Some(row)) ==> f.groups.contains_key(p) && row.tenant_id
            == f.groups[p].tenant
        &&& facts.is_descendant matches Some(b) ==> b == is_below(f, group_id, p)
        &&& facts.parent_type_path matches Some(path) ==> path@ == f.groups[p].type_path
        &&& facts.parent_depth matches Some(d) ==> depth_is(f, p, d as int)
        &&& facts.sibling_count matches Some(c) ==> c == children(f, p).len()
    }
    &&& facts.subtree matches Some(list) ==> lists_descendants(f, group_id, list@)
    &&& facts.tenant_root matches Some(found) ==> is_tenant_root(f, found)
    &&& facts.root_siblings matches Some(c) ==> c == other_roots(
        f,
        f.groups[group_id].tenant,
        group_id,
    ).len()
}

/// The forest after a move.
pub open spec fn moved(f: Forest, plan: MovePlan) -> Forest {
    let g = f.groups[plan.group_id];
    Forest {
        groups: f.groups.insert(
            plan.group_id,
            Placed { parent: plan.new_parent_id, type_path: g.type_path, tenant: g.tenant },
        ),
        retired: f.retired,
    }
}

/// A group other than `root` is below `root` exactly where its parent is.
proof fn lemma_below_with_parent(f: Forest, root: Uuid, x: Uuid, p: Uuid)
    requires
        f.groups.contains_key(x),
        f.groups.contains_key(p),
        f.groups[x].parent == Some(p),
        x != root,
    ensures
        is_below(f, root, x) <==> is_below(f, root, p),
{
    if is_below(f, root, x) {
        let n = choose|n: nat| #[trigger] ancestor(f, x, n) == Some(root);
        assert(n > 0);
        lemma_ancestor_of_parent(f, x, p, (n - 1) as nat);
        assert(ancestor(f, p, (n - 1) as nat) == Some(root));
    }
    if is_below(f, root, p) {
        let n = choose|n: nat| #[trigger] ancestor(f, p, n) == Some(root);
        lemma_ancestor_of_parent(f, x, p, n);
        assert(ancestor(f, x, n + 1) == Some(root));
    }
}

proof fn lemma_height(list: Seq<(Uuid, i32)>, i: int)
    requires
        0 <= i < list.len(),
    ensures
        list[i].1 <= crate::group_service::height(list),
    decreases list.len(),
{
    if list.len() > 1 && i < list.len() - 1 {
        lemma_height(list.drop_last(), i);
    }
}

/// The distance at which a group stands below another.
proof fn lemma_below_distance(
    f: Forest,
    types: Map<Seq<char>, TypeRule>,
    profile: QueryProfile,
    depth: Map<Uuid, nat>,
    root: Uuid,
    x: Uuid,
)
    requires
        is_sound_with(f, types, profile, depth),
        f.groups.contains_key(x),
        is_below(f, root, x),
    ensures
        depth[x] >= depth[root],
        ancestor(f, x, (depth[x] - depth[root]) as nat) == Some(root),
        depth[x] == depth[root] ==> x == root,
{
    let n = choose|n: nat| #[trigger] ancestor(f, x, n) == Some(root);
    lemma_ancestor_depth(f, types, profile, depth, x, n);
    if n == 0 {
        assert(x == root);
    }
}

/// A move keeps the rules: where what it read is what the forest holds, it
/// leaves the forest sound. In particular no move makes a cycle.
pub proof fn move_keeps_the_forest_sound(
    f: Forest,
    types: Map<Seq<char>, TypeRule>,
    profile: QueryProfile,
    group_id: Uuid,
    new_parent_id: Option<Uuid>,
    facts: MoveFacts,
    plan: MovePlan,
)
    requires
        is_sound(f, types, profile),
        move_facts_hold(f, types, group_id, new_parent_id, facts),
        crate::group_service::move_step(group_id, new_parent_id, profile, facts)
            == crate::group_service::Decision::<
            crate::group_service::MoveNeed,
            MovePlan,
        >::Commit(plan),
    ensures
        is_sound(moved(f, plan), types, profile),
{
    let depth = choose|depth: Map<Uuid, nat>| is_sound_with(f, types, profile, depth);
    let f2 = moved(f, plan);
    let own: nat = match new_parent_id {
        Some(p) => depth[p] + 1,
        None => 0,
    };
    let depth2 = Map::new(
        |x: Uuid| true,
        |x: Uuid|
            if f.groups.contains_key(x) && is_below(f, group_id, x) {
                (depth[x] - depth[group_id] + own) as nat
            } else {
                depth[x]
            },
    );
    assert(plan == (MovePlan { group_id, new_parent_id }));
    assert(f.groups.contains_key(group_id));
    assert(ancestor(f, group_id, 0) == Some(group_id));
    assert(is_below(f, group_id, group_id));
    assert(is_sound_at(f, types, profile, depth, group_id));
    if let Some(p) = new_parent_id {
        if let Some(d) = facts.parent_depth {
            lemma_depth(f, types, profile, depth, p, d as int);
        }
    }
    assert(f2.groups.dom() =~= f.groups.dom());
    assert forall|x: Uuid| f2.groups.contains_key(x) implies #[trigger] is_sound_at(
        f2,
        types,
        profile,
        depth2,
        x,
    ) by {
        assert(is_sound_at(f, types, profile, depth, x));
        lemma_children_after_move(f, types, profile, depth, plan, x);
        if is_below(f, group_id, x) {
            lemma_below_distance(f, types, profile, depth, group_id, x);
        }
        if profile.max_depth is Some && new_parent_id is Some && is_below(f, group_id, x) {
            let list = (facts.subtree->0)@;
            let n = (depth[x] - depth[group_id]) as nat;
            if n >= 1 {
                assert(ancestor(f, x, n) == Some(group_id));
                let i = choose|i: int|
                    0 <= i < list.len() && (#[trigger] list[i]).0 == x && list[i].1 == n;
                lemma_height(list, i);
            } else if list.len() > 0 {
                assert(is_descendant_at(f, group_id, list[0].0, list[0].1 as int));
                lemma_height(list, 0);
            }
        }
        if x != group_id {
            if let Some(p) = f.groups[x].parent {
                lemma_below_with_parent(f, group_id, x, p);
                if is_below(f, group_id, p) {
                    lemma_below_distance(f, types, profile, depth, group_id, p);
                }
            }
        }
    }
    assert(has_one_tenant_root(f2));
    assert(is_sound_with(f2, types, profile, depth2));
}

proof fn lemma_children_after_move(
    f: Forest,
    types: Map<Seq<char>, TypeRule>,
    profile: QueryProfile,
    depth: Map<Uuid, nat>,
    plan: MovePlan,
    x: Uuid,
)
    requires
        is_sound_with(f, types, profile, depth),
        f.groups.contains_key(plan.group_id),
    ensures
        plan.new_parent_id != Some(x) ==> children(moved(f, plan), x).len() <= children(f, x).len(),
        plan.new_parent_id == Some(x) ==> children(moved(f, plan), x).len() <= children(f, x).len()
            + 1,
{
    let f2 = moved(f, plan);
    let before = children(f, x);
    let after = children(f2, x);
    assert(f2.groups.dom() =~= f.groups.dom());
    if plan.new_parent_id == Some(x) {
        assert(after.subset_of(before.insert(plan.group_id)));
        vstd::set_lib::lemma_len_subset(after, before.insert(plan.group_id));
    } else {
        assert(after.subset_of(before));
        vstd::set_lib::lemma_len_subset(after, before);
    }
}

// -- Deletes --

/// Whether what a delete has read is what the forest holds.
pub open spec fn delete_facts_hold(f: Forest, group_id: Uuid, facts: DeleteFacts) -> bool {
    &&& facts.exists matches Some(b) ==> b == f.groups.contains_key(group_id)
    &&& facts.descendants matches Some(list) ==> lists_descendants(f, group_id, list@)
    &&& facts.children matches Some(list) ==> forall|x: Uuid| #[trigger]
        f.groups.contains_key(x) && f.groups[x].parent == Some(group_id) ==> exists|i: int|
            0 <= i < list@.len() && (#[trigger] list@[i]).id == x
}

/// The forest after a delete: the groups are gone, and the identifiers of
/// those that were tenants of their own are retired.
pub open spec fn deleted(f: Forest, plan: DeleteView) -> Forest {
    Forest {
        groups: f.groups.remove_keys(plan.groups.to_set()),
        retired: f.retired.union(
            f.groups.dom().filter(|x: Uuid| plan.groups.contains(x) && is_tenant(f, x)),
        ),
    }
}

/// Whatever stands under a group that is deleted is deleted with it.
proof fn lemma_delete_is_closed(
    f: Forest,
    types: Map<Seq<char>, TypeRule>,
    profile: QueryProfile,
    depth: Map<Uuid, nat>,
    group_id: Uuid,
    force: bool,
    facts: DeleteFacts,
    plan: DeleteView,
    x: Uuid,
    p: Uuid,
)
    requires
        is_sound_with(f, types, profile, depth),
        delete_facts_hold(f, group_id, facts),
        crate::group_service::is_delete_step(
            crate::group_service::Decision::<
                crate::group_service::DeleteNeed,
                DeleteView,
            >::Commit(plan),
            group_id,
            force,
            facts,
        ),
        f.groups.contains_key(x),
        f.groups[x].parent == Some(p),
        plan.groups.contains(p),
    ensures
        plan.groups.contains(x),
{
    assert(is_sound_at(f, types, profile, depth, x));
    if force {
        let list = (facts.descendants->0)@;
        let entries = crate::group_service::whole_subtree(group_id, list);
        let k = choose|k: int| 0 <= k < plan.groups.len() && plan.groups[k] == p;
        assert(entries[k].0 == p);
        let n: nat = if k == 0 {
            0
        } else {
            assert(entries[k] == list[k - 1]);
            assert(is_descendant_at(f, group_id, list[k - 1].0, list[k - 1].1 as int));
            list[k - 1].1 as nat
        };
        assert(ancestor(f, p, n) == Some(group_id));
        lemma_ancestor_of_parent(f, x, p, n);
        assert(ancestor(f, x, n + 1) == Some(group_id));
        let i = choose|i: int| 0 <= i < list.len() && (#[trigger] list[i]).0 == x && list[i].1
            == n + 1;
        assert(entries[i + 1] == list[i]);
        assert(plan.groups[i + 1] == x);
    } else {
        let entries = crate::group_service::whole_subtree(group_id, Seq::empty());
        let k = choose|k: int| 0 <= k < plan.groups.len() && plan.groups[k] == p;
        assert(entries[k].0 == p);
        assert(p == group_id);
        let list = (facts.children->0)@;
        let i = choose|i: int| 0 <= i < list.len() && (#[trigger] list[i]).id == x;
        assert(false);
    }
}

/// A delete keeps the rules: where what it read is what the forest holds, it
/// leaves the forest sound; no group is left under a parent that is gone.
pub proof fn delete_keeps_the_forest_sound(
    f: Forest,
    types: Map<Seq<char>, TypeRule>,
    profile: QueryProfile,
    group_id: Uuid,
    force: bool,
    facts: DeleteFacts,
    plan: DeleteView,
)
    requires
        is_sound(f, types, profile),
        delete_facts_hold(f, group_id, facts),
        crate::group_service::is_delete_step(
            crate::group_service::Decision::<
                crate::group_service::DeleteNeed,
                DeleteView,
            >::Commit(plan),
            group_id,
            force,
            facts,
        ),
    ensures
        is_sound(deleted(f, plan), types, profile),
{
    let depth = choose|depth: Map<Uuid, nat>| is_sound_with(f, types, profile, depth);
    let f2 = deleted(f, plan);
    assert(f2.groups.dom() =~= f.groups.dom().difference(plan.groups.to_set()));
    assert forall|x: Uuid| f2.groups.contains_key(x) implies #[trigger] is_sound_at(
        f2,
        types,
        profile,
        depth,
        x,
    ) by {
        assert(is_sound_at(f, types, profile, depth, x));
        assert(!plan.groups.contains(x));
        if let Some(p) = f.groups[x].parent {
            if plan.groups.contains(p) {
                lemma_delete_is_closed(
                    f,
                    types,
                    profile,
                    depth,
                    group_id,
                    force,
                    facts,
                    plan,
                    x,
                    p,
                );
            }
        }
        assert(children(f2, x).subset_of(children(f, x)));
        vstd::set_lib::lemma_len_subset(children(f2, x), children(f, x));
    }
    assert(has_one_tenant_root(f2));
    assert(is_sound_with(f2, types, profile, depth));
}

/// A delete takes exactly the group and, with `force`, everything below it.
pub proof fn delete_takes_the_subtree(
    f: Forest,
    types: Map<Seq<char>, TypeRule>,
    profile: QueryProfile,
    group_id: Uuid,
    force: bool,
    facts: DeleteFacts,
    plan: DeleteView,
    x: Uuid,
)
    requires
        is_sound(f, types, profile),
        delete_facts_hold(f, group_id, facts),
        crate::group_service::is_delete_step(
            crate::group_service::Decision::<
                crate::group_service::DeleteNeed,
                DeleteView,
            >::Commit(plan),
            group_id,
            force,
            facts,
        ),
    ensures
        plan.groups.contains(x) <==> is_below(f, group_id, x),
{
    let depth = choose|depth: Map<Uuid, nat>| is_sound_with(f, types, profile, depth);
    let list = if force {
        (facts.descendants->0)@
    } else {
        Seq::empty()
    };
    let entries = crate::group_service::whole_subtree(group_id, list);
    assert(ancestor(f, group_id, 0) == Some(group_id));
    assert(entries[0].0 == group_id);
    assert(plan.groups[0] == group_id);
    if plan.groups.contains(x) {
        let k = choose|k: int| 0 <= k < plan.groups.len() && plan.groups[k] == x;
        assert(entries[k].0 == x);
        if k > 0 {
            assert(entries[k] == list[k - 1]);
            assert(is_descendant_at(f, group_id, list[k - 1].0, list[k - 1].1 as int));
            assert(ancestor(f, x, list[k - 1].1 as nat) == Some(group_id));
        }
    }
    if is_below(f, group_id, x) {
        let n = choose|n: nat| #[trigger] ancestor(f, x, n) == Some(group_id);
        lemma_below_is_deleted(f, types, profile, depth, group_id, force, facts, plan, x, n);
    }
}

proof fn lemma_below_is_deleted(
    f: Forest,
    types: Map<Seq<char>, TypeRule>,
    profile: QueryProfile,
    depth: Map<Uuid, nat>,
    group_id: Uuid,
    force: bool,
    facts: DeleteFacts,
    plan: DeleteView,
    x: Uuid,
    n: nat,
)
    requires
        is_sound_with(f, types, profile, depth),
        delete_facts_hold(f, group_id, facts),
        crate::group_service::is_delete_step(
            crate::group_service::Decision::<
                crate::group_service::DeleteNeed,
                DeleteView,
            >::Commit(plan),
            group_id,
            force,
            facts,
        ),
        plan.groups.contains(group_id),
        ancestor(f, x, n) == Some(group_id),
    ensures
        plan.groups.contains(x),
    decreases n,
{
    if n > 0 {
        if !f.groups.contains_key(x) {
            lemma_no_ancestor(f, x, n);
        }
        assert(is_sound_at(f, types, profile, depth, x));
        if f.groups[x].parent is None {
            lemma_ancestor_depth(f, types, profile, depth, x, n);
        }
        let p = f.groups[x].parent->0;
        lemma_ancestor_of_parent(f, x, p, (n - 1) as nat);
        lemma_below_is_deleted(
            f,
            types,
            profile,
            depth,
            group_id,
            force,
            facts,
            plan,
            p,
            (n - 1) as nat,
        );
        lemma_delete_is_closed(f, types, profile, depth, group_id, force, facts, plan, x, p);
    }
}

proof fn lemma_no_ancestor(f: Forest, x: Uuid, n: nat)
    requires
        !f.groups.contains_key(x),
    ensures
        ancestor(f, x, n) is None,
    decreases n,
{
    if n > 0 {
        lemma_no_ancestor(f, x, (n - 1) as nat);
    }
}

/// Groups are deleted from the bottom up: of two groups of a delete, the one
/// that is further from the deleted group goes first. No parent goes before
/// its children.
pub proof fn deeper_groups_go_first(
    levels: Seq<(i32, Seq<Uuid>)>,
    entries: Seq<(Uuid, i32)>,
    i: int,
    j: int,
    a: int,
    b: int,
)
    requires
        crate::group_service::is_deepest_first(levels, entries),
        0 <= i < entries.len(),
        0 <= j < entries.len(),
        entries[i].1 > entries[j].1,
        0 <= a < levels.len(),
        0 <= b < levels.len(),
        levels[a].0 == entries[i].1,
        levels[b].0 == entries[j].1,
    ensures
        a < b,
        levels[a].1.contains(entries[i].0),
        levels[b].1.contains(entries[j].0),
{
    lemma_ids_at_contains(entries, i);
    lemma_ids_at_contains(entries, j);
    if b < a {
        assert(levels[b].0 > levels[a].0);
    }
}

proof fn lemma_ids_at_contains(entries: Seq<(Uuid, i32)>, i: int)
    requires
        0 <= i < entries.len(),
    ensures
        crate::group_service::ids_at(entries, entries[i].1).contains(entries[i].0),
    decreases entries.len(),
{
    let d = entries[i].1;
    let head = crate::group_service::ids_at(entries.drop_last(), d);
    let all = crate::group_service::ids_at(entries, d);
    if i == entries.len() - 1 {
        assert(all[head.len() as int] == entries[i].0);
    } else {
        lemma_ids_at_contains(entries.drop_last(), i);
        let m = choose|m: int| 0 <= m < head.len() && head[m] == entries[i].0;
        assert(all[m] == entries[i].0);
    }
}

// -- Retired identifiers --

/// A tenant identifier that was retired is never issued again: a create that
/// wants it for a group of a tenant type inserts nothing.
pub proof fn retired_identifier_is_never_reissued(
    f: Forest,
    types: Map<Seq<char>, TypeRule>,
    profile: QueryProfile,
    cmd: CommandView,
    group_id: Uuid,
    facts: CreateFacts,
)
    requires
        f.retired.contains(group_id),
        crate::validation::is_tenant_code(cmd.code),
        create_facts_hold(f, types, cmd, group_id, facts),
    ensures
        !(crate::group_service::create_step(cmd, group_id, profile, facts) is Commit),
{
}

/// No operation takes an identifier out of retirement, and a delete retires
/// the identifier of every group it takes that was a tenant of its own.
pub proof fn retirement_is_for_good(
    f: Forest,
    type_path: Seq<char>,
    insert: InsertView,
    mv: MovePlan,
    delete: DeleteView,
    x: Uuid,
)
    ensures
        f.retired.contains(x) ==> inserted(f, type_path, insert).retired.contains(x) && moved(
            f,
            mv,
        ).retired.contains(x) && deleted(f, delete).retired.contains(x),
        f.groups.contains_key(x) && is_tenant(f, x) && delete.groups.contains(x) ==> deleted(
            f,
            delete,
        ).retired.contains(x),
{
}

// -- The closure table --

/// Whether the closure table holds a row: `x` stands `n` steps below `a`.
pub open spec fn closure_row(f: Forest, a: Uuid, x: Uuid, n: nat) -> bool {
    ancestor(f, x, n) == Some(a)
}

/// The closure table after an insert is the one before it, with one row for the
/// new group itself and one more for every row of its parent, one step further.
pub proof fn insert_extends_the_closure_table(
    f: Forest,
    types: Map<Seq<char>, TypeRule>,
    profile: QueryProfile,
    type_path: Seq<char>,
    plan: InsertView,
    a: Uuid,
    x: Uuid,
    n: nat,
)
    requires
        is_sound(f, types, profile),
        !f.groups.contains_key(plan.group_id),
        plan.parent_id matches Some(p) ==> f.groups.contains_key(p),
    ensures
        closure_row(inserted(f, type_path, plan), a, x, n) <==> closure_row(f, a, x, n) || (x
            == plan.group_id && ((a == plan.group_id && n == 0) || (plan.parent_id matches Some(p)
            && n >= 1 && closure_row(f, a, p, (n - 1) as nat)))),
{
    let depth = choose|depth: Map<Uuid, nat>| is_sound_with(f, types, profile, depth);
    let f2 = inserted(f, type_path, plan);
    if x != plan.group_id {
        lemma_insert_keeps_ancestors(f, types, profile, depth, type_path, plan, x, n);
    } else {
        lemma_no_ancestor(f, x, n);
        if n >= 1 {
            match plan.parent_id {
                Some(p) => {
                    lemma_ancestor_of_parent(f2, x, p, (n - 1) as nat);
                    lemma_insert_keeps_ancestors(
                        f,
                        types,
                        profile,
                        depth,
                        type_path,
                        plan,
                        p,
                        (n - 1) as nat,
                    );
                },
                None => {
                    lemma_root_has_no_ancestor(f2, x, n);
                },
            }
        }
    }
}

proof fn lemma_root_has_no_ancestor(f: Forest, x: Uuid, n: nat)
    requires
        f.groups.contains_key(x),
        f.groups[x].parent is None,
        n >= 1,
    ensures
        ancestor(f, x, n) is None,
    decreases n,
{
    reveal_with_fuel(ancestor, 2);
    if n > 1 {
        lemma_root_has_no_ancestor(f, x, (n - 1) as nat);
    }
}

proof fn lemma_insert_keeps_ancestors(
    f: Forest,
    types: Map<Seq<char>, TypeRule>,
    profile: QueryProfile,
    depth: Map<Uuid, nat>,
    type_path: Seq<char>,
    plan: InsertView,
    x: Uuid,
    n: nat,
)
    requires
        is_sound_with(f, types, profile, depth),
        !f.groups.contains_key(plan.group_id),
        x != plan.group_id,
    ensures
        ancestor(inserted(f, type_path, plan), x, n) == ancestor(f, x, n),
    decreases n,
{
    if n > 0 {
        lemma_insert_keeps_ancestors(
            f,
            types,
            profile,
            depth,
            type_path,
            plan,
            x,
            (n - 1) as nat,
        );
        if f.groups.contains_key(x) {
            lemma_ancestor_depth(f, types, profile, depth, x, (n - 1) as nat);
        } else {
            lemma_no_ancestor(f, x, (n - 1) as nat);
        }
    }
}

/// The closure table after a delete is the one before it without the rows that
/// name a deleted group.
pub proof fn delete_shrinks_the_closure_table(
    f: Forest,
    types: Map<Seq<char>, TypeRule>,
    profile: QueryProfile,
    group_id: Uuid,
    force: bool,
    facts: DeleteFacts,
    plan: DeleteView,
    a: Uuid,
    x: Uuid,
    n: nat,
)
    requires
        is_sound(f, types, profile),
        delete_facts_hold(f, group_id, facts),
        crate::group_service::is_delete_step(
            crate::group_service::Decision::<
                crate::group_service::DeleteNeed,
                DeleteView,
            >::Commit(plan),
            group_id,
            force,
            facts,
        ),
    ensures
        closure_row(deleted(f, plan), a, x, n) <==> closure_row(f, a, x, n)
            && !plan.groups.contains(a) && !plan.groups.contains(x),
{
    let depth = choose|depth: Map<Uuid, nat>| is_sound_with(f, types, profile, depth);
    if plan.groups.contains(x) {
        lemma_no_ancestor(deleted(f, plan), x, n);
    } else {
        lemma_delete_keeps_ancestors(f, types, profile, depth, group_id, force, facts, plan, x, n);
    }
}

proof fn lemma_delete_keeps_ancestors(
    f: Forest,
    types: Map<Seq<char>, TypeRule>,
    profile: QueryProfile,
    depth: Map<Uuid, nat>,
    group_id: Uuid,
    force: bool,
    facts: DeleteFacts,
    plan: DeleteView,
    x: Uuid,
    n: nat,
)
    requires
        is_sound_with(f, types, profile, depth),
        delete_facts_hold(f, group_id, facts),
        crate::group_service::is_delete_step(
            crate::group_service::Decision::<
                crate::group_service::DeleteNeed,
                DeleteView,
            >::Commit(plan),
            group_id,
            force,
            facts,
        ),
        !plan.groups.contains(x),
    ensures
        ancestor(deleted(f, plan), x, n) == ancestor(f, x, n),
        ancestor(f, x, n) matches Some(a) ==> f.groups.contains_key(a) && !plan.groups.contains(a),
    decreases n,
{
    if n > 0 {
        lemma_delete_keeps_ancestors(
            f,
            types,
            profile,
            depth,
            group_id,
            force,
            facts,
            plan,
            x,
            (n - 1) as nat,
        );
        if let Some(a) = ancestor(f, x, (n - 1) as nat) {
            assert(is_sound_at(f, types, profile, depth, a));
            if let Some(b) = f.groups[a].parent {
                if plan.groups.contains(b) {
                    lemma_delete_is_closed(
                        f,
                        types,
                        profile,
                        depth,
                        group_id,
                        force,
                        facts,
                        plan,
                        a,
                        b,
                    );
                }
            }
        }
    }
}

/// The closure table after a move: the rows of a group outside the moved
/// subtree stay; a group `k` steps below the moved one keeps its rows up to
/// that one, and above it has the rows of the new parent, `k + 1` steps
/// further.
pub proof fn move_rebuilds_the_closure_table(
    f: Forest,
    types: Map<Seq<char>, TypeRule>,
    profile: QueryProfile,
    plan: MovePlan,
    a: Uuid,
    x: Uuid,
    n: nat,
    k: nat,
)
    requires
        is_sound(f, types, profile),
        f.groups.contains_key(plan.group_id),
        plan.new_parent_id matches Some(p) ==> f.groups.contains_key(p) && !is_below(
            f,
            plan.group_id,
            p,
        ),
    ensures
        !is_below(f, plan.group_id, x) ==> (closure_row(moved(f, plan), a, x, n) <==> closure_row(
            f,
            a,
            x,
            n,
        )),
        closure_row(f, plan.group_id, x, k) ==> (closure_row(moved(f, plan), a, x, n) <==> if n
            <= k {
            closure_row(f, a, x, n)
        } else {
            plan.new_parent_id matches Some(p) && closure_row(f, a, p, (n - k - 1) as nat)
        }),
{
    let depth = choose|depth: Map<Uuid, nat>| is_sound_with(f, types, profile, depth);
    let f2 = moved(f, plan);
    if !is_below(f, plan.group_id, x) {
        lemma_move_keeps_ancestors(f, types, profile, depth, plan, x, n);
    }
    if closure_row(f, plan.group_id, x, k) {
        if !f.groups.contains_key(x) {
            lemma_no_ancestor(f, x, k);
        }
        lemma_move_below(f, types, profile, depth, plan, x, k, if n <= k { n } else { k });
        if n > k {
            match plan.new_parent_id {
                Some(p) => {
                    lemma_move_above(f, types, profile, depth, plan, x, k, p, (n - k - 1) as nat);
                },
                None => {
                    lemma_move_cut(f2, x, k, plan.group_id, n);
                },
            }
        }
    }
}

proof fn lemma_move_keeps_ancestors(
    f: Forest,
    types: Map<Seq<char>, TypeRule>,
    profile: QueryProfile,
    depth: Map<Uuid, nat>,
    plan: MovePlan,
    x: Uuid,
    n: nat,
)
    requires
        is_sound_with(f, types, profile, depth),
        f.groups.contains_key(plan.group_id),
        !is_below(f, plan.group_id, x),
    ensures
        ancestor(moved(f, plan), x, n) == ancestor(f, x, n),
    decreases n,
{
    assert(moved(f, plan).groups.dom() =~= f.groups.dom());
    if n > 0 {
        lemma_move_keeps_ancestors(f, types, profile, depth, plan, x, (n - 1) as nat);
        if let Some(a) = ancestor(f, x, (n - 1) as nat) {
            assert(a != plan.group_id);
        }
    }
}

/// Up to the moved group the ancestors of a group below it stay.
proof fn lemma_move_below(
    f: Forest,
    types: Map<Seq<char>, TypeRule>,
    profile: QueryProfile,
    depth: Map<Uuid, nat>,
    plan: MovePlan,
    x: Uuid,
    k: nat,
    n: nat,
)
    requires
        is_sound_with(f, types, profile, depth),
        f.groups.contains_key(plan.group_id),
        f.groups.contains_key(x),
        ancestor(f, x, k) == Some(plan.group_id),
        n <= k,
    ensures
        ancestor(moved(f, plan), x, n) == ancestor(f, x, n),
    decreases n,
{
    assert(moved(f, plan).groups.dom() =~= f.groups.dom());
    if n > 0 {
        lemma_move_below(f, types, profile, depth, plan, x, k, (n - 1) as nat);
        lemma_ancestor_depth(f, types, profile, depth, x, (n - 1) as nat);
        lemma_ancestor_depth(f, types, profile, depth, x, k);
        if let Some(a) = ancestor(f, x, (n - 1) as nat) {
            assert(a != plan.group_id);
        }
    }
}

/// Above the moved group the ancestors are those of the new parent.
proof fn lemma_move_above(
    f: Forest,
    types: Map<Seq<char>, TypeRule>,
    profile: QueryProfile,
    depth: Map<Uuid, nat>,
    plan: MovePlan,
    x: Uuid,
    k: nat,
    p: Uuid,
    j: nat,
)
    requires
        is_sound_with(f, types, profile, depth),
        f.groups.contains_key(plan.group_id),
        f.groups.contains_key(x),
        ancestor(f, x, k) == Some(plan.group_id),
        plan.new_parent_id == Some(p),
        f.groups.contains_key(p),
        !is_below(f, plan.group_id, p),
    ensures
        ancestor(moved(f, plan), x, k + 1 + j) == ancestor(f, p, j),
    decreases j,
{
    let f2 = moved(f, plan);
    lemma_move_below(f, types, profile, depth, plan, x, k, k);
    if j == 0 {
        assert(ancestor(f2, x, k + 1) == f2.groups[plan.group_id].parent);
    } else {
        lemma_move_above(f, types, profile, depth, plan, x, k, p, (j - 1) as nat);
        if let Some(a) = ancestor(f, p, (j - 1) as nat) {
            assert(a != plan.group_id);
        }
    }
}

/// Above a root there is nothing.
proof fn lemma_move_cut(f: Forest, x: Uuid, k: nat, root: Uuid, n: nat)
    requires
        ancestor(f, x, k) == Some(root),
        f.groups[root].parent is None,
        n > k,
    ensures
        ancestor(f, x, n) is None,
    decreases n,
{
    if n > k + 1 {
        lemma_move_cut(f, x, k, root, (n - 1) as nat);
    }
}

// -- Updates --

/// The columns of a group's row that can change after it was created.
pub struct Columns {
    pub parent: Option<Uuid>,
    pub name: Seq<char>,
    pub metadata: Option<serde_json::Value>,
}

/// A row after an update: its parent is as it was.
pub open spec fn updated_columns(row: Columns, plan: UpdateView) -> Columns {
    Columns { parent: row.parent, name: plan.name, metadata: plan.metadata }
}

/// A row after a move: its name and metadata are as they were.
pub open spec fn moved_columns(row: Columns, plan: MovePlan) -> Columns {
    Columns { parent: plan.new_parent_id, name: row.name, metadata: row.metadata }
}

/// An update and a move of one group write different columns: in either order
/// they leave the same row, and neither undoes the other.
pub proof fn update_and_move_commute(row: Columns, update: UpdateView, mv: MovePlan)
    ensures
        moved_columns(updated_columns(row, update), mv) == updated_columns(
            moved_columns(row, mv),
            update,
        ),
{
}

// -- What is allowed is carried out --

/// A move under a parent that keeps the rules is carried out. Where the caller
/// may see the group, both groups exist in one tenant, the parent does not stand
/// in the group's subtree and has a type that the group's type allows, every
/// group of the subtree would stand at a depth below the limit, and the parent
/// has fewer children than the limit, then the move, having read what the forest
/// holds, ends in a plan for this group and this parent. Where one of these does
/// not hold, it does not.
pub proof fn move_that_keeps_the_rules_is_carried_out(
    f: Forest,
    types: Map<Seq<char>, TypeRule>,
    profile: QueryProfile,
    depth: Map<Uuid, nat>,
    group_id: Uuid,
    parent_id: Uuid,
    facts: MoveFacts,
)
    requires
        is_sound_with(f, types, profile, depth),
        move_facts_hold(f, types, group_id, Some(parent_id), facts),
        facts.visible is Some,
        facts.group matches Some(Some(_)),
        facts.parent matches Some(Some(_)),
        facts.type_path is Some,
        facts.group_type matches Some(Some(_)),
        facts.is_descendant is Some,
        facts.parent_type_path is Some,
        facts.parent_depth is Some,
        facts.subtree is Some,
        facts.sibling_count is Some,
    ensures
        crate::group_service::move_step(group_id, Some(parent_id), profile, facts)
            == crate::group_service::Decision::<
            crate::group_service::MoveNeed,
            MovePlan,
        >::Commit(MovePlan { group_id, new_parent_id: Some(parent_id) }) <==> {
            &&& facts.visible == Some(true)
            &&& f.groups[parent_id].tenant == f.groups[group_id].tenant
            &&& !is_below(f, group_id, parent_id)
            &&& types[f.groups[group_id].type_path].parents.contains(
                f.groups[parent_id].type_path,
            )
            &&& profile.max_depth matches Some(max) ==> forall|x: Uuid| #[trigger]
                is_below(f, group_id, x) ==> depth[x] - depth[group_id] + depth[parent_id] + 1 < max
            &&& profile.max_width matches Some(max) ==> children(f, parent_id).len() < max
        },
{
    let list = (facts.subtree->0)@;
    let d = facts.parent_depth->0;
    let t = facts.group_type->0->0;
    lemma_depth(f, types, profile, depth, parent_id, d as int);
    assert forall|i: int| 0 <= i < list.len() implies (#[trigger] list[i]).1 >= 1 by {
        assert(is_descendant_at(f, group_id, list[i].0, list[i].1 as int));
    }
    crate::group_service::move_under_a_parent_is_carried_out_where_the_rules_allow(
        group_id,
        parent_id,
        profile,
        facts,
    );
    crate::text::lemma_texts_contains(t.allowed_parent_types@, (facts.parent_type_path->0)@);
    assert(crate::group_service::allows_parent(t, f.groups[parent_id].type_path)
        <==> types[f.groups[group_id].type_path].parents.contains(f.groups[parent_id].type_path));
    if let Some(max) = profile.max_depth {
        lemma_depths_in_subtree(f, types, profile, depth, group_id, parent_id, list, d, max);
    }
}

/// The depths that a listed subtree would have under a parent.
proof fn lemma_depths_in_subtree(
    f: Forest,
    types: Map<Seq<char>, TypeRule>,
    profile: QueryProfile,
    depth: Map<Uuid, nat>,
    group_id: Uuid,
    parent_id: Uuid,
    list: Seq<(Uuid, i32)>,
    d: i32,
    max: u32,
)
    requires
        is_sound_with(f, types, profile, depth),
        f.groups.contains_key(group_id),
        lists_descendants(f, group_id, list),
        d == depth[parent_id],
    ensures
        crate::group_service::fits_below(d, list, max) <==> forall|x: Uuid| #[trigger]
            is_below(f, group_id, x) ==> depth[x] - depth[group_id] + depth[parent_id] + 1 < max,
{
    assert(ancestor(f, group_id, 0) == Some(group_id));
    assert(is_below(f, group_id, group_id));
    if crate::group_service::fits_below(d, list, max) {
        assert forall|x: Uuid| #[trigger] is_below(f, group_id, x) implies depth[x]
            - depth[group_id] + depth[parent_id] + 1 < max by {
            let n = choose|n: nat| #[trigger] ancestor(f, x, n) == Some(group_id);
            if !f.groups.contains_key(x) {
                lemma_no_ancestor(f, x, n);
            }
            lemma_ancestor_depth(f, types, profile, depth, x, n);
            if n >= 1 {
                let i = choose|i: int|
                    0 <= i < list.len() && (#[trigger] list[i]).0 == x && list[i].1 == n;
                assert(d + 1 + list[i].1 < max);
            }
        }
    }
    if forall|x: Uuid| #[trigger]
        is_below(f, group_id, x) ==> depth[x] - depth[group_id] + depth[parent_id] + 1 < max {
        assert forall|i: int| 0 <= i < list.len() implies d + 1 + (#[trigger] list[i]).1 < max by {
            let x = list[i].0;
            let n = list[i].1 as nat;
            assert(is_descendant_at(f, group_id, x, list[i].1 as int));
            if !f.groups.contains_key(x) {
                lemma_no_ancestor(f, x, n);
            }
            lemma_ancestor_depth(f, types, profile, depth, x, n);
            assert(is_below(f, group_id, x));
        }
    }
}

/// A limit on the depth is reported of a move only where it would be broken:
/// some group at or below the moved one would stand at the limit or beyond it,
/// unless the new parent has as many children as the other limit allows.
pub proof fn limit_is_reported_where_it_is_reached(
    f: Forest,
    types: Map<Seq<char>, TypeRule>,
    profile: QueryProfile,
    depth: Map<Uuid, nat>,
    group_id: Uuid,
    parent_id: Uuid,
    facts: MoveFacts,
    e: crate::error::ErrorView,
)
    requires
        is_sound_with(f, types, profile, depth),
        move_facts_hold(f, types, group_id, Some(parent_id), facts),
        crate::group_service::move_step(group_id, Some(parent_id), profile, facts)
            == crate::group_service::Decision::<
            crate::group_service::MoveNeed,
            MovePlan,
        >::Reject(e),
        e is LimitViolation,
    ensures
        (profile.max_depth matches Some(max) && exists|x: Uuid| #[trigger]
            is_below(f, group_id, x) && depth[x] - depth[group_id] + depth[parent_id] + 1 >= max)
            || (profile.max_width matches Some(max) && children(f, parent_id).len() >= max),
{
    if let Some(list) = facts.subtree {
        assert forall|i: int| 0 <= i < list@.len() implies (#[trigger] list@[i]).1 >= 1 by {
            assert(is_descendant_at(f, group_id, list@[i].0, list@[i].1 as int));
        }
    }
    crate::group_service::refused_move_has_its_cause(
        group_id,
        Some(parent_id),
        profile,
        facts,
        e,
    );
    if profile.max_depth is Some && facts.parent_depth is Some && facts.subtree is Some {
        lemma_depth(f, types, profile, depth, parent_id, facts.parent_depth->0 as int);
        lemma_depths_in_subtree(
            f,
            types,
            profile,
            depth,
            group_id,
            parent_id,
            (facts.subtree->0)@,
            facts.parent_depth->0,
            profile.max_depth->0,
        );
    }
}

/// A move to the root that keeps the rules is carried out: where the caller may
/// see the group, its type can be a root, no other root is a tenant of its own
/// where the group is one, and its tenant has fewer other roots than the limit.
/// Where one of these does not hold, it is not.
pub proof fn move_to_the_root_that_keeps_the_rules_is_carried_out(
    f: Forest,
    types: Map<Seq<char>, TypeRule>,
    profile: QueryProfile,
    group_id: Uuid,
    facts: MoveFacts,
)
    requires
        is_sound(f, types, profile),
        move_facts_hold(f, types, group_id, None, facts),
        facts.visible is Some,
        facts.group matches Some(Some(_)),
        facts.type_path is Some,
        facts.group_type matches Some(Some(_)),
        facts.tenant_root is Some,
        facts.root_siblings is Some,
    ensures
        crate::group_service::move_step(group_id, None, profile, facts)
            == crate::group_service::Decision::<
            crate::group_service::MoveNeed,
            MovePlan,
        >::Commit(MovePlan { group_id, new_parent_id: None }) <==> {
            &&& facts.visible == Some(true)
            &&& types[f.groups[group_id].type_path].can_be_root
            &&& is_tenant(f, group_id) ==> forall|r: Uuid| #[trigger]
                f.groups.contains_key(r) && f.groups[r].parent is None && is_tenant(f, r) ==> r
                    == group_id
            &&& profile.max_width matches Some(max) ==> other_roots(
                f,
                f.groups[group_id].tenant,
                group_id,
            ).len() < max
        },
{
    let depth = choose|depth: Map<Uuid, nat>| is_sound_with(f, types, profile, depth);
    assert(has_one_tenant_root(f));
    crate::group_service::move_to_the_root_is_carried_out_where_the_rules_allow(
        group_id,
        profile,
        facts,
    );
    if let Some(r) = facts.tenant_root->0 {
        assert(f.groups.contains_key(r));
    }
}

/// A create under a parent that keeps the rules is carried out: where a tenant
/// identifier is not retired, the group's type allows the parent's, the parent
/// belongs to the tenant of the command unless the group is a tenant of its own,
/// the group would stand at a depth below the limit, and the parent has fewer
/// children than the limit. Where one of these does not hold, it is not.
pub proof fn create_that_keeps_the_rules_is_carried_out(
    f: Forest,
    types: Map<Seq<char>, TypeRule>,
    profile: QueryProfile,
    depth: Map<Uuid, nat>,
    cmd: CommandView,
    group_id: Uuid,
    parent_id: Uuid,
    facts: CreateFacts,
)
    requires
        is_sound_with(f, types, profile, depth),
        create_facts_hold(f, types, cmd, group_id, facts),
        cmd.parent_id == Some(parent_id),
        facts.group_type matches Some(Some(_)),
        facts.retired is Some,
        facts.parent matches Some(Some(_)),
        facts.parent_type_path is Some,
        facts.parent_depth is Some,
        facts.sibling_count is Some,
    ensures
        crate::group_service::create_step(cmd, group_id, profile, facts) is Commit <==> {
            &&& crate::validation::is_tenant_code(cmd.code) ==> !f.retired.contains(group_id)
            &&& types[cmd.code].parents.contains(f.groups[parent_id].type_path)
            &&& crate::validation::is_tenant_code(cmd.code) || f.groups[parent_id].tenant
                == cmd.tenant_id
            &&& profile.max_depth matches Some(max) ==> depth[parent_id] + 1 < max
            &&& profile.max_width matches Some(max) ==> children(f, parent_id).len() < max
        },
{
    let found = facts.group_type->0->0;
    lemma_depth(f, types, profile, depth, parent_id, facts.parent_depth->0 as int);
    crate::group_service::create_under_a_parent_inserts_where_the_rules_allow(
        cmd,
        group_id,
        profile,
        facts,
        parent_id,
    );
    crate::text::lemma_texts_contains(found.1.allowed_parent_types@, (facts.parent_type_path->0)@);
    assert(crate::group_service::allows_parent(found.1, f.groups[parent_id].type_path)
        <==> types[cmd.code].parents.contains(f.groups[parent_id].type_path));
}

/// A create of a root that keeps the rules is carried out: where the type can be
/// a root and, for a group that is a tenant of its own, its identifier is not
/// retired and no root is a tenant yet. Where one of these does not hold, it is
/// not.
pub proof fn create_of_a_root_that_keeps_the_rules_is_carried_out(
    f: Forest,
    types: Map<Seq<char>, TypeRule>,
    profile: QueryProfile,
    cmd: CommandView,
    group_id: Uuid,
    facts: CreateFacts,
)
    requires
        create_facts_hold(f, types, cmd, group_id, facts),
        cmd.parent_id is None,
        facts.group_type matches Some(Some(_)),
        facts.retired is Some,
        facts.tenant_root is Some,
    ensures
        crate::group_service::create_step(cmd, group_id, profile, facts) is Commit <==> {
            &&& types[cmd.code].can_be_root
            &&& crate::validation::is_tenant_code(cmd.code) ==> {
                &&& !f.retired.contains(group_id)
                &&& forall|r: Uuid| #[trigger]
                    f.groups.contains_key(r) && f.groups[r].parent is None ==> !is_tenant(f, r)
            }
        },
{
    crate::group_service::create_of_a_root_inserts_where_the_rules_allow(
        cmd,
        group_id,
        profile,
        facts,
    );
    if let Some(r) = facts.tenant_root->0 {
        assert(f.groups.contains_key(r));
    }
}

/// A new group stands where it was asked for: under its parent, with its type
/// and its tenant, and every other group stands where it stood.
pub proof fn create_places_the_group_as_asked(
    f: Forest,
    profile: QueryProfile,
    cmd: CommandView,
    group_id: Uuid,
    facts: CreateFacts,
    plan: InsertView,
    x: Uuid,
)
    requires
        crate::group_service::create_step(cmd, group_id, profile, facts)
            == crate::group_service::Decision::<
            crate::group_service::CreateNeed,
            InsertView,
        >::Commit(plan),
    ensures
        inserted(f, cmd.code, plan).groups[group_id].parent == cmd.parent_id,
        inserted(f, cmd.code, plan).groups[group_id].type_path == cmd.code,
        inserted(f, cmd.code, plan).groups[group_id].tenant == if crate::validation::is_tenant_code(
            cmd.code,
        ) {
            group_id
        } else {
            cmd.tenant_id
        },
        inserted(f, cmd.code, plan).groups.contains_key(group_id),
        x != group_id ==> (inserted(f, cmd.code, plan).groups.contains_key(x)
            <==> f.groups.contains_key(x)) && inserted(f, cmd.code, plan).groups[x] == f.groups[x],
{
}

/// A moved group stands where it was asked to, with the type and tenant that it
/// had, and every other group stands where it stood.
pub proof fn move_places_the_group_as_asked(
    f: Forest,
    profile: QueryProfile,
    group_id: Uuid,
    new_parent_id: Option<Uuid>,
    facts: MoveFacts,
    plan: MovePlan,
    x: Uuid,
)
    requires
        crate::group_service::move_step(group_id, new_parent_id, profile, facts)
            == crate::group_service::Decision::<
            crate::group_service::MoveNeed,
            MovePlan,
        >::Commit(plan),
        f.groups.contains_key(group_id),
    ensures
        moved(f, plan).groups[group_id].parent == new_parent_id,
        moved(f, plan).groups[group_id].type_path == f.groups[group_id].type_path,
        moved(f, plan).groups[group_id].tenant == f.groups[group_id].tenant,
        moved(f, plan).groups.contains_key(x) <==> f.groups.contains_key(x),
        x != group_id ==> moved(f, plan).groups[x] == f.groups[x],
{
}

// -- Deletes and memberships --

/// The memberships that are left after a delete: those of its groups are gone
/// where the plan says so.
pub open spec fn memberships_after(
    memberships: Set<crate::membership_service::KeyView>,
    plan: DeleteView,
) -> Set<crate::membership_service::KeyView> {
    if plan.memberships {
        memberships.filter(
            |m: crate::membership_service::KeyView| !plan.groups.contains(m.group_id),
        )
    } else {
        memberships
    }
}

/// No delete leaves a membership of a group that it takes, and none takes a
/// membership of a group that stays. What is read is how many members the group
/// has.
pub proof fn delete_leaves_no_membership_behind(
    memberships: Set<crate::membership_service::KeyView>,
    group_id: Uuid,
    force: bool,
    facts: DeleteFacts,
    plan: DeleteView,
    m: crate::membership_service::KeyView,
)
    requires
        memberships.finite(),
        facts.membership_count matches Some(count) ==> count == memberships.filter(
            |k: crate::membership_service::KeyView| k.group_id == group_id,
        ).len(),
        crate::group_service::is_delete_step(
            crate::group_service::Decision::<
                crate::group_service::DeleteNeed,
                DeleteView,
            >::Commit(plan),
            group_id,
            force,
            facts,
        ),
    ensures
        memberships_after(memberships, plan).contains(m) <==> memberships.contains(m)
            && !plan.groups.contains(m.group_id),
        force ==> plan.memberships,
{
    if !force {
        let own = memberships.filter(
            |k: crate::membership_service::KeyView| k.group_id == group_id,
        );
        let entries = crate::group_service::whole_subtree(group_id, Seq::empty());
        if plan.groups.contains(m.group_id) {
            let i = choose|i: int| 0 <= i < plan.groups.len() && plan.groups[i] == m.group_id;
            assert(entries[i].0 == m.group_id);
            if memberships.contains(m) {
                assert(own.contains(m));
                assert(own.len() == 0);
                assert(own =~= Set::empty());
            }
        }
    }
}

/// No parent goes before its children: of two groups that a delete takes, one
/// the parent of the other, the child stands in an earlier level.
pub proof fn children_go_before_their_parents(
    f: Forest,
    types: Map<Seq<char>, TypeRule>,
    profile: QueryProfile,
    group_id: Uuid,
    force: bool,
    facts: DeleteFacts,
    plan: DeleteView,
    x: Uuid,
    p: Uuid,
    a: int,
    b: int,
)
    requires
        is_sound(f, types, profile),
        delete_facts_hold(f, group_id, facts),
        crate::group_service::is_delete_step(
            crate::group_service::Decision::<
                crate::group_service::DeleteNeed,
                DeleteView,
            >::Commit(plan),
            group_id,
            force,
            facts,
        ),
        f.groups.contains_key(x),
        f.groups[x].parent == Some(p),
        0 <= a < plan.levels.len(),
        0 <= b < plan.levels.len(),
        plan.levels[a].1.contains(x),
        plan.levels[b].1.contains(p),
    ensures
        a < b,
{
    let depth = choose|depth: Map<Uuid, nat>| is_sound_with(f, types, profile, depth);
    let list = if force {
        (facts.descendants->0)@
    } else {
        Seq::empty()
    };
    let entries = crate::group_service::whole_subtree(group_id, list);
    assert(is_sound_at(f, types, profile, depth, x));
    lemma_level_is_distance(f, types, profile, depth, group_id, list, plan.levels[a].0, x);
    lemma_level_is_distance(f, types, profile, depth, group_id, list, plan.levels[b].0, p);
    if b <= a {
        if b < a {
            assert(plan.levels[b].0 > plan.levels[a].0);
        }
    }
}

/// A group of a level stands as far below the deleted group as the level says.
proof fn lemma_level_is_distance(
    f: Forest,
    types: Map<Seq<char>, TypeRule>,
    profile: QueryProfile,
    depth: Map<Uuid, nat>,
    group_id: Uuid,
    list: Seq<(Uuid, i32)>,
    level: i32,
    x: Uuid,
)
    requires
        is_sound_with(f, types, profile, depth),
        f.groups.contains_key(x),
        list.len() > 0 ==> lists_descendants(f, group_id, list),
        crate::group_service::ids_at(
            crate::group_service::whole_subtree(group_id, list),
            level,
        ).contains(x),
    ensures
        depth[x] == depth[group_id] + level,
{
    let entries = crate::group_service::whole_subtree(group_id, list);
    crate::group_service::lemma_ids_at(entries, level, x);
    let i = choose|i: int|
        0 <= i < entries.len() && (#[trigger] entries[i]).0 == x && entries[i].1 == level;
    if i > 0 {
        assert(entries[i] == list[i - 1]);
        assert(is_descendant_at(f, group_id, list[i - 1].0, list[i - 1].1 as int));
        lemma_ancestor_depth(f, types, profile, depth, x, level as nat);
    }
}

/// A group that stays after a delete stands where it stood, and those that go
/// are the ones of the plan.
pub proof fn delete_leaves_the_others_in_place(f: Forest, plan: DeleteView, x: Uuid)
    ensures
        deleted(f, plan).groups.contains_key(x) <==> f.groups.contains_key(x)
            && !plan.groups.contains(x),
        deleted(f, plan).groups.contains_key(x) ==> deleted(f, plan).groups[x] == f.groups[x],
        deleted(f, plan).retired.contains(x) <==> f.retired.contains(x) || (f.groups.contains_key(x)
            && plan.groups.contains(x) && is_tenant(f, x)),
{
}

} // verus!
