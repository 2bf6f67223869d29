//! Stored types: from rows to types, and from type paths to the identifiers
//! under which they are stored.

use std::collections::{HashMap, HashSet};

use vstd::prelude::*;
use vstd::string::*;

use crate::decimal::DecimalLiteral;
use crate::error::DomainError;
use crate::ids::Uuid;
use crate::json::{json_as_bool, json_member, json_object, json_object_members};
use crate::models::ResourceGroupType;
use crate::odata::{FilterField, FilterNode, FilterOp, ODataValue};
use crate::rows::{AllowedTypeRow, DefaultOrder, GroupRow, PageLimits, TypeRow};
use crate::text::{
    concat2, concat3, decimal_i64, join_texts, lists_text, sort_texts, text_eq, text_starts_with,
};

verus! {

/// The page sizes of a list of types.
pub fn type_page_limits() -> (r: PageLimits)
    ensures
        r.default == 25,
        r.max == 200,
{
    PageLimits { default: 25, max: 200 }
}

/// The order of a list of types: by their codes, the last one first.
pub fn type_default_order() -> (r: DefaultOrder)
    ensures
        r.field@ == "code"@,
        r.descending,
{
    DefaultOrder { field: "code", descending: true }
}

/// What the store of types makes of the rows that it reads.
#[derive(Clone, Copy, Debug)]
pub struct TypeRepository;

// -- Type paths in a filter --

/// What a filter expression holds.
pub enum NodeView<F> {
    Binary { field: F, op: FilterOp, value: crate::odata::ValueView },
    InList { field: F, values: Seq<crate::odata::ValueView> },
    Composite { op: FilterOp, children: Seq<NodeView<F>> },
    Not(Box<NodeView<F>>),
}

/// What a filter expression holds.
pub open spec fn node_view<F>(node: FilterNode<F>) -> NodeView<F>
    decreases node,
{
    match node {
        FilterNode::Binary { field, op, value } => NodeView::Binary { field, op, value: value@ },
        FilterNode::InList { field, values } => NodeView::InList {
            field,
            values: values@.map_values(|v: ODataValue| v@),
        },
        FilterNode::Composite { op, children } => NodeView::Composite {
            op,
            children: node_views(children@),
        },
        FilterNode::Not(inner) => NodeView::Not(Box::new(node_view(*inner))),
    }
}

/// What a list of filter expressions holds.
pub open spec fn node_views<F>(nodes: Seq<FilterNode<F>>) -> Seq<NodeView<F>>
    decreases nodes,
{
    if nodes.len() == 0 {
        Seq::empty()
    } else {
        node_views(nodes.drop_last()).push(node_view(nodes.last()))
    }
}

/// The strings among a list of literals.
pub open spec fn strings_among(values: Seq<crate::odata::ValueView>) -> Seq<Seq<char>>
    decreases values.len(),
{
    if values.len() == 0 {
        Seq::empty()
    } else {
        match values.last() {
            crate::odata::ValueView::String(s) => strings_among(values.drop_last()).push(s),
            _ => strings_among(values.drop_last()),
        }
    }
}

/// The type paths that an expression compares `type_field` with, from left to
/// right.
pub open spec fn paths_in<F>(node: NodeView<F>, type_field: F) -> Seq<Seq<char>>
    decreases node,
{
    match node {
        NodeView::Binary { field, value, .. } => match value {
            crate::odata::ValueView::String(path) => if field == type_field {
                seq![path]
            } else {
                Seq::empty()
            },
            _ => Seq::empty(),
        },
        NodeView::InList { field, values } => if field == type_field {
            strings_among(values)
        } else {
            Seq::empty()
        },
        NodeView::Composite { children, .. } => paths_among(children, type_field),
        NodeView::Not(inner) => paths_in(*inner, type_field),
    }
}

/// The type paths that a list of expressions compares `type_field` with.
pub open spec fn paths_among<F>(nodes: Seq<NodeView<F>>, type_field: F) -> Seq<Seq<char>>
    decreases nodes,
{
    if nodes.len() == 0 {
        Seq::empty()
    } else {
        paths_among(nodes.drop_last(), type_field) + paths_in(nodes.last(), type_field)
    }
}

/// The identifier under which the type with this path is stored.
pub open spec fn id_of(rows: Seq<TypeRow>, path: Seq<char>) -> Option<i16>
    decreases rows.len(),
{
    if rows.len() == 0 {
        None
    } else if rows.last().schema_id@ == path {
        Some(rows.last().id)
    } else {
        id_of(rows.drop_last(), path)
    }
}

/// Whether every path of a list is that of a stored type.
pub open spec fn all_known(paths: Seq<Seq<char>>, rows: Seq<TypeRow>) -> bool {
    forall|i: int| 0 <= i < paths.len() ==> id_of(rows, #[trigger] paths[i]) is Some
}

/// The literal of a stored identifier.
pub open spec fn id_literal(id: i16) -> crate::odata::ValueView {
    crate::odata::ValueView::Number(
        id < 0,
        crate::decimal::digits_seq(if id < 0 { -id } else { id as int } as nat),
        0,
    )
}

/// A literal with a type path replaced by the stored identifier.
pub open spec fn with_id(value: crate::odata::ValueView, rows: Seq<TypeRow>) -> crate::odata::ValueView {
    match value {
        crate::odata::ValueView::String(path) => id_literal(id_of(rows, path)->0),
        other => other,
    }
}

/// An expression with every type path that `type_field` is compared with
/// replaced by the stored identifier, and nothing else changed.
pub open spec fn with_ids<F>(node: NodeView<F>, type_field: F, rows: Seq<TypeRow>) -> NodeView<F>
    decreases node,
{
    match node {
        NodeView::Binary { field, op, value } => NodeView::Binary {
            field,
            op,
            value: if field == type_field {
                with_id(value, rows)
            } else {
                value
            },
        },
        NodeView::InList { field, values } => NodeView::InList {
            field,
            values: if field == type_field {
                values.map_values(|v: crate::odata::ValueView| with_id(v, rows))
            } else {
                values
            },
        },
        NodeView::Composite { op, children } => NodeView::Composite {
            op,
            children: all_with_ids(children, type_field, rows),
        },
        NodeView::Not(inner) => NodeView::Not(Box::new(with_ids(*inner, type_field, rows))),
    }
}

/// A list of expressions with type paths replaced.
pub open spec fn all_with_ids<F>(
    nodes: Seq<NodeView<F>>,
    type_field: F,
    rows: Seq<TypeRow>,
) -> Seq<NodeView<F>>
    decreases nodes,
{
    if nodes.len() == 0 {
        Seq::empty()
    } else {
        all_with_ids(nodes.drop_last(), type_field, rows).push(
            with_ids(nodes.last(), type_field, rows),
        )
    }
}

/// The elements of a list, each where it first occurs.
pub open spec fn firsts(paths: Seq<Seq<char>>) -> Seq<Seq<char>>
    decreases paths.len(),
{
    if paths.len() == 0 {
        Seq::empty()
    } else if firsts(paths.drop_last()).contains(paths.last()) {
        firsts(paths.drop_last())
    } else {
        firsts(paths.drop_last()).push(paths.last())
    }
}

/// The first path of a list that is no stored type's.
pub open spec fn first_unknown(paths: Seq<Seq<char>>, rows: Seq<TypeRow>) -> Option<Seq<char>>
    decreases paths.len(),
{
    if paths.len() == 0 {
        None
    } else {
        match first_unknown(paths.drop_last(), rows) {
            Some(p) => Some(p),
            None => if id_of(rows, paths.last()) is None {
                Some(paths.last())
            } else {
                None
            },
        }
    }
}

impl TypeRepository {
    /// Collects the type paths that an expression compares `type_field` with.
    pub fn collect_type_filter_paths<F: FilterField>(
        node: &FilterNode<F>,
        type_field: F,
        out: &mut Vec<String>,
    )
        ensures
            crate::text::texts(final(out)@) == crate::text::texts(old(out)@) + paths_in(
                node_view(*node),
                type_field,
            ),
        decreases node,
    {
        match node {
            FilterNode::Binary { field, value, .. } => {
                if let ODataValue::String(path) = value {
                    if field.same(&type_field) {
                        out.push(path.clone());
                    }
                }
                proof {
                    assert(crate::text::texts(out@) =~= crate::text::texts(old(out)@) + paths_in(
                        node_view(*node),
                        type_field,
                    ));
                }
            },
            FilterNode::InList { field, values } => {
                if field.same(&type_field) {
                    Self::collect_strings(values, out);
                } else {
                    proof {
                        assert(crate::text::texts(out@) =~= crate::text::texts(old(out)@)
                            + paths_in(node_view(*node), type_field));
                    }
                }
            },
            FilterNode::Composite { children, .. } => {
                Self::collect_from_all(children, type_field, out);
            },
            FilterNode::Not(inner) => {
                Self::collect_type_filter_paths(inner, type_field, out);
            },
        }
    }

    fn collect_from_all<F: FilterField>(
        nodes: &Vec<FilterNode<F>>,
        type_field: F,
        out: &mut Vec<String>,
    )
        ensures
            crate::text::texts(final(out)@) == crate::text::texts(old(out)@) + paths_among(
                node_views(nodes@),
                type_field,
            ),
        decreases nodes,
    {
        let ghost start = crate::text::texts(out@);
        let mut i: usize = 0;
        proof {
            assert(start + paths_among(node_views(nodes@.take(0)), type_field) =~= start);
        }
        while i < nodes.len()
            invariant
                i <= nodes.len(),
                crate::text::texts(out@) == start + paths_among(
                    node_views(nodes@.take(i as int)),
                    type_field,
                ),
            decreases nodes.len() - i,
        {
            Self::collect_type_filter_paths(&nodes[i], type_field, out);
            proof {
                lemma_views_take(nodes@, i as int);
                assert(crate::text::texts(out@) =~= start + paths_among(
                    node_views(nodes@.take(i as int + 1)),
                    type_field,
                ));
            }
            i = i + 1;
        }
        proof {
            assert(nodes@.take(nodes@.len() as int) =~= nodes@);
        }
    }

    fn collect_strings(values: &Vec<ODataValue>, out: &mut Vec<String>)
        ensures
            crate::text::texts(final(out)@) == crate::text::texts(old(out)@) + strings_among(
                values@.map_values(|v: ODataValue| v@),
            ),
    {
        let ghost start = crate::text::texts(out@);
        let ghost views = values@.map_values(|v: ODataValue| v@);
        let mut i: usize = 0;
        proof {
            assert(start + strings_among(views.take(0)) =~= start);
        }
        while i < values.len()
            invariant
                i <= values.len(),
                views == values@.map_values(|v: ODataValue| v@),
                crate::text::texts(out@) == start + strings_among(views.take(i as int)),
            decreases values.len() - i,
        {
            proof {
                assert(views.take(i as int + 1).drop_last() =~= views.take(i as int));
                assert(views.take(i as int + 1).last() == values@[i as int]@);
            }
            let ghost before = crate::text::texts(out@);
            if let ODataValue::String(path) = &values[i] {
                out.push(path.clone());
                proof {
                    assert(crate::text::texts(out@) =~= before.push(path@));
                }
            }
            proof {
                assert(crate::text::texts(out@) =~= start + strings_among(views.take(i as int + 1)));
            }
            i = i + 1;
        }
        proof {
            assert(views.take(views.len() as int) =~= views);
        }
    }

    /// The distinct paths of a list, in the order in which they first occur:
    /// what the store is asked for.
    pub fn unique_paths(paths: &Vec<String>) -> (r: Vec<String>)
        ensures
            crate::text::texts(r@) == firsts(crate::text::texts(paths@)),
    {
        let ghost all = crate::text::texts(paths@);
        let mut out: Vec<String> = Vec::new();
        let mut i: usize = 0;
        proof {
            assert(crate::text::texts(out@) =~= firsts(all.take(0)));
        }
        while i < paths.len()
            invariant
                i <= paths.len(),
                all == crate::text::texts(paths@),
                crate::text::texts(out@) == firsts(all.take(i as int)),
            decreases paths.len() - i,
        {
            proof {
                assert(all.take(i as int + 1).drop_last() =~= all.take(i as int));
            }
            let ghost before = crate::text::texts(out@);
            if !lists_text(&out, paths[i].as_str()) {
                out.push(paths[i].clone());
                proof {
                    assert(crate::text::texts(out@) =~= before.push(all[i as int]));
                }
            }
            i = i + 1;
        }
        proof {
            assert(all.take(all.len() as int) =~= all);
        }
        out
    }

    /// Checks that every path is that of a stored type; the first that is not
    /// is named in the refusal.
    pub fn resolve_paths_for_filter(paths: &Vec<String>, rows: &Vec<TypeRow>) -> (r: Result<
        (),
        DomainError,
    >)
        ensures
            match first_unknown(crate::text::texts(paths@), rows@) {
                None => r is Ok && all_known(crate::text::texts(paths@), rows@),
                Some(path) => r matches Err(e) && e@ == crate::error::invalid(
                    "Unknown type in filter: "@ + path,
                ),
            },
    {
        let ghost all = crate::text::texts(paths@);
        let mut i: usize = 0;
        while i < paths.len()
            invariant
                i <= paths.len(),
                all == crate::text::texts(paths@),
                first_unknown(all.take(i as int), rows@) is None,
                forall|k: int| 0 <= k < i ==> id_of(rows@, #[trigger] all[k]) is Some,
            decreases paths.len() - i,
        {
            proof {
                assert(all.take(i as int + 1).drop_last() =~= all.take(i as int));
            }
            if stored_id(rows, paths[i].as_str()).is_none() {
                proof {
                    lemma_first_unknown(all, rows@, i as int + 1);
                }
                return Err(
                    DomainError::validation(
                        concat2("Unknown type in filter: ", paths[i].as_str()),
                    ),
                );
            }
            i = i + 1;
        }
        proof {
            assert(all.take(all.len() as int) =~= all);
        }
        Ok(())
    }

    /// Replaces the type paths that `type_field` is compared with by the
    /// identifiers under which the types are stored.
    pub fn substitute_type_filter_ids<F: FilterField>(
        node: &FilterNode<F>,
        type_field: F,
        rows: &Vec<TypeRow>,
    ) -> (r: FilterNode<F>)
        requires
            all_known(paths_in(node_view(*node), type_field), rows@),
        ensures
            node_view(r) == with_ids(node_view(*node), type_field, rows@),
        decreases node,
    {
        match node {
            FilterNode::Binary { field, op, value } => {
                let new_value: ODataValue = if field.same(&type_field) {
                    proof {
                        if let ODataValue::String(path) = value {
                            assert(paths_in(node_view(*node), type_field)[0] == path@);
                        }
                    }
                    Self::substitute_value(value, rows)
                } else {
                    value.clone()
                };
                FilterNode::Binary { field: *field, op: *op, value: new_value }
            },
            FilterNode::InList { field, values } => {
                let same: bool = field.same(&type_field);
                let ghost views = values@.map_values(|v: ODataValue| v@);
                let mut out: Vec<ODataValue> = Vec::new();
                let mut i: usize = 0;
                while i < values.len()
                    invariant
                        i <= values.len(),
                        out@.len() == i,
                        views == values@.map_values(|v: ODataValue| v@),
                        same ==> all_known(strings_among(views), rows@),
                        forall|k: int|
                            0 <= k < i ==> (#[trigger] out@[k])@ == if same {
                                with_id(values@[k]@, rows@)
                            } else {
                                values@[k]@
                            },
                    decreases values.len() - i,
                {
                    let v: ODataValue = if same {
                        proof {
                            if let ODataValue::String(path) = &values@[i as int] {
                                lemma_string_among(views, i as int);
                            }
                        }
                        Self::substitute_value(&values[i], rows)
                    } else {
                        values[i].clone()
                    };
                    out.push(v);
                    i = i + 1;
                }
                let r = FilterNode::InList { field: *field, values: out };
                proof {
                    let want = if same {
                        views.map_values(|v: crate::odata::ValueView| with_id(v, rows@))
                    } else {
                        views
                    };
                    assert(out@.map_values(|v: ODataValue| v@) =~= want);
                }
                r
            },
            FilterNode::Composite { op, children } => FilterNode::Composite {
                op: *op,
                children: Self::substitute_all(children, type_field, rows),
            },
            FilterNode::Not(inner) => FilterNode::Not(
                Box::new(Self::substitute_type_filter_ids(inner, type_field, rows)),
            ),
        }
    }

    fn substitute_all<F: FilterField>(
        nodes: &Vec<FilterNode<F>>,
        type_field: F,
        rows: &Vec<TypeRow>,
    ) -> (r: Vec<FilterNode<F>>)
        requires
            all_known(paths_among(node_views(nodes@), type_field), rows@),
        ensures
            node_views(r@) == all_with_ids(node_views(nodes@), type_field, rows@),
        decreases nodes,
    {
        let mut out: Vec<FilterNode<F>> = Vec::new();
        let mut i: usize = 0;
        while i < nodes.len()
            invariant
                i <= nodes.len(),
                all_known(paths_among(node_views(nodes@), type_field), rows@),
                node_views(out@) == all_with_ids(
                    node_views(nodes@.take(i as int)),
                    type_field,
                    rows@,
                ),
            decreases nodes.len() - i,
        {
            proof {
                lemma_paths_among_child(nodes@, type_field, i as int);
                lemma_views_take(nodes@, i as int);
                let all = paths_among(node_views(nodes@), type_field);
                let own = paths_in(node_view(nodes@[i as int]), type_field);
                assert forall|k: int| 0 <= k < own.len() implies id_of(rows@, #[trigger] own[k])
                    is Some by {
                    assert(all.contains(own[k]));
                    let m = choose|m: int| 0 <= m < all.len() && all[m] == own[k];
                    assert(id_of(rows@, all[m]) is Some);
                }
            }
            let child: FilterNode<F> = Self::substitute_type_filter_ids(
                &nodes[i],
                type_field,
                rows,
            );
            let ghost before = out@;
            out.push(child);
            proof {
                assert(out@.drop_last() =~= before);
            }
            i = i + 1;
        }
        proof {
            assert(nodes@.take(nodes@.len() as int) =~= nodes@);
        }
        out
    }

    fn substitute_value(value: &ODataValue, rows: &Vec<TypeRow>) -> (r: ODataValue)
        requires
            value@ matches crate::odata::ValueView::String(path) ==> id_of(rows@, path) is Some,
        ensures
            r@ == with_id(value@, rows@),
    {
        match value {
            ODataValue::String(path) => match stored_id(rows, path.as_str()) {
                Some(id) => ODataValue::Number(DecimalLiteral::from_i16(id)),
                None => value.clone(),
            },
            _ => value.clone(),
        }
    }

    /// Resolves the type paths in a filter, given the stored types among them.
    ///
    /// A filter that names an unknown type is refused with the first such
    /// path; else every path that `type_field` is compared with is replaced by
    /// the stored identifier.
    pub fn resolve_type_filter_node<F: FilterField>(
        node: &FilterNode<F>,
        type_field: F,
        rows: &Vec<TypeRow>,
    ) -> (r: Result<FilterNode<F>, DomainError>)
        ensures
            match first_unknown(firsts(paths_in(node_view(*node), type_field)), rows@) {
                None => r matches Ok(n) && node_view(n) == with_ids(
                    node_view(*node),
                    type_field,
                    rows@,
                ),
                Some(path) => r matches Err(e) && e@ == crate::error::invalid(
                    "Unknown type in filter: "@ + path,
                ),
            },
    {
        let mut paths: Vec<String> = Vec::new();
        Self::collect_type_filter_paths(node, type_field, &mut paths);
        let unique: Vec<String> = Self::unique_paths(&paths);
        let ghost want = paths_in(node_view(*node), type_field);
        proof {
            assert(crate::text::texts(Seq::<String>::empty()) + want =~= want);
        }
        match Self::resolve_paths_for_filter(&unique, rows) {
            Err(e) => Err(e),
            Ok(()) => {
                proof {
                    assert forall|k: int| 0 <= k < want.len() implies id_of(
                        rows@,
                        #[trigger] want[k],
                    ) is Some by {
                        lemma_firsts_contains(want, k);
                        let all = firsts(want);
                        let m = choose|m: int| 0 <= m < all.len() && all[m] == want[k];
                        assert(id_of(rows@, all[m]) is Some);
                    }
                }
                Ok(Self::substitute_type_filter_ids(node, type_field, rows))
            },
        }
    }
}

/// The identifier under which the type with this path is stored.
pub fn stored_id(rows: &Vec<TypeRow>, path: &str) -> (r: Option<i16>)
    ensures
        r == id_of(rows@, path@),
{
    let mut i: usize = rows.len();
    proof {
        assert(rows@.take(rows@.len() as int) =~= rows@);
    }
    while i > 0
        invariant
            i <= rows.len(),
            id_of(rows@, path@) == id_of(rows@.take(i as int), path@),
        decreases i,
    {
        i = i - 1;
        proof {
            assert(rows@.take(i as int + 1).drop_last() =~= rows@.take(i as int));
        }
        if text_eq(rows[i].schema_id.as_str(), path) {
            return Some(rows[i].id);
        }
    }
    None
}

proof fn lemma_views_take<F>(nodes: Seq<FilterNode<F>>, i: int)
    requires
        0 <= i < nodes.len(),
    ensures
        node_views(nodes.take(i + 1)).len() > 0,
        node_views(nodes.take(i + 1)).drop_last() == node_views(nodes.take(i)),
        node_views(nodes.take(i + 1)).last() == node_view(nodes[i]),
{
    assert(nodes.take(i + 1).drop_last() =~= nodes.take(i));
    assert(node_views(nodes.take(i + 1)) == node_views(nodes.take(i)).push(node_view(nodes[i])));
    assert(node_views(nodes.take(i + 1)).drop_last() =~= node_views(nodes.take(i)));
}

/// The paths of one expression are among those of the list that holds it.
proof fn lemma_paths_among_child<F>(nodes: Seq<FilterNode<F>>, type_field: F, i: int)
    requires
        0 <= i < nodes.len(),
    ensures
        forall|k: int|
            0 <= k < paths_in(node_view(nodes[i]), type_field).len() ==> paths_among(
                node_views(nodes),
                type_field,
            ).contains(#[trigger] paths_in(node_view(nodes[i]), type_field)[k]),
    decreases nodes.len(),
{
    let own = paths_in(node_view(nodes[i]), type_field);
    let all = paths_among(node_views(nodes), type_field);
    let head = nodes.drop_last();
    assert(node_views(nodes).drop_last() =~= node_views(head));
    let head_paths = paths_among(node_views(head), type_field);
    assert(all == head_paths + paths_in(node_view(nodes.last()), type_field));
    if i == nodes.len() - 1 {
        assert forall|k: int| 0 <= k < own.len() implies all.contains(#[trigger] own[k]) by {
            assert(all[head_paths.len() + k] == own[k]);
        }
    } else {
        lemma_paths_among_child(head, type_field, i);
        assert forall|k: int| 0 <= k < own.len() implies all.contains(#[trigger] own[k]) by {
            assert(head[i] == nodes[i]);
            assert(head_paths.contains(own[k]));
            let m = choose|m: int| 0 <= m < head_paths.len() && head_paths[m] == own[k];
            assert(all[m] == own[k]);
        }
    }
}

proof fn lemma_string_among(values: Seq<crate::odata::ValueView>, i: int)
    requires
        0 <= i < values.len(),
        values[i] is String,
    ensures
        exists|m: int|
            0 <= m < strings_among(values).len() && #[trigger] strings_among(values)[m]
                == values[i]->String_0,
    decreases values.len(),
{
    let all = strings_among(values);
    let head = strings_among(values.drop_last());
    if i == values.len() - 1 {
        assert(all[head.len() as int] == values[i]->String_0);
    } else {
        lemma_string_among(values.drop_last(), i);
        let m = choose|m: int| 0 <= m < head.len() && head[m] == values[i]->String_0;
        assert(all[m] == head[m]);
    }
}

proof fn lemma_first_unknown(paths: Seq<Seq<char>>, rows: Seq<TypeRow>, k: int)
    requires
        0 <= k <= paths.len(),
        first_unknown(paths.take(k), rows) is Some,
    ensures
        first_unknown(paths, rows) == first_unknown(paths.take(k), rows),
    decreases paths.len(),
{
    if k == paths.len() {
        assert(paths.take(k) =~= paths);
    } else {
        assert(paths.drop_last().take(k) =~= paths.take(k));
        lemma_first_unknown(paths.drop_last(), rows, k);
    }
}

proof fn lemma_firsts_contains(paths: Seq<Seq<char>>, k: int)
    requires
        0 <= k < paths.len(),
    ensures
        firsts(paths).contains(paths[k]),
    decreases paths.len(),
{
    let head = firsts(paths.drop_last());
    if k < paths.len() - 1 {
        lemma_firsts_contains(paths.drop_last(), k);
        let m = choose|m: int| 0 <= m < head.len() && head[m] == paths[k];
        assert(firsts(paths)[m] == paths[k]);
    } else if !head.contains(paths.last()) {
        assert(firsts(paths)[head.len() as int] == paths[k]);
    }
}

// -- From rows to types --

/// The flag that a stored schema holds for a type that can be a root.
pub open spec fn stored_root_flag(stored: Option<serde_json::Value>) -> Option<bool> {
    match stored {
        None => None,
        Some(ms) => if crate::json::json_members(ms).contains_key("__can_be_root"@) {
            crate::json::json_bool(crate::json::json_members(ms)["__can_be_root"@])
        } else {
            None
        },
    }
}

/// The members of an object that are the user's: those whose keys do not begin
/// with two underscores.
pub open spec fn user_members(ms: serde_json::Value) -> Map<Seq<char>, serde_json::Value> {
    crate::json::json_members(ms).restrict(
        Set::new(|k: Seq<char>| !"__"@.is_prefix_of(k)),
    )
}

/// Whether `shown` is the user's part of a stored schema: the schema under
/// `__user_schema` where there is one; else the user's members of an object,
/// or nothing where it has none; else the schema itself.
pub open spec fn is_user_schema(
    shown: Option<serde_json::Value>,
    stored: Option<serde_json::Value>,
) -> bool {
    match stored {
        None => shown is None,
        Some(ms) => if !crate::json::json_is_object(ms) {
            shown == Some(ms)
        } else if crate::json::json_members(ms).contains_key("__user_schema"@) {
            shown == Some(crate::json::json_members(ms)["__user_schema"@])
        } else if user_members(ms) =~= Map::empty() {
            shown is None
        } else {
            &&& shown is Some
            &&& crate::json::json_is_object(shown->0)
            &&& crate::json::json_members(shown->0) == user_members(ms)
        },
    }
}

/// Whether `t` is the type that a row and the codes it allows describe. A type
/// without a stored flag can be a root exactly where it allows no parent.
pub open spec fn is_type_of(
    t: ResourceGroupType,
    row: TypeRow,
    parents: Seq<Seq<char>>,
    members: Seq<Seq<char>>,
) -> bool {
    &&& t.code@ == row.schema_id@
    &&& t.can_be_root == match stored_root_flag(row.metadata_schema) {
        Some(flag) => flag,
        None => parents.len() == 0,
    }
    &&& crate::text::texts(t.allowed_parent_types@) == parents
    &&& crate::text::texts(t.allowed_membership_types@) == members
    &&& is_user_schema(t.metadata_schema, row.metadata_schema)
}

/// The path of the type that is stored under an identifier.
pub open spec fn code_of(rows: Seq<TypeRow>, id: i16) -> Option<Seq<char>>
    decreases rows.len(),
{
    if rows.len() == 0 {
        None
    } else if rows.last().id == id {
        Some(rows.last().schema_id@)
    } else {
        code_of(rows.drop_last(), id)
    }
}

/// The paths that the rows of a junction table allow a type, as far as they
/// are those of stored types.
pub open spec fn allowed_codes(
    links: Seq<AllowedTypeRow>,
    type_id: i16,
    rows: Seq<TypeRow>,
) -> Seq<Seq<char>>
    decreases links.len(),
{
    if links.len() == 0 {
        Seq::empty()
    } else {
        let head = allowed_codes(links.drop_last(), type_id, rows);
        if links.last().type_id == type_id && code_of(rows, links.last().allowed_type_id) is Some {
            head.push(code_of(rows, links.last().allowed_type_id)->0)
        } else {
            head
        }
    }
}

/// Whether `sorted` holds the elements of `all` in order.
pub open spec fn is_sorted_form(sorted: Seq<Seq<char>>, all: Seq<Seq<char>>) -> bool {
    &&& sorted.to_multiset() == all.to_multiset()
    &&& forall|i: int, j: int| #![auto]
        0 <= i <= j < sorted.len() ==> crate::text::text_le(sorted[i], sorted[j])
}

/// Whether `t` is the type that a row and the rows of the junction tables
/// describe.
pub open spec fn is_full_type(
    t: ResourceGroupType,
    row: TypeRow,
    parent_links: Seq<AllowedTypeRow>,
    member_links: Seq<AllowedTypeRow>,
    rows: Seq<TypeRow>,
) -> bool {
    let parents = crate::text::texts(t.allowed_parent_types@);
    let members = crate::text::texts(t.allowed_membership_types@);
    &&& is_type_of(t, row, parents, members)
    &&& is_sorted_form(parents, allowed_codes(parent_links, row.id, rows))
    &&& is_sorted_form(members, allowed_codes(member_links, row.id, rows))
}

/// Whether a map holds the paths of stored types by their identifiers.
spec fn indexes_codes(codes: Map<i16, String>, rows: Seq<TypeRow>) -> bool {
    &&& forall|id: i16| #[trigger] codes.contains_key(id) <==> code_of(rows, id) is Some
    &&& forall|id: i16| #[trigger] codes.contains_key(id) ==> code_of(rows, id) == Some(codes[id]@)
}

/// The texts that a map lists under an identifier.
spec fn listed_under(lists: Map<i16, Vec<String>>, id: i16) -> Seq<Seq<char>> {
    if lists.contains_key(id) {
        crate::text::texts(lists[id]@)
    } else {
        Seq::empty()
    }
}

/// The paths of stored types by their identifiers.
fn index_codes(rows: &Vec<TypeRow>) -> (r: HashMap<i16, String>)
    ensures
        indexes_codes(r@, rows@),
{
    broadcast use vstd::std_specs::hash::group_hash_axioms;

    let mut codes: HashMap<i16, String> = HashMap::new();
    let mut i: usize = 0;
    while i < rows.len()
        invariant
            i <= rows.len(),
            indexes_codes(codes@, rows@.take(i as int)),
        decreases rows.len() - i,
    {
        proof {
            assert(rows@.take(i as int + 1).drop_last() =~= rows@.take(i as int));
        }
        codes.insert(rows[i].id, rows[i].schema_id.clone());
        i = i + 1;
    }
    proof {
        assert(rows@.take(rows@.len() as int) =~= rows@);
    }
    codes
}

/// The path of the type that is stored under an identifier.
pub fn stored_code(rows: &Vec<TypeRow>, id: i16) -> (r: Option<String>)
    ensures
        r is Some <==> code_of(rows@, id) is Some,
        r matches Some(code) ==> code_of(rows@, id) == Some(code@),
{
    let mut i: usize = rows.len();
    proof {
        assert(rows@.take(rows@.len() as int) =~= rows@);
    }
    while i > 0
        invariant
            i <= rows.len(),
            code_of(rows@, id) == code_of(rows@.take(i as int), id),
        decreases i,
    {
        i = i - 1;
        proof {
            assert(rows@.take(i as int + 1).drop_last() =~= rows@.take(i as int));
        }
        if rows[i].id == id {
            return Some(rows[i].schema_id.clone());
        }
    }
    None
}

/// The user's part of a stored schema.
fn user_schema(stored: &Option<serde_json::Value>) -> (r: Option<serde_json::Value>)
    ensures
        is_user_schema(r, *stored),
{
    let ms: &serde_json::Value = match stored {
        None => {
            return None;
        },
        Some(ms) => ms,
    };
    let members: Vec<(String, serde_json::Value)> = match json_object_members(ms) {
        None => {
            return Some(ms.clone());
        },
        Some(members) => members,
    };
    if let Some(schema) = json_member(ms, "__user_schema") {
        return Some(schema.clone());
    }
    let mut kept: Vec<(String, serde_json::Value)> = Vec::new();
    let mut i: usize = 0;
    while i < members.len()
        invariant
            i <= members.len(),
            kept@ == user_part(members@.take(i as int)),
        decreases members.len() - i,
    {
        proof {
            assert(members@.take(i as int + 1).drop_last() =~= members@.take(i as int));
        }
        if !text_starts_with(members[i].0.as_str(), "__") {
            let key: String = members[i].0.clone();
            let value: serde_json::Value = members[i].1.clone();
            proof {
                assert((key, value) == members@[i as int]);
            }
            kept.push((key, value));
        }
        i = i + 1;
    }
    proof {
        assert(members@.take(members@.len() as int) =~= members@);
        lemma_user_part_distinct(members@);
        lemma_user_part_lists(members@, *ms);
    }
    if kept.len() == 0 {
        proof {
            assert(user_members(*ms) =~= Map::empty());
        }
        None
    } else {
        let ghost listed = kept@;
        let r: serde_json::Value = json_object(kept);
        proof {
            lemma_listed_twice(listed, crate::json::json_members(r), user_members(*ms));
            assert(user_members(*ms).contains_key(listed[0].0@));
        }
        Some(r)
    }
}

/// The members of a list that are the user's.
spec fn user_part(list: Seq<(String, serde_json::Value)>) -> Seq<(String, serde_json::Value)>
    decreases list.len(),
{
    if list.len() == 0 {
        Seq::empty()
    } else if "__"@.is_prefix_of(list.last().0@) {
        user_part(list.drop_last())
    } else {
        user_part(list.drop_last()).push(list.last())
    }
}

/// An element of the user's part stands in the list, and is the user's.
proof fn lemma_user_part_from(list: Seq<(String, serde_json::Value)>, k: int) -> (i: int)
    requires
        0 <= k < user_part(list).len(),
    ensures
        0 <= i < list.len(),
        list[i] == user_part(list)[k],
        !"__"@.is_prefix_of(list[i].0@),
    decreases list.len(),
{
    let head = user_part(list.drop_last());
    if k < head.len() {
        let i = lemma_user_part_from(list.drop_last(), k);
        i
    } else {
        list.len() - 1
    }
}

/// An element of the list that is the user's stands in the user's part.
proof fn lemma_user_part_to(list: Seq<(String, serde_json::Value)>, i: int) -> (k: int)
    requires
        0 <= i < list.len(),
        !"__"@.is_prefix_of(list[i].0@),
    ensures
        0 <= k < user_part(list).len(),
        user_part(list)[k] == list[i],
    decreases list.len(),
{
    if i == list.len() - 1 {
        user_part(list).len() - 1
    } else {
        let k = lemma_user_part_to(list.drop_last(), i);
        assert(user_part(list)[k] == user_part(list.drop_last())[k]);
        k
    }
}

/// Where the keys of a list are distinct, so are those of the user's part.
proof fn lemma_user_part_distinct(list: Seq<(String, serde_json::Value)>)
    requires
        forall|i: int, j: int|
            0 <= i < j < list.len() ==> (#[trigger] list[i]).0@ != (#[trigger] list[j]).0@,
    ensures
        forall|i: int, j: int|
            0 <= i < j < user_part(list).len() ==> (#[trigger] user_part(list)[i]).0@ != (
            #[trigger] user_part(list)[j]).0@,
    decreases list.len(),
{
    if list.len() > 0 {
        let head = list.drop_last();
        assert forall|i: int, j: int| 0 <= i < j < head.len() implies (#[trigger] head[i]).0@ != (
        #[trigger] head[j]).0@ by {
            assert(list[i].0@ != list[j].0@);
        }
        lemma_user_part_distinct(head);
        let first = user_part(head);
        let all = user_part(list);
        assert forall|i: int, j: int| 0 <= i < j < all.len() implies (#[trigger] all[i]).0@ != (
        #[trigger] all[j]).0@ by {
            assert(all[i] == first[i]);
            if j < first.len() {
                assert(all[j] == first[j]);
            } else {
                let m = lemma_user_part_from(head, i);
                assert(list[m].0@ != list[list.len() - 1].0@);
            }
        }
    }
}

/// The user's part of the members of an object lists the user's members.
proof fn lemma_user_part_lists(list: Seq<(String, serde_json::Value)>, ms: serde_json::Value)
    requires
        crate::json::lists_members(list, crate::json::json_members(ms)),
    ensures
        crate::json::lists_members(user_part(list), user_members(ms)),
{
    let part = user_part(list);
    let all = crate::json::json_members(ms);
    let wanted = user_members(ms);
    lemma_user_part_distinct(list);
    assert forall|k: int| 0 <= k < part.len() implies wanted.contains_key((#[trigger] part[k]).0@)
        && wanted[part[k].0@] == part[k].1 by {
        let i = lemma_user_part_from(list, k);
        assert(all.contains_key(list[i].0@));
    }
    assert forall|key: Seq<char>| #[trigger] wanted.contains_key(key) implies exists|k: int|
        0 <= k < part.len() && (#[trigger] part[k]).0@ == key by {
        assert(all.contains_key(key));
        let i = choose|i: int| 0 <= i < list.len() && (#[trigger] list[i]).0@ == key;
        let k = lemma_user_part_to(list, i);
        assert(part[k].0@ == key);
    }
}

/// A list lists the members of one map only.
proof fn lemma_listed_twice(
    list: Seq<(String, serde_json::Value)>,
    a: Map<Seq<char>, serde_json::Value>,
    b: Map<Seq<char>, serde_json::Value>,
)
    requires
        crate::json::lists_members(list, a),
        crate::json::lists_members(list, b),
    ensures
        a == b,
{
    assert forall|k: Seq<char>| #[trigger] a.contains_key(k) implies b.contains_key(k) && a[k]
        == b[k] by {
        let i = choose|i: int| 0 <= i < list.len() && (#[trigger] list[i]).0@ == k;
        assert(b.contains_key(list[i].0@));
    }
    assert forall|k: Seq<char>| #[trigger] b.contains_key(k) implies a.contains_key(k) by {
        let i = choose|i: int| 0 <= i < list.len() && (#[trigger] list[i]).0@ == k;
        assert(a.contains_key(list[i].0@));
    }
    assert(a =~= b);
}

impl TypeRepository {
    /// The type that a row and the codes it allows describe.
    pub fn build_resource_group_type(
        row: &TypeRow,
        allowed_parent_types: Vec<String>,
        allowed_membership_types: Vec<String>,
    ) -> (r: ResourceGroupType)
        ensures
            is_type_of(
                r,
                *row,
                crate::text::texts(allowed_parent_types@),
                crate::text::texts(allowed_membership_types@),
            ),
            r.code@ == row.schema_id@,
            r.allowed_parent_types == allowed_parent_types,
            r.allowed_membership_types == allowed_membership_types,
    {
        let flag: Option<bool> = match &row.metadata_schema {
            None => None,
            Some(ms) => match json_member(ms, "__can_be_root") {
                None => None,
                Some(value) => json_as_bool(value),
            },
        };
        let can_be_root: bool = match flag {
            Some(b) => b,
            None => allowed_parent_types.len() == 0,
        };
        ResourceGroupType {
            code: row.schema_id.clone(),
            can_be_root,
            allowed_parent_types,
            allowed_membership_types,
            metadata_schema: user_schema(&row.metadata_schema),
        }
    }

    /// The paths of stored types, in order: what a type allows.
    pub fn load_allowed_types(rows: &Vec<TypeRow>) -> (r: Vec<String>)
        ensures
            is_sorted_form(
                crate::text::texts(r@),
                rows@.map_values(|row: TypeRow| row.schema_id@),
            ),
    {
        let mut codes: Vec<String> = Vec::new();
        let mut i: usize = 0;
        while i < rows.len()
            invariant
                i <= rows.len(),
                codes@.len() == i,
                forall|k: int| 0 <= k < i ==> (#[trigger] codes@[k])@ == rows@[k].schema_id@,
            decreases rows.len() - i,
        {
            codes.push(rows[i].schema_id.clone());
            i = i + 1;
        }
        proof {
            assert(crate::text::texts(codes@) =~= rows@.map_values(|row: TypeRow| row.schema_id@));
        }
        sort_texts(&mut codes);
        codes
    }

    /// The type that a row describes, given the stored types that it allows as
    /// parents and as the types of members.
    pub fn load_full_type(
        row: &TypeRow,
        parents: &Vec<TypeRow>,
        members: &Vec<TypeRow>,
    ) -> (r: ResourceGroupType)
        ensures
            is_type_of(
                r,
                *row,
                crate::text::texts(r.allowed_parent_types@),
                crate::text::texts(r.allowed_membership_types@),
            ),
            is_sorted_form(
                crate::text::texts(r.allowed_parent_types@),
                parents@.map_values(|p: TypeRow| p.schema_id@),
            ),
            is_sorted_form(
                crate::text::texts(r.allowed_membership_types@),
                members@.map_values(|m: TypeRow| m.schema_id@),
            ),
    {
        Self::build_resource_group_type(
            row,
            Self::load_allowed_types(parents),
            Self::load_allowed_types(members),
        )
    }

    /// The identifiers of the types that a page's types allow, each once: what
    /// the store is asked for.
    pub fn referenced_type_ids(
        parent_links: &Vec<AllowedTypeRow>,
        member_links: &Vec<AllowedTypeRow>,
    ) -> (r: Vec<i16>)
        ensures
            r@.no_duplicates(),
            forall|id: i16| #[trigger]
                r@.contains(id) <==> (exists|i: int|
                    0 <= i < parent_links@.len() && (#[trigger] parent_links@[i]).allowed_type_id
                        == id) || (exists|i: int|
                    0 <= i < member_links@.len() && (#[trigger] member_links@[i]).allowed_type_id
                        == id),
    {
        let mut out: Vec<i16> = Vec::new();
        let mut seen: HashSet<i16> = HashSet::new();
        proof {
            assert(seen@ =~= out@.to_set());
        }
        add_allowed_ids(parent_links, &mut out, &mut seen);
        add_allowed_ids(member_links, &mut out, &mut seen);
        out
    }

    /// The types of a whole page, given the rows of both junction tables and
    /// the stored types that they refer to.
    pub fn load_full_types_batch(
        page: &Vec<TypeRow>,
        parent_links: &Vec<AllowedTypeRow>,
        member_links: &Vec<AllowedTypeRow>,
        rows: &Vec<TypeRow>,
    ) -> (r: Vec<ResourceGroupType>)
        ensures
            r@.len() == page@.len(),
            forall|i: int|
                0 <= i < page@.len() ==> is_full_type(
                    #[trigger] r@[i],
                    page@[i],
                    parent_links@,
                    member_links@,
                    rows@,
                ),
    {
        let codes: HashMap<i16, String> = index_codes(rows);
        let parents_by_type: HashMap<i16, Vec<String>> = list_allowed_codes(
            parent_links,
            &codes,
            Ghost(rows@),
        );
        let members_by_type: HashMap<i16, Vec<String>> = list_allowed_codes(
            member_links,
            &codes,
            Ghost(rows@),
        );
        let mut out: Vec<ResourceGroupType> = Vec::new();
        let mut i: usize = 0;
        while i < page.len()
            invariant
                i <= page.len(),
                out@.len() == i,
                forall|id: i16| #[trigger]
                    listed_under(parents_by_type@, id) == allowed_codes(parent_links@, id, rows@),
                forall|id: i16| #[trigger]
                    listed_under(members_by_type@, id) == allowed_codes(member_links@, id, rows@),
                forall|k: int|
                    0 <= k < i ==> is_full_type(
                        #[trigger] out@[k],
                        page@[k],
                        parent_links@,
                        member_links@,
                        rows@,
                    ),
            decreases page.len() - i,
        {
            let parents: Vec<String> = sorted_list(&parents_by_type, page[i].id);
            let members: Vec<String> = sorted_list(&members_by_type, page[i].id);
            out.push(Self::build_resource_group_type(&page[i], parents, members));
            i = i + 1;
        }
        out
    }
}

/// The texts that a map lists under an identifier, in order.
fn sorted_list(lists: &HashMap<i16, Vec<String>>, id: i16) -> (r: Vec<String>)
    ensures
        is_sorted_form(crate::text::texts(r@), listed_under(lists@, id)),
{
    broadcast use vstd::std_specs::hash::group_hash_axioms;

    let mut out: Vec<String> = match lists.get(&id) {
        Some(list) => list.clone(),
        None => Vec::new(),
    };
    proof {
        assert(crate::text::texts(out@) =~= listed_under(lists@, id));
    }
    sort_texts(&mut out);
    out
}

/// What the rows of a junction table allow each type, given the paths of stored
/// types.
fn list_allowed_codes(
    links: &Vec<AllowedTypeRow>,
    codes: &HashMap<i16, String>,
    rows: Ghost<Seq<TypeRow>>,
) -> (r: HashMap<i16, Vec<String>>)
    requires
        indexes_codes(codes@, rows@),
    ensures
        forall|id: i16| #[trigger] listed_under(r@, id) == allowed_codes(links@, id, rows@),
{
    broadcast use vstd::std_specs::hash::group_hash_axioms;

    let mut lists: HashMap<i16, Vec<String>> = HashMap::new();
    let mut i: usize = 0;
    while i < links.len()
        invariant
            i <= links.len(),
            indexes_codes(codes@, rows@),
            forall|id: i16| #[trigger]
                listed_under(lists@, id) == allowed_codes(links@.take(i as int), id, rows@),
        decreases links.len() - i,
    {
        let ghost before = lists@;
        proof {
            assert(links@.take(i as int + 1).drop_last() =~= links@.take(i as int));
        }
        let link: &AllowedTypeRow = &links[i];
        if let Some(code) = codes.get(&link.allowed_type_id) {
            let list: &mut Vec<String> = lists.entry(link.type_id).or_insert(Vec::new());
            list.push(code.clone());
        }
        proof {
            assert forall|id: i16| #[trigger] listed_under(lists@, id) == allowed_codes(
                links@.take(i as int + 1),
                id,
                rows@,
            ) by {
                assert(listed_under(before, id) == allowed_codes(links@.take(i as int), id, rows@));
                if id == link.type_id && code_of(rows@, link.allowed_type_id) is Some {
                    assert(listed_under(lists@, id) =~= listed_under(before, id).push(
                        code_of(rows@, link.allowed_type_id)->0,
                    ));
                }
            }
        }
        i = i + 1;
    }
    proof {
        assert(links@.take(links@.len() as int) =~= links@);
    }
    lists
}

/// Adds the identifiers that the rows of a junction table refer to, each once.
fn add_allowed_ids(links: &Vec<AllowedTypeRow>, out: &mut Vec<i16>, seen: &mut HashSet<i16>)
    requires
        old(out)@.no_duplicates(),
        old(seen)@ == old(out)@.to_set(),
    ensures
        final(out)@.no_duplicates(),
        final(seen)@ == final(out)@.to_set(),
        forall|id: i16| #[trigger]
            final(out)@.contains(id) <==> old(out)@.contains(id) || exists|i: int|
                0 <= i < links@.len() && (#[trigger] links@[i]).allowed_type_id == id,
{
    broadcast use vstd::std_specs::hash::group_hash_axioms;

    let ghost start = out@;
    let mut i: usize = 0;
    while i < links.len()
        invariant
            i <= links.len(),
            out@.no_duplicates(),
            seen@ == out@.to_set(),
            forall|id: i16| #[trigger]
                out@.contains(id) <==> start.contains(id) || exists|k: int|
                    0 <= k < i && (#[trigger] links@[k]).allowed_type_id == id,
        decreases links.len() - i,
    {
        let id: i16 = links[i].allowed_type_id;
        let ghost before = out@;
        if seen.insert(id) {
            out.push(id);
        }
        proof {
            assert(before.contains(id) <==> before.to_set().contains(id));
            assert forall|x: i16| #[trigger] out@.contains(x) <==> before.contains(x) || x == id by {
                if before.contains(x) {
                    let m = choose|m: int| 0 <= m < before.len() && before[m] == x;
                    assert(out@[m] == x);
                }
                if x == id && !before.contains(id) {
                    assert(out@[before.len() as int] == x);
                }
            }
            assert(seen@ =~= out@.to_set());
            assert(links@[i as int].allowed_type_id == id);
        }
        i = i + 1;
    }
}

// -- Checks on a change of types --

/// The parents of groups, as far as they have one.
pub open spec fn parents_of(groups: Seq<GroupRow>) -> Seq<Uuid>
    decreases groups.len(),
{
    if groups.len() == 0 {
        Seq::empty()
    } else {
        match groups.last().parent_id {
            Some(p) => parents_of(groups.drop_last()).push(p),
            None => parents_of(groups.drop_last()),
        }
    }
}

/// The stored type of the group with this identifier, among the given rows.
pub open spec fn group_type_of(groups: Seq<GroupRow>, id: Uuid) -> Option<i16>
    decreases groups.len(),
{
    if groups.len() == 0 {
        None
    } else if groups.last().id == id {
        Some(groups.last().gts_type_id)
    } else {
        group_type_of(groups.drop_last(), id)
    }
}

/// The path of the type of a group's parent, where the parent is among the
/// given groups and its type among the given types.
pub open spec fn parent_code(
    group: GroupRow,
    parents: Seq<GroupRow>,
    types: Seq<TypeRow>,
) -> Option<Seq<char>> {
    match group.parent_id {
        None => None,
        Some(p) => match group_type_of(parents, p) {
            None => None,
            Some(type_id) => code_of(types, type_id),
        },
    }
}

/// The groups whose parent has one of the given types, each with the path of
/// that type, its identifier and its name.
pub open spec fn violations(
    groups: Seq<GroupRow>,
    parents: Seq<GroupRow>,
    types: Seq<TypeRow>,
) -> Seq<(Seq<char>, Uuid, Seq<char>)>
    decreases groups.len(),
{
    if groups.len() == 0 {
        Seq::empty()
    } else {
        let head = violations(groups.drop_last(), parents, types);
        match parent_code(groups.last(), parents, types) {
            Some(code) => head.push((code, groups.last().id, groups.last().name@)),
            None => head,
        }
    }
}

/// What a list of violations holds.
pub open spec fn violation_views(v: Seq<(String, Uuid, String)>) -> Seq<
    (Seq<char>, Uuid, Seq<char>),
> {
    v.map_values(|x: (String, Uuid, String)| (x.0@, x.1, x.2@))
}

/// The codes of a list that are no stored type's.
pub open spec fn unknown_codes(codes: Seq<Seq<char>>, rows: Seq<TypeRow>) -> Seq<Seq<char>>
    decreases codes.len(),
{
    if codes.len() == 0 {
        Seq::empty()
    } else if id_of(rows, codes.last()) is None {
        unknown_codes(codes.drop_last(), rows).push(codes.last())
    } else {
        unknown_codes(codes.drop_last(), rows)
    }
}

/// Whether a map holds the stored types of groups by their identifiers.
spec fn indexes_group_types(types: Map<u128, i16>, groups: Seq<GroupRow>) -> bool {
    &&& forall|id: u128| #[trigger]
        types.contains_key(id) <==> group_type_of(groups, Uuid(id)) is Some
    &&& forall|id: u128| #[trigger]
        types.contains_key(id) ==> group_type_of(groups, Uuid(id)) == Some(types[id])
}

/// The stored types of groups by their identifiers.
fn index_group_types(groups: &Vec<GroupRow>) -> (r: HashMap<u128, i16>)
    ensures
        indexes_group_types(r@, groups@),
{
    broadcast use vstd::std_specs::hash::group_hash_axioms;

    let mut types: HashMap<u128, i16> = HashMap::new();
    let mut i: usize = 0;
    while i < groups.len()
        invariant
            i <= groups.len(),
            indexes_group_types(types@, groups@.take(i as int)),
        decreases groups.len() - i,
    {
        proof {
            assert(groups@.take(i as int + 1).drop_last() =~= groups@.take(i as int));
        }
        types.insert(groups[i].id.0, groups[i].gts_type_id);
        i = i + 1;
    }
    proof {
        assert(groups@.take(groups@.len() as int) =~= groups@);
    }
    types
}

impl TypeRepository {
    /// The parents of groups, as far as they have one: what the store is asked
    /// for before `find_groups_violating_removed_parents`.
    pub fn parent_ids(groups: &Vec<GroupRow>) -> (r: Vec<Uuid>)
        ensures
            r@ == parents_of(groups@),
    {
        let mut out: Vec<Uuid> = Vec::new();
        let mut i: usize = 0;
        while i < groups.len()
            invariant
                i <= groups.len(),
                out@ == parents_of(groups@.take(i as int)),
            decreases groups.len() - i,
        {
            proof {
                assert(groups@.take(i as int + 1).drop_last() =~= groups@.take(i as int));
            }
            if let Some(p) = groups[i].parent_id {
                out.push(p);
            }
            i = i + 1;
        }
        proof {
            assert(groups@.take(groups@.len() as int) =~= groups@);
        }
        out
    }

    /// The groups of a type that stand under a parent of a type that is to be
    /// no longer allowed, given the types that are to go, the groups of the
    /// type, and those of their parents that have a type that is to go.
    pub fn find_groups_violating_removed_parents(
        types: &Vec<TypeRow>,
        groups: &Vec<GroupRow>,
        parents: &Vec<GroupRow>,
    ) -> (r: Vec<(String, Uuid, String)>)
        ensures
            violation_views(r@) == violations(groups@, parents@, types@),
    {
        broadcast use vstd::std_specs::hash::group_hash_axioms;

        let codes: HashMap<i16, String> = index_codes(types);
        let parent_types: HashMap<u128, i16> = index_group_types(parents);
        let mut out: Vec<(String, Uuid, String)> = Vec::new();
        let mut i: usize = 0;
        proof {
            assert(violation_views(out@) =~= violations(groups@.take(0), parents@, types@));
        }
        while i < groups.len()
            invariant
                i <= groups.len(),
                indexes_codes(codes@, types@),
                indexes_group_types(parent_types@, parents@),
                violation_views(out@) == violations(groups@.take(i as int), parents@, types@),
            decreases groups.len() - i,
        {
            proof {
                assert(groups@.take(i as int + 1).drop_last() =~= groups@.take(i as int));
            }
            let ghost before = violation_views(out@);
            if let Some(p) = groups[i].parent_id {
                proof {
                    assert(p == Uuid(p.0));
                }
                if let Some(type_id) = parent_types.get(&p.0) {
                    if let Some(code) = codes.get(type_id) {
                        let ghost entry = (code@, groups@[i as int].id, groups@[i as int].name@);
                        out.push((code.clone(), groups[i].id, groups[i].name.clone()));
                        proof {
                            assert(violation_views(out@) =~= before.push(entry));
                        }
                    }
                }
            }
            i = i + 1;
        }
        proof {
            assert(groups@.take(groups@.len() as int) =~= groups@);
        }
        out
    }

    /// The groups among rows of roots, by identifier and name.
    pub fn find_root_groups_of_type(groups: &Vec<GroupRow>) -> (r: Vec<(Uuid, String)>)
        ensures
            r@.len() == groups@.len(),
            forall|i: int|
                0 <= i < groups@.len() ==> (#[trigger] r@[i]).0 == groups@[i].id && r@[i].1@
                    == groups@[i].name@,
    {
        let mut out: Vec<(Uuid, String)> = Vec::new();
        let mut i: usize = 0;
        while i < groups.len()
            invariant
                i <= groups.len(),
                out@.len() == i,
                forall|k: int|
                    0 <= k < i ==> (#[trigger] out@[k]).0 == groups@[k].id && out@[k].1@
                        == groups@[k].name@,
            decreases groups.len() - i,
        {
            out.push((groups[i].id, groups[i].name.clone()));
            i = i + 1;
        }
        out
    }

    /// The identifiers of the stored types with the given codes, in the order
    /// of the rows; the codes that are no stored type's are named in the
    /// refusal.
    pub fn resolve_ids(codes: &Vec<String>, rows: &Vec<TypeRow>) -> (r: Result<
        Vec<i16>,
        DomainError,
    >)
        ensures
            if codes@.len() == 0 {
                r matches Ok(ids) && ids@.len() == 0
            } else if unknown_codes(crate::text::texts(codes@), rows@).len() == 0 {
                r matches Ok(ids) && ids@ == rows@.map_values(|row: TypeRow| row.id)
            } else {
                r matches Err(e) && e@ == crate::error::invalid(
                    "Referenced types not found: "@ + crate::text::joined(
                        unknown_codes(crate::text::texts(codes@), rows@),
                        ", "@,
                    ),
                )
            },
    {
        if codes.len() == 0 {
            return Ok(Vec::new());
        }
        let ghost all = crate::text::texts(codes@);
        let mut missing: Vec<String> = Vec::new();
        let mut i: usize = 0;
        proof {
            assert(crate::text::texts(missing@) =~= unknown_codes(all.take(0), rows@));
        }
        while i < codes.len()
            invariant
                i <= codes.len(),
                all == crate::text::texts(codes@),
                crate::text::texts(missing@) == unknown_codes(all.take(i as int), rows@),
            decreases codes.len() - i,
        {
            proof {
                assert(all.take(i as int + 1).drop_last() =~= all.take(i as int));
            }
            let ghost before = crate::text::texts(missing@);
            if stored_id(rows, codes[i].as_str()).is_none() {
                missing.push(codes[i].clone());
                proof {
                    assert(crate::text::texts(missing@) =~= before.push(all[i as int]));
                }
            }
            i = i + 1;
        }
        proof {
            assert(all.take(all.len() as int) =~= all);
        }
        if missing.len() > 0 {
            return Err(
                DomainError::validation(
                    concat2("Referenced types not found: ", join_texts(&missing, ", ").as_str()),
                ),
            );
        }
        let mut ids: Vec<i16> = Vec::new();
        let mut j: usize = 0;
        while j < rows.len()
            invariant
                j <= rows.len(),
                ids@.len() == j,
                forall|k: int| 0 <= k < j ==> (#[trigger] ids@[k]) == rows@[k].id,
            decreases rows.len() - j,
        {
            ids.push(rows[j].id);
            j = j + 1;
        }
        proof {
            assert(ids@ =~= rows@.map_values(|row: TypeRow| row.id));
        }
        Ok(ids)
    }

    /// The rows that link a type with the types that it allows.
    pub fn allowed_type_rows(type_id: i16, allowed: &Vec<i16>) -> (r: Vec<AllowedTypeRow>)
        ensures
            r@ == allowed@.map_values(
                |id: i16| (AllowedTypeRow { type_id, allowed_type_id: id }),
            ),
    {
        let mut out: Vec<AllowedTypeRow> = Vec::new();
        let mut i: usize = 0;
        while i < allowed.len()
            invariant
                i <= allowed.len(),
                out@.len() == i,
                forall|k: int|
                    0 <= k < i ==> (#[trigger] out@[k]) == (AllowedTypeRow {
                        type_id,
                        allowed_type_id: allowed@[k],
                    }),
            decreases allowed.len() - i,
        {
            out.push(AllowedTypeRow { type_id, allowed_type_id: allowed[i] });
            i = i + 1;
        }
        proof {
            assert(out@ =~= allowed@.map_values(
                |id: i16| (AllowedTypeRow { type_id, allowed_type_id: id }),
            ));
        }
        out
    }

    /// The identifier of the type that was found under a code, where one was.
    pub fn resolve_id(row: Option<&TypeRow>) -> (r: Option<i16>)
        ensures
            r == (match row {
                Some(t) => Some(t.id),
                None => None,
            }),
    {
        match row {
            Some(t) => Some(t.id),
            None => None,
        }
    }

    /// The error of a failed insert: a duplicate where the store reports a
    /// violated uniqueness, else a failure with the store's text.
    pub fn insert_error(schema_id: &str, unique_violation: bool, text: String) -> (r: DomainError)
        ensures
            r@ == if unique_violation {
                crate::error::ErrorView::TypeAlreadyExists { code: schema_id@ }
            } else {
                crate::error::database_error(text@)
            },
    {
        if unique_violation {
            DomainError::type_already_exists(schema_id.to_owned())
        } else {
            DomainError::database(text)
        }
    }

    /// The row that a write left behind; its absence is a failure.
    pub fn find_model_by_code(row: Option<TypeRow>, code: &str) -> (r: Result<TypeRow, DomainError>)
        ensures
            match row {
                Some(t) => r == Ok::<TypeRow, DomainError>(t),
                None => r matches Err(e) && e@ == crate::error::database_error(
                    "GTS type row with schema_id="@ + code@
                        + " not found after write (concurrent delete?)"@,
                ),
            },
    {
        match row {
            Some(t) => Ok(t),
            None => Err(
                DomainError::database(
                    concat3(
                        "GTS type row with schema_id=",
                        code,
                        " not found after write (concurrent delete?)",
                    ),
                ),
            ),
        }
    }

    /// The row of the type under this identifier; its absence is a failure.
    pub fn type_by_id(row: Option<TypeRow>, type_id: i16) -> (r: Result<TypeRow, DomainError>)
        ensures
            match row {
                Some(t) => r == Ok::<TypeRow, DomainError>(t),
                None => r matches Err(e) && e@ == crate::error::database_error(
                    "Type ID "@ + crate::text::signed_decimal(type_id as int) + " not found"@,
                ),
            },
    {
        match row {
            Some(t) => Ok(t),
            None => Err(
                DomainError::database(
                    concat3("Type ID ", decimal_i64(type_id as i64).as_str(), " not found"),
                ),
            ),
        }
    }
}

// -- Laws --

proof fn lemma_ids_leave_no_strings(values: Seq<crate::odata::ValueView>, rows: Seq<TypeRow>)
    ensures
        strings_among(values.map_values(|v: crate::odata::ValueView| with_id(v, rows))).len() == 0,
    decreases values.len(),
{
    let mapped = values.map_values(|v: crate::odata::ValueView| with_id(v, rows));
    if values.len() > 0 {
        lemma_ids_leave_no_strings(values.drop_last(), rows);
        assert(mapped.drop_last() =~= values.drop_last().map_values(
            |v: crate::odata::ValueView| with_id(v, rows),
        ));
        assert(mapped.last() == with_id(values.last(), rows));
    }
}

/// A resolved filter compares its type field with no path any more.
pub proof fn resolved_filter_has_no_path<F>(node: NodeView<F>, type_field: F, rows: Seq<TypeRow>)
    ensures
        paths_in(with_ids(node, type_field, rows), type_field).len() == 0,
    decreases node,
{
    match node {
        NodeView::Binary { .. } => {},
        NodeView::InList { field, values } => {
            if field == type_field {
                lemma_ids_leave_no_strings(values, rows);
            }
        },
        NodeView::Composite { children, .. } => {
            lemma_all_resolved(children, type_field, rows);
        },
        NodeView::Not(inner) => {
            resolved_filter_has_no_path(*inner, type_field, rows);
        },
    }
}

proof fn lemma_all_resolved<F>(nodes: Seq<NodeView<F>>, type_field: F, rows: Seq<TypeRow>)
    ensures
        paths_among(all_with_ids(nodes, type_field, rows), type_field).len() == 0,
    decreases nodes,
{
    if nodes.len() > 0 {
        let r = all_with_ids(nodes, type_field, rows);
        assert(r.drop_last() =~= all_with_ids(nodes.drop_last(), type_field, rows));
        lemma_all_resolved(nodes.drop_last(), type_field, rows);
        resolved_filter_has_no_path(nodes.last(), type_field, rows);
    }
}

/// A filter that does not compare the type field is left as it is.
pub proof fn filter_without_paths_is_unchanged<F>(
    node: NodeView<F>,
    type_field: F,
    rows: Seq<TypeRow>,
)
    requires
        paths_in(node, type_field).len() == 0,
    ensures
        with_ids(node, type_field, rows) == node,
    decreases node,
{
    match node {
        NodeView::Binary { .. } => {},
        NodeView::InList { field, values } => {
            if field == type_field {
                lemma_no_strings_unchanged(values, rows);
            }
        },
        NodeView::Composite { children, .. } => {
            lemma_all_unchanged(children, type_field, rows);
        },
        NodeView::Not(inner) => {
            filter_without_paths_is_unchanged(*inner, type_field, rows);
        },
    }
}

proof fn lemma_no_strings_unchanged(values: Seq<crate::odata::ValueView>, rows: Seq<TypeRow>)
    requires
        strings_among(values).len() == 0,
    ensures
        values.map_values(|v: crate::odata::ValueView| with_id(v, rows)) == values,
    decreases values.len(),
{
    let mapped = values.map_values(|v: crate::odata::ValueView| with_id(v, rows));
    if values.len() > 0 {
        lemma_no_strings_unchanged(values.drop_last(), rows);
        assert(mapped.drop_last() =~= values.drop_last().map_values(
            |v: crate::odata::ValueView| with_id(v, rows),
        ));
        assert(mapped =~= mapped.drop_last().push(mapped.last()));
        assert(values =~= values.drop_last().push(values.last()));
    } else {
        assert(mapped =~= values);
    }
}

proof fn lemma_all_unchanged<F>(nodes: Seq<NodeView<F>>, type_field: F, rows: Seq<TypeRow>)
    requires
        paths_among(nodes, type_field).len() == 0,
    ensures
        all_with_ids(nodes, type_field, rows) == nodes,
    decreases nodes,
{
    if nodes.len() > 0 {
        lemma_all_unchanged(nodes.drop_last(), type_field, rows);
        filter_without_paths_is_unchanged(nodes.last(), type_field, rows);
        assert(nodes =~= nodes.drop_last().push(nodes.last()));
    } else {
        assert(all_with_ids(nodes, type_field, rows) =~= nodes);
    }
}

/// No group is reported that does not stand under a parent of one of the given
/// types, and every group that does is reported, in the order of the groups.
pub proof fn violations_are_the_groups_under_removed_parents(
    groups: Seq<GroupRow>,
    parents: Seq<GroupRow>,
    types: Seq<TypeRow>,
    id: Uuid,
)
    ensures
        (exists|k: int|
            0 <= k < violations(groups, parents, types).len() && (#[trigger] violations(
                groups,
                parents,
                types,
            )[k]).1 == id) <==> (exists|i: int|
            0 <= i < groups.len() && (#[trigger] groups[i]).id == id && parent_code(
                groups[i],
                parents,
                types,
            ) is Some),
    decreases groups.len(),
{
    if groups.len() > 0 {
        let head = groups.drop_last();
        violations_are_the_groups_under_removed_parents(head, parents, types, id);
        let all = violations(groups, parents, types);
        let first = violations(head, parents, types);
        if exists|k: int| 0 <= k < all.len() && (#[trigger] all[k]).1 == id {
            let k = choose|k: int| 0 <= k < all.len() && (#[trigger] all[k]).1 == id;
            if k < first.len() {
                assert(first[k].1 == id);
                let i = choose|i: int|
                    0 <= i < head.len() && (#[trigger] head[i]).id == id && parent_code(
                        head[i],
                        parents,
                        types,
                    ) is Some;
                assert(groups[i].id == id);
            } else {
                assert(groups[groups.len() - 1].id == id);
            }
        }
        if exists|i: int|
            0 <= i < groups.len() && (#[trigger] groups[i]).id == id && parent_code(
                groups[i],
                parents,
                types,
            ) is Some {
            let i = choose|i: int|
                0 <= i < groups.len() && (#[trigger] groups[i]).id == id && parent_code(
                    groups[i],
                    parents,
                    types,
                ) is Some;
            if i < head.len() {
                assert(head[i].id == id);
                let k = choose|k: int| 0 <= k < first.len() && (#[trigger] first[k]).1 == id;
                assert(all[k].1 == id);
            } else {
                assert(all[first.len() as int].1 == id);
            }
        }
    }
}

// -- Laws: stored types --

/// The path that is found for an identifier is that of a row with this
/// identifier, and one is found exactly where there is such a row.
pub proof fn found_code_is_a_rows(rows: Seq<TypeRow>, id: i16)
    ensures
        code_of(rows, id) is Some <==> exists|j: int|
            0 <= j < rows.len() && (#[trigger] rows[j]).id == id,
        code_of(rows, id) matches Some(code) ==> exists|j: int|
            0 <= j < rows.len() && (#[trigger] rows[j]).id == id && rows[j].schema_id@ == code,
    decreases rows.len(),
{
    if rows.len() > 0 {
        let head = rows.drop_last();
        found_code_is_a_rows(head, id);
        assert(forall|j: int| 0 <= j < head.len() ==> head[j] == #[trigger] rows[j]);
        if rows.last().id == id {
            assert(rows[rows.len() - 1].id == id);
        } else if code_of(head, id) is Some {
            let j = choose|j: int|
                0 <= j < head.len() && (#[trigger] head[j]).id == id && head[j].schema_id@
                    == code_of(head, id)->0;
            assert(rows[j].id == id);
        } else {
            assert forall|j: int| 0 <= j < rows.len() implies (#[trigger] rows[j]).id != id by {
                if j < head.len() {
                    assert(head[j].id != id);
                }
            }
        }
    }
}

/// The identifier that is found for a path is that of a row with this path, and
/// one is found exactly where there is such a row.
pub proof fn found_id_is_a_rows(rows: Seq<TypeRow>, path: Seq<char>)
    ensures
        id_of(rows, path) is Some <==> exists|j: int|
            0 <= j < rows.len() && (#[trigger] rows[j]).schema_id@ == path,
        id_of(rows, path) matches Some(id) ==> exists|j: int|
            0 <= j < rows.len() && (#[trigger] rows[j]).schema_id@ == path && rows[j].id == id,
    decreases rows.len(),
{
    if rows.len() > 0 {
        let head = rows.drop_last();
        found_id_is_a_rows(head, path);
        assert(forall|j: int| 0 <= j < head.len() ==> head[j] == #[trigger] rows[j]);
        if rows.last().schema_id@ == path {
            assert(rows[rows.len() - 1].schema_id@ == path);
        } else if id_of(head, path) is Some {
            let j = choose|j: int|
                0 <= j < head.len() && (#[trigger] head[j]).schema_id@ == path && head[j].id
                    == id_of(head, path)->0;
            assert(rows[j].schema_id@ == path);
        } else {
            assert forall|j: int| 0 <= j < rows.len() implies (#[trigger] rows[j]).schema_id@
                != path by {
                if j < head.len() {
                    assert(head[j].schema_id@ != path);
                }
            }
        }
    }
}

/// The links of a type whose allowed type is stored.
pub open spec fn resolved_links(
    links: Seq<AllowedTypeRow>,
    type_id: i16,
    rows: Seq<TypeRow>,
) -> Seq<AllowedTypeRow> {
    links.filter(
        |l: AllowedTypeRow|
            l.type_id == type_id && exists|j: int|
                0 <= j < rows.len() && (#[trigger] rows[j]).id == l.allowed_type_id,
    )
}

proof fn lemma_allowed_codes(
    links: Seq<AllowedTypeRow>,
    type_id: i16,
    rows: Seq<TypeRow>,
)
    ensures
        allowed_codes(links, type_id, rows) == resolved_links(links, type_id, rows).map_values(
            |l: AllowedTypeRow| code_of(rows, l.allowed_type_id)->0,
        ),
    decreases links.len(),
{
    reveal(Seq::filter);
    let keep = |l: AllowedTypeRow|
        l.type_id == type_id && exists|j: int|
            0 <= j < rows.len() && (#[trigger] rows[j]).id == l.allowed_type_id;
    let code = |l: AllowedTypeRow| code_of(rows, l.allowed_type_id)->0;
    if links.len() > 0 {
        lemma_allowed_codes(links.drop_last(), type_id, rows);
        found_code_is_a_rows(rows, links.last().allowed_type_id);
        let head = links.drop_last().filter(keep);
        if keep(links.last()) {
            assert(head.push(links.last()).map_values(code) =~= head.map_values(code).push(
                code(links.last()),
            ));
        }
    }
    assert(allowed_codes(links, type_id, rows) =~= resolved_links(links, type_id, rows).map_values(
        code,
    ));
}

/// A sorted list holds what it was sorted from, as often, and nothing else.
proof fn lemma_sorted_holds_the_same(sorted: Seq<Seq<char>>, all: Seq<Seq<char>>, s: Seq<char>)
    requires
        is_sorted_form(sorted, all),
    ensures
        sorted.len() == all.len(),
        sorted.contains(s) <==> all.contains(s),
{
    broadcast use vstd::seq_lib::group_to_multiset_ensures;

    assert(sorted.to_multiset().count(s) == all.to_multiset().count(s));
    assert(sorted.len() == sorted.to_multiset().len());
    assert(all.len() == all.to_multiset().len());
}

/// A type of a page allows as parents and as members exactly the stored types
/// that its links refer to, each as often as there are links, in the order of
/// their paths; it has the code of its row, and without a stored flag it can be a
/// root exactly where it allows no parent.
pub proof fn loaded_type_allows_what_its_links_say(
    t: ResourceGroupType,
    row: TypeRow,
    parent_links: Seq<AllowedTypeRow>,
    member_links: Seq<AllowedTypeRow>,
    rows: Seq<TypeRow>,
    path: Seq<char>,
)
    requires
        is_full_type(t, row, parent_links, member_links, rows),
        forall|a: int, b: int|
            0 <= a < b < rows.len() ==> (#[trigger] rows[a]).id != (#[trigger] rows[b]).id,
    ensures
        t.code@ == row.schema_id@,
        (exists|k: int|
            0 <= k < t.allowed_parent_types@.len() && (#[trigger] t.allowed_parent_types@[k])@
                == path) <==> (exists|i: int, j: int|
            0 <= i < parent_links.len() && 0 <= j < rows.len() && (#[trigger] parent_links[i]).type_id
                == row.id && (#[trigger] rows[j]).id == parent_links[i].allowed_type_id
                && rows[j].schema_id@ == path),
        (exists|k: int|
            0 <= k < t.allowed_membership_types@.len() && (
            #[trigger] t.allowed_membership_types@[k])@ == path) <==> (exists|i: int, j: int|
            0 <= i < member_links.len() && 0 <= j < rows.len() && (#[trigger] member_links[i]).type_id
                == row.id && (#[trigger] rows[j]).id == member_links[i].allowed_type_id
                && rows[j].schema_id@ == path),
        t.allowed_parent_types@.len() == resolved_links(parent_links, row.id, rows).len(),
        t.allowed_membership_types@.len() == resolved_links(member_links, row.id, rows).len(),
        forall|a: int, b: int| #![auto]
            0 <= a <= b < t.allowed_parent_types@.len() ==> crate::text::text_le(
                t.allowed_parent_types@[a]@,
                t.allowed_parent_types@[b]@,
            ),
        forall|a: int, b: int| #![auto]
            0 <= a <= b < t.allowed_membership_types@.len() ==> crate::text::text_le(
                t.allowed_membership_types@[a]@,
                t.allowed_membership_types@[b]@,
            ),
        stored_root_flag(row.metadata_schema) is None ==> (t.can_be_root <==>
            t.allowed_parent_types@.len() == 0),
{
    lemma_loaded_list(t.allowed_parent_types@, row, parent_links, rows, path);
    lemma_loaded_list(t.allowed_membership_types@, row, member_links, rows, path);
}

proof fn lemma_loaded_list(
    list: Seq<String>,
    row: TypeRow,
    links: Seq<AllowedTypeRow>,
    rows: Seq<TypeRow>,
    path: Seq<char>,
)
    requires
        is_sorted_form(crate::text::texts(list), allowed_codes(links, row.id, rows)),
        forall|a: int, b: int|
            0 <= a < b < rows.len() ==> (#[trigger] rows[a]).id != (#[trigger] rows[b]).id,
    ensures
        (exists|k: int| 0 <= k < list.len() && (#[trigger] list[k])@ == path) <==> (exists|
            i: int,
            j: int,
        |
            0 <= i < links.len() && 0 <= j < rows.len() && (#[trigger] links[i]).type_id == row.id
                && (#[trigger] rows[j]).id == links[i].allowed_type_id && rows[j].schema_id@
                == path),
        list.len() == resolved_links(links, row.id, rows).len(),
        forall|a: int, b: int| #![auto]
            0 <= a <= b < list.len() ==> crate::text::text_le(list[a]@, list[b]@),
{
    let sorted = crate::text::texts(list);
    let all = allowed_codes(links, row.id, rows);
    let kept = resolved_links(links, row.id, rows);
    let keep = |l: AllowedTypeRow|
        l.type_id == row.id && exists|j: int|
            0 <= j < rows.len() && (#[trigger] rows[j]).id == l.allowed_type_id;
    lemma_sorted_holds_the_same(sorted, all, path);
    lemma_allowed_codes(links, row.id, rows);
    crate::text::lemma_texts_contains(list, path);
    assert forall|a: int, b: int| #![auto] 0 <= a <= b < list.len() implies crate::text::text_le(
        list[a]@,
        list[b]@,
    ) by {
        assert(crate::text::text_le(sorted[a], sorted[b]));
    }
    if all.contains(path) {
        let k = choose|k: int| 0 <= k < all.len() && all[k] == path;
        assert(kept.contains(kept[k]));
        links.lemma_filter_contains_rev(keep, kept[k]);
        links.lemma_filter_pred(keep, k);
        let i = choose|i: int| 0 <= i < links.len() && links[i] == kept[k];
        found_code_is_a_rows(rows, links[i].allowed_type_id);
        let j = choose|j: int|
            0 <= j < rows.len() && (#[trigger] rows[j]).id == links[i].allowed_type_id
                && rows[j].schema_id@ == path;
        assert(links[i].type_id == row.id);
        assert(rows[j].id == links[i].allowed_type_id);
    }
    if exists|i: int, j: int|
        0 <= i < links.len() && 0 <= j < rows.len() && (#[trigger] links[i]).type_id == row.id && (
        #[trigger] rows[j]).id == links[i].allowed_type_id && rows[j].schema_id@ == path {
        let (i, j) = choose|i: int, j: int|
            0 <= i < links.len() && 0 <= j < rows.len() && (#[trigger] links[i]).type_id == row.id
                && (#[trigger] rows[j]).id == links[i].allowed_type_id && rows[j].schema_id@ == path;
        found_code_is_a_rows(rows, links[i].allowed_type_id);
        let m = choose|m: int|
            0 <= m < rows.len() && (#[trigger] rows[m]).id == links[i].allowed_type_id
                && rows[m].schema_id@ == code_of(rows, links[i].allowed_type_id)->0;
        assert(m == j);
        assert(keep(links[i]));
        links.lemma_filter_contains(keep, i);
        assert(kept.contains(links[i]));
        let k = choose|k: int| 0 <= k < kept.len() && kept[k] == links[i];
        assert(all[k] == path);
    }
}

/// Whether a type can be a root is what its stored schema says under
/// `__can_be_root`, where a truth value stands there; otherwise a type can be a
/// root exactly where it allows no parent.
pub proof fn stored_flag_decides_about_the_root(
    t: ResourceGroupType,
    row: TypeRow,
    parents: Seq<Seq<char>>,
    members: Seq<Seq<char>>,
)
    requires
        is_type_of(t, row, parents, members),
    ensures
        match row.metadata_schema {
            None => t.can_be_root <==> parents.len() == 0,
            Some(ms) => {
                let stored = crate::json::json_members(ms);
                if stored.contains_key("__can_be_root"@) && crate::json::json_bool(
                    stored["__can_be_root"@],
                ) is Some {
                    Some(t.can_be_root) == crate::json::json_bool(stored["__can_be_root"@])
                } else {
                    t.can_be_root <==> parents.len() == 0
                }
            },
        },
        t.allowed_parent_types@.len() == parents.len(),
        t.allowed_membership_types@.len() == members.len(),
        forall|i: int|
            0 <= i < parents.len() ==> (#[trigger] t.allowed_parent_types@[i])@ == parents[i],
        forall|i: int|
            0 <= i < members.len() ==> (#[trigger] t.allowed_membership_types@[i])@ == members[i],
{
    assert(crate::text::texts(t.allowed_parent_types@).len() == parents.len());
    assert(crate::text::texts(t.allowed_membership_types@).len() == members.len());
    assert forall|i: int| 0 <= i < parents.len() implies (#[trigger] t.allowed_parent_types@[i])@
        == parents[i] by {
        assert(crate::text::texts(t.allowed_parent_types@)[i] == t.allowed_parent_types@[i]@);
    }
    assert forall|i: int|
        0 <= i < members.len() implies (#[trigger] t.allowed_membership_types@[i])@
        == members[i] by {
        assert(crate::text::texts(t.allowed_membership_types@)[i]
            == t.allowed_membership_types@[i]@);
    }
}

/// The schema that is shown of a stored one holds no member of the service's
/// own: a key that begins with two underscores is shown only as part of a schema
/// that the user wrapped. Every other member is shown with its value, and what is
/// no object is shown as it is.
pub proof fn shown_schema_is_the_users(
    shown: Option<serde_json::Value>,
    ms: serde_json::Value,
    key: Seq<char>,
)
    requires
        is_user_schema(shown, Some(ms)),
    ensures
        !crate::json::json_is_object(ms) ==> shown == Some(ms),
        crate::json::json_is_object(ms) && crate::json::json_members(ms).contains_key(
            "__user_schema"@,
        ) ==> shown == Some(crate::json::json_members(ms)["__user_schema"@]),
        crate::json::json_is_object(ms) && !crate::json::json_members(ms).contains_key(
            "__user_schema"@,
        ) ==> {
            &&& (shown matches Some(s) && crate::json::json_members(s).contains_key(key))
                <==> crate::json::json_members(ms).contains_key(key) && !(key.len() >= 2 && key[0]
                == '_' && key[1] == '_')
            &&& shown matches Some(s) ==> crate::json::json_members(s).contains_key(key)
                ==> crate::json::json_members(s)[key] == crate::json::json_members(ms)[key]
        },
{
    reveal_strlit("__");
    let mine = user_members(ms);
    let internal = key.len() >= 2 && key[0] == '_' && key[1] == '_';
    assert("__"@.len() == 2 && "__"@[0] == '_' && "__"@[1] == '_');
    if internal {
        assert("__"@ =~= key.subrange(0, 2));
    }
    if "__"@.is_prefix_of(key) {
        assert("__"@ == key.subrange(0, 2));
        assert(key.subrange(0, 2)[0] == key[0]);
        assert(key.subrange(0, 2)[1] == key[1]);
    }
    assert("__"@.is_prefix_of(key) <==> internal);
    if crate::json::json_is_object(ms) && !crate::json::json_members(ms).contains_key(
        "__user_schema"@,
    ) {
        assert(mine.contains_key(key) <==> crate::json::json_members(ms).contains_key(key)
            && !"__"@.is_prefix_of(key));
        if mine =~= Map::empty() {
            assert(!mine.contains_key(key));
        }
    }
}

// -- Laws: type paths in a filter --

/// What an expression holds is what it is made of: the same constructor, with
/// the same field and operator, over what its parts hold.
pub proof fn view_of_an_expression_keeps_its_shape<F>(
    field: F,
    op: FilterOp,
    value: ODataValue,
    values: Vec<ODataValue>,
    children: Vec<FilterNode<F>>,
    inner: FilterNode<F>,
    i: int,
)
    ensures
        node_view(FilterNode::Binary { field, op, value }) == (NodeView::Binary {
            field,
            op,
            value: value@,
        }),
        node_view(FilterNode::InList { field, values }) matches NodeView::InList {
            field: f,
            values: vs,
        } && f == field && vs.len() == values@.len() && (0 <= i < vs.len() ==> vs[i]
            == values@[i]@),
        node_view(FilterNode::Composite { op, children }) matches NodeView::Composite {
            op: o,
            children: cs,
        } && o == op && cs.len() == children@.len() && (0 <= i < cs.len() ==> cs[i] == node_view(
            children@[i],
        )),
        node_view(FilterNode::Not(Box::new(inner))) == NodeView::Not(Box::new(node_view(inner))),
{
    lemma_node_views(children@, i);
}

proof fn lemma_node_views<F>(nodes: Seq<FilterNode<F>>, i: int)
    ensures
        node_views(nodes).len() == nodes.len(),
        0 <= i < nodes.len() ==> node_views(nodes)[i] == node_view(nodes[i]),
    decreases nodes.len(),
{
    if nodes.len() > 0 {
        lemma_node_views(nodes.drop_last(), i);
    }
}

/// Resolving an expression keeps its shape: the negation of an expression becomes
/// that of the resolved one, a composition keeps its operator and the order of
/// its parts, and a comparison its field and operator. Only a literal that is
/// compared with the type field changes, and only where it is a path.
pub proof fn resolution_keeps_the_expression<F>(
    field: F,
    type_field: F,
    op: FilterOp,
    value: crate::odata::ValueView,
    values: Seq<crate::odata::ValueView>,
    children: Seq<NodeView<F>>,
    inner: NodeView<F>,
    rows: Seq<TypeRow>,
    i: int,
)
    ensures
        with_ids(NodeView::Not(Box::new(inner)), type_field, rows) == NodeView::Not(
            Box::new(with_ids(inner, type_field, rows)),
        ),
        with_ids(NodeView::Composite { op, children }, type_field, rows) matches NodeView::Composite {
            op: o,
            children: cs,
        } && o == op && cs.len() == children.len() && (0 <= i < cs.len() ==> cs[i] == with_ids(
            children[i],
            type_field,
            rows,
        )),
        with_ids(NodeView::Binary { field, op, value }, type_field, rows) matches NodeView::Binary {
            field: f,
            op: o,
            value: v,
        } && f == field && o == op && (field != type_field || !(value is String) ==> v == value),
        with_ids(NodeView::InList { field, values }, type_field, rows) matches NodeView::InList {
            field: f,
            values: vs,
        } && f == field && vs.len() == values.len() && (0 <= i < vs.len() && (field != type_field
            || !(values[i] is String)) ==> vs[i] == values[i]),
{
    lemma_all_with_ids(children, type_field, rows, i);
}

proof fn lemma_all_with_ids<F>(
    nodes: Seq<NodeView<F>>,
    type_field: F,
    rows: Seq<TypeRow>,
    i: int,
)
    ensures
        all_with_ids(nodes, type_field, rows).len() == nodes.len(),
        0 <= i < nodes.len() ==> all_with_ids(nodes, type_field, rows)[i] == with_ids(
            nodes[i],
            type_field,
            rows,
        ),
    decreases nodes.len(),
{
    if nodes.len() > 0 {
        lemma_all_with_ids(nodes.drop_last(), type_field, rows, i);
    }
}

proof fn lemma_digits_of_number(n: nat)
    ensures
        crate::decimal::digits_value(crate::decimal::digits_seq(n)) == n,
    decreases n,
{
    let digits = crate::decimal::digits_seq(n);
    if n >= 10 {
        lemma_digits_of_number(n / 10);
        assert(digits.drop_last() =~= crate::decimal::digits_seq(n / 10));
    } else {
        assert(digits.drop_last() =~= Seq::<u8>::empty());
        assert(crate::decimal::digits_value(digits.drop_last()) == 0);
    }
}

/// A path that the type field is compared with becomes the number under which a
/// type with this path is stored.
pub proof fn path_becomes_the_stored_number<F>(
    type_field: F,
    op: FilterOp,
    path: Seq<char>,
    values: Seq<crate::odata::ValueView>,
    rows: Seq<TypeRow>,
    i: int,
)
    ensures
        (exists|j: int| 0 <= j < rows.len() && (#[trigger] rows[j]).schema_id@ == path) ==> (with_ids(
            NodeView::Binary {
                field: type_field,
                op,
                value: crate::odata::ValueView::String(path),
            },
            type_field,
            rows,
        ) matches NodeView::Binary { value, .. } && is_stored_number(value, path, rows)),
        0 <= i < values.len() && values[i] == crate::odata::ValueView::String(path) && (exists|j: int|
            0 <= j < rows.len() && (#[trigger] rows[j]).schema_id@ == path) ==> (with_ids(
            NodeView::InList { field: type_field, values },
            type_field,
            rows,
        ) matches NodeView::InList { values: vs, .. } && is_stored_number(vs[i], path, rows)),
{
    found_id_is_a_rows(rows, path);
    if let Some(id) = id_of(rows, path) {
        let j = choose|j: int|
            0 <= j < rows.len() && (#[trigger] rows[j]).schema_id@ == path && rows[j].id == id;
        lemma_digits_of_number(if id < 0 { -id } else { id as int } as nat);
        assert(is_stored_number(id_literal(id), path, rows)) by {
            assert(rows[j].schema_id@ == path);
        }
    }
}

/// Whether a literal is the number under which a type with this path is stored.
pub open spec fn is_stored_number(
    value: crate::odata::ValueView,
    path: Seq<char>,
    rows: Seq<TypeRow>,
) -> bool {
    &&& value matches crate::odata::ValueView::Number(negative, digits, scale) && scale == 0
        && exists|j: int|
        0 <= j < rows.len() && (#[trigger] rows[j]).schema_id@ == path
            && crate::decimal::unscaled(negative, digits) == rows[j].id && negative == (rows[j].id
            < 0)
}

/// The paths of an expression are those that its parts compare the type field
/// with: of a negation those of what it negates, of a composition those of its
/// parts, of a comparison with the type field its text, of a list its texts.
pub proof fn paths_are_those_of_the_parts<F>(
    field: F,
    type_field: F,
    op: FilterOp,
    value: crate::odata::ValueView,
    values: Seq<crate::odata::ValueView>,
    children: Seq<NodeView<F>>,
    inner: NodeView<F>,
    path: Seq<char>,
)
    ensures
        paths_in(NodeView::Not(Box::new(inner)), type_field).contains(path) <==> paths_in(
            inner,
            type_field,
        ).contains(path),
        paths_in(NodeView::Composite { op, children }, type_field).contains(path) <==> exists|i: int|
            0 <= i < children.len() && paths_in(#[trigger] children[i], type_field).contains(path),
        paths_in(NodeView::Binary { field, op, value }, type_field).contains(path) <==> field
            == type_field && value == crate::odata::ValueView::String(path),
        paths_in(NodeView::InList { field, values }, type_field).contains(path) <==> field
            == type_field && exists|i: int|
            0 <= i < values.len() && #[trigger] values[i] == crate::odata::ValueView::String(path),
{
    lemma_paths_among(children, type_field, path);
    lemma_strings_among(values, path);
    let own = paths_in(NodeView::Binary { field, op, value }, type_field);
    if field == type_field && value == crate::odata::ValueView::String(path) {
        assert(own[0] == path);
    }
}

proof fn lemma_paths_among<F>(nodes: Seq<NodeView<F>>, type_field: F, path: Seq<char>)
    ensures
        paths_among(nodes, type_field).contains(path) <==> exists|i: int|
            0 <= i < nodes.len() && paths_in(#[trigger] nodes[i], type_field).contains(path),
    decreases nodes.len(),
{
    if nodes.len() > 0 {
        let head = nodes.drop_last();
        let before = paths_among(head, type_field);
        let own = paths_in(nodes.last(), type_field);
        let all = paths_among(nodes, type_field);
        lemma_paths_among(head, type_field, path);
        assert(forall|i: int| 0 <= i < head.len() ==> head[i] == #[trigger] nodes[i]);
        if all.contains(path) {
            let k = choose|k: int| 0 <= k < all.len() && all[k] == path;
            if k < before.len() {
                assert(before[k] == path);
                let i = choose|i: int|
                    0 <= i < head.len() && paths_in(#[trigger] head[i], type_field).contains(path);
                assert(paths_in(nodes[i], type_field).contains(path));
            } else {
                assert(own[k - before.len()] == path);
                assert(paths_in(nodes[nodes.len() - 1], type_field).contains(path));
            }
        }
        if exists|i: int|
            0 <= i < nodes.len() && paths_in(#[trigger] nodes[i], type_field).contains(path) {
            let i = choose|i: int|
                0 <= i < nodes.len() && paths_in(#[trigger] nodes[i], type_field).contains(path);
            if i < head.len() {
                assert(paths_in(head[i], type_field).contains(path));
                let k = choose|k: int| 0 <= k < before.len() && before[k] == path;
                assert(all[k] == path);
            } else {
                let k = choose|k: int| 0 <= k < own.len() && own[k] == path;
                assert(all[before.len() + k] == path);
            }
        }
    }
}

proof fn lemma_strings_among(values: Seq<crate::odata::ValueView>, path: Seq<char>)
    ensures
        strings_among(values).contains(path) <==> exists|i: int|
            0 <= i < values.len() && #[trigger] values[i] == crate::odata::ValueView::String(path),
    decreases values.len(),
{
    if values.len() > 0 {
        let head = values.drop_last();
        let before = strings_among(head);
        let all = strings_among(values);
        lemma_strings_among(head, path);
        assert(forall|i: int| 0 <= i < head.len() ==> head[i] == #[trigger] values[i]);
        if all.contains(path) {
            let k = choose|k: int| 0 <= k < all.len() && all[k] == path;
            if k < before.len() {
                assert(before[k] == path);
                let i = choose|i: int|
                    0 <= i < head.len() && #[trigger] head[i] == crate::odata::ValueView::String(
                        path,
                    );
                assert(values[i] == crate::odata::ValueView::String(path));
            } else {
                assert(values[values.len() - 1] == crate::odata::ValueView::String(path));
            }
        }
        if exists|i: int|
            0 <= i < values.len() && #[trigger] values[i] == crate::odata::ValueView::String(path) {
            let i = choose|i: int|
                0 <= i < values.len() && #[trigger] values[i] == crate::odata::ValueView::String(
                    path,
                );
            if i < head.len() {
                assert(head[i] == crate::odata::ValueView::String(path));
                let k = choose|k: int| 0 <= k < before.len() && before[k] == path;
                assert(all[k] == path);
            } else {
                assert(all[before.len() as int] == path);
            }
        }
    }
}

/// What the store is asked for is every path of a list, each once.
pub proof fn asked_paths_are_the_distinct_ones(paths: Seq<Seq<char>>, path: Seq<char>)
    ensures
        firsts(paths).contains(path) <==> paths.contains(path),
        firsts(paths).no_duplicates(),
    decreases paths.len(),
{
    if paths.len() > 0 {
        let head = paths.drop_last();
        let before = firsts(head);
        let all = firsts(paths);
        asked_paths_are_the_distinct_ones(head, path);
        asked_paths_are_the_distinct_ones(head, paths.last());
        if paths.contains(path) {
            let k = choose|k: int| 0 <= k < paths.len() && paths[k] == path;
            lemma_firsts_contains(paths, k);
        }
        if all.contains(path) {
            let k = choose|k: int| 0 <= k < all.len() && all[k] == path;
            if k < before.len() {
                assert(before[k] == path);
                let m = choose|m: int| 0 <= m < head.len() && head[m] == path;
                assert(paths[m] == path);
            } else {
                assert(paths[paths.len() - 1] == path);
            }
        }
        if !before.contains(paths.last()) {
            assert forall|a: int, b: int| 0 <= a < all.len() && 0 <= b < all.len() && a != b implies
                all[a] != all[b] by {
                if a < before.len() && b < before.len() {
                    assert(before[a] != before[b]);
                } else if a < before.len() {
                    assert(before.contains(before[a]));
                } else if b < before.len() {
                    assert(before.contains(before[b]));
                }
            }
        }
    }
}

/// A list of paths is refused exactly where one of them is no stored type's; the
/// one that is named is the first of those.
pub proof fn first_unknown_path_is_named(paths: Seq<Seq<char>>, rows: Seq<TypeRow>)
    ensures
        first_unknown(paths, rows) is None <==> forall|i: int|
            0 <= i < paths.len() ==> exists|j: int|
                0 <= j < rows.len() && (#[trigger] rows[j]).schema_id@ == #[trigger] paths[i],
        first_unknown(paths, rows) matches Some(path) ==> exists|i: int|
            0 <= i < paths.len() && #[trigger] paths[i] == path && id_of(rows, path) is None
                && forall|k: int| 0 <= k < i ==> id_of(rows, #[trigger] paths[k]) is Some,
    decreases paths.len(),
{
    if paths.len() > 0 {
        let head = paths.drop_last();
        first_unknown_path_is_named(head, rows);
        assert(forall|i: int| 0 <= i < head.len() ==> head[i] == #[trigger] paths[i]);
        found_id_is_a_rows(rows, paths.last());
        match first_unknown(head, rows) {
            Some(path) => {
                let i = choose|i: int|
                    0 <= i < head.len() && #[trigger] head[i] == path && id_of(rows, path) is None
                        && forall|k: int| 0 <= k < i ==> id_of(rows, #[trigger] head[k]) is Some;
                assert(paths[i] == path);
                assert forall|k: int| 0 <= k < i implies id_of(rows, #[trigger] paths[k]) is Some by {
                    assert(id_of(rows, head[k]) is Some);
                }
                found_id_is_a_rows(rows, path);
                assert(!(exists|j: int|
                    0 <= j < rows.len() && (#[trigger] rows[j]).schema_id@ == paths[i]));
            },
            None => {
                let last = paths.len() - 1;
                assert forall|k: int| 0 <= k < last implies id_of(rows, #[trigger] paths[k])
                    is Some by {
                    assert(head[k] == paths[k]);
                    found_id_is_a_rows(rows, paths[k]);
                }
                assert(paths[last] == paths.last());
                if id_of(rows, paths.last()) is Some {
                    assert forall|i: int| 0 <= i < paths.len() implies exists|j: int|
                        0 <= j < rows.len() && (#[trigger] rows[j]).schema_id@
                            == #[trigger] paths[i] by {
                        if i < head.len() {
                            assert(head[i] == paths[i]);
                        }
                    }
                }
            },
        }
    }
}

/// The codes that are reported as unknown are those of the list that are no
/// stored type's, in its order.
pub proof fn unknown_codes_are_those_without_a_row(codes: Seq<Seq<char>>, rows: Seq<TypeRow>)
    ensures
        unknown_codes(codes, rows) == codes.filter(
            |code: Seq<char>|
                !(exists|j: int| 0 <= j < rows.len() && (#[trigger] rows[j]).schema_id@ == code),
        ),
    decreases codes.len(),
{
    reveal(Seq::filter);
    if codes.len() > 0 {
        unknown_codes_are_those_without_a_row(codes.drop_last(), rows);
        found_id_is_a_rows(rows, codes.last());
    }
}

/// A group that is reported under a type that is to go stands under a parent
/// that is among those read and has that type; it is reported with the path of
/// the type, its identifier and its name.
pub proof fn reported_group_stands_under_a_removed_type(
    groups: Seq<GroupRow>,
    parents: Seq<GroupRow>,
    types: Seq<TypeRow>,
    k: int,
)
    requires
        0 <= k < violations(groups, parents, types).len(),
    ensures
        exists|i: int, p: int, j: int|
            0 <= i < groups.len() && 0 <= p < parents.len() && 0 <= j < types.len() && (
            #[trigger] groups[i]).parent_id == Some((#[trigger] parents[p]).id)
                && parents[p].gts_type_id == (#[trigger] types[j]).id && violations(
                groups,
                parents,
                types,
            )[k] == (types[j].schema_id@, groups[i].id, groups[i].name@),
    decreases groups.len(),
{
    let head = groups.drop_last();
    let before = violations(head, parents, types);
    if k < before.len() {
        reported_group_stands_under_a_removed_type(head, parents, types, k);
        let (i, p, j) = choose|i: int, p: int, j: int|
            0 <= i < head.len() && 0 <= p < parents.len() && 0 <= j < types.len() && (
            #[trigger] head[i]).parent_id == Some((#[trigger] parents[p]).id)
                && parents[p].gts_type_id == (#[trigger] types[j]).id && before[k] == (
                types[j].schema_id@,
                head[i].id,
                head[i].name@,
            );
        assert(groups[i].parent_id == Some(parents[p].id));
        assert(parents[p].gts_type_id == types[j].id);
    } else {
        let last = groups.len() - 1;
        let pid = groups[last].parent_id->0;
        lemma_group_type_of(parents, pid);
        let type_id = group_type_of(parents, pid)->0;
        let p = choose|p: int|
            0 <= p < parents.len() && (#[trigger] parents[p]).id == pid && parents[p].gts_type_id
                == type_id;
        found_code_is_a_rows(types, type_id);
        let j = choose|j: int|
            0 <= j < types.len() && (#[trigger] types[j]).id == type_id && types[j].schema_id@
                == code_of(types, type_id)->0;
        assert(groups[last].parent_id == Some(parents[p].id));
        assert(parents[p].gts_type_id == types[j].id);
    }
}

proof fn lemma_group_type_of(groups: Seq<GroupRow>, id: Uuid)
    ensures
        group_type_of(groups, id) is Some <==> exists|i: int|
            0 <= i < groups.len() && (#[trigger] groups[i]).id == id,
        group_type_of(groups, id) matches Some(t) ==> exists|i: int|
            0 <= i < groups.len() && (#[trigger] groups[i]).id == id && groups[i].gts_type_id == t,
    decreases groups.len(),
{
    if groups.len() > 0 {
        let head = groups.drop_last();
        lemma_group_type_of(head, id);
        assert(forall|i: int| 0 <= i < head.len() ==> head[i] == #[trigger] groups[i]);
        if groups.last().id == id {
            assert(groups[groups.len() - 1].id == id);
        } else if group_type_of(head, id) is Some {
            let i = choose|i: int|
                0 <= i < head.len() && (#[trigger] head[i]).id == id && head[i].gts_type_id
                    == group_type_of(head, id)->0;
            assert(groups[i].id == id);
        } else {
            assert forall|i: int| 0 <= i < groups.len() implies (#[trigger] groups[i]).id != id by {
                if i < head.len() {
                    assert(head[i].id != id);
                }
            }
        }
    }
}

/// Every group that stands under a parent of a type that is to go is reported,
/// where each parent and each type was read once.
pub proof fn group_under_a_removed_type_is_reported(
    groups: Seq<GroupRow>,
    parents: Seq<GroupRow>,
    types: Seq<TypeRow>,
    i: int,
    p: int,
    j: int,
)
    requires
        0 <= i < groups.len(),
        0 <= p < parents.len(),
        0 <= j < types.len(),
        groups[i].parent_id == Some(parents[p].id),
        parents[p].gts_type_id == types[j].id,
        forall|a: int, b: int|
            0 <= a < b < parents.len() ==> (#[trigger] parents[a]).id != (#[trigger] parents[b]).id,
        forall|a: int, b: int|
            0 <= a < b < types.len() ==> (#[trigger] types[a]).id != (#[trigger] types[b]).id,
    ensures
        violations(groups, parents, types).contains(
            (types[j].schema_id@, groups[i].id, groups[i].name@),
        ),
    decreases groups.len(),
{
    let head = groups.drop_last();
    let before = violations(head, parents, types);
    let all = violations(groups, parents, types);
    let entry = (types[j].schema_id@, groups[i].id, groups[i].name@);
    if i < head.len() {
        group_under_a_removed_type_is_reported(head, parents, types, i, p, j);
        let k = choose|k: int| 0 <= k < before.len() && before[k] == entry;
        assert(all[k] == entry);
    } else {
        let pid = parents[p].id;
        lemma_group_type_of(parents, pid);
        assert(parents[p].id == pid);
        let q = choose|q: int|
            0 <= q < parents.len() && (#[trigger] parents[q]).id == pid && parents[q].gts_type_id
                == group_type_of(parents, pid)->0;
        assert(q == p);
        found_code_is_a_rows(types, types[j].id);
        assert(types[j].id == types[j].id);
        let m = choose|m: int|
            0 <= m < types.len() && (#[trigger] types[m]).id == types[j].id && types[m].schema_id@
                == code_of(types, types[j].id)->0;
        assert(m == j);
        assert(all[before.len() as int] == entry);
    }
}

/// The parents that the store is asked for are those that the groups have.
pub proof fn asked_parents_are_those_of_the_groups(groups: Seq<GroupRow>, id: Uuid)
    ensures
        parents_of(groups).contains(id) <==> exists|i: int|
            0 <= i < groups.len() && (#[trigger] groups[i]).parent_id == Some(id),
    decreases groups.len(),
{
    if groups.len() > 0 {
        let head = groups.drop_last();
        let before = parents_of(head);
        let all = parents_of(groups);
        asked_parents_are_those_of_the_groups(head, id);
        assert(forall|i: int| 0 <= i < head.len() ==> head[i] == #[trigger] groups[i]);
        if all.contains(id) {
            let k = choose|k: int| 0 <= k < all.len() && all[k] == id;
            if k < before.len() {
                assert(before[k] == id);
                let i = choose|i: int|
                    0 <= i < head.len() && (#[trigger] head[i]).parent_id == Some(id);
                assert(groups[i].parent_id == Some(id));
            } else {
                assert(groups[groups.len() - 1].parent_id == Some(id));
            }
        }
        if exists|i: int| 0 <= i < groups.len() && (#[trigger] groups[i]).parent_id == Some(id) {
            let i = choose|i: int|
                0 <= i < groups.len() && (#[trigger] groups[i]).parent_id == Some(id);
            if i < head.len() {
                assert(head[i].parent_id == Some(id));
                let k = choose|k: int| 0 <= k < before.len() && before[k] == id;
                assert(all[k] == id);
            } else {
                assert(all[before.len() as int] == id);
            }
        }
    }
}

} // verus!
