//! The `$filter` of a hierarchy query.
//!
//! `parse` is the only place that can refuse a filter. What it accepts has an
//! answer for every row: `HierarchyFilter::matches` says whether the row is
//! selected, and `HierarchyFilter::traversal_bounds` gives an upper bound on
//! the stored distance that no selected row exceeds.

use vstd::prelude::*;
use vstd::string::*;

use crate::decimal::{DecimalFault, DecimalLiteral};
use crate::error::DomainError;
use crate::odata::{FilterNode, FilterOp, HierarchyFilterField, ODataQuery, ODataValue, QueryFilter};
use crate::text::{concat2, concat3, lists_text, text_eq};

verus! {

/// The direction in which a hierarchy is walked. Stored distances are never
/// negative; the depth that a filter compares is signed, and negative for an
/// ancestor.
#[derive(Clone, Copy, Debug, PartialEq, Eq, Structural)]
pub enum HierarchyDirection {
    /// The depth of a row is its stored distance.
    Descendant,
    /// The depth of a row is its stored distance, negated.
    Ancestor,
}

/// An upper bound on the stored distance of the rows that a filter selects.
#[derive(Clone, Copy, Debug, PartialEq, Eq, Structural)]
pub enum TraversalBounds {
    /// No bound is known.
    Unbounded,
    /// No row is selected.
    Empty,
    /// No selected row has a larger distance. The bound may be negative.
    Max(i32),
}

/// The grammar that `parse` accepts, as it is advertised.
pub const FILTER_PARAM_DESCRIPTION: &'static str =
    "OData v4 filter expression\n- hierarchy/depth: eq|ne|gt|ge|lt|le\n- type: eq|ne|in";

/// A comparison of depths.
#[derive(Clone, Copy, Debug, PartialEq, Eq, Structural)]
pub enum Comparison {
    Eq,
    Ne,
    Gt,
    Ge,
    Lt,
    Le,
}

/// A filter that passed `parse`.
#[derive(Debug)]
pub struct HierarchyFilter(Option<Node>);

#[derive(Debug)]
enum Node {
    Depth(Comparison, i64),
    TypeEq(String),
    TypeNe(String),
    TypeIn(Vec<String>),
    And(Vec<Node>),
    Or(Vec<Node>),
    Not(Box<Node>),
}

// -- The predicate that a filter denotes --

/// A predicate on the depth and the type path of a row.
pub enum Predicate {
    Depth(Comparison, int),
    TypeEq(Seq<char>),
    TypeNe(Seq<char>),
    TypeIn(Seq<Seq<char>>),
    And(Seq<Predicate>),
    Or(Seq<Predicate>),
    Not(Box<Predicate>),
}

/// Whether `a` stands in the given relation to `b`.
pub open spec fn compares(op: Comparison, a: int, b: int) -> bool {
    match op {
        Comparison::Eq => a == b,
        Comparison::Ne => a != b,
        Comparison::Gt => a > b,
        Comparison::Ge => a >= b,
        Comparison::Lt => a < b,
        Comparison::Le => a <= b,
    }
}

/// Whether a row with this depth and type path satisfies the predicate.
pub open spec fn selects(p: Predicate, depth: int, type_path: Seq<char>) -> bool
    decreases p,
{
    match p {
        Predicate::Depth(op, v) => compares(op, depth, v),
        Predicate::TypeEq(s) => type_path == s,
        Predicate::TypeNe(s) => type_path != s,
        Predicate::TypeIn(list) => list.contains(type_path),
        Predicate::And(ps) => all_select(ps, depth, type_path),
        Predicate::Or(ps) => any_selects(ps, depth, type_path),
        Predicate::Not(q) => !selects(*q, depth, type_path),
    }
}

/// Whether the row satisfies every predicate of a list.
pub open spec fn all_select(ps: Seq<Predicate>, depth: int, type_path: Seq<char>) -> bool
    decreases ps,
{
    ps.len() == 0 || (all_select(ps.drop_last(), depth, type_path) && selects(
        ps.last(),
        depth,
        type_path,
    ))
}

/// Whether the row satisfies some predicate of a list.
pub open spec fn any_selects(ps: Seq<Predicate>, depth: int, type_path: Seq<char>) -> bool
    decreases ps,
{
    ps.len() > 0 && (any_selects(ps.drop_last(), depth, type_path) || selects(
        ps.last(),
        depth,
        type_path,
    ))
}

// -- From an expression to its predicate --

/// The comparison that an operator stands for, where it stands for one.
pub open spec fn comparison_of(op: FilterOp) -> Option<Comparison> {
    match op {
        FilterOp::Eq => Some(Comparison::Eq),
        FilterOp::Ne => Some(Comparison::Ne),
        FilterOp::Gt => Some(Comparison::Gt),
        FilterOp::Ge => Some(Comparison::Ge),
        FilterOp::Lt => Some(Comparison::Lt),
        FilterOp::Le => Some(Comparison::Le),
        _ => None,
    }
}

/// Why a numeric literal is no depth, where it is none.
pub open spec fn literal_fault(n: DecimalLiteral) -> Option<Seq<char>> {
    if !n.denotes_integer() {
        Some("hierarchy/depth filter value must be an integer"@)
    } else if !(i64::MIN <= n.integer() <= i64::MAX) {
        Some("hierarchy/depth filter value out of range (must fit a 64-bit signed integer)"@)
    } else {
        None
    }
}

/// Why a comparison of a depth or a type path is refused, where it is.
pub open spec fn binary_fault(
    field: HierarchyFilterField,
    op: FilterOp,
    value: ODataValue,
) -> Option<Seq<char>> {
    match field {
        HierarchyFilterField::HierarchyDepth => if comparison_of(op) is None {
            Some(
                "unsupported operator for hierarchy/depth: "@ + crate::odata::op_keyword(op)
                    + " (only eq, ne, gt, ge, lt, le are supported)"@,
            )
        } else if let ODataValue::Number(n) = value {
            literal_fault(n)
        } else {
            Some("hierarchy/depth filter value must be numeric"@)
        },
        HierarchyFilterField::Type => if op != FilterOp::Eq && op != FilterOp::Ne {
            Some(
                "unsupported operator for type: "@ + crate::odata::op_keyword(op)
                    + " (only eq, ne, in are supported)"@,
            )
        } else if value is String {
            None
        } else {
            Some("type filter value must be a string"@)
        },
    }
}

/// Whether every literal of a list is a string.
pub open spec fn all_strings(values: Seq<ODataValue>) -> bool {
    forall|i: int| 0 <= i < values.len() ==> (#[trigger] values[i]) is String
}

/// Why an expression is refused, where it is: the first fault in it, from
/// left to right.
pub open spec fn fault(node: FilterNode<HierarchyFilterField>) -> Option<Seq<char>>
    decreases node,
{
    match node {
        FilterNode::Composite { op, children } => if op == FilterOp::And || op == FilterOp::Or {
            fault_among(children@)
        } else {
            Some(
                "unsupported composite operator in hierarchy $filter: "@
                    + crate::odata::op_keyword(op),
            )
        },
        FilterNode::Not(inner) => fault(*inner),
        FilterNode::Binary { field, op, value } => binary_fault(field, op, value),
        FilterNode::InList { field, values } => match field {
            HierarchyFilterField::HierarchyDepth => Some(
                "unsupported operator for hierarchy/depth: in (only eq, ne, gt, ge, lt, le are supported)"@,
            ),
            HierarchyFilterField::Type => if all_strings(values@) {
                None
            } else {
                Some("type filter value must be a string"@)
            },
        },
    }
}

/// The first fault in a list of expressions.
pub open spec fn fault_among(nodes: Seq<FilterNode<HierarchyFilterField>>) -> Option<Seq<char>>
    decreases nodes,
{
    if nodes.len() == 0 {
        None
    } else {
        match fault_among(nodes.drop_last()) {
            Some(f) => Some(f),
            None => fault(nodes.last()),
        }
    }
}

/// The text of a literal that is a string.
pub open spec fn string_of(value: ODataValue) -> Seq<char> {
    match value {
        ODataValue::String(s) => s@,
        _ => Seq::empty(),
    }
}

/// The predicate that an expression without fault denotes.
pub open spec fn predicate_of(node: FilterNode<HierarchyFilterField>) -> Predicate
    decreases node,
{
    match node {
        FilterNode::Composite { op, children } => if op == FilterOp::And {
            Predicate::And(predicates_of(children@))
        } else {
            Predicate::Or(predicates_of(children@))
        },
        FilterNode::Not(inner) => Predicate::Not(Box::new(predicate_of(*inner))),
        FilterNode::Binary { field, op, value } => match field {
            HierarchyFilterField::HierarchyDepth => Predicate::Depth(
                comparison_of(op)->0,
                value->Number_0.integer(),
            ),
            HierarchyFilterField::Type => if op == FilterOp::Eq {
                Predicate::TypeEq(string_of(value))
            } else {
                Predicate::TypeNe(string_of(value))
            },
        },
        FilterNode::InList { values, .. } => Predicate::TypeIn(
            values@.map_values(|v: ODataValue| string_of(v)),
        ),
    }
}

/// The predicates that a list of expressions denotes.
pub open spec fn predicates_of(nodes: Seq<FilterNode<HierarchyFilterField>>) -> Seq<Predicate>
    decreases nodes,
{
    if nodes.len() == 0 {
        Seq::empty()
    } else {
        predicates_of(nodes.drop_last()).push(predicate_of(nodes.last()))
    }
}

// -- The bound that a predicate gives --

/// An upper bound on stored distances, before it is fitted to 32 bits.
pub enum Ceiling {
    Unbounded,
    Empty,
    At(int),
}

/// The tighter of two bounds.
pub open spec fn tighter(a: Ceiling, b: Ceiling) -> Ceiling {
    match (a, b) {
        (Ceiling::Empty, _) => Ceiling::Empty,
        (_, Ceiling::Empty) => Ceiling::Empty,
        (Ceiling::Unbounded, _) => b,
        (_, Ceiling::Unbounded) => a,
        (Ceiling::At(x), Ceiling::At(y)) => Ceiling::At(
            if x <= y {
                x
            } else {
                y
            },
        ),
    }
}

/// The looser of two bounds.
pub open spec fn looser(a: Ceiling, b: Ceiling) -> Ceiling {
    match (a, b) {
        (Ceiling::Unbounded, _) => Ceiling::Unbounded,
        (_, Ceiling::Unbounded) => Ceiling::Unbounded,
        (Ceiling::Empty, _) => b,
        (_, Ceiling::Empty) => a,
        (Ceiling::At(x), Ceiling::At(y)) => Ceiling::At(
            if x >= y {
                x
            } else {
                y
            },
        ),
    }
}

/// The bound of an exact distance: none can match one that does not fit the
/// stored column.
pub open spec fn exact_ceiling(v: int) -> Ceiling {
    if i32::MIN <= v <= i32::MAX {
        Ceiling::At(v)
    } else {
        Ceiling::Empty
    }
}

/// The bound that one comparison of the depth gives.
pub open spec fn comparison_ceiling(op: Comparison, v: int, direction: HierarchyDirection) -> Ceiling {
    match direction {
        HierarchyDirection::Descendant => match op {
            Comparison::Eq => exact_ceiling(v),
            Comparison::Le => Ceiling::At(v),
            Comparison::Lt => Ceiling::At(v - 1),
            _ => Ceiling::Unbounded,
        },
        HierarchyDirection::Ancestor => match op {
            Comparison::Eq => exact_ceiling(-v),
            Comparison::Ge => Ceiling::At(-v),
            Comparison::Gt => Ceiling::At(-v - 1),
            _ => Ceiling::Unbounded,
        },
    }
}

/// The bound that a predicate gives. A type and a negation give none; a
/// conjunction gives its tightest, a disjunction its loosest.
pub open spec fn ceiling_of(p: Predicate, direction: HierarchyDirection) -> Ceiling
    decreases p,
{
    match p {
        Predicate::Depth(op, v) => comparison_ceiling(op, v, direction),
        Predicate::And(ps) => tightest(ps, direction),
        Predicate::Or(ps) => loosest(ps, direction),
        _ => Ceiling::Unbounded,
    }
}

/// The tightest of the bounds of a list of predicates.
pub open spec fn tightest(ps: Seq<Predicate>, direction: HierarchyDirection) -> Ceiling
    decreases ps,
{
    if ps.len() == 0 {
        Ceiling::Unbounded
    } else {
        tighter(tightest(ps.drop_last(), direction), ceiling_of(ps.last(), direction))
    }
}

/// The loosest of the bounds of a list of predicates.
pub open spec fn loosest(ps: Seq<Predicate>, direction: HierarchyDirection) -> Ceiling
    decreases ps,
{
    if ps.len() == 0 {
        Ceiling::Empty
    } else {
        looser(loosest(ps.drop_last(), direction), ceiling_of(ps.last(), direction))
    }
}

/// A bound fitted to the 32 bits of the stored column.
pub open spec fn fitted(c: Ceiling) -> TraversalBounds {
    match c {
        Ceiling::Unbounded => TraversalBounds::Unbounded,
        Ceiling::Empty => TraversalBounds::Empty,
        Ceiling::At(v) => TraversalBounds::Max(
            if v < i32::MIN {
                i32::MIN
            } else if v > i32::MAX {
                i32::MAX
            } else {
                v as i32
            },
        ),
    }
}

// -- Views of the executable types --

spec fn node_predicate(n: Node) -> Predicate
    decreases n,
{
    match n {
        Node::Depth(op, v) => Predicate::Depth(op, v as int),
        Node::TypeEq(s) => Predicate::TypeEq(s@),
        Node::TypeNe(s) => Predicate::TypeNe(s@),
        Node::TypeIn(list) => Predicate::TypeIn(crate::text::texts(list@)),
        Node::And(children) => Predicate::And(node_predicates(children@)),
        Node::Or(children) => Predicate::Or(node_predicates(children@)),
        Node::Not(inner) => Predicate::Not(Box::new(node_predicate(*inner))),
    }
}

spec fn node_predicates(ns: Seq<Node>) -> Seq<Predicate>
    decreases ns,
{
    if ns.len() == 0 {
        Seq::empty()
    } else {
        node_predicates(ns.drop_last()).push(node_predicate(ns.last()))
    }
}

impl View for HierarchyFilter {
    type V = Option<Predicate>;

    /// The filter's predicate; none for a query without a filter.
    closed spec fn view(&self) -> Option<Predicate> {
        match self.0 {
            None => None,
            Some(n) => Some(node_predicate(n)),
        }
    }
}

/// An upper bound on stored distances, in a width in which no literal and no
/// negation of one overflows.
#[derive(Clone, Copy, Debug, PartialEq, Eq, Structural)]
pub enum Bound {
    Unbounded,
    Empty,
    Val(i128),
}

impl View for Bound {
    type V = Ceiling;

    open spec fn view(&self) -> Ceiling {
        match *self {
            Bound::Unbounded => Ceiling::Unbounded,
            Bound::Empty => Ceiling::Empty,
            Bound::Val(v) => Ceiling::At(v as int),
        }
    }
}

// -- Parsing --

/// What parsing a query's filter gives: its predicate, or the refusal.
pub open spec fn parsed(query: ODataQuery<HierarchyFilterField>) -> Result<
    Option<Predicate>,
    Seq<char>,
> {
    match query.filter {
        QueryFilter::Absent => Ok(None),
        QueryFilter::Rejected(text) => Err("invalid $filter: "@ + text@),
        QueryFilter::Expression(node) => match fault(node) {
            Some(message) => Err(message),
            None => Ok(Some(predicate_of(node))),
        },
    }
}

/// Checks a filter against the fields and operators of a hierarchy query.
///
/// `hierarchy/depth` is compared by `eq`, `ne`, `gt`, `ge`, `lt` or `le` with
/// an integer that fits in 64 bits; `type` is compared by `eq` or `ne` with a
/// string or tested with `in`; `and`, `or` and `not` compose these freely.
/// Everything else is refused as a validation error.
pub fn parse(query: &ODataQuery<HierarchyFilterField>) -> (r: Result<HierarchyFilter, DomainError>)
    ensures
        match parsed(*query) {
            Ok(p) => r matches Ok(f) && f@ == p,
            Err(message) => r matches Err(e) && e@ == crate::error::invalid(message),
        },
{
    match &query.filter {
        QueryFilter::Absent => Ok(HierarchyFilter(None)),
        QueryFilter::Rejected(text) => Err(
            DomainError::validation(concat2("invalid $filter: ", text.as_str())),
        ),
        QueryFilter::Expression(node) => match build_node(node) {
            Ok(n) => Ok(HierarchyFilter(Some(n))),
            Err(e) => Err(e),
        },
    }
}

fn build_node(node: &FilterNode<HierarchyFilterField>) -> (r: Result<Node, DomainError>)
    ensures
        match fault(*node) {
            None => r matches Ok(n) && node_predicate(n) == predicate_of(*node),
            Some(message) => r matches Err(e) && e@ == crate::error::invalid(message),
        },
    decreases node,
{
    match node {
        FilterNode::Composite { op, children } => {
            if *op == FilterOp::And {
                match build_nodes(children) {
                    Ok(ns) => Ok(Node::And(ns)),
                    Err(e) => Err(e),
                }
            } else if *op == FilterOp::Or {
                match build_nodes(children) {
                    Ok(ns) => Ok(Node::Or(ns)),
                    Err(e) => Err(e),
                }
            } else {
                Err(
                    DomainError::validation(
                        concat2(
                            "unsupported composite operator in hierarchy $filter: ",
                            op.keyword(),
                        ),
                    ),
                )
            }
        },
        FilterNode::Not(inner) => match build_node(inner) {
            Ok(n) => Ok(Node::Not(Box::new(n))),
            Err(e) => Err(e),
        },
        FilterNode::Binary { field: HierarchyFilterField::HierarchyDepth, op, value } => {
            match comparison(*op) {
                Some(c) => match value {
                    ODataValue::Number(n) => match extract_i64_literal(n) {
                        Ok(v) => Ok(Node::Depth(c, v)),
                        Err(e) => Err(e),
                    },
                    _ => Err(
                        DomainError::validation(
                            "hierarchy/depth filter value must be numeric".to_owned(),
                        ),
                    ),
                },
                None => Err(
                    DomainError::validation(
                        concat3(
                            "unsupported operator for hierarchy/depth: ",
                            op.keyword(),
                            " (only eq, ne, gt, ge, lt, le are supported)",
                        ),
                    ),
                ),
            }
        },
        FilterNode::Binary { field: HierarchyFilterField::Type, op, value } => match op {
            FilterOp::Eq => match type_literal(value) {
                Ok(s) => Ok(Node::TypeEq(s)),
                Err(e) => Err(e),
            },
            FilterOp::Ne => match type_literal(value) {
                Ok(s) => Ok(Node::TypeNe(s)),
                Err(e) => Err(e),
            },
            _ => Err(
                DomainError::validation(
                    concat3(
                        "unsupported operator for type: ",
                        op.keyword(),
                        " (only eq, ne, in are supported)",
                    ),
                ),
            ),
        },
        FilterNode::InList { field: HierarchyFilterField::Type, values } => {
            match type_literals(values) {
                Ok(items) => Ok(Node::TypeIn(items)),
                Err(e) => Err(e),
            }
        },
        FilterNode::InList { field: HierarchyFilterField::HierarchyDepth, .. } => Err(
            DomainError::validation(
                "unsupported operator for hierarchy/depth: in (only eq, ne, gt, ge, lt, le are supported)".to_owned(),
            ),
        ),
    }
}

fn build_nodes(nodes: &Vec<FilterNode<HierarchyFilterField>>) -> (r: Result<Vec<Node>, DomainError>)
    ensures
        match fault_among(nodes@) {
            None => r matches Ok(ns) && node_predicates(ns@) == predicates_of(nodes@),
            Some(message) => r matches Err(e) && e@ == crate::error::invalid(message),
        },
    decreases nodes,
{
    let mut out: Vec<Node> = Vec::new();
    let mut i: usize = 0;
    while i < nodes.len()
        invariant
            i <= nodes.len(),
            fault_among(nodes@.take(i as int)) is None,
            node_predicates(out@) == predicates_of(nodes@.take(i as int)),
        decreases nodes.len() - i,
    {
        proof {
            assert(nodes@.take(i as int + 1).drop_last() =~= nodes@.take(i as int));
        }
        match build_node(&nodes[i]) {
            Ok(n) => {
                let ghost before = out@;
                out.push(n);
                proof {
                    assert(out@.drop_last() =~= before);
                }
            },
            Err(e) => {
                proof {
                    lemma_first_fault(nodes@, i as int + 1);
                }
                return Err(e);
            },
        }
        i = i + 1;
    }
    proof {
        assert(nodes@.take(nodes@.len() as int) =~= nodes@);
    }
    Ok(out)
}

/// A fault in the first `k` expressions is the first fault of all of them.
proof fn lemma_first_fault(nodes: Seq<FilterNode<HierarchyFilterField>>, k: int)
    requires
        0 <= k <= nodes.len(),
        fault_among(nodes.take(k)) is Some,
    ensures
        fault_among(nodes) == fault_among(nodes.take(k)),
    decreases nodes.len(),
{
    if k == nodes.len() {
        assert(nodes.take(k) =~= nodes);
    } else {
        assert(nodes.drop_last().take(k) =~= nodes.take(k));
        lemma_first_fault(nodes.drop_last(), k);
    }
}

fn comparison(op: FilterOp) -> (r: Option<Comparison>)
    ensures
        r == comparison_of(op),
{
    match op {
        FilterOp::Eq => Some(Comparison::Eq),
        FilterOp::Ne => Some(Comparison::Ne),
        FilterOp::Gt => Some(Comparison::Gt),
        FilterOp::Ge => Some(Comparison::Ge),
        FilterOp::Lt => Some(Comparison::Lt),
        FilterOp::Le => Some(Comparison::Le),
        _ => None,
    }
}

fn type_literal(value: &ODataValue) -> (r: Result<String, DomainError>)
    ensures
        r is Ok <==> *value is String,
        r matches Ok(s) ==> s@ == string_of(*value),
        r matches Err(e) ==> e@ == crate::error::invalid("type filter value must be a string"@),
{
    match value {
        ODataValue::String(s) => Ok(s.clone()),
        _ => Err(DomainError::validation("type filter value must be a string".to_owned())),
    }
}

fn type_literals(values: &Vec<ODataValue>) -> (r: Result<Vec<String>, DomainError>)
    ensures
        r is Ok <==> all_strings(values@),
        r matches Ok(items) ==> crate::text::texts(items@) == values@.map_values(
            |v: ODataValue| string_of(v),
        ),
        r matches Err(e) ==> e@ == crate::error::invalid("type filter value must be a string"@),
{
    let mut out: Vec<String> = Vec::new();
    let mut i: usize = 0;
    while i < values.len()
        invariant
            i <= values.len(),
            out@.len() == i,
            forall|k: int| 0 <= k < i ==> (#[trigger] values@[k]) is String,
            forall|k: int| 0 <= k < i ==> (#[trigger] out@[k])@ == string_of(values@[k]),
        decreases values.len() - i,
    {
        match type_literal(&values[i]) {
            Ok(s) => out.push(s),
            Err(e) => {
                return Err(e);
            },
        }
        i = i + 1;
    }
    proof {
        assert(crate::text::texts(out@) =~= values@.map_values(|v: ODataValue| string_of(v)));
    }
    Ok(out)
}

fn extract_i64_literal(n: &DecimalLiteral) -> (r: Result<i64, DomainError>)
    ensures
        match literal_fault(*n) {
            None => r matches Ok(v) && v == n.integer(),
            Some(message) => r matches Err(e) && e@ == crate::error::invalid(message),
        },
{
    match n.to_i64() {
        Ok(v) => Ok(v),
        Err(DecimalFault::NotInteger) => Err(
            DomainError::validation("hierarchy/depth filter value must be an integer".to_owned()),
        ),
        Err(DecimalFault::OutOfRange) => Err(
            DomainError::validation(
                "hierarchy/depth filter value out of range (must fit a 64-bit signed integer)".to_owned(),
            ),
        ),
    }
}

// -- Bounds --

/// The bound of an exact distance.
pub fn exact_i32(v: i128) -> (r: Bound)
    ensures
        r@ == exact_ceiling(v as int),
        r == if i32::MIN <= v <= i32::MAX {
            Bound::Val(v)
        } else {
            Bound::Empty
        },
{
    if -0x8000_0000 <= v && v <= 0x7fff_ffff {
        Bound::Val(v)
    } else {
        Bound::Empty
    }
}

/// The bound that one comparison of the depth gives.
pub fn leaf_bound(op: Comparison, v: i64, direction: HierarchyDirection) -> (r: Bound)
    ensures
        r@ == comparison_ceiling(op, v as int, direction),
{
    let wide: i128 = v as i128;
    match direction {
        HierarchyDirection::Descendant => match op {
            Comparison::Eq => exact_i32(wide),
            Comparison::Le => Bound::Val(wide),
            Comparison::Lt => Bound::Val(wide - 1),
            Comparison::Ge | Comparison::Gt | Comparison::Ne => Bound::Unbounded,
        },
        HierarchyDirection::Ancestor => match op {
            Comparison::Eq => exact_i32(-wide),
            Comparison::Ge => Bound::Val(-wide),
            Comparison::Gt => Bound::Val(-wide - 1),
            Comparison::Le | Comparison::Lt | Comparison::Ne => Bound::Unbounded,
        },
    }
}

fn combine_and(children: &Vec<Node>, direction: HierarchyDirection) -> (r: Bound)
    ensures
        r@ == tightest(node_predicates(children@), direction),
    decreases children,
{
    let mut acc: Bound = Bound::Unbounded;
    let mut i: usize = 0;
    while i < children.len()
        invariant
            i <= children.len(),
            acc@ == tightest(node_predicates(children@.take(i as int)), direction),
        decreases children.len() - i,
    {
        let b: Bound = bound_for(&children[i], direction);
        proof {
            lemma_predicates_take(children@, i as int);
        }
        acc = match (acc, b) {
            (Bound::Empty, _) => Bound::Empty,
            (_, Bound::Empty) => Bound::Empty,
            (Bound::Unbounded, _) => b,
            (_, Bound::Unbounded) => acc,
            (Bound::Val(x), Bound::Val(y)) => if x <= y {
                Bound::Val(x)
            } else {
                Bound::Val(y)
            },
        };
        i = i + 1;
    }
    proof {
        assert(children@.take(children@.len() as int) =~= children@);
    }
    acc
}

fn combine_or(children: &Vec<Node>, direction: HierarchyDirection) -> (r: Bound)
    ensures
        r@ == loosest(node_predicates(children@), direction),
    decreases children,
{
    let mut acc: Bound = Bound::Empty;
    let mut i: usize = 0;
    while i < children.len()
        invariant
            i <= children.len(),
            acc@ == loosest(node_predicates(children@.take(i as int)), direction),
        decreases children.len() - i,
    {
        let b: Bound = bound_for(&children[i], direction);
        proof {
            lemma_predicates_take(children@, i as int);
        }
        acc = match (acc, b) {
            (Bound::Unbounded, _) => Bound::Unbounded,
            (_, Bound::Unbounded) => Bound::Unbounded,
            (Bound::Empty, _) => b,
            (_, Bound::Empty) => acc,
            (Bound::Val(x), Bound::Val(y)) => if x >= y {
                Bound::Val(x)
            } else {
                Bound::Val(y)
            },
        };
        i = i + 1;
    }
    proof {
        assert(children@.take(children@.len() as int) =~= children@);
    }
    acc
}

proof fn lemma_predicates_take(ns: Seq<Node>, i: int)
    requires
        0 <= i < ns.len(),
    ensures
        node_predicates(ns.take(i + 1)).drop_last() == node_predicates(ns.take(i)),
        node_predicates(ns.take(i + 1)).len() > 0,
        node_predicates(ns.take(i + 1)).last() == node_predicate(ns[i]),
{
    assert(ns.take(i + 1).drop_last() =~= ns.take(i));
    assert(node_predicates(ns.take(i + 1)) == node_predicates(ns.take(i)).push(
        node_predicate(ns[i]),
    ));
    assert(node_predicates(ns.take(i + 1)).drop_last() =~= node_predicates(ns.take(i)));
}

fn bound_for(node: &Node, direction: HierarchyDirection) -> (r: Bound)
    ensures
        r@ == ceiling_of(node_predicate(*node), direction),
    decreases node,
{
    match node {
        Node::Depth(op, v) => leaf_bound(*op, *v, direction),
        Node::TypeEq(_) | Node::TypeNe(_) | Node::TypeIn(_) | Node::Not(_) => Bound::Unbounded,
        Node::And(children) => combine_and(children, direction),
        Node::Or(children) => combine_or(children, direction),
    }
}

fn finalize(bound: Bound) -> (r: TraversalBounds)
    ensures
        r == fitted(bound@),
{
    match bound {
        Bound::Unbounded => TraversalBounds::Unbounded,
        Bound::Empty => TraversalBounds::Empty,
        Bound::Val(v) => {
            if v < -0x8000_0000 {
                TraversalBounds::Max(i32::MIN)
            } else if v > 0x7fff_ffff {
                TraversalBounds::Max(i32::MAX)
            } else {
                TraversalBounds::Max(v as i32)
            }
        },
    }
}

// -- Matching --

fn matches_node(node: &Node, depth: i64, type_path: &str) -> (r: bool)
    ensures
        r == selects(node_predicate(*node), depth as int, type_path@),
    decreases node,
{
    match node {
        Node::Depth(op, v) => match op {
            Comparison::Eq => depth == *v,
            Comparison::Ne => depth != *v,
            Comparison::Gt => depth > *v,
            Comparison::Ge => depth >= *v,
            Comparison::Lt => depth < *v,
            Comparison::Le => depth <= *v,
        },
        Node::TypeEq(s) => text_eq(type_path, s.as_str()),
        Node::TypeNe(s) => !text_eq(type_path, s.as_str()),
        Node::TypeIn(list) => lists_text(list, type_path),
        Node::And(children) => matches_all(children, depth, type_path),
        Node::Or(children) => matches_any(children, depth, type_path),
        Node::Not(inner) => !matches_node(inner, depth, type_path),
    }
}

fn matches_all(children: &Vec<Node>, depth: i64, type_path: &str) -> (r: bool)
    ensures
        r == all_select(node_predicates(children@), depth as int, type_path@),
    decreases children,
{
    let mut i: usize = 0;
    let mut holds: bool = true;
    while i < children.len()
        invariant
            i <= children.len(),
            holds == all_select(node_predicates(children@.take(i as int)), depth as int, type_path@),
        decreases children.len() - i,
    {
        proof {
            lemma_predicates_take(children@, i as int);
        }
        holds = holds && matches_node(&children[i], depth, type_path);
        i = i + 1;
    }
    proof {
        assert(children@.take(children@.len() as int) =~= children@);
    }
    holds
}

fn matches_any(children: &Vec<Node>, depth: i64, type_path: &str) -> (r: bool)
    ensures
        r == any_selects(node_predicates(children@), depth as int, type_path@),
    decreases children,
{
    let mut i: usize = 0;
    let mut holds: bool = false;
    while i < children.len()
        invariant
            i <= children.len(),
            holds == any_selects(node_predicates(children@.take(i as int)), depth as int, type_path@),
        decreases children.len() - i,
    {
        proof {
            lemma_predicates_take(children@, i as int);
        }
        holds = holds || matches_node(&children[i], depth, type_path);
        i = i + 1;
    }
    proof {
        assert(children@.take(children@.len() as int) =~= children@);
    }
    holds
}

impl HierarchyFilter {
    /// Whether the row with this depth and type path is selected. A filter of
    /// a query without one selects every row.
    pub fn matches(&self, depth: i32, type_path: &str) -> (r: bool)
        ensures
            r == (match self@ {
                None => true,
                Some(p) => selects(p, depth as int, type_path@),
            }),
    {
        match &self.0 {
            None => true,
            Some(node) => matches_node(node, depth as i64, type_path),
        }
    }

    /// An upper bound on the stored distance of the selected rows.
    pub fn traversal_bounds(&self, direction: HierarchyDirection) -> (r: TraversalBounds)
        ensures
            r == (match self@ {
                None => TraversalBounds::Unbounded,
                Some(p) => fitted(ceiling_of(p, direction)),
            }),
    {
        match &self.0 {
            None => TraversalBounds::Unbounded,
            Some(node) => finalize(bound_for(node, direction)),
        }
    }
}

// -- Laws --

/// The stored distance of a row at this depth.
pub open spec fn stored_distance(depth: int, direction: HierarchyDirection) -> int {
    match direction {
        HierarchyDirection::Descendant => depth,
        HierarchyDirection::Ancestor => -depth,
    }
}

/// Whether a bound lets a stored distance through.
pub open spec fn admits(bound: TraversalBounds, distance: int) -> bool {
    match bound {
        TraversalBounds::Unbounded => true,
        TraversalBounds::Empty => false,
        TraversalBounds::Max(m) => distance <= m,
    }
}

spec fn lets_through(c: Ceiling, distance: int) -> bool {
    match c {
        Ceiling::Unbounded => true,
        Ceiling::Empty => false,
        Ceiling::At(v) => distance <= v,
    }
}

proof fn lemma_ceiling_covers(
    p: Predicate,
    depth: int,
    type_path: Seq<char>,
    direction: HierarchyDirection,
)
    requires
        -i32::MAX <= depth <= i32::MAX,
        selects(p, depth, type_path),
    ensures
        lets_through(ceiling_of(p, direction), stored_distance(depth, direction)),
    decreases p,
{
    match p {
        Predicate::And(ps) => {
            lemma_tightest_covers(ps, depth, type_path, direction);
        },
        Predicate::Or(ps) => {
            lemma_loosest_covers(ps, depth, type_path, direction);
        },
        _ => {},
    }
}

proof fn lemma_tightest_covers(
    ps: Seq<Predicate>,
    depth: int,
    type_path: Seq<char>,
    direction: HierarchyDirection,
)
    requires
        -i32::MAX <= depth <= i32::MAX,
        all_select(ps, depth, type_path),
    ensures
        lets_through(tightest(ps, direction), stored_distance(depth, direction)),
    decreases ps,
{
    if ps.len() > 0 {
        lemma_tightest_covers(ps.drop_last(), depth, type_path, direction);
        lemma_ceiling_covers(ps.last(), depth, type_path, direction);
    }
}

proof fn lemma_loosest_covers(
    ps: Seq<Predicate>,
    depth: int,
    type_path: Seq<char>,
    direction: HierarchyDirection,
)
    requires
        -i32::MAX <= depth <= i32::MAX,
        any_selects(ps, depth, type_path),
    ensures
        lets_through(loosest(ps, direction), stored_distance(depth, direction)),
    decreases ps,
{
    if selects(ps.last(), depth, type_path) {
        lemma_ceiling_covers(ps.last(), depth, type_path, direction);
    } else {
        lemma_loosest_covers(ps.drop_last(), depth, type_path, direction);
    }
}

/// The bound that a filter gives never excludes a row that the filter
/// selects, whatever the filter, the direction and the row's type. The depth
/// of a row is a stored distance or its negation, so the least 32-bit integer
/// does not occur.
pub proof fn bound_never_excludes_a_match(
    p: Predicate,
    depth: int,
    type_path: Seq<char>,
    direction: HierarchyDirection,
)
    requires
        -i32::MAX <= depth <= i32::MAX,
        selects(p, depth, type_path),
    ensures
        admits(fitted(ceiling_of(p, direction)), stored_distance(depth, direction)),
{
    lemma_ceiling_covers(p, depth, type_path, direction);
}

/// Whether a predicate is a comparison of the depth, or a disjunction of such
/// predicates.
pub open spec fn is_depth_choice(p: Predicate) -> bool
    decreases p,
{
    match p {
        Predicate::Depth(_, _) => true,
        Predicate::Or(ps) => are_depth_choices(ps),
        _ => false,
    }
}

/// Whether each predicate of a list is such a choice of depths.
pub open spec fn are_depth_choices(ps: Seq<Predicate>) -> bool
    decreases ps,
{
    ps.len() == 0 || (are_depth_choices(ps.drop_last()) && is_depth_choice(ps.last()))
}

proof fn lemma_loosest_is_reached(
    ps: Seq<Predicate>,
    depth: int,
    type_path: Seq<char>,
    direction: HierarchyDirection,
    m: i32,
)
    requires
        are_depth_choices(ps),
        fitted(loosest(ps, direction)) == TraversalBounds::Max(m),
        m > i32::MIN,
        stored_distance(depth, direction) == m,
    ensures
        any_selects(ps, depth, type_path),
    decreases ps,
{
    if fitted(ceiling_of(ps.last(), direction)) == TraversalBounds::Max(m) {
        depth_bound_is_reached(ps.last(), depth, type_path, direction, m);
    } else {
        lemma_loosest_is_reached(ps.drop_last(), depth, type_path, direction, m);
    }
}

/// The bound of a comparison of the depth, or of a disjunction of such, is
/// tight: the filter selects the rows at that very distance, so that no smaller
/// bound would do. The least 32-bit integer is left out, since as a bound it
/// also stands for every smaller one.
pub proof fn depth_bound_is_reached(
    p: Predicate,
    depth: int,
    type_path: Seq<char>,
    direction: HierarchyDirection,
    m: i32,
)
    requires
        is_depth_choice(p),
        fitted(ceiling_of(p, direction)) == TraversalBounds::Max(m),
        m > i32::MIN,
        stored_distance(depth, direction) == m,
    ensures
        selects(p, depth, type_path),
    decreases p,
{
    if let Predicate::Or(ps) = p {
        lemma_loosest_is_reached(ps, depth, type_path, direction, m);
    }
}

/// The comparison with its sides negated.
pub open spec fn mirrored(op: Comparison) -> Comparison {
    match op {
        Comparison::Eq => Comparison::Eq,
        Comparison::Ne => Comparison::Ne,
        Comparison::Gt => Comparison::Lt,
        Comparison::Ge => Comparison::Le,
        Comparison::Lt => Comparison::Gt,
        Comparison::Le => Comparison::Ge,
    }
}

/// Towards ancestors a comparison bounds stored distances as the mirrored
/// comparison with the negated value does towards descendants, and selects the
/// rows at the negated depths.
pub proof fn ancestor_bound_mirrors_descendant_bound(op: Comparison, v: int, depth: int)
    ensures
        comparison_ceiling(op, v, HierarchyDirection::Ancestor) == comparison_ceiling(
            mirrored(op),
            -v,
            HierarchyDirection::Descendant,
        ),
        compares(op, depth, v) <==> compares(mirrored(op), -depth, -v),
{
}

/// Towards descendants `le` bounds stored distances by its value, `lt` by one
/// less, and `eq` by its value where that fits the stored column; the other
/// comparisons give no bound.
pub proof fn descendant_bound_is_the_compared_value(op: Comparison, v: int)
    ensures
        comparison_ceiling(op, v, HierarchyDirection::Descendant) == match op {
            Comparison::Le => Ceiling::At(v),
            Comparison::Lt => Ceiling::At(v - 1),
            Comparison::Eq => exact_ceiling(v),
            Comparison::Ge | Comparison::Gt | Comparison::Ne => Ceiling::Unbounded,
        },
{
}

/// An exact distance is its own bound where it fits the stored column; where it
/// does not, nothing is at that distance.
pub proof fn exact_distance_is_its_own_bound(v: int, distance: int)
    requires
        i32::MIN <= distance <= i32::MAX,
    ensures
        i32::MIN <= v <= i32::MAX ==> exact_ceiling(v) == Ceiling::At(v),
        !(i32::MIN <= v <= i32::MAX) ==> exact_ceiling(v) == Ceiling::Empty && distance != v,
{
}

/// A comparison is accepted exactly where the advertised grammar has it: a
/// depth with one of the six comparisons and an integer of 64 bits, a type
/// path with `eq` or `ne` and a string.
pub proof fn comparison_is_accepted_as_advertised(
    field: HierarchyFilterField,
    op: FilterOp,
    value: ODataValue,
)
    ensures
        fault(FilterNode::Binary { field, op, value }) is None <==> match field {
            HierarchyFilterField::HierarchyDepth => comparison_of(op) is Some && (value matches
                ODataValue::Number(n) && n.denotes_integer() && i64::MIN <= n.integer()
                <= i64::MAX),
            HierarchyFilterField::Type => (op == FilterOp::Eq || op == FilterOp::Ne)
                && value is String,
        },
{
}

/// A list is accepted exactly where the advertised grammar has it: a type path
/// and strings.
pub proof fn list_is_accepted_as_advertised(field: HierarchyFilterField, values: Vec<ODataValue>)
    ensures
        fault(FilterNode::InList { field, values }) is None <==> field
            == HierarchyFilterField::Type && all_strings(values@),
{
}

// -- Laws: what an expression means --

/// The negation of an expression selects exactly the rows that the expression
/// does not select, and is accepted exactly where the expression is.
pub proof fn negation_selects_the_other_rows(
    inner: FilterNode<HierarchyFilterField>,
    depth: int,
    type_path: Seq<char>,
)
    ensures
        selects(predicate_of(FilterNode::Not(Box::new(inner))), depth, type_path) <==> !selects(
            predicate_of(inner),
            depth,
            type_path,
        ),
        fault(FilterNode::Not(Box::new(inner))) == fault(inner),
{
}

/// A conjunction selects the rows that each of its parts selects, a disjunction
/// those that some part selects.
pub proof fn composition_selects_by_its_parts(
    children: Vec<FilterNode<HierarchyFilterField>>,
    depth: int,
    type_path: Seq<char>,
)
    ensures
        selects(
            predicate_of(FilterNode::Composite { op: FilterOp::And, children }),
            depth,
            type_path,
        ) <==> forall|i: int|
            0 <= i < children@.len() ==> selects(
                predicate_of(#[trigger] children@[i]),
                depth,
                type_path,
            ),
        selects(
            predicate_of(FilterNode::Composite { op: FilterOp::Or, children }),
            depth,
            type_path,
        ) <==> exists|i: int|
            0 <= i < children@.len() && selects(
                predicate_of(#[trigger] children@[i]),
                depth,
                type_path,
            ),
{
    lemma_parts(children@, depth, type_path);
}

proof fn lemma_parts(
    nodes: Seq<FilterNode<HierarchyFilterField>>,
    depth: int,
    type_path: Seq<char>,
)
    ensures
        all_select(predicates_of(nodes), depth, type_path) <==> forall|i: int|
            0 <= i < nodes.len() ==> selects(predicate_of(#[trigger] nodes[i]), depth, type_path),
        any_selects(predicates_of(nodes), depth, type_path) <==> exists|i: int|
            0 <= i < nodes.len() && selects(predicate_of(#[trigger] nodes[i]), depth, type_path),
    decreases nodes.len(),
{
    if nodes.len() > 0 {
        let head = nodes.drop_last();
        lemma_parts(head, depth, type_path);
        let ps = predicates_of(nodes);
        assert(ps.drop_last() =~= predicates_of(head));
        assert(forall|i: int| 0 <= i < head.len() ==> head[i] == #[trigger] nodes[i]);
        assert(nodes[nodes.len() - 1] == nodes.last());
        if exists|i: int|
            0 <= i < head.len() && selects(predicate_of(#[trigger] head[i]), depth, type_path) {
            let i = choose|i: int|
                0 <= i < head.len() && selects(predicate_of(#[trigger] head[i]), depth, type_path);
            assert(selects(predicate_of(nodes[i]), depth, type_path));
        }
        if forall|i: int|
            0 <= i < nodes.len() ==> selects(predicate_of(#[trigger] nodes[i]), depth, type_path) {
            assert forall|i: int| 0 <= i < head.len() implies selects(
                predicate_of(#[trigger] head[i]),
                depth,
                type_path,
            ) by {
                assert(selects(predicate_of(nodes[i]), depth, type_path));
            }
        }
    }
}

/// A composition is accepted exactly where it is a conjunction or a disjunction
/// and each of its parts is accepted.
pub proof fn composition_is_accepted_with_its_parts(
    op: FilterOp,
    children: Vec<FilterNode<HierarchyFilterField>>,
)
    ensures
        fault(FilterNode::Composite { op, children }) is None <==> (op == FilterOp::And || op
            == FilterOp::Or) && forall|i: int|
            0 <= i < children@.len() ==> fault(#[trigger] children@[i]) is None,
{
    lemma_faults(children@);
}

proof fn lemma_faults(nodes: Seq<FilterNode<HierarchyFilterField>>)
    ensures
        fault_among(nodes) is None <==> forall|i: int|
            0 <= i < nodes.len() ==> fault(#[trigger] nodes[i]) is None,
    decreases nodes.len(),
{
    if nodes.len() > 0 {
        let head = nodes.drop_last();
        lemma_faults(head);
        assert(forall|i: int| 0 <= i < head.len() ==> head[i] == #[trigger] nodes[i]);
        assert(nodes[nodes.len() - 1] == nodes.last());
        if forall|i: int| 0 <= i < nodes.len() ==> fault(#[trigger] nodes[i]) is None {
            assert forall|i: int| 0 <= i < head.len() implies fault(#[trigger] head[i]) is None by {
                assert(fault(nodes[i]) is None);
            }
        }
    }
}

/// An accepted comparison of the depth selects the rows whose depth stands to
/// the number of the literal as the operator says.
pub proof fn depth_comparison_selects_by_the_number(
    op: FilterOp,
    n: DecimalLiteral,
    depth: int,
    type_path: Seq<char>,
)
    requires
        fault(
            FilterNode::Binary {
                field: HierarchyFilterField::HierarchyDepth,
                op,
                value: ODataValue::Number(n),
            },
        ) is None,
    ensures
        selects(
            predicate_of(
                FilterNode::Binary {
                    field: HierarchyFilterField::HierarchyDepth,
                    op,
                    value: ODataValue::Number(n),
                },
            ),
            depth,
            type_path,
        ) <==> match op {
            FilterOp::Eq => depth == n.integer(),
            FilterOp::Ne => depth != n.integer(),
            FilterOp::Gt => depth > n.integer(),
            FilterOp::Ge => depth >= n.integer(),
            FilterOp::Lt => depth < n.integer(),
            FilterOp::Le => depth <= n.integer(),
            _ => false,
        },
        n.denotes_integer(),
{
}

/// An accepted comparison of the type selects the rows of that type, or those of
/// every other, and a list the rows whose type is one of those that it holds.
pub proof fn type_comparison_selects_by_the_text(
    op: FilterOp,
    text: String,
    values: Vec<ODataValue>,
    depth: int,
    type_path: Seq<char>,
)
    ensures
        fault(
            FilterNode::Binary {
                field: HierarchyFilterField::Type,
                op,
                value: ODataValue::String(text),
            },
        ) is None ==> (selects(
            predicate_of(
                FilterNode::Binary {
                    field: HierarchyFilterField::Type,
                    op,
                    value: ODataValue::String(text),
                },
            ),
            depth,
            type_path,
        ) <==> if op == FilterOp::Eq {
            type_path == text@
        } else {
            op == FilterOp::Ne && type_path != text@
        }),
        fault(FilterNode::InList { field: HierarchyFilterField::Type, values }) is None ==> (
        selects(
            predicate_of(FilterNode::InList { field: HierarchyFilterField::Type, values }),
            depth,
            type_path,
        ) <==> exists|i: int|
            0 <= i < values@.len() && (#[trigger] values@[i] matches ODataValue::String(s) && s@
                == type_path)),
{
    let strings = values@.map_values(|v: ODataValue| string_of(v));
    if all_strings(values@) {
        if strings.contains(type_path) {
            let i = choose|i: int| 0 <= i < strings.len() && strings[i] == type_path;
            assert(values@[i] is String);
        }
        if exists|i: int|
            0 <= i < values@.len() && (#[trigger] values@[i] matches ODataValue::String(s) && s@
                == type_path) {
            let i = choose|i: int|
                0 <= i < values@.len() && (#[trigger] values@[i] matches ODataValue::String(s) && s@
                    == type_path);
            assert(strings[i] == type_path);
        }
    }
}

/// A query without a filter selects every row; one whose text was no expression
/// is refused, and so is an expression with a fault. What is accepted is the
/// predicate of the expression.
pub proof fn query_is_parsed_by_its_filter(query: ODataQuery<HierarchyFilterField>)
    ensures
        match query.filter {
            QueryFilter::Absent => parsed(query) == Ok::<Option<Predicate>, Seq<char>>(None),
            QueryFilter::Rejected(_) => parsed(query) is Err,
            QueryFilter::Expression(node) => if fault(node) is None {
                parsed(query) == Ok::<Option<Predicate>, Seq<char>>(Some(predicate_of(node)))
            } else {
                parsed(query) is Err
            },
        },
{
}

// -- Laws: how tight a bound is --

/// A conjunction is bounded by each of its parts: no row is read beyond the
/// bound of a part, and none at all where a part selects none.
pub proof fn conjunction_is_bounded_by_each_part(
    ps: Seq<Predicate>,
    i: int,
    direction: HierarchyDirection,
    distance: int,
)
    requires
        0 <= i < ps.len(),
        0 <= distance <= i32::MAX,
        admits(fitted(ceiling_of(Predicate::And(ps), direction)), distance),
    ensures
        admits(fitted(ceiling_of(ps[i], direction)), distance),
    decreases ps.len(),
{
    if i < ps.len() - 1 {
        conjunction_is_bounded_by_each_part(ps.drop_last(), i, direction, distance);
    }
}

/// A conjunction is unbounded only where each of its parts is, and a disjunction
/// only where some part is.
pub proof fn composition_is_unbounded_by_its_parts(
    ps: Seq<Predicate>,
    direction: HierarchyDirection,
)
    ensures
        fitted(ceiling_of(Predicate::And(ps), direction)) is Unbounded <==> forall|i: int|
            0 <= i < ps.len() ==> fitted(ceiling_of(#[trigger] ps[i], direction)) is Unbounded,
        fitted(ceiling_of(Predicate::Or(ps), direction)) is Unbounded <==> exists|i: int|
            0 <= i < ps.len() && fitted(ceiling_of(#[trigger] ps[i], direction)) is Unbounded,
        fitted(ceiling_of(Predicate::And(ps), direction)) is Empty <==> exists|i: int|
            0 <= i < ps.len() && fitted(ceiling_of(#[trigger] ps[i], direction)) is Empty,
        fitted(ceiling_of(Predicate::Or(ps), direction)) is Empty <==> forall|i: int|
            0 <= i < ps.len() ==> fitted(ceiling_of(#[trigger] ps[i], direction)) is Empty,
    decreases ps.len(),
{
    if ps.len() > 0 {
        let head = ps.drop_last();
        composition_is_unbounded_by_its_parts(head, direction);
        assert(forall|i: int| 0 <= i < head.len() ==> head[i] == #[trigger] ps[i]);
        assert(ps[ps.len() - 1] == ps.last());
        if exists|i: int|
            0 <= i < head.len() && fitted(ceiling_of(#[trigger] head[i], direction)) is Unbounded {
            let i = choose|i: int|
                0 <= i < head.len() && fitted(ceiling_of(#[trigger] head[i], direction)) is Unbounded;
            assert(fitted(ceiling_of(ps[i], direction)) is Unbounded);
        }
        if exists|i: int|
            0 <= i < head.len() && fitted(ceiling_of(#[trigger] head[i], direction)) is Empty {
            let i = choose|i: int|
                0 <= i < head.len() && fitted(ceiling_of(#[trigger] head[i], direction)) is Empty;
            assert(fitted(ceiling_of(ps[i], direction)) is Empty);
        }
        if forall|i: int|
            0 <= i < ps.len() ==> fitted(ceiling_of(#[trigger] ps[i], direction)) is Unbounded {
            assert forall|i: int| 0 <= i < head.len() implies fitted(
                ceiling_of(#[trigger] head[i], direction),
            ) is Unbounded by {
                assert(fitted(ceiling_of(ps[i], direction)) is Unbounded);
            }
        }
        if forall|i: int|
            0 <= i < ps.len() ==> fitted(ceiling_of(#[trigger] ps[i], direction)) is Empty {
            assert forall|i: int| 0 <= i < head.len() implies fitted(
                ceiling_of(#[trigger] head[i], direction),
            ) is Empty by {
                assert(fitted(ceiling_of(ps[i], direction)) is Empty);
            }
        }
    }
}

/// A type and a negation bound nothing.
pub proof fn types_and_negations_are_unbounded(
    text: Seq<char>,
    list: Seq<Seq<char>>,
    inner: Predicate,
    direction: HierarchyDirection,
)
    ensures
        fitted(ceiling_of(Predicate::TypeEq(text), direction)) is Unbounded,
        fitted(ceiling_of(Predicate::TypeNe(text), direction)) is Unbounded,
        fitted(ceiling_of(Predicate::TypeIn(list), direction)) is Unbounded,
        fitted(ceiling_of(Predicate::Not(Box::new(inner)), direction)) is Unbounded,
{
}

} // verus!
