//! Filter expressions over a list of entities, as a tree.

use vstd::prelude::*;
use vstd::string::*;

use crate::decimal::DecimalLiteral;
use crate::ids::Uuid;

verus! {

/// An operator of a filter expression.
#[derive(Clone, Copy, Debug, PartialEq, Eq, Structural)]
pub enum FilterOp {
    Eq,
    Ne,
    Gt,
    Ge,
    Lt,
    Le,
    In,
    Contains,
    StartsWith,
    EndsWith,
    And,
    Or,
}

/// The keyword of an operator.
pub open spec fn op_keyword(op: FilterOp) -> Seq<char> {
    match op {
        FilterOp::Eq => "eq"@,
        FilterOp::Ne => "ne"@,
        FilterOp::Gt => "gt"@,
        FilterOp::Ge => "ge"@,
        FilterOp::Lt => "lt"@,
        FilterOp::Le => "le"@,
        FilterOp::In => "in"@,
        FilterOp::Contains => "contains"@,
        FilterOp::StartsWith => "startswith"@,
        FilterOp::EndsWith => "endswith"@,
        FilterOp::And => "and"@,
        FilterOp::Or => "or"@,
    }
}

impl FilterOp {
    /// The keyword of the operator.
    pub fn keyword(self) -> (r: &'static str)
        ensures
            r@ == op_keyword(self),
    {
        match self {
            FilterOp::Eq => "eq",
            FilterOp::Ne => "ne",
            FilterOp::Gt => "gt",
            FilterOp::Ge => "ge",
            FilterOp::Lt => "lt",
            FilterOp::Le => "le",
            FilterOp::In => "in",
            FilterOp::Contains => "contains",
            FilterOp::StartsWith => "startswith",
            FilterOp::EndsWith => "endswith",
            FilterOp::And => "and",
            FilterOp::Or => "or",
        }
    }
}

/// A literal of a filter expression.
#[derive(Debug)]
pub enum ODataValue {
    Null,
    Bool(bool),
    Number(DecimalLiteral),
    Uuid(Uuid),
    DateTime(String),
    Date(String),
    Time(String),
    String(String),
}

/// A filter expression over the fields `F`.
#[derive(Debug)]
pub enum FilterNode<F> {
    /// A field compared with a literal.
    Binary { field: F, op: FilterOp, value: ODataValue },
    /// A field tested for membership in a list of literals.
    InList { field: F, values: Vec<ODataValue> },
    /// Expressions under one logical operator.
    Composite { op: FilterOp, children: Vec<FilterNode<F>> },
    /// The negation of an expression.
    Not(Box<FilterNode<F>>),
}

/// The `$filter` of a query, checked against the fields `F`.
#[derive(Debug)]
pub enum QueryFilter<F> {
    /// The query has no filter.
    Absent,
    /// The filter names a field that does not exist or compares one with a
    /// literal of the wrong kind; the text says which.
    Rejected(String),
    /// The filter's expression.
    Expression(FilterNode<F>),
}

/// A query for a list.
#[derive(Debug)]
pub struct ODataQuery<F> {
    pub filter: QueryFilter<F>,
}

/// A set of fields that a filter may name.
pub trait FilterField: Copy {
    /// Whether two fields are the same one.
    fn same(&self, other: &Self) -> (r: bool)
        ensures
            r == (*self == *other),
    ;
}

/// The fields of a hierarchy query.
#[derive(Clone, Copy, Debug, PartialEq, Eq, Structural)]
pub enum HierarchyFilterField {
    /// `hierarchy/depth`: the signed distance from the reference group.
    HierarchyDepth,
    /// `type`: the type path of the group.
    Type,
}

/// The fields of a list of memberships.
#[derive(Clone, Copy, Debug, PartialEq, Eq, Structural)]
pub enum MembershipFilterField {
    GroupId,
    /// `resource_type`: the type path of the member.
    ResourceType,
    ResourceId,
}

/// The fields by which types can be filtered.
#[derive(Debug)]
pub struct TypeQuery {
    pub code: String,
}

impl FilterField for HierarchyFilterField {
    fn same(&self, other: &Self) -> (r: bool) {
        *self == *other
    }
}

impl FilterField for MembershipFilterField {
    fn same(&self, other: &Self) -> (r: bool) {
        *self == *other
    }
}

/// What a literal holds.
pub enum ValueView {
    Null,
    Bool(bool),
    /// Sign, digits and scale.
    Number(bool, Seq<u8>, int),
    Uuid(Uuid),
    DateTime(Seq<char>),
    Date(Seq<char>),
    Time(Seq<char>),
    String(Seq<char>),
}

impl View for ODataValue {
    type V = ValueView;

    open spec fn view(&self) -> ValueView {
        match *self {
            ODataValue::Null => ValueView::Null,
            ODataValue::Bool(b) => ValueView::Bool(b),
            ODataValue::Number(d) =>
                ValueView::Number(d.is_negative(), d.digit_seq(), d.scale_of()),
            ODataValue::Uuid(id) => ValueView::Uuid(id),
            ODataValue::DateTime(s) => ValueView::DateTime(s@),
            ODataValue::Date(s) => ValueView::Date(s@),
            ODataValue::Time(s) => ValueView::Time(s@),
            ODataValue::String(s) => ValueView::String(s@),
        }
    }
}

impl Clone for ODataValue {
    fn clone(&self) -> (r: Self)
        ensures
            r@ == self@,
    {
        match self {
            ODataValue::Null => ODataValue::Null,
            ODataValue::Bool(b) => ODataValue::Bool(*b),
            ODataValue::Number(d) => ODataValue::Number(d.clone()),
            ODataValue::Uuid(id) => ODataValue::Uuid(*id),
            ODataValue::DateTime(s) => ODataValue::DateTime(s.clone()),
            ODataValue::Date(s) => ODataValue::Date(s.clone()),
            ODataValue::Time(s) => ODataValue::Time(s.clone()),
            ODataValue::String(s) => ODataValue::String(s.clone()),
        }
    }
}

} // verus!
