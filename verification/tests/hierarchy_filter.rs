use resource_group::decimal::DecimalLiteral;
use resource_group::error::DomainError;
use resource_group::hierarchy_filter::{
    exact_i32, leaf_bound, parse, Bound, Comparison, HierarchyDirection, TraversalBounds,
    FILTER_PARAM_DESCRIPTION,
};
use resource_group::odata::{
    FilterNode, FilterOp, HierarchyFilterField, ODataQuery, ODataValue, QueryFilter,
};

type Node = FilterNode<HierarchyFilterField>;

/// The words of a filter expression.
#[derive(Clone, Debug, PartialEq)]
enum Word {
    Name(String),
    Text(String),
    Number(String),
    Open,
    Close,
    Comma,
}

fn words(raw: &str) -> Vec<Word> {
    let chars: Vec<char> = raw.chars().collect();
    let mut out = Vec::new();
    let mut i = 0;
    while i < chars.len() {
        match chars[i] {
            ' ' => i += 1,
            '(' => {
                out.push(Word::Open);
                i += 1;
            }
            ')' => {
                out.push(Word::Close);
                i += 1;
            }
            ',' => {
                out.push(Word::Comma);
                i += 1;
            }
            '\'' => {
                let start = i + 1;
                i = start;
                while chars[i] != '\'' {
                    i += 1;
                }
                out.push(Word::Text(chars[start..i].iter().collect()));
                i += 1;
            }
            c if c.is_ascii_digit() || c == '-' => {
                let start = i;
                while i < chars.len() && (chars[i].is_ascii_digit() || "-.eE".contains(chars[i])) {
                    i += 1;
                }
                out.push(Word::Number(chars[start..i].iter().collect()));
            }
            _ => {
                let start = i;
                while i < chars.len() && (chars[i].is_alphanumeric() || "/_".contains(chars[i])) {
                    i += 1;
                }
                assert!(i > start, "unexpected character in {raw:?}");
                out.push(Word::Name(chars[start..i].iter().collect()));
            }
        }
    }
    out
}

/// A numeric literal, with an optional exponent.
fn number(raw: &str) -> DecimalLiteral {
    let negative = raw.starts_with('-');
    let body = raw.trim_start_matches('-');
    let (mantissa, exponent) = match body.find(['e', 'E']) {
        Some(at) => (&body[..at], body[at + 1..].parse::<i64>().expect("exponent")),
        None => (body, 0),
    };
    let (whole, fraction) = match mantissa.find('.') {
        Some(at) => (&mantissa[..at], &mantissa[at + 1..]),
        None => (mantissa, ""),
    };
    let digits: Vec<u8> = whole.bytes().chain(fraction.bytes()).map(|b| b - b'0').collect();
    DecimalLiteral::new(negative, digits, fraction.len() as i64 - exponent).expect("digits")
}

struct Parser {
    words: Vec<Word>,
    at: usize,
}

impl Parser {
    fn peek(&self) -> Option<&Word> {
        self.words.get(self.at)
    }

    fn next(&mut self) -> Word {
        self.at += 1;
        self.words[self.at - 1].clone()
    }

    fn is_name(&self, name: &str) -> bool {
        self.peek() == Some(&Word::Name(name.to_owned()))
    }

    fn field(&mut self) -> Result<HierarchyFilterField, String> {
        match self.next() {
            Word::Name(n) if n == "hierarchy/depth" => Ok(HierarchyFilterField::HierarchyDepth),
            Word::Name(n) if n == "type" => Ok(HierarchyFilterField::Type),
            other => Err(format!("unknown field {other:?}")),
        }
    }

    fn literal(&mut self) -> ODataValue {
        match self.next() {
            Word::Text(s) => ODataValue::String(s),
            Word::Number(n) => ODataValue::Number(number(&n)),
            other => panic!("no literal: {other:?}"),
        }
    }

    fn any(&mut self) -> Result<Node, String> {
        let mut children = vec![self.all()?];
        while self.is_name("or") {
            self.at += 1;
            children.push(self.all()?);
        }
        Ok(composite(FilterOp::Or, children))
    }

    fn all(&mut self) -> Result<Node, String> {
        let mut children = vec![self.one()?];
        while self.is_name("and") {
            self.at += 1;
            children.push(self.one()?);
        }
        Ok(composite(FilterOp::And, children))
    }

    fn one(&mut self) -> Result<Node, String> {
        if self.is_name("not") {
            self.at += 1;
            return Ok(FilterNode::Not(Box::new(self.one()?)));
        }
        if self.peek() == Some(&Word::Open) {
            self.at += 1;
            let inner = self.any()?;
            assert_eq!(self.next(), Word::Close);
            return Ok(inner);
        }
        for (name, op) in [
            ("contains", FilterOp::Contains),
            ("startswith", FilterOp::StartsWith),
            ("endswith", FilterOp::EndsWith),
        ] {
            if self.is_name(name) {
                self.at += 1;
                assert_eq!(self.next(), Word::Open);
                let field = self.field()?;
                assert_eq!(self.next(), Word::Comma);
                let value = self.literal();
                assert_eq!(self.next(), Word::Close);
                return Ok(FilterNode::Binary { field, op, value });
            }
        }
        let field = self.field()?;
        let op = match self.next() {
            Word::Name(n) => n,
            other => panic!("no operator: {other:?}"),
        };
        if op == "in" {
            assert_eq!(self.next(), Word::Open);
            let mut values = vec![self.literal()];
            while self.peek() == Some(&Word::Comma) {
                self.at += 1;
                values.push(self.literal());
            }
            assert_eq!(self.next(), Word::Close);
            return Ok(FilterNode::InList { field, values });
        }
        let op = match op.as_str() {
            "eq" => FilterOp::Eq,
            "ne" => FilterOp::Ne,
            "gt" => FilterOp::Gt,
            "ge" => FilterOp::Ge,
            "lt" => FilterOp::Lt,
            "le" => FilterOp::Le,
            other => panic!("no operator: {other}"),
        };
        Ok(FilterNode::Binary { field, op, value: self.literal() })
    }
}

fn composite(op: FilterOp, mut children: Vec<Node>) -> Node {
    if children.len() == 1 {
        children.remove(0)
    } else {
        FilterNode::Composite { op, children }
    }
}

fn filter_query(raw: &str) -> ODataQuery<HierarchyFilterField> {
    let mut parser = Parser { words: words(raw), at: 0 };
    let filter = match parser.any() {
        Ok(node) => QueryFilter::Expression(node),
        Err(text) => QueryFilter::Rejected(text),
    };
    ODataQuery { filter }
}

fn no_filter() -> ODataQuery<HierarchyFilterField> {
    ODataQuery { filter: QueryFilter::Absent }
}

fn message(err: DomainError) -> String {
    match err {
        DomainError::Validation { message } => message,
        other => panic!("not a validation error: {other:?}"),
    }
}

fn refusal(raw: &str) -> String {
    message(parse(&filter_query(raw)).expect_err("must be refused"))
}

#[test]
fn hierarchy_filter_integral_decimal_literal_is_accepted() {
    let filter = parse(&filter_query("hierarchy/depth eq 2.0")).expect(
        "2.0 is integral and within i64, so it must be accepted, not rejected as non-integer",
    );

    assert!(filter.matches(2, SWEEP_MATCHING_TYPE), "depth 2 must match");
    assert!(
        !filter.matches(3, SWEEP_MATCHING_TYPE),
        "depth 3 must not match"
    );
    assert!(
        matches!(
            filter.traversal_bounds(HierarchyDirection::Descendant),
            TraversalBounds::Max(2)
        ),
        "an equality on 2 bounds the descendant traversal at 2"
    );
}

#[test]
fn hierarchy_filter_unknown_field_rejected() {
    let err = parse(&filter_query("bogus eq 1")).expect_err("unknown field must be rejected");
    assert!(matches!(err, DomainError::Validation { .. }));
}

#[test]
fn hierarchy_filter_depth_wrong_literal_type_rejected() {
    assert!(parse(&filter_query("hierarchy/depth eq 'x'")).is_err());
}

#[test]
fn hierarchy_filter_type_wrong_literal_type_rejected() {
    assert!(parse(&filter_query("type eq 1")).is_err());
}

#[test]
fn hierarchy_filter_depth_in_rejected() {
    assert!(parse(&filter_query("hierarchy/depth in (1, 2, 3)")).is_err());
}

#[test]
fn hierarchy_filter_type_gt_rejected() {
    assert!(parse(&filter_query("type gt 'a'")).is_err());
}

#[test]
fn hierarchy_filter_type_ge_rejected() {
    assert!(parse(&filter_query("type ge 'a'")).is_err());
}

#[test]
fn hierarchy_filter_type_lt_rejected() {
    assert!(parse(&filter_query("type lt 'a'")).is_err());
}

#[test]
fn hierarchy_filter_type_le_rejected() {
    assert!(parse(&filter_query("type le 'a'")).is_err());
}

#[test]
fn hierarchy_filter_type_contains_rejected() {
    assert!(parse(&filter_query("contains(type, 'a')")).is_err());
}

#[test]
fn hierarchy_filter_type_startswith_rejected() {
    assert!(parse(&filter_query("startswith(type, 'a')")).is_err());
}

#[test]
fn hierarchy_filter_type_endswith_rejected() {
    assert!(parse(&filter_query("endswith(type, 'a')")).is_err());
}

#[test]
fn hierarchy_filter_depth_literal_fractional_rejected() {
    assert!(parse(&filter_query("hierarchy/depth eq 1.5")).is_err());
}

#[test]
fn hierarchy_filter_depth_literal_i64_max_plus_one_rejected() {
    assert!(parse(&filter_query("hierarchy/depth eq 9223372036854775808")).is_err());
}

#[test]
fn hierarchy_filter_depth_literal_i64_min_minus_one_rejected() {
    assert!(parse(&filter_query("hierarchy/depth eq -9223372036854775809")).is_err());
}

#[test]
fn hierarchy_filter_depth_literal_i64_max_accepted() {
    assert!(parse(&filter_query("hierarchy/depth eq 9223372036854775807")).is_ok());
}

#[test]
fn hierarchy_filter_depth_literal_i64_min_accepted() {
    assert!(parse(&filter_query("hierarchy/depth eq -9223372036854775808")).is_ok());
}

#[test]
fn hierarchy_filter_depth_literal_exceeds_i32_is_computed_not_rejected() {
    let filter = parse(&filter_query("hierarchy/depth le 3000000000"))
        .expect("value within i64 range must be accepted");
    assert!(filter.matches(i32::MAX, "t"));
    assert!(filter.matches(0, "t"));
}

#[test]
fn hierarchy_filter_depth_eq_out_of_i32_never_matches_a_real_depth() {
    let filter = parse(&filter_query("hierarchy/depth eq 3000000000")).expect("accepted");
    assert!(!filter.matches(i32::MAX, "t"));
    assert!(!filter.matches(0, "t"));
}

#[test]
fn hierarchy_filter_no_filter_matches_everything() {
    let filter = parse(&no_filter()).expect("absent filter parses");
    assert!(filter.matches(0, "any"));
    assert!(filter.matches(-5, "any"));
    assert!(filter.matches(i32::MAX, "any"));
}

#[test]
fn hierarchy_filter_depth_ne_matches_all_but_excluded_value() {
    let filter = parse(&filter_query("hierarchy/depth ne 3")).expect("accepted");
    assert!(!filter.matches(3, "t"));
    assert!(filter.matches(4, "t"));
    assert!(filter.matches(-3, "t"));
}

#[test]
fn hierarchy_filter_type_ne_matches_all_but_excluded_type() {
    let filter = parse(&filter_query("type ne 'x'")).expect("accepted");
    assert!(!filter.matches(0, "x"));
    assert!(filter.matches(0, "y"));
}

#[test]
fn hierarchy_filter_type_in_matches_membership() {
    let filter = parse(&filter_query("type in ('a', 'b')")).expect("accepted");
    assert!(filter.matches(0, "a"));
    assert!(filter.matches(0, "b"));
    assert!(!filter.matches(0, "c"));
}

#[test]
fn hierarchy_filter_or_matches_either_branch() {
    let filter = parse(&filter_query(
        "hierarchy/depth eq 1 or hierarchy/depth eq 3",
    ))
    .expect("accepted");
    assert!(filter.matches(1, "t"));
    assert!(filter.matches(3, "t"));
    assert!(!filter.matches(2, "t"));
}

#[test]
fn hierarchy_filter_not_negates_inner_predicate() {
    let filter = parse(&filter_query("not (hierarchy/depth le 5)")).expect("accepted");
    assert!(!filter.matches(3, "t"));
    assert!(!filter.matches(5, "t"));
    assert!(filter.matches(6, "t"));
}

#[test]
fn hierarchy_filter_multiple_predicates_on_depth_intersect() {
    let filter = parse(&filter_query(
        "hierarchy/depth ge 1 and hierarchy/depth le 5",
    ))
    .expect("accepted");
    for d in 1..=5 {
        assert!(filter.matches(d, "t"), "depth {d} should be in [1,5]");
    }
    assert!(!filter.matches(0, "t"));
    assert!(!filter.matches(6, "t"));
}

#[test]
fn hierarchy_filter_nested_and_or_evaluates_correctly() {
    let filter = parse(&filter_query(
        "(hierarchy/depth eq 1 or hierarchy/depth eq 2) and type eq 'x'",
    ))
    .expect("accepted");
    assert!(filter.matches(1, "x"));
    assert!(filter.matches(2, "x"));
    assert!(!filter.matches(1, "y"), "type must also match");
    assert!(!filter.matches(3, "x"), "depth must also match");
}

#[test]
fn hierarchy_filter_contradictory_and_matches_nothing() {
    let filter = parse(&filter_query(
        "hierarchy/depth eq 1 and hierarchy/depth eq 3",
    ))
    .expect("accepted");
    for d in -10..=10 {
        assert!(
            !filter.matches(d, "t"),
            "contradictory filter must match no depth, but matched {d}"
        );
    }
}

#[test]
fn hierarchy_filter_type_leaf_bound_is_top_not_bottom() {
    let filter = parse(&filter_query("type eq 'x'")).expect("accepted");
    assert_eq!(
        filter.traversal_bounds(HierarchyDirection::Descendant),
        TraversalBounds::Unbounded
    );
    assert_eq!(
        filter.traversal_bounds(HierarchyDirection::Ancestor),
        TraversalBounds::Unbounded
    );
}

#[test]
fn hierarchy_filter_type_leaf_does_not_narrow_and_bound() {
    let filter = parse(&filter_query("type eq 'x' and hierarchy/depth le 2")).expect("accepted");
    assert_eq!(
        filter.traversal_bounds(HierarchyDirection::Descendant),
        TraversalBounds::Max(2)
    );
}

#[test]
fn hierarchy_filter_depth_ne_bound_is_top() {
    let filter = parse(&filter_query("hierarchy/depth ne 3")).expect("accepted");
    assert_eq!(
        filter.traversal_bounds(HierarchyDirection::Descendant),
        TraversalBounds::Unbounded
    );
    assert_eq!(
        filter.traversal_bounds(HierarchyDirection::Ancestor),
        TraversalBounds::Unbounded
    );
}

#[test]
fn hierarchy_filter_extreme_depth_literals_do_not_panic() {
    for raw in [
        "hierarchy/depth eq -9223372036854775808",
        "hierarchy/depth gt -9223372036854775808",
        "hierarchy/depth lt -9223372036854775808",
        "hierarchy/depth eq 9223372036854775807",
        "hierarchy/depth gt 9223372036854775807",
        "hierarchy/depth lt 9223372036854775807",
    ] {
        let filter = parse(&filter_query(raw)).expect("accepted");
        let _ = filter.traversal_bounds(HierarchyDirection::Descendant);
        let _ = filter.traversal_bounds(HierarchyDirection::Ancestor);
        let _ = filter.matches(0, "t");
        let _ = filter.matches(i32::MIN, "t");
        let _ = filter.matches(i32::MAX, "t");
    }
}

#[test]
fn hierarchy_filter_descendant_self_row_excluded_by_negative_bound_also_fails_match() {
    let filter = parse(&filter_query("hierarchy/depth lt 0")).expect("accepted");
    assert_eq!(
        filter.traversal_bounds(HierarchyDirection::Descendant),
        TraversalBounds::Max(-1)
    );
    assert!(
        !filter.matches(0, "t"),
        "self row must also fail the filter"
    );
}

#[test]
fn hierarchy_filter_ancestor_bound_gt_negative_literal_is_tight() {
    let filter = parse(&filter_query("hierarchy/depth gt -3")).expect("accepted");
    assert_eq!(
        filter.traversal_bounds(HierarchyDirection::Ancestor),
        TraversalBounds::Max(2)
    );
}

#[test]
fn hierarchy_filter_or_bound_requires_both_branches_bounded() {
    let mixed = parse(&filter_query(
        "hierarchy/depth eq 1 or hierarchy/depth ne 3",
    ))
    .expect("accepted");
    assert_eq!(
        mixed.traversal_bounds(HierarchyDirection::Descendant),
        TraversalBounds::Unbounded
    );

    let both_bounded = parse(&filter_query(
        "hierarchy/depth eq 1 or hierarchy/depth eq 3",
    ))
    .expect("accepted");
    assert_eq!(
        both_bounded.traversal_bounds(HierarchyDirection::Descendant),
        TraversalBounds::Max(3)
    );
}

#[test]
fn hierarchy_filter_not_bound_is_top() {
    let filter = parse(&filter_query("not (hierarchy/depth le 5)")).expect("accepted");
    assert_eq!(
        filter.traversal_bounds(HierarchyDirection::Descendant),
        TraversalBounds::Unbounded
    );
    assert_eq!(
        filter.traversal_bounds(HierarchyDirection::Ancestor),
        TraversalBounds::Unbounded
    );
}

#[test]
fn hierarchy_filter_descendant_bound_eq_out_of_i32_is_empty() {
    let filter = parse(&filter_query("hierarchy/depth eq 3000000000")).expect("accepted");
    assert_eq!(
        filter.traversal_bounds(HierarchyDirection::Descendant),
        TraversalBounds::Empty
    );
}

#[test]
fn hierarchy_filter_and_with_empty_child_is_empty() {
    let filter = parse(&filter_query(
        "hierarchy/depth eq 3000000000 and type eq 'x'",
    ))
    .expect("accepted");
    assert_eq!(
        filter.traversal_bounds(HierarchyDirection::Descendant),
        TraversalBounds::Empty
    );
}

const SWEEP_MATCHING_TYPE: &str = "x";
const SWEEP_NON_MATCHING_TYPE: &str = "not-x";

const DEPTH_SWEEP: &[i32] = &[
    i32::MIN + 1,
    -1_000_000,
    -3,
    -2,
    -1,
    0,
    1,
    2,
    3,
    1_000_000,
    i32::MAX - 1,
    i32::MAX,
];

fn assert_bound_never_excludes_a_match(raw: &str) {
    let filter = parse(&filter_query(raw)).unwrap_or_else(|e| panic!("{raw:?} must parse: {}", e.describe()));

    for direction in [HierarchyDirection::Descendant, HierarchyDirection::Ancestor] {
        let bound = filter.traversal_bounds(direction);
        for type_path in [SWEEP_MATCHING_TYPE, SWEEP_NON_MATCHING_TYPE] {
            for &depth in DEPTH_SWEEP {
                if !filter.matches(depth, type_path) {
                    continue;
                }
                let closure_depth: i128 = match direction {
                    HierarchyDirection::Descendant => i128::from(depth),
                    HierarchyDirection::Ancestor => -i128::from(depth),
                };
                match bound {
                    TraversalBounds::Unbounded => {}
                    TraversalBounds::Empty => panic!(
                        "invariant violated: filter {raw:?} matches depth {depth} in \
                     {direction:?}, but its bound claims Empty"
                    ),
                    TraversalBounds::Max(m) => assert!(
                        closure_depth <= i128::from(m),
                        "invariant violated: filter {raw:?} matches depth {depth} in \
                     {direction:?} (closure depth {closure_depth}), but its bound Max({m}) \
                     excludes it"
                    ),
                }
            }
        }
    }
}

#[test]
fn hierarchy_filter_bounds_invariant_holds_across_shapes() {
    for raw in [
        "hierarchy/depth eq 1",
        "hierarchy/depth ne 1",
        "hierarchy/depth gt -3",
        "hierarchy/depth ge -3",
        "hierarchy/depth lt 5",
        "hierarchy/depth le 5",
        "hierarchy/depth gt 0",
        "hierarchy/depth ge 0",
        "hierarchy/depth lt 0",
        "hierarchy/depth le 0",
        "hierarchy/depth eq 1 or hierarchy/depth eq 3",
        "hierarchy/depth eq 1 and hierarchy/depth eq 3",
        "not (hierarchy/depth le 5)",
        "type eq 'x'",
        "type eq 'x' and hierarchy/depth le 2",
        "type eq 'x' or hierarchy/depth le 2",
        "hierarchy/depth eq 3000000000",
        "hierarchy/depth le 3000000000",
        "hierarchy/depth le 9223372036854775807",
        "hierarchy/depth ge -9223372036854775808",
        "hierarchy/depth eq -9223372036854775808",
        "hierarchy/depth eq 9223372036854775807",
    ] {
        assert_bound_never_excludes_a_match(raw);
    }
}

#[test]
fn refusals_say_what_is_wrong() {
    assert_eq!(
        refusal("hierarchy/depth eq 1.5"),
        "hierarchy/depth filter value must be an integer"
    );
    assert_eq!(
        refusal("hierarchy/depth eq 9223372036854775808"),
        "hierarchy/depth filter value out of range (must fit a 64-bit signed integer)"
    );
    assert_eq!(
        refusal("hierarchy/depth eq 'x'"),
        "hierarchy/depth filter value must be numeric"
    );
    assert_eq!(
        refusal("hierarchy/depth in (1, 2)"),
        "unsupported operator for hierarchy/depth: in (only eq, ne, gt, ge, lt, le are supported)"
    );
    assert_eq!(
        refusal("contains(hierarchy/depth, 'a')"),
        "unsupported operator for hierarchy/depth: contains (only eq, ne, gt, ge, lt, le are supported)"
    );
    assert_eq!(
        refusal("type gt 'a'"),
        "unsupported operator for type: gt (only eq, ne, in are supported)"
    );
    assert_eq!(refusal("type eq 1"), "type filter value must be a string");
    assert_eq!(refusal("type in ('a', 1)"), "type filter value must be a string");
    assert_eq!(
        refusal("bogus eq 1"),
        "invalid $filter: unknown field Name(\"bogus\")"
    );
    let odd = ODataQuery {
        filter: QueryFilter::Expression(FilterNode::Composite {
            op: FilterOp::Eq,
            children: vec![],
        }),
    };
    assert_eq!(
        message(parse(&odd).expect_err("must be refused")),
        "unsupported composite operator in hierarchy $filter: eq"
    );
}

#[test]
fn first_fault_from_the_left_is_reported() {
    assert_eq!(
        refusal("hierarchy/depth eq 1 and (type gt 'a' or hierarchy/depth eq 1.5)"),
        "unsupported operator for type: gt (only eq, ne, in are supported)"
    );
}

#[test]
fn literals_with_exponents_are_read_exactly() {
    let filter = parse(&filter_query("hierarchy/depth eq 2e1")).expect("accepted");
    assert!(filter.matches(20, "t"));
    assert!(!filter.matches(2, "t"));
    let filter = parse(&filter_query("hierarchy/depth eq 300e-2")).expect("accepted");
    assert!(filter.matches(3, "t"));
    let filter = parse(&filter_query("hierarchy/depth eq -0.0")).expect("accepted");
    assert!(filter.matches(0, "t"));
    assert_eq!(
        refusal("hierarchy/depth eq 1e400000000"),
        "hierarchy/depth filter value out of range (must fit a 64-bit signed integer)"
    );
    assert_eq!(
        refusal("hierarchy/depth eq 1e-400000000"),
        "hierarchy/depth filter value must be an integer"
    );
    let filter = parse(&filter_query("hierarchy/depth eq 0e400000000")).expect("accepted");
    assert!(filter.matches(0, "t"));
    let filter = parse(&filter_query("hierarchy/depth eq 0e-400000000")).expect("accepted");
    assert!(filter.matches(0, "t"));
}

#[test]
fn bounds_are_fitted_to_the_column() {
    let bound = |raw: &str, direction| {
        parse(&filter_query(raw)).expect("accepted").traversal_bounds(direction)
    };
    let down = HierarchyDirection::Descendant;
    let up = HierarchyDirection::Ancestor;
    assert_eq!(bound("hierarchy/depth le 3000000000", down), TraversalBounds::Max(i32::MAX));
    assert_eq!(bound("hierarchy/depth lt -3000000000", down), TraversalBounds::Max(i32::MIN));
    assert_eq!(bound("hierarchy/depth ge -3", up), TraversalBounds::Max(3));
    assert_eq!(bound("hierarchy/depth ge -3", down), TraversalBounds::Unbounded);
    assert_eq!(bound("hierarchy/depth le 5", up), TraversalBounds::Unbounded);
    assert_eq!(bound("hierarchy/depth eq -2", up), TraversalBounds::Max(2));
    assert_eq!(
        bound("hierarchy/depth le 5 and hierarchy/depth lt 3", down),
        TraversalBounds::Max(2)
    );
    assert_eq!(
        bound("hierarchy/depth eq 3000000000 or hierarchy/depth eq 1", down),
        TraversalBounds::Max(1)
    );
    assert_eq!(
        parse(&no_filter()).expect("accepted").traversal_bounds(down),
        TraversalBounds::Unbounded
    );
    let never = ODataQuery {
        filter: QueryFilter::Expression(FilterNode::Composite {
            op: FilterOp::Or,
            children: vec![],
        }),
    };
    let never = parse(&never).expect("accepted");
    assert_eq!(never.traversal_bounds(down), TraversalBounds::Empty);
    assert!(!never.matches(0, "t"));
}

#[test]
fn advertised_grammar_is_what_is_accepted() {
    assert_eq!(
        FILTER_PARAM_DESCRIPTION,
        "OData v4 filter expression\n- hierarchy/depth: eq|ne|gt|ge|lt|le\n- type: eq|ne|in"
    );
    for op in ["eq", "ne", "gt", "ge", "lt", "le"] {
        assert!(parse(&filter_query(&format!("hierarchy/depth {op} 1"))).is_ok());
        let accepted = parse(&filter_query(&format!("type {op} 'x'"))).is_ok();
        assert_eq!(accepted, op == "eq" || op == "ne");
    }
    assert!(parse(&filter_query("type in ('x')")).is_ok());
}

#[test]
fn literals_take_decimal_digits_only() {
    assert!(DecimalLiteral::new(false, vec![1, 10], 0).is_none());
    assert_eq!(DecimalLiteral::new(true, vec![1, 2], 0).expect("digits").to_i64(), Ok(-12));
    assert_eq!(DecimalLiteral::new(false, vec![], 0).expect("digits").to_i64(), Ok(0));
    assert_eq!(DecimalLiteral::from_i16(-32768).to_i64(), Ok(-32768));
}

#[test]
fn ancestor_bounds_mirror_descendant_bounds() {
    let pairs = [
        ("eq", "eq", TraversalBounds::Max(3)),
        ("ne", "ne", TraversalBounds::Unbounded),
        ("gt", "lt", TraversalBounds::Max(2)),
        ("ge", "le", TraversalBounds::Max(3)),
        ("lt", "gt", TraversalBounds::Unbounded),
        ("le", "ge", TraversalBounds::Unbounded),
    ];
    for (up, down, expected) in pairs {
        let above = parse(&filter_query(&format!("hierarchy/depth {up} -3"))).unwrap();
        let below = parse(&filter_query(&format!("hierarchy/depth {down} 3"))).unwrap();
        assert_eq!(above.traversal_bounds(HierarchyDirection::Ancestor), expected);
        assert_eq!(below.traversal_bounds(HierarchyDirection::Descendant), expected);
        for depth in -5..=5 {
            assert_eq!(above.matches(depth, "a"), below.matches(-depth, "a"));
        }
    }
}

#[test]
fn leaf_bounds_mirror_between_the_directions() {
    let mirrored = [
        (Comparison::Eq, Comparison::Eq),
        (Comparison::Ne, Comparison::Ne),
        (Comparison::Gt, Comparison::Lt),
        (Comparison::Ge, Comparison::Le),
        (Comparison::Lt, Comparison::Gt),
        (Comparison::Le, Comparison::Ge),
    ];
    let values = [0, 1, -1, 7, i64::from(i32::MIN), i64::from(i32::MAX), i64::MIN + 1, i64::MAX];
    for v in values {
        for (op, mirror) in mirrored {
            assert_eq!(
                leaf_bound(op, v, HierarchyDirection::Ancestor),
                leaf_bound(mirror, -v, HierarchyDirection::Descendant)
            );
        }
        let below = |op| leaf_bound(op, v, HierarchyDirection::Descendant);
        assert_eq!(below(Comparison::Le), Bound::Val(i128::from(v)));
        assert_eq!(below(Comparison::Lt), Bound::Val(i128::from(v) - 1));
        assert_eq!(below(Comparison::Eq), exact_i32(i128::from(v)));
        assert_eq!(below(Comparison::Ge), Bound::Unbounded);
        assert_eq!(below(Comparison::Gt), Bound::Unbounded);
        assert_eq!(below(Comparison::Ne), Bound::Unbounded);
    }
    assert_eq!(exact_i32(5), Bound::Val(5));
    assert_eq!(exact_i32(i128::from(i32::MIN) - 1), Bound::Empty);
    assert_eq!(
        leaf_bound(Comparison::Gt, i64::MIN, HierarchyDirection::Ancestor),
        Bound::Val(-i128::from(i64::MIN) - 1)
    );
}

#[test]
fn bounds_of_depth_choices_are_reached() {
    let below = [
        "hierarchy/depth eq 3",
        "hierarchy/depth le 4",
        "hierarchy/depth lt 4",
        "hierarchy/depth eq 1 or hierarchy/depth lt 6",
        "hierarchy/depth le 3000000000 or hierarchy/depth eq 2",
    ];
    for raw in below {
        let filter = parse(&filter_query(raw)).unwrap();
        match filter.traversal_bounds(HierarchyDirection::Descendant) {
            TraversalBounds::Max(m) => assert!(filter.matches(m, "a"), "{raw}"),
            other => panic!("{raw}: {other:?}"),
        }
    }
    let above = ["hierarchy/depth gt -3", "hierarchy/depth ge -2 or hierarchy/depth eq -5"];
    for raw in above {
        let filter = parse(&filter_query(raw)).unwrap();
        match filter.traversal_bounds(HierarchyDirection::Ancestor) {
            TraversalBounds::Max(m) => assert!(filter.matches(-m, "a"), "{raw}"),
            other => panic!("{raw}: {other:?}"),
        }
    }
}
