//! Numeric literals of a filter expression, of any size.

use vstd::prelude::*;

verus! {

/// A decimal number: a sign, decimal digits with the most significant first,
/// and how many of them stand behind the decimal point. A negative scale puts
/// zeros behind the digits instead.
#[derive(Debug)]
pub struct DecimalLiteral {
    negative: bool,
    digits: Vec<u8>,
    scale: i64,
}

/// Whether every element is a decimal digit.
pub open spec fn are_digits(digits: Seq<u8>) -> bool {
    forall|i: int| 0 <= i < digits.len() ==> (#[trigger] digits[i]) < 10
}

/// The natural number that decimal digits denote.
pub open spec fn digits_value(digits: Seq<u8>) -> nat
    decreases digits.len(),
{
    if digits.len() == 0 {
        0
    } else {
        digits_value(digits.drop_last()) * 10 + digits.last() as nat
    }
}

/// The decimal digits of a natural number.
pub open spec fn digits_seq(n: nat) -> Seq<u8>
    decreases n,
{
    if n < 10 {
        seq![n as u8]
    } else {
        digits_seq(n / 10).push((n % 10) as u8)
    }
}

/// The number without its scale.
pub open spec fn unscaled(negative: bool, digits: Seq<u8>) -> int {
    if negative {
        -(digits_value(digits) as int)
    } else {
        digits_value(digits) as int
    }
}

/// Whether the number `unscaled * 10^-scale` is an integer.
pub open spec fn is_integral(unscaled: int, scale: int) -> bool {
    scale <= 0 || unscaled % vstd::arithmetic::power::pow(10, scale as nat) == 0
}

/// The integer `unscaled * 10^-scale`, where it is one.
pub open spec fn integral_value(unscaled: int, scale: int) -> int {
    if scale <= 0 {
        unscaled * vstd::arithmetic::power::pow(10, (-scale) as nat)
    } else {
        unscaled / vstd::arithmetic::power::pow(10, scale as nat)
    }
}

impl DecimalLiteral {
    #[verifier::type_invariant]
    spec fn well_formed(&self) -> bool {
        are_digits(self.digits@)
    }

    /// Whether the literal has a minus sign.
    pub closed spec fn is_negative(&self) -> bool {
        self.negative
    }

    /// The digits of the literal.
    pub closed spec fn digit_seq(&self) -> Seq<u8> {
        self.digits@
    }

    /// How many digits stand behind the decimal point.
    pub closed spec fn scale_of(&self) -> int {
        self.scale as int
    }

    /// The literal's number without its scale.
    pub open spec fn unscaled_value(&self) -> int {
        unscaled(self.is_negative(), self.digit_seq())
    }

    /// Whether the literal denotes an integer.
    pub open spec fn denotes_integer(&self) -> bool {
        is_integral(self.unscaled_value(), self.scale_of())
    }

    /// The integer that the literal denotes, where it denotes one.
    pub open spec fn integer(&self) -> int {
        integral_value(self.unscaled_value(), self.scale_of())
    }

    /// A literal from its parts; none where an element is no decimal digit.
    pub fn new(negative: bool, digits: Vec<u8>, scale: i64) -> (r: Option<DecimalLiteral>)
        ensures
            r is Some <==> are_digits(digits@),
            r matches Some(d) ==> d.is_negative() == negative && d.digit_seq() == digits@
                && d.scale_of() == scale,
    {
        let mut i: usize = 0;
        while i < digits.len()
            invariant
                i <= digits.len(),
                forall|k: int| 0 <= k < i ==> (#[trigger] digits@[k]) < 10,
            decreases digits.len() - i,
        {
            if digits[i] >= 10 {
                return None;
            }
            i = i + 1;
        }
        Some(DecimalLiteral { negative, digits, scale })
    }

    /// The literal of a 16-bit integer.
    pub fn from_i16(n: i16) -> (r: DecimalLiteral)
        ensures
            r.is_negative() == (n < 0),
            r.digit_seq() == digits_seq(if n < 0 { -n } else { n as int } as nat),
            r.scale_of() == 0,
            r.denotes_integer(),
            r.integer() == n,
    {
        let magnitude: u32 = if n < 0 {
            (-(n as i32)) as u32
        } else {
            n as u32
        };
        let digits: Vec<u8> = digits_of(magnitude);
        let r = DecimalLiteral { negative: n < 0, digits, scale: 0 };
        proof {
            assert(vstd::arithmetic::power::pow(10, 0) == 1) by {
                reveal(vstd::arithmetic::power::pow);
            }
        }
        r
    }

    /// The integer that the literal denotes, where it denotes one that fits
    /// in 64 bits.
    pub fn to_i64(&self) -> (r: Result<i64, DecimalFault>)
        ensures
            r is Ok <==> self.denotes_integer() && i64::MIN <= self.integer() <= i64::MAX,
            r matches Ok(v) ==> v == self.integer(),
            r == Err::<i64, DecimalFault>(DecimalFault::NotInteger) <==> !self.denotes_integer(),
    {
        proof {
            use_type_invariant(self);
        }
        let count: usize = self.digits.len();
        let zero: bool = all_zero(&self.digits);
        proof {
            lemma_digits_bound(self.digits@);
            lemma_zero(self.digits@);
        }
        if self.scale > 0 && self.scale as u64 > count as u64 {
            proof {
                vstd::arithmetic::power::lemma_pow_increases(10, count as nat, self.scale as nat);
                lemma_small_not_integral(self.unscaled_value(), vstd::arithmetic::power::pow(10, self.scale as nat));
            }
            if zero {
                return Ok(0);
            }
            return Err(DecimalFault::NotInteger);
        }
        if self.scale < -19 {
            proof {
                lemma_large(self.unscaled_value(), (-self.scale_of()) as nat);
            }
            if zero {
                return Ok(0);
            }
            return Err(DecimalFault::OutOfRange);
        }
        if !decimal_is_integer(self.negative, &self.digits, self.scale) {
            return Err(DecimalFault::NotInteger);
        }
        let text: String = integer_text(self.negative, &self.digits, self.scale);
        proof {
            lemma_parse_signed_decimal(self.integer());
        }
        match parse_i64(text.as_str()) {
            Some(v) => Ok(v),
            None => Err(DecimalFault::OutOfRange),
        }
    }
}

impl Clone for DecimalLiteral {
    fn clone(&self) -> (r: Self)
        ensures
            r.is_negative() == self.is_negative(),
            r.digit_seq() == self.digit_seq(),
            r.scale_of() == self.scale_of(),
    {
        proof {
            use_type_invariant(self);
        }
        let digits: Vec<u8> = self.digits.clone();
        assert(digits@ =~= self.digits@);
        DecimalLiteral { negative: self.negative, digits, scale: self.scale }
    }
}

/// Why a literal has no 64-bit integer value.
#[derive(Clone, Copy, Debug, PartialEq, Eq, Structural)]
pub enum DecimalFault {
    /// The literal has a fractional part.
    NotInteger,
    /// The literal is an integer that does not fit.
    OutOfRange,
}

/// `bigdecimal::BigDecimal::is_integer` on the number with these parts:
/// whether ten to the power of the scale divides the digits. The scale is
/// bounded, since the call computes that power.
#[verifier::external_body]
fn decimal_is_integer(negative: bool, digits: &Vec<u8>, scale: i64) -> (r: bool)
    requires
        are_digits(digits@),
        -19 <= scale <= digits@.len(),
    ensures
        r == is_integral(unscaled(negative, digits@), scale as int),
{
    let sign = if negative {
        bigdecimal::num_bigint::Sign::Minus
    } else {
        bigdecimal::num_bigint::Sign::Plus
    };
    let whole = bigdecimal::num_bigint::BigInt::from_radix_be(sign, digits, 10).unwrap_or_default();
    bigdecimal::BigDecimal::new(whole, scale).is_integer()
}

/// `bigdecimal::BigDecimal::with_scale` to scale 0 of the number with these
/// parts, rendered by `to_plain_string`: the decimal form of the integer.
#[verifier::external_body]
fn integer_text(negative: bool, digits: &Vec<u8>, scale: i64) -> (r: String)
    requires
        are_digits(digits@),
        -19 <= scale <= digits@.len(),
        is_integral(unscaled(negative, digits@), scale as int),
    ensures
        r@ == crate::text::signed_decimal(integral_value(unscaled(negative, digits@), scale as int)),
{
    let sign = if negative {
        bigdecimal::num_bigint::Sign::Minus
    } else {
        bigdecimal::num_bigint::Sign::Plus
    };
    let whole = bigdecimal::num_bigint::BigInt::from_radix_be(sign, digits, 10).unwrap_or_default();
    bigdecimal::BigDecimal::new(whole, scale).with_scale(0).to_plain_string()
}

/// Whether a text is made of one or more decimal digits.
pub open spec fn is_digit_text(s: Seq<char>) -> bool {
    s.len() > 0 && forall|i: int| 0 <= i < s.len() ==> '0' <= (#[trigger] s[i]) <= '9'
}

/// The natural number that a text of decimal digits denotes.
pub open spec fn digit_text_value(s: Seq<char>) -> nat
    decreases s.len(),
{
    if s.len() == 0 {
        0
    } else {
        (digit_text_value(s.drop_last()) * 10 + (s.last() as int - 48)) as nat
    }
}

/// The integer that a text denotes: decimal digits behind an optional sign.
pub open spec fn integer_of_text(s: Seq<char>) -> Option<int> {
    if s.len() > 0 && s[0] == '-' {
        if is_digit_text(s.skip(1)) {
            Some(-(digit_text_value(s.skip(1)) as int))
        } else {
            None
        }
    } else if s.len() > 0 && s[0] == '+' {
        if is_digit_text(s.skip(1)) {
            Some(digit_text_value(s.skip(1)) as int)
        } else {
            None
        }
    } else if is_digit_text(s) {
        Some(digit_text_value(s) as int)
    } else {
        None
    }
}

/// `i64`'s `FromStr`: an optional sign and one or more decimal digits whose
/// number fits in 64 bits; every other text is refused.
#[verifier::external_body]
fn parse_i64(s: &str) -> (r: Option<i64>)
    ensures
        r == (match integer_of_text(s@) {
            Some(n) => if i64::MIN <= n <= i64::MAX {
                Some(n as i64)
            } else {
                None
            },
            None => None,
        }),
{
    s.parse::<i64>().ok()
}

/// Whether every digit is zero.
fn all_zero(digits: &Vec<u8>) -> (r: bool)
    ensures
        r <==> (forall|i: int| 0 <= i < digits@.len() ==> (#[trigger] digits@[i]) == 0),
{
    let mut i: usize = 0;
    while i < digits.len()
        invariant
            i <= digits.len(),
            forall|k: int| 0 <= k < i ==> (#[trigger] digits@[k]) == 0,
        decreases digits.len() - i,
    {
        if digits[i] != 0 {
            return false;
        }
        i = i + 1;
    }
    true
}

/// The decimal digits of a natural number.
fn digits_of(n: u32) -> (r: Vec<u8>)
    ensures
        are_digits(r@),
        digits_value(r@) == n,
        r@ == digits_seq(n as nat),
    decreases n,
{
    if n < 10 {
        let mut out: Vec<u8> = Vec::new();
        out.push(n as u8);
        proof {
            assert(out@.drop_last() =~= Seq::<u8>::empty());
            reveal_with_fuel(digits_value, 2);
        }
        out
    } else {
        let mut out: Vec<u8> = digits_of(n / 10);
        let ghost head = out@;
        out.push((n % 10) as u8);
        proof {
            assert(out@.drop_last() =~= head);
        }
        out
    }
}

proof fn lemma_digits_bound(digits: Seq<u8>)
    requires
        are_digits(digits),
    ensures
        digits_value(digits) < vstd::arithmetic::power::pow(10, digits.len()),
    decreases digits.len(),
{
    reveal(vstd::arithmetic::power::pow);
    if digits.len() > 0 {
        lemma_digits_bound(digits.drop_last());
        assert(vstd::arithmetic::power::pow(10, digits.len()) == 10 * vstd::arithmetic::power::pow(10, (digits.len() - 1) as nat));
    }
}

proof fn lemma_zero(digits: Seq<u8>)
    requires
        are_digits(digits),
    ensures
        digits_value(digits) == 0 <==> (forall|i: int|
            0 <= i < digits.len() ==> (#[trigger] digits[i]) == 0),
    decreases digits.len(),
{
    if digits.len() > 0 {
        lemma_zero(digits.drop_last());
        let head = digits.drop_last();
        if digits_value(digits) == 0 {
            assert forall|i: int| 0 <= i < digits.len() implies (#[trigger] digits[i]) == 0 by {
                if i < head.len() {
                    assert(head[i] == digits[i]);
                }
            }
        }
        if forall|i: int| 0 <= i < digits.len() ==> (#[trigger] digits[i]) == 0 {
            assert(forall|i: int| 0 <= i < head.len() ==> (#[trigger] head[i]) == digits[i]);
            assert(digits[digits.len() - 1] == 0);
        }
    }
}

/// Below ten to the power of the scale, only zero is divisible by it.
proof fn lemma_small_not_integral(n: int, d: int)
    requires
        -d < n < d,
        d > 0,
    ensures
        n % d == 0 <==> n == 0,
        n == 0 ==> n / d == 0,
{
    assert(n % d == 0 ==> n == 0 || n >= d || n <= -d) by (nonlinear_arith)
        requires
            d > 0,
    {
        assert(n == d * (n / d) + n % d);
        let q = n / d;
        assert(q >= 1 ==> d * q >= d);
        assert(q <= -1 ==> d * q <= -d);
    }
    assert(n == 0 ==> n % d == 0 && n / d == 0) by (nonlinear_arith)
        requires
            d > 0,
    ;
}

/// Twenty or more zeros behind a number other than zero take it out of the
/// 64-bit range.
proof fn lemma_large(n: int, e: nat)
    requires
        e > 19,
    ensures
        n != 0 ==> n * vstd::arithmetic::power::pow(10, e) > i64::MAX || n * vstd::arithmetic::power::pow(10, e) < i64::MIN,
        n == 0 ==> n * vstd::arithmetic::power::pow(10, e) == 0,
{
    vstd::arithmetic::power::lemma_pow_increases(10, 20, e);
    assert(vstd::arithmetic::power::pow(10, 20) == 100_000_000_000_000_000_000) by {
        reveal_with_fuel(vstd::arithmetic::power::pow, 21);
    }
    let p = vstd::arithmetic::power::pow(10, e);
    assert(n >= 1 ==> n * p >= p) by (nonlinear_arith)
        requires
            p > 0,
    ;
    assert(n <= -1 ==> n * p <= -p) by (nonlinear_arith)
        requires
            p > 0,
    ;
    assert(n == 0 ==> n * p == 0) by (nonlinear_arith);
}

proof fn lemma_decimal_text(n: nat)
    ensures
        is_digit_text(crate::text::decimal(n)),
        digit_text_value(crate::text::decimal(n)) == n,
    decreases n,
{
    if n < 10 {
        reveal_with_fuel(digit_text_value, 2);
        assert(crate::text::decimal(n).drop_last() =~= Seq::<char>::empty());
    } else {
        lemma_decimal_text(n / 10);
        assert(crate::text::decimal(n).drop_last() =~= crate::text::decimal(n / 10));
    }
}

proof fn lemma_parse_signed_decimal(n: int)
    ensures
        integer_of_text(crate::text::signed_decimal(n)) == Some(n),
{
    let s = crate::text::signed_decimal(n);
    if n < 0 {
        lemma_decimal_text((-n) as nat);
        assert(s.skip(1) =~= crate::text::decimal((-n) as nat));
    } else {
        lemma_decimal_text(n as nat);
    }
}

// -- Laws --

/// The decimal form of a number reads back as the number: it is made of digits,
/// behind a minus sign for a negative one, and has no zero in front but that of
/// zero itself.
pub proof fn decimal_form_reads_back(n: int)
    ensures
        integer_of_text(crate::text::signed_decimal(n)) == Some(n),
        n < 0 <==> crate::text::signed_decimal(n)[0] == '-',
        n > 0 ==> crate::text::signed_decimal(n)[0] != '0',
        n == 0 ==> crate::text::signed_decimal(n).len() == 1,
{
    lemma_parse_signed_decimal(n);
    if n >= 0 {
        lemma_decimal_text(n as nat);
        lemma_no_zero_in_front(n as nat);
    }
}

proof fn lemma_no_zero_in_front(n: nat)
    ensures
        crate::text::decimal(n).len() > 0,
        n > 0 ==> crate::text::decimal(n)[0] != '0',
    decreases n,
{
    if n >= 10 {
        lemma_no_zero_in_front(n / 10);
    }
}

/// Digits denote a number by their places: a single digit is itself, digits
/// before others count as many times more as there are places behind them.
pub proof fn digits_count_by_their_places(a: Seq<u8>, b: Seq<u8>, d: u8)
    ensures
        digits_value(seq![d]) == d,
        digits_value(a + b) == digits_value(a) * vstd::arithmetic::power::pow(10, b.len())
            + digits_value(b),
    decreases b.len(),
{
    reveal(vstd::arithmetic::power::pow);
    reveal_with_fuel(digits_value, 2);
    assert(seq![d].drop_last() =~= Seq::<u8>::empty());
    if b.len() == 0 {
        assert(a + b =~= a);
        assert(vstd::arithmetic::power::pow(10, 0) == 1);
    } else {
        digits_count_by_their_places(a, b.drop_last(), d);
        assert((a + b).drop_last() =~= a + b.drop_last());
        let p = vstd::arithmetic::power::pow(10, (b.len() - 1) as nat);
        let q = vstd::arithmetic::power::pow(10, b.len());
        assert(q == 10 * p);
        let x = digits_value(a) as int;
        let y = digits_value(b.drop_last()) as int;
        assert((x * p + y) * 10 + b.last() == x * (10 * p) + (y * 10 + b.last()))
            by (nonlinear_arith);
    }
}

/// A literal denotes the integer that its digits are, with its sign, where the
/// decimal point is moved back by its scale.
pub proof fn literal_denotes_its_scaled_digits(n: DecimalLiteral)
    ensures
        n.scale_of() <= 0 ==> n.denotes_integer() && n.integer() == n.unscaled_value()
            * vstd::arithmetic::power::pow(10, (-n.scale_of()) as nat),
        n.scale_of() > 0 ==> (n.denotes_integer() <==> exists|v: int|
            n.unscaled_value() == #[trigger] (v * vstd::arithmetic::power::pow(
                10,
                n.scale_of() as nat,
            ))),
        n.scale_of() > 0 && n.denotes_integer() ==> n.unscaled_value() == n.integer()
            * vstd::arithmetic::power::pow(10, n.scale_of() as nat),
        n.unscaled_value() == if n.is_negative() {
            -(digits_value(n.digit_seq()) as int)
        } else {
            digits_value(n.digit_seq()) as int
        },
{
    let u = n.unscaled_value();
    if n.scale_of() > 0 {
        let p = vstd::arithmetic::power::pow(10, n.scale_of() as nat);
        vstd::arithmetic::power::lemma_pow_positive(10, n.scale_of() as nat);
        vstd::arithmetic::div_mod::lemma_fundamental_div_mod(u, p);
        assert(u % p == 0 ==> u == (u / p) * p) by (nonlinear_arith)
            requires
                u == p * (u / p) + u % p,
        ;
        if exists|v: int| u == #[trigger] (v * p) {
            let v = choose|v: int| u == #[trigger] (v * p);
            vstd::arithmetic::div_mod::lemma_mod_multiples_basic(v, p);
        }
    }
}

} // verus!
