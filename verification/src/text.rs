//! Text: the operations on strings that the rest of the library is written
//! with, each over the sequence of characters that a string holds.

use vstd::prelude::*;
use vstd::string::*;

verus! {

// -- Models --

/// Unicode's `White_Space` property.
pub open spec fn is_white_space(c: char) -> bool {
    ||| '\u{9}' <= c <= '\u{d}'
    ||| c == '\u{20}'
    ||| c == '\u{85}'
    ||| c == '\u{a0}'
    ||| c == '\u{1680}'
    ||| '\u{2000}' <= c <= '\u{200a}'
    ||| c == '\u{2028}'
    ||| c == '\u{2029}'
    ||| c == '\u{202f}'
    ||| c == '\u{205f}'
    ||| c == '\u{3000}'
}

/// `s` without its leading white space.
pub open spec fn trim_front(s: Seq<char>) -> Seq<char>
    decreases s.len(),
{
    if s.len() > 0 && is_white_space(s[0]) {
        trim_front(s.skip(1))
    } else {
        s
    }
}

/// `s` without its trailing white space.
pub open spec fn trim_back(s: Seq<char>) -> Seq<char>
    decreases s.len(),
{
    if s.len() > 0 && is_white_space(s.last()) {
        trim_back(s.drop_last())
    } else {
        s
    }
}

/// `s` without leading and trailing white space.
pub open spec fn trim(s: Seq<char>) -> Seq<char> {
    trim_back(trim_front(s))
}

/// Whether every character of `s` is an ASCII character.
pub open spec fn is_ascii_text(s: Seq<char>) -> bool {
    forall|i: int| 0 <= i < s.len() ==> (#[trigger] s[i]) <= '\u{7f}'
}

/// The lower-case form of an ASCII letter; any other character is its own.
pub open spec fn ascii_lower_char(c: char) -> char {
    if 'A' <= c <= 'Z' {
        ((c as u32) + 32) as char
    } else {
        c
    }
}

/// `s` with every ASCII letter in lower case.
pub open spec fn ascii_lowercase(s: Seq<char>) -> Seq<char> {
    Seq::new(s.len(), |i: int| ascii_lower_char(s[i]))
}

/// What `str::to_lowercase` makes of a text: Unicode's lower-case mapping.
pub uninterp spec fn unicode_lowercase(s: Seq<char>) -> Seq<char>;

/// Whether `part` occurs in `s`.
pub open spec fn has_part(s: Seq<char>, part: Seq<char>) -> bool {
    exists|i: int| 0 <= i <= s.len() - part.len() && #[trigger] s.subrange(i, i + part.len()) == part
}

/// Whether `a` stands before `b` in the lexicographic order of characters,
/// or is equal to it.
pub open spec fn text_le(a: Seq<char>, b: Seq<char>) -> bool
    decreases a.len(),
{
    if a.len() == 0 {
        true
    } else if b.len() == 0 {
        false
    } else if a[0] != b[0] {
        a[0] < b[0]
    } else {
        text_le(a.skip(1), b.skip(1))
    }
}

/// The texts that a list of strings holds.
pub open spec fn texts(v: Seq<String>) -> Seq<Seq<char>> {
    v.map_values(|s: String| s@)
}

/// The texts of `parts`, one after the other, with `separator` between them.
pub open spec fn joined(parts: Seq<Seq<char>>, separator: Seq<char>) -> Seq<char>
    decreases parts.len(),
{
    if parts.len() == 0 {
        Seq::empty()
    } else if parts.len() == 1 {
        parts[0]
    } else {
        joined(parts.drop_last(), separator) + separator + parts.last()
    }
}

/// The character of a decimal digit.
pub open spec fn digit_char(d: nat) -> char {
    ((d + 48) as u32) as char
}

/// The decimal digits of `n`.
pub open spec fn decimal(n: nat) -> Seq<char>
    decreases n,
{
    if n < 10 {
        seq![digit_char(n)]
    } else {
        decimal(n / 10).push(digit_char(n % 10))
    }
}

/// The decimal form of an integer, with a minus sign before a negative one.
pub open spec fn signed_decimal(n: int) -> Seq<char> {
    if n < 0 {
        seq!['-'] + decimal((-n) as nat)
    } else {
        decimal(n as nat)
    }
}

// -- Calls into std --

/// `str::trim`: the text without leading and trailing characters that have
/// Unicode's `White_Space` property.
#[verifier::external_body]
pub(crate) fn trim_text(s: &str) -> (r: &str)
    ensures
        r@ == trim(s@),
{
    s.trim()
}

/// `str::to_lowercase`: the lower-case form of a text. On a text of ASCII
/// characters it maps the letters `A` to `Z` and leaves the rest alone. A
/// lower-case form has no letter left to map, so one that is ASCII is its own
/// lower-case form.
#[verifier::external_body]
pub(crate) fn lowercase_text(s: &str) -> (r: String)
    ensures
        r@ == unicode_lowercase(s@),
        is_ascii_text(s@) ==> r@ == ascii_lowercase(s@),
        is_ascii_text(r@) ==> unicode_lowercase(r@) == r@,
{
    s.to_lowercase()
}

/// `str::to_ascii_lowercase`: the ASCII letters in lower case, every other
/// character unchanged.
#[verifier::external_body]
pub(crate) fn ascii_lowercase_text(s: &str) -> (r: String)
    ensures
        r@ == ascii_lowercase(s@),
{
    s.to_ascii_lowercase()
}

/// `str::starts_with`, with a text as the pattern.
#[verifier::external_body]
pub(crate) fn text_starts_with(s: &str, prefix: &str) -> (r: bool)
    ensures
        r == prefix@.is_prefix_of(s@),
{
    s.starts_with(prefix)
}

/// `str::ends_with`, with a text as the pattern.
#[verifier::external_body]
pub(crate) fn text_ends_with(s: &str, suffix: &str) -> (r: bool)
    ensures
        r == suffix@.is_suffix_of(s@),
{
    s.ends_with(suffix)
}

/// `str::contains`, with a text as the pattern.
#[verifier::external_body]
pub(crate) fn text_contains(s: &str, part: &str) -> (r: bool)
    ensures
        r == has_part(s@, part@),
{
    s.contains(part)
}

/// `==` on texts: they are equal when they hold the same characters.
#[verifier::external_body]
pub(crate) fn text_eq(a: &str, b: &str) -> (r: bool)
    ensures
        r == (a@ == b@),
{
    a == b
}

/// `slice::sort` on strings: the same strings, in the lexicographic order of
/// their characters.
#[verifier::external_body]
pub(crate) fn sort_texts(v: &mut Vec<String>)
    ensures
        texts(final(v)@).to_multiset() == texts(old(v)@).to_multiset(),
        forall|i: int, j: int| #![auto]
            0 <= i <= j < final(v)@.len() ==> text_le(final(v)@[i]@, final(v)@[j]@),
{
    v.sort();
}

// -- Building texts --

/// The concatenation of two texts.
pub fn concat2(a: &str, b: &str) -> (r: String)
    ensures
        r@ == a@ + b@,
{
    a.to_owned().concat(b)
}

/// The concatenation of three texts.
pub fn concat3(a: &str, b: &str, c: &str) -> (r: String)
    ensures
        r@ == a@ + b@ + c@,
{
    a.to_owned().concat(b).concat(c)
}

/// The concatenation of five texts.
pub fn concat5(a: &str, b: &str, c: &str, d: &str, e: &str) -> (r: String)
    ensures
        r@ == a@ + b@ + c@ + d@ + e@,
{
    a.to_owned().concat(b).concat(c).concat(d).concat(e)
}

/// Whether a list of strings holds a text.
pub fn lists_text(list: &Vec<String>, s: &str) -> (r: bool)
    ensures
        r == texts(list@).contains(s@),
{
    let ghost all = texts(list@);
    let mut i: usize = 0;
    while i < list.len()
        invariant
            i <= list.len(),
            all == texts(list@),
            forall|k: int| 0 <= k < i ==> (#[trigger] all[k]) != s@,
        decreases list.len() - i,
    {
        if text_eq(list[i].as_str(), s) {
            assert(all[i as int] == s@);
            return true;
        }
        i = i + 1;
    }
    false
}

/// The texts of `parts`, one after the other, with `separator` between them.
pub fn join_texts(parts: &Vec<String>, separator: &str) -> (r: String)
    ensures
        r@ == joined(texts(parts@), separator@),
{
    let mut out: String = String::new();
    let mut i: usize = 0;
    while i < parts.len()
        invariant
            i <= parts.len(),
            out@ == joined(texts(parts@).take(i as int), separator@),
        decreases parts.len() - i,
    {
        proof {
            let all = texts(parts@);
            assert(all.take(i as int + 1).drop_last() =~= all.take(i as int));
        }
        if i > 0 {
            out.append(separator);
        }
        out.append(parts[i].as_str());
        i = i + 1;
    }
    proof {
        assert(texts(parts@).take(parts@.len() as int) =~= texts(parts@));
    }
    out
}

/// The text of one decimal digit.
fn digit_text(d: u8) -> (r: &'static str)
    requires
        d < 10,
    ensures
        r@ == seq![digit_char(d as nat)],
{
    proof {
        reveal_strlit("0");
        reveal_strlit("1");
        reveal_strlit("2");
        reveal_strlit("3");
        reveal_strlit("4");
        reveal_strlit("5");
        reveal_strlit("6");
        reveal_strlit("7");
        reveal_strlit("8");
        reveal_strlit("9");
    }
    match d {
        0 => "0",
        1 => "1",
        2 => "2",
        3 => "3",
        4 => "4",
        5 => "5",
        6 => "6",
        7 => "7",
        8 => "8",
        _ => "9",
    }
}

/// The decimal form of an unsigned integer.
pub fn decimal_u64(n: u64) -> (r: String)
    ensures
        r@ == decimal(n as nat),
    decreases n,
{
    if n < 10 {
        digit_text(n as u8).to_owned()
    } else {
        let head: String = decimal_u64(n / 10);
        head.concat(digit_text((n % 10) as u8))
    }
}

/// The decimal form of a signed integer.
pub fn decimal_i64(n: i64) -> (r: String)
    ensures
        r@ == signed_decimal(n as int),
{
    if n >= 0 {
        decimal_u64(n as u64)
    } else {
        proof {
            reveal_strlit("-");
        }
        let magnitude: u64 = ((-(n + 1)) as u64) + 1;
        concat2("-", decimal_u64(magnitude).as_str())
    }
}

/// A text is among those of a list exactly where it is one of its elements.
pub(crate) proof fn lemma_texts_contains(list: Seq<String>, s: Seq<char>)
    ensures
        texts(list).contains(s) <==> exists|i: int|
            0 <= i < list.len() && (#[trigger] list[i])@ == s,
{
    if texts(list).contains(s) {
        let i = choose|i: int| 0 <= i < texts(list).len() && texts(list)[i] == s;
        assert(list[i]@ == s);
    }
    if exists|i: int| 0 <= i < list.len() && (#[trigger] list[i])@ == s {
        let i = choose|i: int| 0 <= i < list.len() && (#[trigger] list[i])@ == s;
        assert(texts(list)[i] == s);
    }
}

// -- Laws --

/// Texts are joined part by part: a single part is itself, and two lists joined
/// are joined to each other with the separator between them.
pub proof fn joining_puts_the_separator_between_the_parts(
    a: Seq<Seq<char>>,
    b: Seq<Seq<char>>,
    part: Seq<char>,
    separator: Seq<char>,
)
    requires
        a.len() > 0,
        b.len() > 0,
    ensures
        joined(seq![part], separator) == part,
        joined(a + b, separator) == joined(a, separator) + separator + joined(b, separator),
    decreases b.len(),
{
    assert((a + b).drop_last() =~= a + b.drop_last());
    if b.len() == 1 {
        assert(b.drop_last() =~= Seq::<Seq<char>>::empty());
        assert(a + b.drop_last() =~= a);
    } else {
        joining_puts_the_separator_between_the_parts(a, b.drop_last(), part, separator);
        let x = joined(a, separator);
        let y = joined(b.drop_last(), separator);
        assert(x + separator + y + separator + b.last() =~= x + separator + (y + separator
            + b.last()));
    }
}

/// Trimming a text leaves a part of it: what is taken away in front and behind
/// is white space, and what is left neither begins nor ends with any.
pub proof fn trimming_takes_the_white_space_around(s: Seq<char>)
    ensures
        exists|i: int, j: int| #[trigger]
            is_middle(s, i, j) && trim(s) == s.subrange(i, j),
        trim(s).len() > 0 ==> !is_white_space(trim(s)[0]) && !is_white_space(trim(s).last()),
{
    let front = trim_front(s);
    lemma_trimmed_front(s);
    lemma_trimmed_back(front);
    let i: int = s.len() - front.len();
    let j: int = i + trim(s).len();
    assert(trim(s) =~= s.subrange(i, j));
    assert forall|k: int| j <= k < s.len() implies is_white_space(#[trigger] s[k]) by {
        assert(front[k - i] == s[k]);
    }
    assert(is_middle(s, i, j));
    if trim(s).len() > 0 {
        assert(trim(s)[0] == front[0]);
    }
}

/// Whether all that stands in a text before `i` and from `j` on is white space.
pub open spec fn is_middle(s: Seq<char>, i: int, j: int) -> bool {
    &&& 0 <= i <= j <= s.len()
    &&& forall|k: int| 0 <= k < i || j <= k < s.len() ==> is_white_space(#[trigger] s[k])
}

proof fn lemma_trimmed_front(s: Seq<char>)
    ensures
        trim_front(s).len() <= s.len(),
        trim_front(s) == s.skip(s.len() - trim_front(s).len()),
        trim_front(s).len() > 0 ==> !is_white_space(trim_front(s)[0]),
        forall|k: int|
            0 <= k < s.len() - trim_front(s).len() ==> is_white_space(#[trigger] s[k]),
    decreases s.len(),
{
    if s.len() > 0 && is_white_space(s[0]) {
        let rest = s.skip(1);
        lemma_trimmed_front(rest);
        let r = trim_front(s);
        assert(rest.skip(rest.len() - r.len()) =~= s.skip(s.len() - r.len()));
        assert forall|k: int| 0 <= k < s.len() - r.len() implies is_white_space(
            #[trigger] s[k],
        ) by {
            if k > 0 {
                assert(rest[k - 1] == s[k]);
            }
        }
    } else {
        assert(s.skip(0) =~= s);
    }
}

proof fn lemma_trimmed_back(s: Seq<char>)
    ensures
        trim_back(s).len() <= s.len(),
        trim_back(s) == s.take(trim_back(s).len() as int),
        trim_back(s).len() > 0 ==> !is_white_space(trim_back(s).last()),
        forall|k: int| trim_back(s).len() <= k < s.len() ==> is_white_space(#[trigger] s[k]),
    decreases s.len(),
{
    if s.len() > 0 && is_white_space(s.last()) {
        let rest = s.drop_last();
        lemma_trimmed_back(rest);
        let r = trim_back(s);
        assert(rest.take(r.len() as int) =~= s.take(r.len() as int));
        assert forall|k: int| r.len() <= k < s.len() implies is_white_space(#[trigger] s[k]) by {
            if k < rest.len() {
                assert(rest[k] == s[k]);
            }
        }
    } else {
        assert(s.take(s.len() as int) =~= s);
    }
}

} // verus!
