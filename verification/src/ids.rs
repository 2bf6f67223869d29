//! Identifiers of groups and tenants.

use vstd::prelude::*;

verus! {

/// A universally unique identifier, as the big-endian number of its bytes.
#[derive(Clone, Copy, Debug, PartialEq, Eq, Hash, PartialOrd, Ord, Structural)]
pub struct Uuid(pub u128);

/// The character of a hexadecimal digit, in lower case.
pub open spec fn hex_char(d: int) -> char {
    if d < 10 {
        ((d + 48) as u32) as char
    } else {
        ((d + 87) as u32) as char
    }
}

/// How many hyphens stand before position `i` of a hyphenated identifier.
pub open spec fn hyphens_before(i: int) -> int {
    if i <= 8 {
        0
    } else if i <= 13 {
        1
    } else if i <= 18 {
        2
    } else if i <= 23 {
        3
    } else {
        4
    }
}

/// The hyphenated form of an identifier: its thirty-two hexadecimal digits in
/// groups of eight, four, four, four and twelve.
pub open spec fn hyphenated(id: Uuid) -> Seq<char> {
    Seq::new(
        36,
        |i: int|
            if i == 8 || i == 13 || i == 18 || i == 23 {
                '-'
            } else {
                hex_char((id.0 as int / vstd::arithmetic::power::pow(16, (31 - (i - hyphens_before(i))) as nat)) % 16)
            },
    )
}

/// `uuid::Uuid`'s `Display`: the hyphenated form in lower case.
#[verifier::external_body]
pub(crate) fn uuid_text(id: Uuid) -> (r: String)
    ensures
        r@ == hyphenated(id),
{
    uuid::Uuid::from_u128(id.0).to_string()
}

/// Whether an identifier is of the seventh version: its version field holds 7
/// and its variant field 2.
pub open spec fn is_version_7(id: Uuid) -> bool {
    &&& (id.0 as int / vstd::arithmetic::power::pow(2, 76)) % 16 == 7
    &&& (id.0 as int / vstd::arithmetic::power::pow(2, 62)) % 4 == 2
}

/// `uuid::Uuid::now_v7`: a fresh identifier made of the time and of chance.
/// Of every outcome it is said only that it is of the seventh version; that no
/// two calls agree is left unsaid.
#[verifier::external_body]
pub(crate) fn fresh_uuid() -> (r: Uuid)
    ensures
        is_version_7(r),
{
    Uuid(uuid::Uuid::now_v7().as_u128())
}

/// The identifiers of `ids` in ascending order, each once.
pub open spec fn is_sorted_set_of(r: Seq<Uuid>, ids: Seq<Uuid>) -> bool {
    &&& forall|i: int, j: int| 0 <= i < j < r.len() ==> (#[trigger] r[i]).0 < (#[trigger] r[j]).0
    &&& forall|id: Uuid| #[trigger] r.contains(id) <==> ids.contains(id)
}

/// Collects `ids` in ascending order, each once.
pub fn sorted_distinct(ids: &Vec<Uuid>) -> (r: Vec<Uuid>)
    ensures
        is_sorted_set_of(r@, ids@),
{
    let mut out: Vec<Uuid> = Vec::new();
    let mut i: usize = 0;
    while i < ids.len()
        invariant
            i <= ids.len(),
            is_sorted_set_of(out@, ids@.take(i as int)),
        decreases ids.len() - i,
    {
        let id: Uuid = ids[i];
        let mut at: usize = 0;
        while at < out.len() && out[at].0 < id.0
            invariant
                at <= out.len(),
                forall|k: int| 0 <= k < at ==> (#[trigger] out@[k]).0 < id.0,
            decreases out.len() - at,
        {
            at = at + 1;
        }
        let ghost before = out@;
        let ghost seen = ids@.take(i as int);
        proof {
            assert(ids@.take(i as int + 1) =~= seen.push(id));
        }
        if at == out.len() || out[at].0 != id.0 {
            out.insert(at, id);
            proof {
                assert(out@ == before.insert(at as int, id));
                assert forall|a: int, b: int| 0 <= a < b < out@.len() implies (#[trigger] out@[a]).0
                    < (#[trigger] out@[b]).0 by {
                    let a0 = if a < at { a } else { a - 1 };
                    let b0 = if b < at { b } else { b - 1 };
                    if a != at && b != at {
                        assert(before[a0].0 < before[b0].0);
                    } else if a == at {
                        assert(out@[b] == before[b - 1]);
                        if b - 1 > at {
                            assert(before[at as int].0 < before[b - 1].0);
                        }
                    }
                }
                assert forall|x: Uuid| #[trigger] out@.contains(x) <==> seen.push(id).contains(x) by {
                    if out@.contains(x) {
                        let k = choose|k: int| 0 <= k < out@.len() && out@[k] == x;
                        if k == at {
                            assert(seen.push(id)[seen.len() as int] == x);
                        } else {
                            let k0 = if k < at { k } else { k - 1 };
                            assert(before[k0] == x);
                            assert(before.contains(x));
                            let m = choose|m: int| 0 <= m < seen.len() && seen[m] == x;
                            assert(seen.push(id)[m] == x);
                        }
                    }
                    if seen.push(id).contains(x) {
                        let m = choose|m: int| 0 <= m < seen.len() + 1 && seen.push(id)[m] == x;
                        if m == seen.len() {
                            assert(out@[at as int] == x);
                        } else {
                            assert(seen[m] == x);
                            assert(before.contains(x));
                            let k = choose|k: int| 0 <= k < before.len() && before[k] == x;
                            if k < at {
                                assert(out@[k] == x);
                            } else {
                                assert(out@[k + 1] == x);
                            }
                        }
                    }
                }
            }
        } else {
            proof {
                assert(out@[at as int] == id);
                assert forall|x: Uuid| #[trigger] out@.contains(x) <==> seen.push(id).contains(x) by {
                    if seen.push(id).contains(x) {
                        let m = choose|m: int| 0 <= m < seen.len() + 1 && seen.push(id)[m] == x;
                        if m < seen.len() {
                            assert(seen[m] == x);
                        }
                    }
                    if out@.contains(x) {
                        let m = choose|m: int| 0 <= m < seen.len() && seen[m] == x;
                        assert(seen.push(id)[m] == x);
                    }
                }
            }
        }
        i = i + 1;
    }
    proof {
        assert(ids@.take(ids@.len() as int) =~= ids@);
    }
    out
}

} // verus!
