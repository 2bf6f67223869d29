//! Request bodies: what is accepted as JSON, and how a body that is not is
//! answered.

use vstd::prelude::*;
use vstd::string::*;

use crate::canonical::CanonicalError;
use crate::error::DomainError;
use crate::text::{
    ascii_lowercase_text, concat2, text_ends_with, text_eq, text_starts_with, trim_text,
};

verus! {

/// A body that was accepted as JSON and read as a `T`.
#[derive(Clone, Copy, Debug)]
pub struct StrictJson<T>(pub T);

/// Why a body could not be read.
#[derive(Debug)]
pub enum BodyReadFault {
    /// It is larger than what is accepted.
    TooLarge,
    /// Something else, by its text.
    Other(String),
}

/// What came of reading a body and parsing it.
#[derive(Debug)]
pub enum BodyOutcome<T> {
    /// The body could not be read.
    Unread(BodyReadFault),
    /// The body is no JSON, or not of the expected shape; the text says why.
    Malformed(String),
    /// The body is this value.
    Parsed(T),
}

/// The part of a header value before the first semicolon.
pub open spec fn before_semicolon(value: Seq<char>) -> Seq<char>
    decreases value.len(),
{
    if value.len() == 0 || value[0] == ';' {
        Seq::empty()
    } else {
        seq![value[0]] + before_semicolon(value.skip(1))
    }
}

/// A media type without its parameters, in lower case.
pub open spec fn essence(value: Seq<char>) -> Seq<char> {
    crate::text::ascii_lowercase(crate::text::trim(before_semicolon(value)))
}

/// Whether a media type is JSON: `application/json`, or one with the `+json`
/// suffix under `application/`.
pub open spec fn is_json_essence(e: Seq<char>) -> bool {
    e == "application/json"@ || ("application/"@.is_prefix_of(e) && "+json"@.is_suffix_of(e))
}

/// Whether a `Content-Type` declares JSON. A missing one does not.
pub open spec fn declares_json(content_type: Option<Seq<char>>) -> bool {
    content_type matches Some(value) && is_json_essence(essence(value))
}

/// What a body that could not be read is answered with.
pub open spec fn read_fault_detail(fault: BodyReadFault) -> Seq<char> {
    match fault {
        BodyReadFault::TooLarge => "request body exceeds the maximum accepted size"@,
        BodyReadFault::Other(text) => "could not read the request body: "@ + text@,
    }
}

fn until_semicolon(value: &str) -> (r: &str)
    ensures
        r@ == before_semicolon(value@),
{
    let len: usize = value.unicode_len();
    let mut i: usize = 0;
    proof {
        assert(value@.skip(0) =~= value@);
        assert(value@.take(0) + before_semicolon(value@) =~= before_semicolon(value@));
    }
    while i < len && value.get_char(i) != ';'
        invariant
            i <= len,
            len == value@.len(),
            before_semicolon(value@) == value@.take(i as int) + before_semicolon(
                value@.skip(i as int),
            ),
        decreases len - i,
    {
        proof {
            let rest = value@.skip(i as int);
            assert(rest.skip(1) =~= value@.skip(i as int + 1));
            assert(before_semicolon(rest) == seq![rest[0]] + before_semicolon(rest.skip(1)));
            assert(value@.take(i as int) + (seq![rest[0]] + before_semicolon(rest.skip(1)))
                =~= value@.take(i as int + 1) + before_semicolon(rest.skip(1)));
        }
        i = i + 1;
    }
    proof {
        assert(before_semicolon(value@.skip(i as int)) =~= Seq::<char>::empty());
        assert(value@.take(i as int) + Seq::<char>::empty() =~= value@.subrange(0, i as int));
    }
    value.substring_char(0, i)
}

/// Whether a `Content-Type` declares JSON.
pub fn is_json_content_type(content_type: Option<&str>) -> (r: bool)
    ensures
        r == declares_json(
            match content_type {
                Some(value) => Some(value@),
                None => None,
            },
        ),
{
    match content_type {
        None => false,
        Some(value) => {
            let e: String = ascii_lowercase_text(trim_text(until_semicolon(value)));
            text_eq(e.as_str(), "application/json") || (text_starts_with(
                e.as_str(),
                "application/",
            ) && text_ends_with(e.as_str(), "+json"))
        },
    }
}

/// What a body that could not be read is answered with. Only this text tells a
/// client that the body was too large.
pub fn body_read_detail(fault: &BodyReadFault) -> (r: String)
    ensures
        r@ == read_fault_detail(*fault),
{
    match fault {
        BodyReadFault::TooLarge => "request body exceeds the maximum accepted size".to_owned(),
        BodyReadFault::Other(text) => concat2("could not read the request body: ", text.as_str()),
    }
}

/// The answer to a malformed request.
pub open spec fn bad_request(message: Seq<char>) -> crate::canonical::CanonicalView {
    crate::canonical::CanonicalView::InvalidFormat { message }
}

impl<T> StrictJson<T> {
    /// Refuses a request that does not declare a JSON body, before the body is
    /// read.
    pub fn check_content_type(content_type: Option<&str>) -> (r: Result<(), CanonicalError>)
        ensures
            r is Ok <==> declares_json(
                match content_type {
                    Some(value) => Some(value@),
                    None => None,
                },
            ),
            r matches Err(e) ==> e@ == bad_request("request body must be sent as application/json"@),
    {
        if !is_json_content_type(content_type) {
            return Err(
                CanonicalError::from(
                    DomainError::validation(
                        "request body must be sent as application/json".to_owned(),
                    ),
                ),
            );
        }
        Ok(())
    }

    /// The body, or the answer to one that cannot be used. Every refusal is a
    /// malformed request, whatever went wrong.
    pub fn from_outcome(outcome: BodyOutcome<T>) -> (r: Result<StrictJson<T>, CanonicalError>)
        ensures
            match outcome {
                BodyOutcome::Unread(fault) => r matches Err(e) && e@ == bad_request(
                    read_fault_detail(fault),
                ),
                BodyOutcome::Malformed(text) => r matches Err(e) && e@ == bad_request(
                    "invalid request body: "@ + text@,
                ),
                BodyOutcome::Parsed(value) => r == Ok::<StrictJson<T>, CanonicalError>(
                    StrictJson(value),
                ),
            },
    {
        match outcome {
            BodyOutcome::Unread(fault) => Err(
                CanonicalError::from(DomainError::validation(body_read_detail(&fault))),
            ),
            BodyOutcome::Malformed(text) => Err(
                CanonicalError::from(
                    DomainError::validation(concat2("invalid request body: ", text.as_str())),
                ),
            ),
            BodyOutcome::Parsed(value) => Ok(StrictJson(value)),
        }
    }
}

/// A body that is refused is answered with 400, whatever is wrong with it.
pub proof fn refused_body_is_400(message: Seq<char>)
    ensures
        crate::canonical::status(bad_request(message)) == 400,
{
}

proof fn lemma_before_semicolon(value: Seq<char>)
    ensures
        before_semicolon(value).len() <= value.len(),
        before_semicolon(value) == value.take(before_semicolon(value).len() as int),
        forall|i: int|
            0 <= i < before_semicolon(value).len() ==> #[trigger] before_semicolon(value)[i] != ';',
        before_semicolon(value).len() < value.len() ==> value[before_semicolon(value).len() as int]
            == ';',
    decreases value.len(),
{
    if value.len() > 0 && value[0] != ';' {
        let rest = value.skip(1);
        let tail = before_semicolon(rest);
        let all = before_semicolon(value);
        lemma_before_semicolon(rest);
        assert(all == seq![value[0]] + tail);
        assert forall|i: int| 0 <= i < all.len() implies #[trigger] all[i] != ';' by {
            if i > 0 {
                assert(all[i] == tail[i - 1]);
            }
        }
        assert(all =~= value.take(all.len() as int)) by {
            assert forall|i: int| 0 <= i < all.len() implies all[i] == value[i] by {
                if i > 0 {
                    assert(all[i] == tail[i - 1]);
                    assert(tail[i - 1] == rest[i - 1]);
                }
            }
        }
        if tail.len() < rest.len() {
            assert(rest[tail.len() as int] == value[all.len() as int]);
        }
    } else {
        assert(before_semicolon(value) =~= value.take(0));
    }
}

/// A media type declares JSON exactly where what stands before its first
/// semicolon, without white space around it and with its ASCII letters in lower
/// case, is `application/json`, or begins with `application/` and ends in
/// `+json`. A request without one declares nothing.
pub proof fn json_is_declared_by_the_media_type(value: Seq<char>, n: int)
    requires
        0 <= n <= value.len(),
        forall|i: int| 0 <= i < n ==> #[trigger] value[i] != ';',
        n < value.len() ==> value[n] == ';',
    ensures
        !declares_json(None),
        declares_json(Some(value)) <==> {
            let e = crate::text::ascii_lowercase(crate::text::trim(value.take(n)));
            e == "application/json"@ || ("application/"@.is_prefix_of(e) && "+json"@.is_suffix_of(
                e,
            ))
        },
{
    lemma_before_semicolon(value);
    let m = before_semicolon(value).len() as int;
    if m < n {
        assert(value[m] == ';');
    }
    if n < m {
        assert(before_semicolon(value)[n] == value[n]);
    }
    assert(m == n);
}

/// What follows a semicolon does not matter.
pub proof fn parameters_of_a_media_type_do_not_matter(value: Seq<char>, parameters: Seq<char>)
    requires
        forall|i: int| 0 <= i < value.len() ==> #[trigger] value[i] != ';',
    ensures
        declares_json(Some(value + seq![';'] + parameters)) <==> declares_json(Some(value)),
{
    let long = value + seq![';'] + parameters;
    let n = value.len() as int;
    assert forall|i: int| 0 <= i < n implies #[trigger] long[i] != ';' by {
        assert(long[i] == value[i]);
    }
    assert(long[n] == ';');
    json_is_declared_by_the_media_type(long, n);
    json_is_declared_by_the_media_type(value, n);
    assert(long.take(n) =~= value.take(n));
}

/// What is wrong with a body that could not be read is told, and that it was too
/// large is told in so many words.
pub proof fn unread_body_is_told_why(text: String, message: Seq<char>)
    ensures
        read_fault_detail(BodyReadFault::TooLarge)
            == "request body exceeds the maximum accepted size"@,
        read_fault_detail(BodyReadFault::Other(text)) == "could not read the request body: "@ + text@,
        bad_request(message) == crate::canonical::answer_of(crate::error::invalid(message)),
{
}

} // verus!
