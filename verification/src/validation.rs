//! Codes of types and the metadata of groups.

use vstd::prelude::*;
use vstd::string::*;

use crate::error::DomainError;
use crate::json::{instance_errors, json_member, schema_error};
use crate::models::path_verdict;
use crate::text::{
    concat2, concat3, concat5, join_texts, lowercase_text, text_contains, text_starts_with, trim_text,
};

verus! {

/// The prefix of every resource-group type.
pub const RG_TYPE_PREFIX: &'static str = "gts.cf.core.rg.type.v1~";

/// The prefix of every tenant type: a group of such a type is a tenant of its
/// own.
pub const TENANT_RG_TYPE_PATH: &'static str = "gts.cf.core.rg.type.v1~cf.core._.tenant.v1~";

/// The canonical form of a code: without white space around it, in lower case.
pub open spec fn canonical(code: Seq<char>) -> Seq<char> {
    crate::text::unicode_lowercase(crate::text::trim(code))
}

/// Whether a code is that of a tenant type.
pub open spec fn is_tenant_code(code: Seq<char>) -> bool {
    TENANT_RG_TYPE_PATH@.is_prefix_of(canonical(code))
}

/// What `gts::GtsId::try_new` has against a text; nothing where the text is a
/// valid identifier.
pub uninterp spec fn gts_fault(s: Seq<char>) -> Option<Seq<char>>;

/// A character that an identifier of the global type system can hold.
pub open spec fn is_id_char(c: char) -> bool {
    'a' <= c <= 'z' || '0' <= c <= '9' || c == '_' || c == '.' || c == '~' || c == '-'
}

/// `gts::GtsId::try_new`: nothing where the text is an identifier of the
/// global type system, else the `Display` of the error. An identifier is made
/// of lower-case ASCII letters, digits, `_`, `.`, `~` and `-`.
#[verifier::external_body]
pub(crate) fn gts_id_error(s: &str) -> (r: Option<String>)
    ensures
        r is Some <==> gts_fault(s@) is Some,
        r matches Some(text) ==> gts_fault(s@) == Some(text@),
        r is None ==> forall|i: int| 0 <= i < s@.len() ==> is_id_char(#[trigger] s@[i]),
{
    gts::GtsId::try_new(s).err().map(|e| e.to_string())
}

/// The canonical form of a code.
///
/// Where the code is ASCII but for white space around it, the canonical form has
/// its ASCII letters in lower case, no white space around it, and is its own
/// canonical form. Whether a further lower-casing leaves any other text as it is
/// is left unsaid: std does not document it.
pub fn canonicalize_code(code: &str) -> (r: String)
    ensures
        r@ == canonical(code@),
        crate::text::is_ascii_text(r@) ==> crate::text::unicode_lowercase(r@) == r@,
        crate::text::is_ascii_text(code@) || crate::text::is_ascii_text(
            crate::text::trim(code@),
        ) ==> {
            &&& r@ == crate::text::ascii_lowercase(crate::text::trim(code@))
            &&& crate::text::trim(r@) == r@
            &&& canonical(r@) == r@
        },
{
    let r: String = lowercase_text(trim_text(code));
    proof {
        lemma_trim_keeps_ascii(code@);
        if crate::text::is_ascii_text(crate::text::trim(code@)) {
            lemma_trimmed_lowercase_is_trimmed(code@);
        }
    }
    r
}

/// Whether a code is that of a tenant type. The code need not be canonical.
pub fn is_tenant_type_code(code: &str) -> (r: bool)
    ensures
        r == is_tenant_code(code@),
{
    text_starts_with(canonicalize_code(code).as_str(), TENANT_RG_TYPE_PATH)
}

/// What is wrong with a code of a resource-group type in canonical form,
/// given whether it is an identifier of the global type system.
pub open spec fn type_code_fault(code: Seq<char>, is_id: bool) -> Option<Seq<char>> {
    if code.len() == 0 {
        Some("Type code must not be empty"@)
    } else if !RG_TYPE_PREFIX@.is_prefix_of(code) {
        Some(
            "Type code must start with prefix '"@ + RG_TYPE_PREFIX@ + "', got: '"@ + code + "'"@,
        )
    } else if code.len() > 1024 {
        Some("Type code must not exceed 1024 characters"@)
    } else {
        match crate::models::path_fault(code, is_id) {
            Some(fault) => Some("Invalid type code '"@ + code + "': "@ + fault),
            None => None,
        }
    }
}

/// What is wrong with a code of a resource-group type.
pub open spec fn type_code_refusal(code: Seq<char>) -> Option<Seq<char>> {
    type_code_fault(canonical(code), gts_fault(canonical(code)) is None)
}

/// Checks a code of a resource-group type and gives its canonical form, which
/// is what callers go on with.
///
/// The code that is given back is its own canonical form, is accepted again,
/// and is that of a tenant type exactly where the given code is.
pub fn canonical_type_code(code: &str) -> (r: Result<String, DomainError>)
    ensures
        match type_code_refusal(code@) {
            None => r matches Ok(s) && s@ == canonical(code@),
            Some(message) => r matches Err(e) && e@ == crate::error::invalid(message),
        },
        r matches Ok(s) ==> {
            &&& canonical(s@) == s@
            &&& type_code_refusal(s@) is None
            &&& is_tenant_code(s@) == is_tenant_code(code@)
        },
{
    let code: String = canonicalize_code(code);
    let parser: Option<String> = gts_id_error(code.as_str());
    proof {
        if parser is None {
            lemma_id_text(code@);
        }
    }
    type_code_with_verdict(code, parser.is_none())
}

/// Checks a code of a resource-group type in canonical form, given whether it
/// is an identifier of the global type system.
pub fn type_code_with_verdict(code: String, is_id: bool) -> (r: Result<String, DomainError>)
    ensures
        match type_code_fault(code@, is_id) {
            None => r matches Ok(s) && s@ == code@,
            Some(message) => r matches Err(e) && e@ == crate::error::invalid(message),
        },
{
    if code.as_str().is_empty() {
        return Err(DomainError::validation("Type code must not be empty".to_owned()));
    }
    if !text_starts_with(code.as_str(), RG_TYPE_PREFIX) {
        return Err(
            DomainError::validation(
                concat5(
                    "Type code must start with prefix '",
                    RG_TYPE_PREFIX,
                    "', got: '",
                    code.as_str(),
                    "'",
                ),
            ),
        );
    }
    if code.as_str().unicode_len() > 1024 {
        return Err(
            DomainError::validation("Type code must not exceed 1024 characters".to_owned()),
        );
    }
    let head: String = concat3("Invalid type code '", code.as_str(), "': ");
    match path_verdict(code.as_str(), is_id) {
        None => Ok(code),
        Some(fault) => Err(DomainError::validation(head.concat(fault))),
    }
}

/// What is wrong with the code of a member's type, given its canonical form
/// and what the identifier parser has against that.
pub open spec fn membership_code_fault(
    code: Seq<char>,
    canonical_code: Seq<char>,
    parser: Option<Seq<char>>,
) -> Option<Seq<char>> {
    if crate::text::has_part(code, "*"@) {
        Some(
            "Membership type code '"@ + code
                + "' must be a concrete GTS type, not a wildcard pattern"@,
        )
    } else {
        match parser {
            Some(fault) => Some("Invalid membership type code '"@ + canonical_code + "': "@ + fault),
            None => None,
        }
    }
}

/// What is wrong with the code of a member's type.
pub open spec fn membership_code_refusal(code: Seq<char>) -> Option<Seq<char>> {
    membership_code_fault(code, canonical(code), gts_fault(canonical(code)))
}

/// Checks the code of a member's type and gives its canonical form. Members
/// can have types outside the resource-group namespace; a pattern is refused.
/// The code that is given back is its own canonical form.
pub fn canonical_membership_type_code(code: &str) -> (r: Result<String, DomainError>)
    ensures
        match membership_code_refusal(code@) {
            None => r matches Ok(s) && s@ == canonical(code@),
            Some(message) => r matches Err(e) && e@ == crate::error::invalid(message),
        },
        r matches Ok(s) ==> canonical(s@) == s@,
{
    let canonical_code: String = canonicalize_code(code);
    let parser: Option<String> = gts_id_error(canonical_code.as_str());
    proof {
        if parser is None {
            lemma_id_text(canonical_code@);
        }
    }
    membership_type_code_with_verdict(code, canonical_code, parser)
}

/// Checks the code of a member's type, given its canonical form and what the
/// identifier parser has against that.
pub fn membership_type_code_with_verdict(
    code: &str,
    canonical_code: String,
    parser: Option<String>,
) -> (r: Result<String, DomainError>)
    ensures
        match membership_code_fault(
            code@,
            canonical_code@,
            match parser {
                Some(fault) => Some(fault@),
                None => None,
            },
        ) {
            None => r matches Ok(s) && s@ == canonical_code@,
            Some(message) => r matches Err(e) && e@ == crate::error::invalid(message),
        },
{
    if text_contains(code, "*") {
        return Err(
            DomainError::validation(
                concat3(
                    "Membership type code '",
                    code,
                    "' must be a concrete GTS type, not a wildcard pattern",
                ),
            ),
        );
    }
    match parser {
        Some(fault) => Err(
            DomainError::validation(
                concat3("Invalid membership type code '", canonical_code.as_str(), "': ").concat(
                    fault.as_str(),
                ),
            ),
        ),
        None => Ok(canonical_code),
    }
}

// -- Metadata --

/// Whether an error is a validation error whose message begins like this.
pub open spec fn is_invalid_with(e: crate::error::ErrorView, head: Seq<char>) -> bool {
    exists|text: Seq<char>| e == #[trigger] crate::error::invalid(head + text)
}

/// The refusal of metadata that a schema does not accept.
pub open spec fn mismatch(
    schema: serde_json::Value,
    metadata: serde_json::Value,
) -> crate::error::ErrorView {
    crate::error::invalid(
        "Metadata does not match type schema: "@ + crate::text::joined(
            crate::json::instance_faults(schema, metadata),
            "; "@,
        ),
    )
}

/// Whether an error is the refusal of metadata under a schema. Where the schema
/// does not compile, its message begins with `head`.
pub open spec fn is_schema_refusal(
    e: crate::error::ErrorView,
    metadata: serde_json::Value,
    schema: serde_json::Value,
    head: Seq<char>,
) -> bool {
    if crate::json::schema_compiles(schema) {
        e == mismatch(schema, metadata)
    } else {
        is_invalid_with(e, head)
    }
}

/// The error for a schema that does not compile, from the compiler's text.
pub fn schema_refusal(head: &str, text: String) -> (r: DomainError)
    ensures
        r@ == crate::error::invalid(head@ + text@),
{
    DomainError::validation(concat2(head, text.as_str()))
}

/// What follows from the texts of what is wrong with metadata: they are
/// accepted where there is none.
pub fn metadata_verdict(errors: Vec<String>) -> (r: Result<(), DomainError>)
    ensures
        r is Ok <==> errors@.len() == 0,
        r matches Err(e) ==> e@ == crate::error::invalid(
            "Metadata does not match type schema: "@ + crate::text::joined(
                crate::text::texts(errors@),
                "; "@,
            ),
        ),
{
    if errors.len() > 0 {
        return Err(
            DomainError::validation(
                concat2(
                    "Metadata does not match type schema: ",
                    join_texts(&errors, "; ").as_str(),
                ),
            ),
        );
    }
    Ok(())
}

/// Checks that a value is a JSON Schema. Of the refusal it is stated how its
/// message begins; the rest is the schema compiler's own text.
pub fn validate_metadata_schema(schema: &serde_json::Value) -> (r: Result<(), DomainError>)
    ensures
        r is Ok <==> crate::json::schema_compiles(*schema),
        r matches Err(e) ==> is_invalid_with(
            e@,
            "metadata_schema is not a valid JSON Schema: "@,
        ),
{
    match schema_error(schema) {
        Some(text) => Err(schema_refusal("metadata_schema is not a valid JSON Schema: ", text)),
        None => Ok(()),
    }
}

/// Checks metadata against a schema whose refusal begins with `head`.
fn check_metadata(
    metadata: &serde_json::Value,
    schema: &serde_json::Value,
    head: &str,
) -> (r: Result<(), DomainError>)
    ensures
        r is Ok <==> crate::json::schema_compiles(*schema) && crate::json::schema_accepts(
            *schema,
            *metadata,
        ),
        r matches Err(e) ==> is_schema_refusal(e@, *metadata, *schema, head@),
{
    match schema_error(schema) {
        Some(text) => Err(schema_refusal(head, text)),
        None => metadata_verdict(instance_errors(schema, metadata)),
    }
}

/// Checks metadata against a JSON Schema. Without metadata or without a schema
/// there is nothing to check.
pub fn validate_metadata_against_schema(
    metadata: Option<&serde_json::Value>,
    schema: Option<&serde_json::Value>,
) -> (r: Result<(), DomainError>)
    ensures
        r is Ok <==> match (metadata, schema) {
            (Some(m), Some(s)) => crate::json::schema_compiles(*s) && crate::json::schema_accepts(
                *s,
                *m,
            ),
            _ => true,
        },
        r matches Err(e) ==> is_schema_refusal(
            e@,
            *metadata->0,
            *schema->0,
            "metadata_schema is invalid: "@,
        ),
{
    match (metadata, schema) {
        (Some(m), Some(s)) => check_metadata(m, s, "metadata_schema is invalid: "),
        _ => Ok(()),
    }
}

/// What the types registry answered about a type.
#[derive(Debug)]
pub enum SchemaLookup {
    /// The type has no registered schema.
    NotFound,
    /// The registry could not be asked; the text says why.
    Failed(String),
    /// The properties that the type declares and inherits, as a JSON object.
    Found(serde_json::Value),
}

/// Whether metadata are acceptable, given what the registry answered.
pub open spec fn registry_accepts(
    metadata: Option<serde_json::Value>,
    lookup: SchemaLookup,
) -> bool {
    metadata matches Some(m) ==> match lookup {
        SchemaLookup::NotFound => true,
        SchemaLookup::Failed(_) => false,
        SchemaLookup::Found(properties) => {
            let members = crate::json::json_members(properties);
            members.contains_key("metadata"@) ==> crate::json::schema_compiles(
                members["metadata"@],
            ) && crate::json::schema_accepts(members["metadata"@], m)
        },
    }
}

/// Whether an error is the refusal of metadata, given what the registry answered
/// about their type.
pub open spec fn is_registry_refusal(
    e: crate::error::ErrorView,
    metadata: serde_json::Value,
    type_code: Seq<char>,
    lookup: SchemaLookup,
) -> bool {
    match lookup {
        SchemaLookup::NotFound => false,
        SchemaLookup::Failed(text) => e == crate::error::invalid(
            "Failed to resolve GTS type '"@ + type_code + "' for metadata validation: "@ + text@,
        ),
        SchemaLookup::Found(properties) => is_schema_refusal(
            e,
            metadata,
            crate::json::json_members(properties)["metadata"@],
            "Type metadata_schema is invalid: "@,
        ),
    }
}

/// Checks metadata against the schema that the types registry has for a type.
/// A type without a registered schema, and a schema that says nothing of
/// metadata, accept any.
pub fn validate_metadata_via_gts(
    metadata: Option<&serde_json::Value>,
    type_code: &str,
    lookup: &SchemaLookup,
) -> (r: Result<(), DomainError>)
    ensures
        r is Ok <==> registry_accepts(
            match metadata {
                Some(m) => Some(*m),
                None => None,
            },
            *lookup,
        ),
        r matches Err(e) ==> is_registry_refusal(e@, *metadata->0, type_code@, *lookup),
{
    match metadata {
        None => Ok(()),
        Some(m) => match lookup {
            SchemaLookup::NotFound => Ok(()),
            SchemaLookup::Failed(text) => Err(
                DomainError::validation(
                    concat3(
                        "Failed to resolve GTS type '",
                        type_code,
                        "' for metadata validation: ",
                    ).concat(text.as_str()),
                ),
            ),
            SchemaLookup::Found(properties) => match json_member(properties, "metadata") {
                None => Ok(()),
                Some(schema) => check_metadata(m, schema, "Type metadata_schema is invalid: "),
            },
        },
    }
}

// -- Canonical forms --

/// The text of an identifier is neither trimmed nor changed by lower-casing.
pub(crate) proof fn lemma_id_text(s: Seq<char>)
    requires
        forall|i: int| 0 <= i < s.len() ==> is_id_char(#[trigger] s[i]),
    ensures
        crate::text::trim(s) == s,
        crate::text::is_ascii_text(s),
{
    assert(crate::text::trim_front(s) == s);
    assert(crate::text::trim_back(s) == s);
}

proof fn lemma_trim_front(s: Seq<char>)
    ensures
        crate::text::trim_front(s).len() > 0 ==> !crate::text::is_white_space(
            crate::text::trim_front(s)[0],
        ),
        crate::text::trim_front(s).len() <= s.len(),
        crate::text::trim_front(s) == s.skip(s.len() - crate::text::trim_front(s).len()),
    decreases s.len(),
{
    if s.len() > 0 && crate::text::is_white_space(s[0]) {
        lemma_trim_front(s.skip(1));
        let r = crate::text::trim_front(s);
        assert(s.skip(1).skip(s.len() - 1 - r.len()) =~= s.skip(s.len() - r.len()));
    } else {
        assert(s.skip(0) =~= s);
    }
}

proof fn lemma_trim_back(s: Seq<char>)
    ensures
        crate::text::trim_back(s).len() > 0 ==> !crate::text::is_white_space(
            crate::text::trim_back(s).last(),
        ),
        crate::text::trim_back(s).len() <= s.len(),
        crate::text::trim_back(s) == s.take(crate::text::trim_back(s).len() as int),
    decreases s.len(),
{
    if s.len() > 0 && crate::text::is_white_space(s.last()) {
        lemma_trim_back(s.drop_last());
        let r = crate::text::trim_back(s);
        assert(s.drop_last().take(r.len() as int) =~= s.take(r.len() as int));
    } else {
        assert(s.take(s.len() as int) =~= s);
    }
}

/// Trimming leaves an ASCII text ASCII.
proof fn lemma_trim_keeps_ascii(code: Seq<char>)
    ensures
        crate::text::is_ascii_text(code) ==> crate::text::is_ascii_text(crate::text::trim(code)),
{
    lemma_trim_front(code);
    lemma_trim_back(crate::text::trim_front(code));
}

/// Lower-casing a trimmed ASCII text leaves it trimmed and ASCII.
proof fn lemma_trimmed_lowercase_is_trimmed(code: Seq<char>)
    requires
        crate::text::is_ascii_text(crate::text::trim(code)),
    ensures
        crate::text::is_ascii_text(crate::text::ascii_lowercase(crate::text::trim(code))),
        crate::text::trim(crate::text::ascii_lowercase(crate::text::trim(code)))
            == crate::text::ascii_lowercase(crate::text::trim(code)),
{
    let front = crate::text::trim_front(code);
    let trimmed = crate::text::trim(code);
    lemma_trim_front(code);
    lemma_trim_back(front);
    let c = crate::text::ascii_lowercase(trimmed);
    if trimmed.len() > 0 {
        assert(trimmed[0] == front[0]);
        assert(!crate::text::is_white_space(c[0]));
        assert(!crate::text::is_white_space(c.last()));
    }
    assert(crate::text::trim_front(c) == c);
    assert(crate::text::trim_back(c) == c);
}

// -- Laws --

/// A code is that of a tenant type exactly where, without white space around it
/// and in lower case, it begins with the path of the tenant type.
pub proof fn tenant_codes_begin_with_the_tenant_path(code: Seq<char>)
    ensures
        is_tenant_code(code) <==> "gts.cf.core.rg.type.v1~cf.core._.tenant.v1~"@.is_prefix_of(
            crate::text::unicode_lowercase(crate::text::trim(code)),
        ),
{
}

/// A code of a resource-group type is accepted exactly where its canonical form
/// begins with the prefix of these types, has at most 1024 characters, is an
/// identifier of the global type system, and ends in a tilde.
pub proof fn type_code_is_accepted_by_its_form(code: Seq<char>)
    ensures
        type_code_refusal(code) is None <==> {
            let c = crate::text::unicode_lowercase(crate::text::trim(code));
            &&& "gts.cf.core.rg.type.v1~"@.is_prefix_of(c)
            &&& c.len() <= 1024
            &&& gts_fault(c) is None
            &&& c.last() == '~'
        },
{
    let c = canonical(code);
    reveal_strlit("gts.cf.core.rg.type.v1~");
    reveal_strlit("~");
    assert("~"@.is_suffix_of(c) <==> c.len() > 0 && c.last() == '~') by {
        if c.len() > 0 && c.last() == '~' {
            assert("~"@ =~= c.subrange(c.len() - 1, c.len() as int));
        }
        if "~"@.is_suffix_of(c) {
            assert("~"@ == c.subrange(c.len() - 1, c.len() as int));
            assert(c.subrange(c.len() - 1, c.len() as int)[0] == c.last());
        }
    }
}

/// The code of a member's type is accepted exactly where it holds no asterisk and
/// its canonical form is an identifier of the global type system; it need not be
/// that of a resource-group type.
pub proof fn member_code_is_accepted_by_its_form(code: Seq<char>)
    ensures
        membership_code_refusal(code) is None <==> {
            &&& forall|i: int| 0 <= i < code.len() ==> #[trigger] code[i] != '*'
            &&& gts_fault(crate::text::unicode_lowercase(crate::text::trim(code))) is None
        },
{
    reveal_strlit("*");
    if crate::text::has_part(code, "*"@) {
        let i = choose|i: int|
            0 <= i <= code.len() - "*"@.len() && #[trigger] code.subrange(i, i + "*"@.len())
                == "*"@;
        assert(code.subrange(i, i + 1)[0] == code[i]);
    }
    if exists|i: int| 0 <= i < code.len() && #[trigger] code[i] == '*' {
        let i = choose|i: int| 0 <= i < code.len() && #[trigger] code[i] == '*';
        assert(code.subrange(i, i + 1) =~= "*"@);
    }
}

/// Metadata are accepted where there are none, where the type has no registered
/// schema, and where the schema says nothing of metadata; else exactly where that
/// schema compiles and has nothing against them. A registry that could not be
/// asked accepts none.
pub proof fn metadata_are_accepted_by_the_registered_schema(
    m: serde_json::Value,
    properties: serde_json::Value,
    text: String,
    lookup: SchemaLookup,
)
    ensures
        registry_accepts(None, lookup),
        registry_accepts(Some(m), SchemaLookup::NotFound),
        !registry_accepts(Some(m), SchemaLookup::Failed(text)),
        registry_accepts(Some(m), SchemaLookup::Found(properties)) <==> (
        !crate::json::json_members(properties).contains_key("metadata"@) || (
        crate::json::schema_compiles(crate::json::json_members(properties)["metadata"@])
            && crate::json::instance_faults(
            crate::json::json_members(properties)["metadata"@],
            m,
        ).len() == 0)),
{
}

/// The refusal of metadata says why: that the registry could not be asked about
/// the type, that its schema does not compile, or what the schema has against
/// them.
pub proof fn metadata_refusal_says_why(
    e: crate::error::ErrorView,
    m: serde_json::Value,
    code: Seq<char>,
    lookup: SchemaLookup,
)
    requires
        is_registry_refusal(e, m, code, lookup),
    ensures
        e is Validation,
        lookup matches SchemaLookup::Failed(text) ==> e->Validation_message
            == "Failed to resolve GTS type '"@ + code + "' for metadata validation: "@ + text@,
        lookup matches SchemaLookup::Found(properties) ==> crate::json::schema_compiles(
            crate::json::json_members(properties)["metadata"@],
        ) ==> e->Validation_message == "Metadata does not match type schema: "@
            + crate::text::joined(
            crate::json::instance_faults(crate::json::json_members(properties)["metadata"@], m),
            "; "@,
        ),
{
}

} // verus!
