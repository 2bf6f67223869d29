//! The entities that callers of the library exchange with it. Types are named
//! by their paths, never by the identifiers under which they are stored.

use vstd::prelude::*;
use vstd::string::*;

use crate::ids::Uuid;
use crate::text::text_ends_with;
use crate::validation::{canonicalize_code, gts_id_error};

verus! {

// -- Type paths --

/// A valid type path: one or more segments, each closed by `~`, such as
/// `gts.cf.core.rg.type.v1~cf.core._.tenant.v1~`. It is in canonical form.
#[derive(Debug, PartialEq, Eq, Hash)]
pub struct GtsTypePath(String);

/// What is wrong with a canonical text as a type path, given whether it is an
/// identifier of the global type system.
pub open spec fn path_fault(s: Seq<char>, is_id: bool) -> Option<Seq<char>> {
    if s.len() == 0 {
        Some("GTS type path must not be empty"@)
    } else if !is_id || !"~"@.is_suffix_of(s) {
        Some("Invalid GTS type path format"@)
    } else {
        None
    }
}

/// What is wrong with a canonical text as a type path.
pub open spec fn canonical_path_fault(s: Seq<char>) -> Option<Seq<char>> {
    path_fault(s, crate::validation::gts_fault(s) is None)
}

/// Whether a text is a type path in canonical form.
pub open spec fn is_type_path(s: Seq<char>) -> bool {
    canonical_path_fault(s) is None && crate::validation::canonical(s) == s
}

/// What is wrong with a canonical text as a type path, given whether it is an
/// identifier of the global type system.
pub fn path_verdict(s: &str, is_id: bool) -> (r: Option<&'static str>)
    ensures
        match path_fault(s@, is_id) {
            None => r is None,
            Some(fault) => r matches Some(text) && text@ == fault,
        },
{
    if s.is_empty() {
        return Some("GTS type path must not be empty");
    }
    if !is_id || !text_ends_with(s, "~") {
        return Some("Invalid GTS type path format");
    }
    None
}

impl View for GtsTypePath {
    type V = Seq<char>;

    closed spec fn view(&self) -> Seq<char> {
        self.0@
    }
}

impl GtsTypePath {
    #[verifier::type_invariant]
    spec fn well_formed(&self) -> bool {
        is_type_path(self.0@)
    }

    /// The type path that a text is in canonical form.
    pub fn new(raw: &str) -> (r: Result<GtsTypePath, String>)
        ensures
            match canonical_path_fault(crate::validation::canonical(raw@)) {
                None => r matches Ok(p) && p@ == crate::validation::canonical(raw@),
                Some(fault) => r matches Err(e) && e@ == fault,
            },
    {
        let s: String = canonicalize_code(raw);
        let parser: Option<String> = gts_id_error(s.as_str());
        match path_verdict(s.as_str(), parser.is_none()) {
            Some(fault) => Err(fault.to_owned()),
            None => {
                proof {
                    crate::validation::lemma_id_text(s@);
                }
                Ok(GtsTypePath(s))
            },
        }
    }

    /// The text of the path, which is that of a type path again.
    pub fn as_str(&self) -> (r: &str)
        ensures
            r@ == self@,
            is_type_path(r@),
    {
        proof {
            use_type_invariant(self);
        }
        self.0.as_str()
    }

    /// The text of the path, which is that of a type path again.
    pub fn into_string(self) -> (r: String)
        ensures
            r@ == self@,
            is_type_path(r@),
    {
        proof {
            use_type_invariant(&self);
        }
        self.0
    }
}

impl Clone for GtsTypePath {
    fn clone(&self) -> (r: Self)
        ensures
            r@ == self@,
    {
        proof {
            use_type_invariant(self);
        }
        GtsTypePath(self.0.clone())
    }
}

impl From<GtsTypePath> for String {
    fn from(path: GtsTypePath) -> (r: String)
        ensures
            r@ == path@,
            is_type_path(r@),
    {
        path.into_string()
    }
}

impl vstd::std_specs::convert::FromSpecImpl<GtsTypePath> for String {
    open spec fn obeys_from_spec() -> bool {
        false
    }

    open spec fn from_spec(path: GtsTypePath) -> String {
        arbitrary()
    }
}

impl TryFrom<String> for GtsTypePath {
    type Error = String;

    fn try_from(s: String) -> (r: Result<GtsTypePath, String>)
        ensures
            match canonical_path_fault(crate::validation::canonical(s@)) {
                None => r matches Ok(p) && p@ == crate::validation::canonical(s@),
                Some(fault) => r matches Err(e) && e@ == fault,
            },
    {
        GtsTypePath::new(s.as_str())
    }
}

impl vstd::std_specs::convert::TryFromSpecImpl<String> for GtsTypePath {
    open spec fn obeys_try_from_spec() -> bool {
        false
    }

    open spec fn try_from_spec(s: String) -> Result<GtsTypePath, String> {
        arbitrary()
    }
}

// -- Types --

/// A type of resource groups.
#[derive(Debug, Clone)]
pub struct ResourceGroupType {
    /// The type's path.
    pub code: String,
    /// Whether a group of this type can be a root.
    pub can_be_root: bool,
    /// The paths of the types that a parent can have.
    pub allowed_parent_types: Vec<String>,
    /// The paths of the types that a member can have.
    pub allowed_membership_types: Vec<String>,
    /// The JSON Schema of the metadata of groups of this type.
    pub metadata_schema: Option<serde_json::Value>,
}

/// A request to create a type.
#[derive(Debug, Clone)]
pub struct CreateTypeRequest {
    /// The type's path. Whether groups of the type are tenants of their own
    /// follows from its prefix.
    pub code: String,
    pub can_be_root: bool,
    pub allowed_parent_types: Vec<String>,
    pub allowed_membership_types: Vec<String>,
    pub metadata_schema: Option<serde_json::Value>,
}

/// A request to replace the definition of a type as a whole.
#[derive(Debug, Clone)]
pub struct UpdateTypeRequest {
    pub can_be_root: bool,
    pub allowed_parent_types: Vec<String>,
    pub allowed_membership_types: Vec<String>,
    /// The new schema; none clears the stored one.
    pub metadata_schema: Option<serde_json::Value>,
}

// -- Groups --

/// Where a group stands.
#[derive(Clone, Copy, Debug, PartialEq, Eq)]
pub struct GroupHierarchy {
    /// The parent; none for a root.
    pub parent_id: Option<Uuid>,
    /// The tenant that the group belongs to.
    pub tenant_id: Uuid,
}

/// Where a group stands, seen from a reference group.
#[derive(Clone, Copy, Debug, PartialEq, Eq)]
pub struct GroupHierarchyWithDepth {
    pub parent_id: Option<Uuid>,
    pub tenant_id: Uuid,
    /// The signed distance from the reference group.
    pub depth: i32,
}

/// A resource group.
#[derive(Debug, Clone)]
pub struct ResourceGroup {
    pub id: Uuid,
    /// The path of the group's type.
    pub code: String,
    pub name: String,
    pub hierarchy: GroupHierarchy,
    pub metadata: Option<serde_json::Value>,
}

/// A resource group, seen from a reference group.
#[derive(Debug, Clone)]
pub struct ResourceGroupWithDepth {
    pub id: Uuid,
    /// The path of the group's type.
    pub code: String,
    pub name: String,
    pub hierarchy: GroupHierarchyWithDepth,
    pub metadata: Option<serde_json::Value>,
}

/// A request to create a group.
#[derive(Debug, Clone)]
pub struct CreateGroupRequest {
    /// The identifier that the caller wants; a fresh one where none is given.
    pub id: Option<Uuid>,
    /// The path of the group's type.
    pub code: String,
    /// The display name, of 1 to 255 characters.
    pub name: String,
    /// The parent; none for a root.
    pub parent_id: Option<Uuid>,
    /// The tenant to create the group in; the caller's own where none is
    /// given. A group of a tenant type is its own tenant, so it takes none.
    pub tenant_id: Option<Uuid>,
    pub metadata: Option<serde_json::Value>,
}

/// A request to replace the ordinary attributes of a group. A group's type
/// cannot change, and its parent changes only by a move.
#[derive(Debug, Clone)]
pub struct UpdateGroupRequest {
    /// The display name, of 1 to 255 characters.
    pub name: String,
    /// The new metadata; none clears the stored ones.
    pub metadata: Option<serde_json::Value>,
}

// -- Memberships --

/// A resource's membership in a group.
#[derive(Debug, Clone)]
pub struct ResourceGroupMembership {
    pub group_id: Uuid,
    /// The path of the resource's type.
    pub resource_type: String,
    pub resource_id: String,
}

// -- Laws --

/// A text is taken as a type path exactly where its canonical form is not empty,
/// is an identifier of the global type system, and ends in `~`; the refusal says
/// whether it was empty.
pub proof fn type_path_is_accepted_by_its_form(s: Seq<char>)
    ensures
        canonical_path_fault(s) is None <==> {
            &&& crate::validation::gts_fault(s) is None
            &&& s.len() > 0
            &&& s.last() == '~'
        },
        canonical_path_fault(s) == Some("GTS type path must not be empty"@) <==> s.len() == 0,
{
    reveal_strlit("~");
    reveal_strlit("GTS type path must not be empty");
    reveal_strlit("Invalid GTS type path format");
    assert("~"@.len() == 1);
    assert("GTS type path must not be empty"@.len() == 31);
    assert("Invalid GTS type path format"@.len() == 28);
    if s.len() > 0 {
        assert(s.last() == '~' <==> "~"@.is_suffix_of(s)) by {
            if s.last() == '~' {
                assert(s.subrange(s.len() - 1, s.len() as int) =~= "~"@);
            }
            if "~"@.is_suffix_of(s) {
                assert("~"@[0] == s[s.len() - 1]);
            }
        }
    }
}

} // verus!
