//! JSON values, which the library carries and sometimes looks into.

use vstd::prelude::*;

verus! {

#[verifier::external_type_specification]
#[verifier::external_body]
pub struct ExJsonValue(serde_json::Value);

/// The members of a JSON object, by their keys; none for any other value.
pub uninterp spec fn json_members(value: serde_json::Value) -> Map<Seq<char>, serde_json::Value>;

/// Whether a JSON value is an object.
pub uninterp spec fn json_is_object(value: serde_json::Value) -> bool;

/// The boolean that a JSON value is, where it is one.
pub uninterp spec fn json_bool(value: serde_json::Value) -> Option<bool>;

/// Whether `jsonschema::validator_for` accepts a value as a JSON Schema.
pub uninterp spec fn schema_compiles(schema: serde_json::Value) -> bool;

/// What `jsonschema::Validator::iter_errors` has against a value, in words; none
/// where the value satisfies the schema.
pub uninterp spec fn instance_faults(
    schema: serde_json::Value,
    instance: serde_json::Value,
) -> Seq<Seq<char>>;

/// Whether a value satisfies a JSON Schema.
pub open spec fn schema_accepts(schema: serde_json::Value, instance: serde_json::Value) -> bool {
    instance_faults(schema, instance).len() == 0
}

/// `Clone` of `serde_json::Value`: the same value.
pub assume_specification[ <serde_json::Value as Clone>::clone ](
    value: &serde_json::Value,
) -> (r: serde_json::Value)
    ensures
        r == *value,
;

/// `serde_json::Value::get` with a key: the member of an object with that
/// key; nothing where there is none or the value is no object.
#[verifier::external_body]
pub(crate) fn json_member<'a>(value: &'a serde_json::Value, key: &str) -> (r: Option<
    &'a serde_json::Value,
>)
    ensures
        r is Some <==> json_members(*value).contains_key(key@),
        r matches Some(m) ==> *m == json_members(*value)[key@],
{
    value.get(key)
}

/// `serde_json::Value::as_bool`: the boolean, where the value is one.
#[verifier::external_body]
pub(crate) fn json_as_bool(value: &serde_json::Value) -> (r: Option<bool>)
    ensures
        r == json_bool(*value),
{
    value.as_bool()
}

/// Whether a list of members holds exactly the members of `map`, each once.
pub open spec fn lists_members(
    list: Seq<(String, serde_json::Value)>,
    map: Map<Seq<char>, serde_json::Value>,
) -> bool {
    &&& forall|i: int|
        0 <= i < list.len() ==> map.contains_key((#[trigger] list[i]).0@) && map[list[i].0@]
            == list[i].1
    &&& forall|k: Seq<char>| #[trigger]
        map.contains_key(k) ==> exists|i: int| 0 <= i < list.len() && (#[trigger] list[i]).0@ == k
    &&& forall|i: int, j: int|
        0 <= i < j < list.len() ==> (#[trigger] list[i]).0@ != (#[trigger] list[j]).0@
}

/// `serde_json::Value::as_object`: the members of an object, each once, in no
/// stated order; nothing for any other value.
#[verifier::external_body]
pub(crate) fn json_object_members(value: &serde_json::Value) -> (r: Option<
    Vec<(String, serde_json::Value)>,
>)
    ensures
        r is Some <==> json_is_object(*value),
        r matches Some(list) ==> lists_members(list@, json_members(*value)),
{
    value.as_object().map(|m| m.iter().map(|(k, v)| (k.clone(), v.clone())).collect())
}

/// `serde_json::Value::Object` of the `serde_json::Map` that is collected from
/// members with distinct keys: the object with these members.
#[verifier::external_body]
pub(crate) fn json_object(members: Vec<(String, serde_json::Value)>) -> (r: serde_json::Value)
    requires
        forall|i: int, j: int|
            0 <= i < j < members@.len() ==> (#[trigger] members@[i]).0@ != (#[trigger] members@[j]).0@,
    ensures
        json_is_object(r),
        lists_members(members@, json_members(r)),
{
    serde_json::Value::Object(members.into_iter().collect())
}

/// `jsonschema::validator_for`: nothing where the value is a JSON Schema, else
/// the text of the error. What the text says is left unsaid: of several
/// references that cannot be resolved it names the one that a hash set, seeded
/// anew in each process, yields first.
#[verifier::external_body]
pub(crate) fn schema_error(schema: &serde_json::Value) -> (r: Option<String>)
    ensures
        r is None <==> schema_compiles(*schema),
{
    jsonschema::validator_for(schema).err().map(|e| e.to_string())
}

/// `jsonschema::Validator::iter_errors`: the texts of what is wrong with a
/// value, in the order of the schema and of the value. They depend on these two
/// alone. A value satisfies the schema where there are none.
#[verifier::external_body]
pub(crate) fn instance_errors(schema: &serde_json::Value, instance: &serde_json::Value) -> (r: Vec<
    String,
>)
    requires
        schema_compiles(*schema),
    ensures
        crate::text::texts(r@) == instance_faults(*schema, *instance),
{
    jsonschema::validator_for(schema)
        .map(|v| v.iter_errors(instance).map(|e| e.to_string()).collect())
        .unwrap_or_default()
}

} // verus!
