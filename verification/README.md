# resource_group

Resource groups: a forest of typed groups, the resources that are members of
them, and the rules under which both may change. The library is written in
Verus, and its rules are proved against their contracts. What is not proved is
what it takes from other crates and from std: the small functions that wrap such
a call are marked `#[verifier::external_body]`, and the contract of each is
trusted, as its doc comment says.

An operation on the forest is a function from what is known so far to what to
do next: to read one more thing, to refuse, or to write. The service around the
library reads, asks again, and finally carries out what it was told. So the
rules need no database, and every refusal comes before the first write.

## Layout

- `src/group_service.rs`: creating, updating, moving and deleting groups.
- `src/forest.rs`: the forest as a mathematical object, and what every operation
  keeps true of it: no cycles, limits, tenants, retired identifiers, and what
  the closure table holds afterwards.
- `src/membership_service.rs`, `src/membership_repo.rs`: memberships.
- `src/type_repo.rs`: types as they are stored and as they are shown, and the
  type paths in a filter.
- `src/hierarchy_filter.rs`, `src/odata.rs`, `src/decimal.rs`: the `$filter` of
  hierarchy queries, and the bounds that it gives a traversal.
- `src/validation.rs`, `src/json.rs`: codes of types, and metadata.
- `src/error.rs`, `src/canonical.rs`: errors, and what a client sees of them.
- `src/operations.rs`, `src/routes.rs`: permissions, isolation, and the
  published interface.
- `src/dto.rs`, `src/extract.rs`, `src/models.rs`, `src/rows.rs`,
  `src/tombstone.rs`, `src/ids.rs`, `src/text.rs`: the data.
- `tests/`: tests of the library.
- `app/`: the service around the library: web interface, transactions, and the
  ports to the database, the policy and the types registry.
