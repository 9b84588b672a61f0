# kafka_wire_codegen

The renderer behind a generated implementation of the Apache Kafka wire
format: it turns normalized Kafka message schemas into Rust source text —
one module per API key, the registry, the header-version policy, the crate
facade, and the verification programs built from the known-tag census — and
frames the locked sources whose digests generated provenance records.

Every renderer is verified with Verus. Each emitting function is specified as
the exact text it appends to the file being built, or the exact refusal it
raises, so a contract names the generated bytes rather than a property of
them.

## Layout

- `src/versions.rs`, `src/schema.rs`, `src/group.rs`: the normalized schema
  the renderers read, with version sets modelled as sets of integers.
- `src/field/`: per-field decisions — validation of the supported slice,
  encoding regime, Rust types and defaults, version gates, codec calls.
- `src/api/`: one API key's file — imports, structs, codecs, tagged
  sections, validation, metadata and descriptors.
- `src/registry.rs`, `src/header_version.rs`, `src/module_file.rs`,
  `src/fuzz_dispatch.rs`, `src/tag_census.rs`, `src/tag_assertions.rs`,
  `src/verification_files.rs`: the corpus-wide files.
- `src/source.rs`: SHA-256 digests (through `sha2`), canonical byte framing,
  and source ordering.
- `src/laws.rs`: properties that span functions, proved.
- `app/`: reading files and walking directories, handing bytes to the
  library.

## Behaviour worth knowing

- Validation accepts known tagged fields inside the flexible window and inline
  nullable structs; it refuses partial-version nullability, nullable tagged
  structs, arrays of arrays and anything without one bounded window.
- `ProtocolEq` and `RetainedSize` are emitted for every declared struct as
  well as for each message, so recursive equality and retained-size
  accounting reach nested values.
- The fuzz dispatch gives one arm to every versioned schema: the API pairs
  first, then the unkeyed schemas (headers and data schemas).
- Every scalar type, `float64` and `records` included, has a codec and a Rust
  type; `rust_type` is total. Prelude names are spelled as full paths
  (`::core::option::Option`, `::std::vec::Vec`) so no declared struct can
  shadow them.
- A declared struct is spelled the way lowering resolved it. Under the
  module-scoped rule that is upstream's own spelling (`StructRef::scoped`),
  so `ApiVersionsResponse`'s `ApiVersion` clashes with the imported wire type
  and that one name is written `kafka_wire_core::ApiVersion`;
  `StructRef::qualify` gives the owner-qualified spelling.

## The schema model

`schema`, `versions`, `naming` and `group` hold the normalized schema as plain
values: what a schema front end hands the renderer. The few computations on it
(parsing version declarations, snake and screaming case, the API stem, struct
spellings) are this crate's own statement of those rules, each verified
against its spec here; the front end itself lies outside this crate and is
supplied to `app/` as a function.
