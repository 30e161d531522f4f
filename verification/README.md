# type-metadata

Type information for Rust types, verified with Verus.

- `src/ty/path.rs`: namespaces (segments that are Rust identifiers, also read
  from a module path split at `::`) and type paths.
- `src/ty/sum.rs`: C-like enums, enums with unit, struct and tuple-struct
  variants, and unions.
- `src/ty/fields.rs`: named and unnamed fields.
- `src/registry.rs`: the registry that compacts type information by interning
  the strings and types it refers to, with the laws of interning.
- `src/form.rs`, `src/meta_type.rs`: the two forms of type information and the
  meta type that stands for a Rust type.
- `src/utils.rs`: the check for Rust identifiers.
- `app/`: copies of the compacted types that carry serde's `Serialize`.
