# tf_provider

The building blocks of a Terraform provider (values, paths, diagnostics, schemas, the
decisions taken for each request of the plugin protocol) and the decisions of a provider of
command and file resources, with their behaviour stated in contracts and proved with Verus.

The plugin server itself (gRPC transport, the traits that a provider implements, their
dynamic adapters and `serve`) is not part of this crate: it needs the code generated from the
plugin protocol definition, which a build script would produce.

## Layout

- `src/` — the verified library
  - `value.rs`: `Value<T>` (a value, null or unknown) and dynamic values
  - `attribute_path.rs`, `diagnostics.rs`: paths to attributes, errors and warnings
  - `raw.rs`, `protocol.rs`: encoded values and the decisions taken for each request of the
    plugin protocol (kind of a planned change, upgrades, function results, diagnostics on
    the wire, the ports tried by the server)
  - `schema.rs`: schemas, the JSON of types and the protocol form of schemas
  - `named_map.rs`, `order.rs`: sorted maps and sets of names, and the orders they keep
  - `cmd/`: resources and data sources driven by commands (state, validation, ambiguity of
    `update` blocks, planning, reading outputs, applying changes)
  - `file/`: remote files as resources and data sources (validation, planning, what is
    written and read, fingerprints)
  - `connection.rs`, `provider.rs`: connections (local, SSH) and the provider itself
- `tests/` — tests on concrete values, among them the documented examples of `Value`
- `app/` — the surroundings: the wire encodings of values (serde), and the local machine on
  which commands run (the `read` commands several at a time) and files are read and written
