# ulmcp

A tool protocol for AI agents, compatible with MCP (Model Context Protocol):
typed tool definitions and validation, URI-addressed resources, prompt
templates, token budget tracking, a registry of tools and resources, and an
MCP JSON-RPC server and client. The library is written in Verus and its
behaviour is stated in contracts that Verus proves.

Layout:

- `src/` the verified library.
  - `tool.rs` values, parameters, definitions and call validation
  - `resource.rs`, `prompt.rs`, `context.rs` resources, templates, budgets
  - `registry.rs` registration, discovery and invocation
  - `map.rs` the insertion-ordered string map that values and arguments use
  - `text.rs` string building and the outside text functions it relies on
  - `mcp/` MCP message types and the adapter between them and the native types
  - `server.rs`, `client.rs`, `transport/` answering and building requests
- `tests/` tests run against the compiled library.
- `app/` what stays outside the verified library: JSON text through serde,
  conversions between `serde_json::Value` and `ToolValue`, and what works on
  floating-point numbers.

Maps keyed by strings are `StrMap`s: vectors of entries whose lookups,
insertions and equality are stated and proved over the entries. The registry
keeps its tools and resources in vectors, with no name (or URI) twice as a
stated invariant. With `String` keys, `std::collections::HashMap` gives
Verus nothing to prove lookups by, so neither holds one.

JSON values inside the library are `ToolValue`s; a floating-point number is
held as the text Rust's `Debug` writes for it.
