# openapi_merge

Merges several OpenAPI documents into one. A JSON configuration names the
inputs and the output file; the first input is the base, and each later
input adds what the base lacks:

- components, extensions: entries under names the result does not hold yet
  are appended; an existing entry always wins;
- tags: tags the result does not hold yet are appended, each once;
- operations: the operations that the input's selection takes (exclude tags
  win over include tags) are offered one by one, each at its path as the
  input's path modification rewrites it (`stripStart` removed where the path
  starts with it, then `prepend` put in front); an operation is taken
  only where the path's item has no operation for that method yet, and a
  path that is a reference is left alone;
- security requirements are not merged.

## Layout

- `src/` is the verified library (Verus). `document.rs` models the parts of
  an OpenAPI document that merging reads; values that merging only moves are
  held as integer handles. `ordered.rs` and `ext.rs` hold the merge rules and
  their laws, `merge.rs` the merge of all inputs and its laws, `input/` the
  per-input settings, `config.rs` the configuration, `openapi_json.rs` the
  parse of an input's document.
  `index_map.rs`, `file_path.rs` and `clock.rs` hold the trusted wrappers
  around `indexmap`, `std::path` and `std::time`.
- `tests/` exercises the library on concrete values.
- `app/` is the command line tool: reading the configuration and the input
  files, converting `openapiv3` documents to and from the library's
  model, and writing the result.
