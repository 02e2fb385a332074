# gemini_marketplace

A command-line marketplace for Gemini CLI extensions: it lists, searches and
shows extensions from curated and custom sources, keeps a local cache of their
catalogs, tracks refresh jobs and source errors, and answers an HTTP API and an
MCP tool interface.

## Layout

- `src/` is the library, written in Verus. Every function there carries a
  contract and is proved against it: the domain model, manifest normalization
  and validation, catalog filtering, sorting and paging, the source registry,
  the refresh queue, cache bookkeeping, preferences, telemetry counters, the
  status report, the catalog sync state machine and the mapping of errors to
  API answers. `src/laws.rs` states and proves the properties that relate
  several operations (one job per identifier in the refresh queue, a cache
  batch reads back as written, pages only hold matching entries, and so on).
  Calls into `url`, `semver`, `sha2`, `humantime` and `serde_json` go through
  small trusted wrappers whose contracts are stated next to them.
- `tests/` runs the library on concrete inputs.
- `app/` is the program around the library: argument parsing, files, the
  network, the HTTP server and the MCP loop. It hands plain values to the
  library and acts on what comes back.
