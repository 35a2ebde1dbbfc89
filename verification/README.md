# kagi_mcp

The verified core of a Model Context Protocol server for the Kagi Search and
Extract APIs. The library in `src/` is written in Verus: every function states
its behaviour in `requires`/`ensures` clauses and Verus proves it.

## Layout

- `src/api/` – request and response types of the Kagi API, the client
  settings builder, and the mapping of HTTP failures to errors.
- `src/format/` – the markdown renderings of search results, extracted pages
  and the monthly usage table, with the text clean-ups they use (tag
  stripping, entity decoding, whitespace and ellipsis normalisation, date
  trimming).
- `src/cache.rs` – content IDs of cache keys, the eviction plan of an
  overfull cache, and entry expiry.
- `src/config.rs` – value parsers of the command line and the merge of the
  fallback rules; `src/fallback.rs` applies those rules to pages.
- `src/domain.rs` – the grouping key of a result (its `group_id`, else the
  registrable domain of its URL).
- `src/pages.rs`, `src/guard.rs`, `src/logging.rs`, `src/parse.rs`,
  `src/text.rs` – page lists, the response size budget, per-process log line
  tagging and log retention, integer parsing, and character-level helpers.
- `tests/` – tests of the library on concrete values.
- `app/` – the server program: command line, HTTP client, SQLite cache and
  counters, logging setup and the MCP tools, built on the library.

Calls into other crates (`url`, `publicsuffix`, `regex`, `html-escape`,
`xxhash-rust`, `chrono`) sit behind small trusted functions whose contracts
name their results; everything around them is proved.
