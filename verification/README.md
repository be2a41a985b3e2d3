# mockbox

A scriptable HTTP mock server. Every request is handed to a Rune script that
either answers it or lets it through to an upstream server.

- `src/` is the verified library: the key/value stores that scripts use
  (`cache`, `storage`, built on `entries`), path and query parsing
  (`routing`, `text`), the proxying decisions (`proxy`), the mapping of a
  script's reply to a response (`response`), the compiled-script cache and
  the choice of script file (`script`), and the random helpers
  (`rng`, `generate`).
- `app/` is the server around it: command line, HTTP with axum and reqwest,
  the Rune runtime and the modules registered in it, the file watcher, and
  privilege dropping.
- `tests/` exercises the library.
