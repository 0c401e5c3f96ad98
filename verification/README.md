# trieve_handlers

The request-handling rules of a search and retrieval service, written in
Verus and verified: who may call a route, how requests are validated and
defaulted, how chunks, files, groups, topics and messages are prepared before
the services are called, and how the answers are shaped.

- `src/` — the verified library, one module per area (access guards and
  roles, chunks, files, groups, datasets, messages and completions, message
  history, billing, webhooks, public pages, paging). Calls into `uuid`,
  `regex`, `base64`, `rust-argon2`, `rand`, `chrono` and `sanitize_html` go
  through small trusted wrappers whose contracts name or state what those
  crates return.
- `tests/` — tests of the library on concrete values.
- `app/` — the ingestion worker and the environment, process and header glue
  around the library.
