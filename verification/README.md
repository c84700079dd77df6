# rust_url_shortener

A URL shortener: it hands out short ids for long URLs, resolves them, counts
visits, and lists what it stores.

- `src/` is the library, verified with Verus: the rules of shortening
  (`services`), the storage interface with what each operation does to the
  stored URLs and an in-memory backend (`storage`), the logic around the SQLite
  queries (`storage::sqlite`), URL and short-id validation and id generation
  (`utils`), decimal time stamps (`models`, `decimal`), errors and their HTTP
  answers (`errors`), and settings (`config`).
- `app/` is the HTTP server around it: axum routes, the SQLite backend over
  sqlx, JSON copies of the library's types, and reading the environment.
- `tests/` runs the library.
