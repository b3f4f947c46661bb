# tagaton

A small visit-tagging web service. Visits to tagging URLs are queued as
tags, written to an SQLite table in batches of up to 500 every four
seconds, and listed back (all tags, or counts grouped by kind, tag, referer
and address) under a secret path taken from `NEVER_COMMIT/tagaton.toml`.

Layout:

- `src/` — the verified library (Verus):
  - `text.rs` — joining strings, doubling quotes for SQL literals;
  - `str_map.rs` — a string-keyed map kept in ascending key order;
  - `config.rs` — reading the configuration document;
  - `db/` — the queue of pending tags and the SQL statements of the store;
  - `server/` — tags and their rows, the route table, what each handler
    does, the CORS headers, the batch step, and two path routers;
  - `my_log.rs` — the logger's settings.
- `app/` — the program around it: logging setup, file reading, SQLite
  access, the iron HTTP server and the batch thread.
- `tests/` — tests of the library.
