# Conduit

Conduit streams files directly between an uploader (`PUT /{session_name}`)
and a downloader (`GET /{session_name}`), optionally protected by a token.
Nothing is stored on the server.

## Layout

- `src/` — the verified library:
  - `small_string.rs`: bounded byte strings used for session names (10 to 30
    bytes) and tokens (8 to 30 bytes), with parsing from request input,
    which accepts ASCII text only;
  - `session.rs`: the in-memory registry of waiting uploads, and the guard
    that removes an unclaimed session;
  - `retry.rs`: the schedule on which an early downloader retries;
  - `token.rs`: token strength rules, random token generation (the token
    that a set of random draws gives is stated exactly), Argon2 hashing and
    checking;
  - `rate_limit.rs`: lockout after repeated failed token attempts;
  - `db.rs`, `bridge.rs`: the rules of the database-backed store, and the
    handover between a confirmed downloader and its waiting uploader;
  - `error.rs`: the errors and their HTTP status codes.
- `app/` — the actix-web server: request parsing, the handlers, the redb
  store and the retry loops.
- `tests/` — tests of the library.
