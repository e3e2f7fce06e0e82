# appdb

The rules of a small SurrealDB helper library, written in Verus with their
contracts proved: identifiers and table names, the SurrealQL text of every
fixed query, schema DDL and its idempotent rewrite, keyset pagination,
database error classification, id values, and field encryption with its key
management and per-field context registry.

## Layout

- `src/` — the verified library.
  - `text.rs` — character-level helpers (search, case mapping, decimal text).
  - `error.rs` — `DBError`, its classes, display text and classification.
  - `json.rs` — the kind and members of JSON values, as the library reads them.
  - `autofill.rs` — fill-on-save values and timestamp token normalization.
  - `connection.rs` — durations, datastore options, engine parameter text,
    idempotent DDL.
  - `model/` — identifiers, table-name registry, relation names, HNSW index DDL.
  - `query/builder.rs` — the SurrealQL text of each query shape.
  - `pagination.rs` — pages, cursors and the checks a cursor must pass.
  - `repository.rs` — write modes, ordering and lookup rules, batch chunking,
    duplicate detection and the write transactions.
  - `relation_sync.rs` — relation-field rows gathered per relation and
    direction, and the statements that define relation tables and replace
    the stored relation rows of written records.
  - `serde_utils/id.rs` — string-or-integer ids, `table:key` record-id text,
    record-key text and the public form of a row's root id (a number for an
    integer key).
  - `crypto.rs` — AES-256-GCM sealing, stored-key hex encoding, key loading.
  - `crypto_registry.rs` — default key location and the context registry.
- `tests/` — tests run against the compiled library.
- `app/` — process-wide registries, the OS keyring, file backups, serde forms
  of the library's values, displayable error types, and cursor encoding.

Outside calls (the AES-GCM cipher, random bytes, the clock, UTF-8 decoding,
JSON member lookup, record-key access, `table:key` parsing, table-name
escaping) go through small trusted wrappers whose contracts say what the
crates document; everything around them is verified.

## What is not here

The database itself is not part of this crate: it does not depend on the
`surrealdb` client crate, so nothing opens, installs or resets a database
handle, and nothing runs a query. Absent with it are `init_db`, `get_db`,
`reset_db`, `reset_db_and_remove_path`, the database operations of `Repo`
(`save`, `save_many`, `create`, `get` and the rest; its `list` builder is
here), `GraphRepo`, `TxRunner`, `RawSql`, `ViewParams`, `WriteReturnView` and
`strip_null_db_fields`. What those operations decide before and after they
talk to the database stands here and is verified: the SurrealQL text they
send, relation rows included, batch chunking and duplicate detection, id extraction and validation,
pagination windows and cursors, error classification and the crypto context
registry.

Sets of strings (seen record keys, registered names) are kept in a `Vec` whose
entries are distinct, an invariant that the proofs carry, rather than in a
`HashSet`, of which Verus proves nothing for `String` keys.
