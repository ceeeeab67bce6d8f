# clann_server

The rules of a family-tree (ancestry) API server, verified with Verus:
visibility and plan limits, person/proxy access and redaction, relationship
edges and pedigrees, the family-tree view, duplicate scoring and ranking,
life-event timelines, contact requests and merge proposals, media rules,
research-note filing, privacy scrubbing of tool responses, the API errors of every refusal, and
the decisions of the data-migration tools (the notes backfill and its
reverse drain, and the person-proxy migration).

Layout:

- `src/` — the verified library, one module per area (`lib.rs` lists them).
  Contracts are stated over spec functions and views; the laws of the
  library are public proof functions named `lemma_*`.
- `tests/` — executable tests of the library on concrete values.
- `app/` — the server binary: settings from the environment, logging, the
  notes-service and user-service HTTP clients, and the HTTP error mapping.
  The database-backed handlers and the migration tools' loops are not
  built: the database client is not a dependency of this build.
