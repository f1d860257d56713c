# ahlt

The verified core of a governance workspace: Terms of Reference (ToRs),
their meetings and minutes, suggestions, proposals, agenda points, courses
of action, opinions and decisions, users and roles, the audit log,
warnings, and an ontology of entities and relations that can be exported
as SQL or JSON-LD and imported back.

## Layout

- `src/` — the library, written and proved with Verus. Every function has a
  contract; the laws of the library are public proof functions.
  - `text`, `props`, `json`, `json_text` — characters, decimal numbers,
    property lists, the JSON model and the JSON text read with `serde_json`.
  - `data_manager`, `export_rows`, `sql_export`, `jsonld`, `jsonld_export`,
    `jsonld_round_trip`, `jsonld_member_order`, `jsonld_relations`, `import` —
    exporting and importing the entity graph.
  - `navigation`, `users`, `audit`, `dashboard`, `ontology`, `graph_sync`,
    `records`, `meetings`, `admin`, `workflow`, `warnings` — the rules of the
    pages and of the records they create.
- `tests/` — tests on concrete values, run against the compiled library.
- `app/` — a command-line front end that reads and writes Postgres (and
  Neo4j) and hands plain values to the library.
