# marius_forge

Build-time generators of the Marius projection engine, verified with Verus.

- `src/fragment/`: `.marius` fragment templates — scanner, parser,
  structural validation, elimination of record conditions, capacity
  measure, hoisting of script blocks, static marker scan, and the Rust
  code emitted for `render()`.
- `src/page/`: page templates with `extends`/`block` — parser, block
  ranges, linking of a template chain, lowering to a flat token stream,
  top-level imports.
- `src/db/`: PostgreSQL layouts — type mapping, layout validation against
  the registry, grouping of registry rows, decisions on catalogue facts,
  and the source text of the row, storage, varlena and projection types.
- `src/schema.rs`, `src/naming.rs`, `src/text.rs`: shared field model,
  naming and capacity helpers, text primitives.
- `app/lib.rs`: the catalogue and registry queries (sqlx); every row read
  is handed to the library as plain values.

Each public function states what it returns in its `ensures`; the
properties that span functions are public proof functions.
