# fx-core

The core of a knowledge-sharing platform (articles, series, books, terms,
tags and their prerequisite graph), written in Verus.

- `src/` is the verified library: content formats and kinds, frontmatter
  and heading parsing, TIDs and hashes, the JSON patch engine with its
  diff/apply law, the unified-diff parser, and the decisions of every
  service (defaults, routing, permission and validation checks, graph and
  chapter assembly, consistency reports). Each public function states its
  result in `ensures`; the laws that relate several functions are public
  proof functions (`lemma_*`).
- `tests/` runs the library on concrete values.
- `app/` is the unverified glue: Postgres queries through `sqlx`, YAML and
  JSON through `serde`, the file system, and the process-wide TID clock.
  It hands plain values to the library and stores what comes back.
