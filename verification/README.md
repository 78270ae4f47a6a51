# sqlx_data_parser

SQL support for a repository layer built on SQLx, verified with Verus:

- `alias`: `{{name}}` aliases substituted into SQL templates (with circular
  and unresolved references reported), and the text form in which a trait's
  aliases are handed to its methods. `alias_syntax` reads the
  `#[alias(name = "content")]` attributes of a trait (syn splits them, the
  library decides what they declare). Laws in `alias_laws`, `alias_cycles`
  and `alias_acyclic`.
- `parser`: one-statement parsing through a cache, and the result columns a
  query or a `RETURNING` clause gives.
- `count`: the COUNT query of a query, chosen between `COUNT(*)`,
  `COUNT(DISTINCT ..)` and counting over a subquery. Laws in `count_laws`.
- `insert`: the clauses of an `INSERT` that code generation reuses.
- `dynamic`: COUNT queries through the caches, and validation of request
  parameters.
- `cache`: the shared cache with per-key hit and miss statistics.
- `model`, `sql_ast`: what the logic reads of a sqlparser statement, and the
  trusted calls into sqlparser that read and edit it.
- `text`: character-level operations with their specifications.

`src/` is the verified library. `app/` holds what needs `thiserror` or
process-wide state: `syn` errors for the procedural macro, error types with
std's `Display` and `Error`, and caches shared by the whole process.

The original's macro self-test suite (`MacroTestFramework` and its test
groups) is not here: it drives the type analyser, DML parser and code
generator of the macros crate, which are not part of these sources. Only its
error type and its return-type comparison are kept, in `test_framework`.
