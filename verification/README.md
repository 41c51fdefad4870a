# surrealdb_migrations

A migration tool for SurrealDB whose core is verified with Verus.

The library (`src/`) holds the logic of the tool with contracts that Verus
proves:

- `common`, `create`, `remove`, `list`: naming, creating and removing
  migration files.
- `sorting`, `order`, `order_safety`: ordering of names (natural order
  through `lexicmp`, or the order of characters).
- `file`, `io`, `apply`, `models`: tag filtering, concatenation of schema
  files, selection and ordering of the migrations that an operation runs.
- `statements`, `definitions`, `runner`: the model of SurrealQL definitions,
  rollback statements, definition diffs (through `diffy`) and the decisions
  taken while applying or reverting migrations, one migration at a time.
- `config`, `input`: settings read from the configuration file (`ini`) and
  the environment.
- `diff`, `branch`, `branch_diff`: differences of table definitions and the
  branch commands' arguments.
- `scaffold`, `schema_import`, `sql_schema`: the steps of project
  scaffolding, initial migrations, the reading of SQL schemas (through
  `sqlparser`) and their import into SurrealQL schema files.
- `laws`: properties that relate several functions, stated and proved.

The program (`app/`) parses the command line, reads and writes files, then
calls the library. The commands
that talk to a SurrealDB instance report that the program is built without
a database client.
