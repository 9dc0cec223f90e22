# diesel (verified core)

A verified core of a SQL query builder and of the attribute grammar that its
derive macros read, written in Verus.

- `src/query_builder.rs`: backends, the pass that collects SQL text and bind
  parameters, identifier quoting, placeholders, and the `debug_query` output.
- `src/insertable.rs`: records to insert (`Insertable`), `VALUES` clauses,
  optional columns that fall back to `DEFAULT`, and batch inserts from slices,
  vectors and arrays; with the proofs that a borrowed batch of `column.eq(value)`
  records (or pairs of them) writes the same SQL as an owned one, and that an
  array batch writes what the vector batch writes.
- `src/select_by.rs`: the `select_by` statement, whose query methods forward
  to the statement inside.
- `src/numeric.rs`: decimal numbers on MySQL-like backends.
- `src/tokens.rs`, `src/syntax.rs`, `src/options.rs`, `src/parsers.rs`,
  `src/attrs.rs`: token streams and the `#[diesel(...)]` attribute grammar,
  including the deprecated one-option forms, with the proof that the old form
  reads as the new one.
- `src/ast.rs`, `src/util.rs`, `src/from_sql_row.rs`: the model of a derive
  input and the code that `#[derive(FromSqlRow)]` generates.

`app/lib.rs` converts between `syn`/`proc_macro2` values and the library's
own, and reports warnings and errors through `proc_macro_error`.
