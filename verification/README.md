# gelite

A small Gel-like query compiler targeting SQLite, written in Verus. Every
stage is a verified function whose contract is stated over a mathematical
model of its input and output.

Pipeline:

- `schema_lexer`, `schema_parser`: `.geli` schema text to declarations.
- `schema`: the validated schema catalog (object types, scalar fields,
  links, cardinality, implicit `id`, positional references).
- `query_lexer`, `query_parser`, `query_ast`: select and insert syntax.
- `query_resolver`, `query_ir`: name and type resolution into the semantic IR.
- `sqlite_plan`, `sqlite_sqlgen`: SQLite select planning and SQL rendering
  with bind values.
- `sqlite_schema`, `sqlite_schema_sqlgen`: the initial SQLite schema plan,
  its `CREATE TABLE` statements and catalog metadata inserts.
- `sqlite_runner`: the contract a SQLite backend implements to apply
  rendered schema statements.
- `text`: string helpers shared by the stages.

`app/main.rs` is a small driver that resolves, plans and renders a fixed
query and prints each stage. `tests/` exercises the library on concrete
inputs.
