# sqlserver_mcp

The core of an MCP server that exposes SQL Server's catalog views, stored
procedures and functions as operations: each call names an object by an
endpoint path `/<schema>/<name>`, carries its arguments in a JSON `body`,
and is run over TDS as a `SELECT` or an `EXEC` with bound parameters.

The library in `src/` is verified with Verus. It holds:

- `ident`, `statement`, `api_client`: path and identifier checks, the
  ordered parameter list of an input schema, the execution database, the
  statement text with its `@P<n>` arguments, and the 400/403/500 split of
  driver errors;
- `param`, `numeric`, `sql_type`, `temporal`: turning JSON arguments into
  typed parameters by their declared `x-sql-type`, exact decimals included;
- `cells`: rendering result-set cells as JSON, calendar values included;
- `config`, `string_map`, `auth_strategy`, `auth_manager`: configuration,
  the three authentication strategies and the credential cascade;
- `json`, `text`: the JSON value model and character-sequence helpers;
- `external`: the calls into `chrono`, `uuid`, `base64` and `std`, each
  with the contract the library relies on.

`app/` is the program around it: environment and files, the token
exchange over HTTP, the connection pool and the driver, and the
conversions between the library's values and those of `serde_json`,
`tiberius` and `chrono`.
