# Tabularis Informix plugin

A Tabularis database driver plugin for IBM Informix 11.70 and newer. It speaks
Tabularis' JSON-RPC-over-stdio protocol and reaches Informix through the IBM
Informix ODBC driver.

## Layout

- `src/` is the verified library (Verus): identifier and literal quoting,
  `SKIP`/`FIRST` pagination, `coltype`/`collength` decoding, connection-string
  assembly, DDL generation, row-edit statements and their safety guard, the
  catalog queries and the shaping of their rows into the JSON the host
  expects, and the compact JSON text used for array/object literals. Each
  public function states its result in its contract; the `law_*` proof
  functions state properties that span calls.
- `app/` is the program around it: the JSON-RPC loop on stdin/stdout, the
  conversion between `serde_json` values and the library's `JsonValue`, the
  process-wide settings, the ODBC connection and fetch layer (`odbc-api`),
  and the Windows DLL search-path setup (`winreg`).
- `tests/` exercises the library on concrete values.
