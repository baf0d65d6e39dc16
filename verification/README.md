# striem

The verified core of StrIEM, a streaming SIEM built on Vector: Sigma
detection findings, configuration, the generated Vector configuration,
storage routing of OCSF events, query bounding, data sources and the
management API's settings.

- `src/` — the library, verified with Verus. Each module states its
  behaviour in `requires`/`ensures` over plain-data models (JSON and TOML
  values, socket addresses, URLs held as their serialized text).
- `tests/` — tests of the library on concrete values.
- `app/` — the program: configuration loading (files and environment),
  rule loading and matching with `sigmars`, standard input/output, and the
  HTTP API with `axum`.

## Not included

- Writing Parquet files: the library decides which OCSF class an event goes
  to and where that class is stored, but no writer is run, since the
  `parquet` and `arrow` crates are not among the dependencies.
- SQL querying and the persistence of sources: both run on DuckDB, which is
  not a dependency either; the library bounds a query with its row limit and
  plans which database the API would open, but none is opened.
- Vector sink documents: the program registers no sinks, so the Vector
  configuration holds only the built-in StrIEM sink.
