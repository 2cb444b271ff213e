# kqr

Query Kafka topics with SQL. A bounded window of messages is read from a
topic, decoded from JSON into Arrow record batches and registered as a table
that SQL runs against; results print as a table, JSON, NDJSON or CSV.

## Layout

- `src/` is the verified library (Verus). It holds the rules of the tool,
  each with a contract proved against a mathematical model:
  - `window`, `time`: the `--last / --since / --from / --to / --offset`
    flags, resolved into a read window, and the millisecond bounds a consume
    looks up;
  - `assign`, `consume`: per-partition start/end offsets and the bookkeeping
    of a bounded consume (what is accepted, when to stop, what is counted);
  - `config`, `env`, `cli`: profile selection, `${VAR}` expansion and the
    decisions of the command line (output format, log level, profile);
  - `names`, `cache`, `sample`, `topics`, `decode`, `query`, `repl`,
    `output`, `progress`: SQL table names, cache keys and paths, hex dumps,
    topic listing, JSON schema inference and batch decoding, `EXPLAIN` and
    table rendering, REPL line, meta-command and `\d` listing handling,
    the `kqr schema` layout, byte units and progress throttling.
- `tests/` runs the library on concrete values.
- `app/` is the command-line program around it: argument parsing, config
  files, the Kafka client loop, Arrow/Parquet I/O, the query engine, and
  printing.
