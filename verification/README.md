# auroradb

AuroraDB's database logic as a Verus library: every function in `src/` is
verified against its `requires`/`ensures` contract, and the laws the library
promises stand as public proof functions (`law_*`).

## Layout

- `src/` — the verified library.
  - `engine/` — values and column types, the table catalog, WHERE/JOIN
    evaluation, aggregation with GROUP BY/HAVING, window functions, ordering,
    and the database that runs CREATE/DROP/INSERT/UPDATE/DELETE/SELECT.
  - `jit/` — SIMD capabilities, logical plans, the query compiler and
    optimiser, the vectorizer, the LRU cache of compiled queries and the
    execution profiler.
  - `distributed/` — cluster membership, Raft-style consensus, replication
    and failover.
  - `security/` — row-level security, ABAC, masking, encryption, auditing and
    compliance reports.
  - `backup/` — full and incremental backup archives, their metadata,
    cleanup, and recovery that reads the archives back.
  - `advanced/` — time series chunks and range queries, the property graph
    (nodes, relationships, label/type/adjacency indexes, MATCH selection),
    and the registries of SQL-callable AI and analytics functions.
  - `enterprise/` — high availability, metric series, alerts and
    bottlenecks.
  - `config.rs`, `errors.rs`, `api.rs`, `data.rs` — configuration and its
    validation, error values, the REST API's values, storage data types.
  - `ambient.rs` — the trusted wrappers around outside crates (clock,
    randomness, UUIDs, regular expressions, JSON quoting, hashing, gzip,
    case mapping); each states what the library relies on.
  - `text.rs` — strings, decimal and hexadecimal rendering, and `StringMap`,
    an insertion-ordered map keyed by strings.
- `tests/` — tests run against the compiled library.
- `app/` — plain Rust around the library: configuration files and the
  environment, the HTTP server, backup files, CPU feature detection, and the
  floating-point parts (SUM/AVG of results, time-series aggregates, weighted
  paths, PageRank, centralities and similarity search over the graph).
