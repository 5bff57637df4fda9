# aw-datastore (verified core)

The decision-making core of the ActivityWatch PostgreSQL datastore, written
in Verus with its contracts proved.

- `src/` — the verified library:
  - `text` — decimal rendering and `u16` parsing (with a round-trip law),
    substring search, Unicode whitespace trimming, splitting at a separator;
  - `metrics` — query/error counters, pool gauges, nearest-rank query-duration
    percentiles over an ascending sample list, Prometheus text output;
  - `retry` — transient-error classification, exponential backoff with a cap,
    ±25% jitter, and the retry/give-up decision after each failed attempt;
  - `health` — health status and the status decided from what a check saw;
  - `migrations` — pending migrations for a schema version, their statements,
    and the error a failure at each stage becomes;
  - `worker` — database configuration (defaults, password file, overrides,
    connection string), start-up connection retries, pool-checkout bookkeeping;
  - `datastore_pg` — event queries with numbered parameters, clipping of events
    to a time range, heartbeat merging, reading events from rows, error mapping;
  - `server` — parsing of the custom static paths option.
- `app/` — the asynchronous tokio/deadpool-postgres layer that performs the
  database I/O and the sleeps, and asks the library what to do.
- `tests/` — tests of the library on concrete values.
