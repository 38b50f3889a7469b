# Sub Manager Lite

A subscription management service: it tracks subscriptions, totals their
costs, warns of upcoming bills, and expires or renews subscriptions that have
come due.

## Layout

- `src/` is the library, verified with Verus:
  - `date.rs`: calendar dates, day numbers and the calls into `chrono`;
  - `cron.rs`: month, year and week arithmetic on due dates, catching a due
    date up with today, and the renewal plan of the periodic self-check;
  - `ratelimit.rs`: per-client sliding-window throttling;
  - `auth.rs`: the strength check of the service token and its constant-time
    comparison (through `subtle`);
  - `api.rs`: request-level rules: the token gate, query parameters, field
    checks, status changes and the answer to each refusal;
  - `db.rs`: the database path of a `DATABASE_URL`, reading stored columns
    back, and the text of the statements whose shape depends on a request;
  - `stats.rs`: which exchange rates a statistics request needs;
  - `config.rs`: reading the self-check interval;
  - `models.rs`, `text.rs`: the record enumerations and string helpers.
- `app/` is the service around the library: the HTTP server (axum), SQLite
  storage (rusqlite), the exchange-rate client (reqwest), the OpenAPI
  document, and the floating-point cost arithmetic.
- `tests/` exercises the library.
