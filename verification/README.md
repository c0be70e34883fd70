# id_generator_service

A distributed ID generation service with three algorithms — Snowflake
(64-bit, `[timestamp:41][datacenter_id:5][worker_id:5][sequence:12]`), ULID
(26 characters of Crockford's Base32) and NanoID (configurable length and
alphabet) — written in Verus.

- `src/` is the verified library: the generators, their settings and
  defaults, the error types with their messages and HTTP statuses, and what
  each HTTP endpoint computes. Clock readings, random numbers, case folding
  and the ULID text encoding are calls into `time`, `rand`, `std` and `ulid`
  behind small trusted wrappers whose contracts are documented beside them.
- `app/` is the program around it: configuration loading (`config`), the
  Axum server, the lock that shares the generators between requests
  (`parking_lot`), Prometheus metrics, logging, and the serde and
  `thiserror` copies of the library's types.
- `tests/` exercises the library, including the laws proved in `src/` on
  concrete values.
