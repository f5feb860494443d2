# mainnet-observer backend

Fetches blocks from a Bitcoin Core node's REST interface and stores per-block
statistics.

- `src/` is the verified library (Verus): which heights to fetch
  (`sync_plan`), how to resolve their block hashes with few requests
  (`header_walk`), when to retry a failing request and how long to wait
  (`retry`), how statistics are batched for the database (`batch`), the
  block and transaction data as plain values (`rest`), and the time counters
  (`timings`).
- `app/` is the plain Rust around it: the HTTP client, JSON decoding, the
  thread pipeline, error types, logging and the command line.
- `tests/` exercises the library on concrete values, including real block
  headers.
