# tpu_toolkit

Verified core of TPU client tooling, written in Verus.

- `src/connection_cache.rs`: a cache of connection pools keyed by remote
  address, bounded in the number of addresses (random eviction) and in the
  connections per address, with its statistics counters and reports.
- `src/conditional_option.rs`, `src/option_serializer.rs`: optional values
  that may also be marked to be left out of serialized output.
- `src/bip32.rs`, `src/text.rs`: parsing of BIP32 key paths and key
  derivation along them.
- `src/upload_service.rs`: the decisions of the BigTable upload loop.
- `src/bench_cli.rs`: configuration of the TPS benchmark client.
- `src/nonce.rs`: nonce account and authority selection.
- `src/timing.rs`: stopwatch and wall-clock rate limiter.

`app/` holds the runtime plumbing that Verus does not see: command-line
definitions, serde and error-display forms, UDP sockets, and the upload
thread. `tests/` exercises the library.
