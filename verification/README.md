# carbon_ledger

A carbon-credit ledger whose logic is verified with Verus.

- `src/registry.rs` — carbon-offset projects: registration by the admin,
  approval or rejection by verifiers, status updates by the oracle,
  suspension (direct or time-locked) and the issued-credit counter.
- `src/credit.rs` — credit batches with globally unique serial ranges,
  permanent partial or full retirement with certificates naming the retired
  serial numbers, transfers, and a time-locked pause that, once executed,
  stops minting, retiring and transferring for good (there is no unpause
  operation).
- `src/oracle.rs` — monitoring reports per project and period, a 365-day
  freshness window, benchmark prices readable for 17 280 ledgers, project
  flags, and time-locked price updates (a proposed price becomes readable
  only when its operation runs).
- `src/timelock.rs` — the governance queue the three contracts share.
- `src/keyed.rs` — the map view of a vector of records with unique keys.
- `src/rng.rs` — a SplitMix64 generator.

Every operation takes the ledger timestamp (`now`) or sequence number
(`ledger`) as an argument and leaves the state unchanged when it fails.

`app/` wraps each state machine in a Soroban contract: it checks
authorisation, reads the ledger clock, persists the accepted calls and
publishes the events the library records.
