# quorum

Verified pieces of the Quorum dispatch engine, written in Verus.

- `src/calendar.rs` — the proleptic Gregorian calendar stated directly, and
  Howard Hinnant's `days_from_civil` / `civil_from_days` proved against it.
- `src/decimal.rs` — decimal rendering and reading, as `format!` renders integers.
- `src/textorder.rs` — text order, and how runs of digits sort as text.
- `src/timefmt.rs` — epoch-millisecond stamps: ISO-8601 (`Date.toJSON`), the
  SigV4 `x-amz-date` form, the en-US locale form, and the strict ISO parser,
  with the round-trip, strictness and text-order laws and the `x-amz-date`
  day-stamp law.
- `src/delivery.rs` — the delivery vocabulary: carriers, outcomes, terminals.
- `src/priming.rs` — the `qd start -p` priming send as a state machine: each
  observation in, the ledger records and next request out.
- `app/lib.rs` — the loop that runs the priming send against the engine's
  services (sidecars, registry, relay client, pane, ledger).
