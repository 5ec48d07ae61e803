# standard_broadcast

The decisions of the stage that broadcasts a leader's shreds, verified with Verus.

- `src/process.rs`: the making and sending of the shreds of one batch of entries, as a machine
  that asks the caller for one action after the other.
- `src/run.rs`: the state of a broadcast; the closing of an interrupted slot, the figures of a
  slot, and the counting of what was transmitted and inserted.
- `src/unfinished.rs`: the slot under way, and its buffer of data shreds.
- `src/shred.rs`: shreds, and the rule for the first shred of a slot.
- `src/metrics.rs`: per-slot totals, forgotten when all batches of a slot are in.
- `src/stats.rs`, `src/peers.rs`: timings, and the peers that shreds are sent to.
- `src/laws.rs`: what holds of whole batches and of whole slots.
- `app/`: the threads around the library. `app/ledger.rs` calls `solana_ledger`.
- `tests/`: broadcasts with a ledger, a shredder and channels that live in memory.
