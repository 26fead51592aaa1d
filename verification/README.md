# checkmate_escrow

Verified core of a chess-wagering escrow and of the oracle service that
reports game results to it.

- `src/escrow`: the escrow contract as a state machine over a plain model of
  its storage. Every entry point states its result, its token transfers, the
  events it publishes and its new state through `model::step`; `laws`,
  `safety`, `conservation` and `snapshots` prove what holds across
  operations (the storage invariant is kept, refused calls change nothing,
  finished matches are immutable, payouts happen once and conserve the
  escrowed funds, ...).
- `src/oracle_service`: the pending-verification queue, the dead-letter
  store and replay, the retry policy of the poller, and the decisions and
  signing of the Soroban RPC client, and the building of the `submit_result`
  transaction (`submit_tx.rs`). Calls into `stellar-strkey`, `sha2`,
  `ed25519-dalek` and `stellar-xdr` go through small trusted wrappers in
  `soroban.rs` and `submit_tx.rs`.
- `app`: the `oracle-replay` command line tool, the JSON files of the queue,
  the HTTP side of the RPC client with the envelope it sends, and the
  polling loop.
- `tests`: scenarios for both parts.
