# Trident

An indexer of Soroban contract events: it reads them from Stellar RPC endpoints, decodes them, and
writes them to a database, from which a service answers queries and streams new events. The parts
that decide and compute are a library whose behaviour is stated in contracts and proved by Verus.

- `src/` is the verified library.
  - `decode`, `xdr`, `scval`, `scval_json`, `raw`, `unexpected`: event payloads and their texts.
  - `indexer/parser`: token, NFT and Stellar Asset Contract events, resource metrics, event indexes.
  - `indexer/rpc`: endpoint failover, health scores, filters, requests, error classification.
  - `indexer/db`: rows, batches, partitions, the order of a commit, what the tables hold after it,
    the outbox.
  - `indexer/spec`: contract code, its specification section and the interfaces it offers.
  - `indexer/reconcile`, `indexer/walk`: the comparison of what is stored with what the chain holds.
  - `indexer/alerting`, `indexer/probes`: alerts with their cooldown and sinks, and the health
    probes.
  - `backfill`: ranges, their chunks, and the queue of jobs.
  - `api`: requests, pages and stream subscriptions.
  - `contracts`: the state machines of the counter, NFT, escrow and token contracts.
- `app/` connects the library to the network, Postgres and Redis.
- `tests/` runs the library on concrete values.

Calls into outside crates stand behind small functions marked `external_body`; the comment above
each says what is believed of the call.
