# rpc_ext

Verified core of the `eth_getBlockReceiptsTrace` JSON-RPC method, which serves
a block with, for each transaction, its receipt, its parity trace and the
compressed public key of its signer, together with the block's static reward
traces.

## Layout

- `src/` — the library, verified with Verus.
  - `hex.rs`: `0x`-prefixed lowercase hexadecimal rendering of byte strings
    and of quantities, with round-trip laws.
  - `rewards.rs`: base block reward by fork schedule, beneficiary and ommer
    rewards (through `alloy-evm`), and the reward traces of a block.
  - `signer.rs`: the trusted calls into `alloy-consensus`, `alloy-primitives`
    and `k256` that take a transaction's signing hash and signature, recover
    the signer's key and derive its address.
  - `error.rs`: the errors a request ends in, with their JSON-RPC codes and
    messages.
  - `enrich.rs`: the checks of each transaction against its receipt, its
    trace and its signature, and the enrichment of a block.
  - `session.rs`: the request as a state machine from fetched data to the
    next fetch or the response.
  - `ext.rs`: the handle the RPC method is served from.
- `tests/` — tests on concrete values, with real signed transactions.
- `app/` — the server glue: it performs the fetches on the node's Eth API,
  converts between node types and the library's records, and serializes the
  enriched block.
