# heritagechain

Revenue splitting and collectible registry of the HeritageChain contract,
with its logic specified and proved in Verus.

- `src/split.rs` — the 70/20/10 payment split and its laws (the shares add
  up to the amount paid; the artist receives the rounding remainder).
- `src/address.rs` — Stellar addresses as plain values, with their 32-byte
  payload conversions.
- `src/state.rs` — the contract's storage entries, the events of the current
  invocation and the ledger sequence, as plain values (`ContractState`, whose
  view is `StateView`).
- `src/mint.rs` — minting and (de)activation of collectibles by the admin;
  its contracts are stated over the transitions `state_after_mint` and
  `state_after_toggle`.
- `src/types.rs`, `src/storage.rs`, `src/purchase.rs` — the purchase flow:
  collectible records, users' collections, and the purchase that splits the
  price into three token transfers, hands ownership to the buyer and
  consumes one unit of the minted edition's supply (refused while the
  edition is inactive or sold out).
- `src/contract.rs` — the contract's entry points.
- `app/` — the Soroban contract: authorization, reading and writing the
  host's storage, time-to-live extension, events and token transfers around
  the library's calls.
- `tests/` — scenario tests of every module.
