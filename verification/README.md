# pallet_dex

An exchange of fungible assets through liquidity pools, written in Verus.

Liquidity providers deposit two assets into the pool for the pair and receive liquidity
tokens (the square root of the fixed-point product of the deposits); each deposit is
recorded as a numbered position of the provider. A position is redeemed for the amounts
its tokens are worth at the pool's price. Traders swap an exact amount in, or an exact
amount out, at the pool's price.

Balances and prices are `FixedU128` numbers (`sp-arithmetic`), kept by their inner value.
Funds move on an asset ledger (`Fungibles`) that the caller supplies: an exact ledger,
where a successful transfer or mint moves exactly the amount asked and minting raises the
asset's total issuance by it. What each ledger operation returns, and the ledger it
leaves, is its `_outcome` on the ledger it was called on. `MemoryAssets` is an in-memory
one. The signed calls work on a layer of the ledger that is kept only when the
call succeeds, so a refused call changes neither the storage nor the ledger.

Layout of `src/`: `types`, `fixed_point`, `bounded` (an account's positions in a
`BoundedVec` of at most 100), `fungibles`, `pallet` (storage and its invariant), `helpers`,
`dex_caller` (the operations), `calls` (the signed calls) and `laws`.
