//! An exchange of fungible assets through liquidity pools: providers deposit pairs of
//! assets for liquidity tokens and redeem them, traders swap one asset of a pool for the
//! other at the pool's price. Every operation is verified against its contract.
//!
//! - `types`: pairs, pools, positions, events and errors;
//! - `fixed_point`: the fixed-point arithmetic of balances and prices;
//! - `bounded`: the bounded list of an account's positions;
//! - `fungibles`: the asset ledger the exchange moves funds on;
//! - `pallet`: the exchange's storage and its invariant;
//! - `helpers`: lookups and computations;
//! - `dex_caller`: the operations on behalf of an account;
//! - `calls`: the signed calls, which deposit events;
//! - `laws`: properties that span the operations.
pub mod fixed_point;
pub mod types;
pub mod bounded;
pub mod fungibles;
pub mod pallet;
pub mod helpers;
pub mod dex_caller;
pub mod calls;
pub mod laws;
