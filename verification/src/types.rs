//! The values the exchange stores and the errors and events it reports.
use vstd::prelude::*;

verus! {

/// Account identifiers.
pub type AccountId = u64;

/// Asset identifiers.
pub type AssetId = u32;

/// Asset balances (and the inner values of `FixedU128` numbers).
pub type AssetBalance = u128;

/// Identifiers of an account's liquidity positions.
pub type AccountLiquidityPoolId = u64;

/// A pair of assets traded against each other.
#[derive(Clone, Copy, Debug, PartialEq, Eq, Structural)]
pub struct AssetPairs {
    pub asset_x: AssetId,
    pub asset_y: AssetId,
}

/// A liquidity pool. The balances, the price, the fees and the liquidity token balance
/// are `FixedU128` numbers, kept by their inner value.
#[derive(Clone, Copy, Debug, PartialEq, Eq, Structural)]
pub struct LiquidityPool {
    pub asset_pair: AssetPairs,
    pub asset_x_balance: AssetBalance,
    pub asset_y_balance: AssetBalance,
    pub price: AssetBalance,
    pub asset_x_fee: AssetBalance,
    pub asset_y_fee: AssetBalance,
    pub lp_token: AssetId,
    pub lp_token_balance: AssetBalance,
}

/// One liquidity position of an account in a pool.
#[derive(Clone, Copy, Debug, PartialEq, Eq, Structural)]
pub struct AccountLiquidityPool {
    pub id: AccountLiquidityPoolId,
    pub account_id: AccountId,
    pub asset_pair: AssetPairs,
    pub asset_x_balance: AssetBalance,
    pub asset_y_balance: AssetBalance,
    pub lp_token: AssetId,
    pub lp_token_balance: AssetBalance,
}

/// Events deposited by the dispatchable calls.
#[derive(Clone, Copy, Debug, PartialEq, Eq, Structural)]
pub enum Event {
    LiquidityAddedSuccessfully,
    LiquidityRedeemedSuccessfully,
    SwapExecutedSuccessfully,
    TransferExecutedSuccessfully,
}

/// Errors of the exchange.
#[derive(Clone, Copy, Debug, PartialEq, Eq, Structural)]
pub enum Error {
    CheckAssetXBalanceError,
    CheckAssetYBalanceError,
    CheckAssetLiquidityPoolTokenBalanceError,
    CheckAssetSwapInBalanceError,
    CheckAssetSwapOutBalanceError,
    AssetDoesNotHaveEnoughBalance,
    ComputeAndMintLiquidityPoolTokenError,
    ComputePriceError,
    ComputeXYBalancesError,
    CannotBeZero,
    LiquidityPoolDoesNotExists,
    AccountLiquidityPoolBoundedVecError,
    AccountLiquidityPoolIdError,
    AccountLiquidityPoolDoesNotExists,
}

/// Errors of an asset ledger.
#[derive(Clone, Copy, Debug, PartialEq, Eq, Structural)]
pub enum TokenError {
    FundsUnavailable,
    UnknownAsset,
    AlreadyExists,
    Overflow,
}

/// Why a call failed.
#[derive(Clone, Copy, Debug, PartialEq, Eq, Structural)]
pub enum DispatchError {
    /// The call did not come from a signed origin.
    BadOrigin,
    /// An error of the exchange.
    Module(Error),
    /// An error of the asset ledger.
    Token(TokenError),
}

/// Where a call comes from.
#[derive(Clone, Copy, Debug, PartialEq, Eq, Structural)]
pub enum Origin {
    Signed(AccountId),
    Root,
    Unsigned,
}

/// The pair with its two assets exchanged.
pub open spec fn swapped(pair: AssetPairs) -> AssetPairs {
    AssetPairs { asset_x: pair.asset_y, asset_y: pair.asset_x }
}

/// The account that signed `origin`, or `BadOrigin`.
pub fn ensure_signed(origin: Origin) -> (r: Result<AccountId, DispatchError>)
    ensures
        r == (match origin {
            Origin::Signed(who) => Ok(who),
            _ => Err(DispatchError::BadOrigin),
        }),
{
    match origin {
        Origin::Signed(who) => Ok(who),
        _ => Err(DispatchError::BadOrigin),
    }
}

} // verus!
