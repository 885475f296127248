//! The exchange's operations on behalf of an account: adding and redeeming liquidity,
//! the two swaps, and transfers.
//!
//! Each operation either succeeds, with the storage and the ledger changed as its
//! contract states, or fails and leaves the storage as it was (the ledger is left to the
//! caller, which discards the failed call's changes to it).
use crate::bounded::{
    account_pools_last, account_pools_new, account_pools_try_push, MAX_ACCOUNT_POOLS,
};
use crate::fixed_point::{fixed_add, fixed_from_rational_spec, fixed_mul, fixed_mul_spec, fixed_sub};
use crate::fungibles::{
    after_mint, after_transfer, balances_of, known_assets, lemma_balances_after_transfer,
    lemma_known_assets_kept, Fungibles,
};
use crate::helpers::{
    dex_account, find_pool, find_positions, has_free_asset, lp_mint_outcome, lp_minted, lp_token_for,
    price_fits, xy_assets_fit, xy_assets_of,
};
use crate::pallet::{pool_wf, Pallet};
use crate::types::{
    swapped, AccountId, AccountLiquidityPool, AccountLiquidityPoolId, AssetBalance, AssetId, AssetPairs,
    DispatchError, Error, LiquidityPool,
};
use vstd::prelude::*;

verus! {

/// The pool for `pair` after `x` and `y` were deposited and `minted` liquidity tokens of
/// `lp_token` issued: the found pool (stored under `pair` or the swapped pair) with the
/// deposits added to its balances and the new price, now under `pair`; or a new pool.
pub open spec fn pool_after_adding(
    pools: Map<AssetPairs, LiquidityPool>,
    pair: AssetPairs,
    lp_token: AssetId,
    x: AssetBalance,
    y: AssetBalance,
    minted: AssetBalance,
) -> LiquidityPool {
    match find_pool(pools, pair) {
        Some(p) => {
            let nx = (p.asset_x_balance + x) as u128;
            let ny = (p.asset_y_balance + y) as u128;
            LiquidityPool {
                asset_pair: pair,
                asset_x_balance: nx,
                asset_y_balance: ny,
                price: fixed_from_rational_spec(ny, nx) as u128,
                asset_x_fee: p.asset_x_fee,
                asset_y_fee: p.asset_y_fee,
                lp_token: p.lp_token,
                lp_token_balance: (p.lp_token_balance + minted) as u128,
            }
        },
        None => LiquidityPool {
            asset_pair: pair,
            asset_x_balance: x,
            asset_y_balance: y,
            price: fixed_from_rational_spec(y, x) as u128,
            asset_x_fee: 0,
            asset_y_fee: 0,
            lp_token: lp_token,
            lp_token_balance: minted,
        },
    }
}

/// The id of the next position: one more than the last one's, or 1.
pub open spec fn next_position_id(positions: Seq<AccountLiquidityPool>) -> int {
    if positions.len() == 0 {
        1
    } else {
        positions.last().id + 1
    }
}

/// The positions of `who` for `pair` after a deposit: the found positions (stored under
/// `pair` or the swapped pair) with the new position appended, or the new position alone.
pub open spec fn positions_after_adding(
    positions: Map<(AccountId, AssetPairs), Seq<AccountLiquidityPool>>,
    who: AccountId,
    pair: AssetPairs,
    lp_token: AssetId,
    x: AssetBalance,
    y: AssetBalance,
    minted: AssetBalance,
) -> Seq<AccountLiquidityPool> {
    let entry = AccountLiquidityPool {
        id: 1,
        account_id: who,
        asset_pair: pair,
        asset_x_balance: x,
        asset_y_balance: y,
        lp_token: lp_token,
        lp_token_balance: minted,
    };
    match find_positions(positions, who, pair) {
        Some(s) => s.push(AccountLiquidityPool { id: next_position_id(s) as u64, ..entry }),
        None => seq![entry],
    }
}

/// What `record_liquidity` requires (it aborts otherwise): the storage invariant;
/// positive deposits; the pool's new balances, token supply and price fit; fewer than
/// 100 positions are stored for `who` and the pair.
pub open spec fn record_liquidity_pre(
    pallet: Pallet,
    who: AccountId,
    pair: AssetPairs,
    x: AssetBalance,
    y: AssetBalance,
    minted: AssetBalance,
) -> bool {
    &&& pallet.wf()
    &&& x > 0
    &&& y > 0
    &&& match find_pool(pallet.pools(), pair) {
        None => price_fits(x, y),
        Some(p) => {
            &&& p.asset_x_balance + x <= u128::MAX
            &&& p.asset_y_balance + y <= u128::MAX
            &&& p.lp_token_balance + minted <= u128::MAX
            &&& price_fits((p.asset_x_balance + x) as u128, (p.asset_y_balance + y) as u128)
        },
    }
    &&& match find_positions(pallet.account_pools(), who, pair) {
        Some(s) => s.len() < MAX_ACCOUNT_POOLS,
        None => true,
    }
}

/// What `new_liquidity` requires (it aborts otherwise): the invariant; `who` holds `x` of
/// the first asset and (as the check is written) `x` of the second; once both deposits
/// moved, the product of the deposits is positive and fits and a free asset id is left
/// when a new pool is made; once every ledger step succeeded, what `record_liquidity`
/// requires for the minted tokens.
pub open spec fn new_liquidity_pre<F: Fungibles>(
    pallet: Pallet,
    ledger: F,
    who: AccountId,
    pair: AssetPairs,
    x: AssetBalance,
    y: AssetBalance,
) -> bool {
    let (paid_x, l1) = ledger.transfer_outcome(pair.asset_x, who, dex_account(), x);
    let (paid_y, l2) = l1.transfer_outcome(pair.asset_y, who, dex_account(), y);
    &&& pallet.wf()
    &&& ledger.balance_of(pair.asset_x, who) >= x
    &&& ledger.balance_of(pair.asset_y, who) >= x
    &&& paid_x is Ok && paid_y is Ok ==> {
        &&& 0 < fixed_mul_spec(x, y) <= u128::MAX
        &&& find_pool(pallet.pools(), pair) is None ==> has_free_asset(known_assets(ledger))
    }
    &&& new_liquidity_outcome(pallet, ledger, who, pair, x, y).0 is Ok ==> record_liquidity_pre(
        pallet,
        who,
        pair,
        x,
        y,
        lp_minted(x, y),
    )
}

/// What a successful `new_liquidity` did: the pool and the positions for `pair` as the
/// `_after_adding` functions state; on the ledger, `x` and `y` moved from `who` to the
/// exchange, the liquidity tokens were minted to the exchange and moved on to `who`, and
/// the token was created when the pool is new.
pub open spec fn new_liquidity_post<F: Fungibles>(
    pre: Pallet,
    post: Pallet,
    ledger0: F,
    ledger1: F,
    who: AccountId,
    pair: AssetPairs,
    x: AssetBalance,
    y: AssetBalance,
) -> bool {
    let dex = dex_account();
    let lp = lp_token_for(pre.pools(), known_assets(ledger0), pair);
    let minted = lp_minted(x, y);
    &&& post.wf()
    &&& post.pools() == pre.pools().insert(pair, pool_after_adding(pre.pools(), pair, lp, x, y, minted))
    &&& post.account_pools() == pre.account_pools().insert(
        (who, pair),
        positions_after_adding(pre.account_pools(), who, pair, lp, x, y, minted),
    )
    &&& balances_of(ledger1) == after_transfer(
        after_mint(
            after_transfer(
                after_transfer(balances_of(ledger0), pair.asset_x, who, dex, x),
                pair.asset_y,
                who,
                dex,
                y,
            ),
            lp,
            dex,
            minted,
        ),
        lp,
        dex,
        who,
        minted,
    )
    &&& known_assets(ledger1) == if find_pool(pre.pools(), pair) is Some {
        known_assets(ledger0)
    } else {
        known_assets(ledger0).insert(lp)
    }
}

/// What `new_liquidity` returns and the ledger it leaves: the outcomes, in turn, of the
/// transfers of `x` and `y` from `who` to the exchange, of `compute_and_mint_lp_token`
/// (whose refusal becomes `ComputeAndMintLiquidityPoolTokenError`) and of the transfer of
/// the minted tokens from the exchange to `who`; the first refusal ends it.
pub open spec fn new_liquidity_outcome<F: Fungibles>(
    pallet: Pallet,
    ledger: F,
    who: AccountId,
    pair: AssetPairs,
    x: AssetBalance,
    y: AssetBalance,
) -> (Result<(), DispatchError>, F) {
    let (paid_x, l1) = ledger.transfer_outcome(pair.asset_x, who, dex_account(), x);
    if paid_x is Err {
        (unit_result(paid_x), l1)
    } else {
        let (paid_y, l2) = l1.transfer_outcome(pair.asset_y, who, dex_account(), y);
        if paid_y is Err {
            (unit_result(paid_y), l2)
        } else {
            let (minted, l3) = lp_mint_outcome(pallet.pools(), l2, pair, x, y);
            if minted is Err {
                (Err(DispatchError::Module(Error::ComputeAndMintLiquidityPoolTokenError)), l3)
            } else {
                let (lp, amount) = minted->Ok_0;
                let (handed, l4) = l3.transfer_outcome(lp, dex_account(), who, amount);
                (unit_result(handed), l4)
            }
        }
    }
}

/// The storage and the events are those of `pre`.
pub open spec fn storage_unchanged(pre: Pallet, post: Pallet) -> bool {
    &&& post.pools() == pre.pools()
    &&& post.account_pools() == pre.account_pools()
    &&& post.event_seq() == pre.event_seq()
}

/// Adds `asset_x_balance` and `asset_y_balance` of `pair` to its pool on behalf of
/// `who`: moves the deposits to the exchange, mints liquidity tokens and passes them on
/// to `who`, updates (or creates) the pool and records the position.
pub fn new_liquidity<F: Fungibles>(
    pallet: &mut Pallet,
    ledger: &mut F,
    who: AccountId,
    asset_pair: AssetPairs,
    asset_x_balance: AssetBalance,
    asset_y_balance: AssetBalance,
) -> (r: Result<(), DispatchError>)
    requires
        new_liquidity_pre(*old(pallet), *old(ledger), who, asset_pair, asset_x_balance, asset_y_balance),
    ensures
        (r, *final(ledger)) == new_liquidity_outcome(
            *old(pallet),
            *old(ledger),
            who,
            asset_pair,
            asset_x_balance,
            asset_y_balance,
        ),
        r is Ok ==> new_liquidity_post(
            *old(pallet),
            *final(pallet),
            *old(ledger),
            *final(ledger),
            who,
            asset_pair,
            asset_x_balance,
            asset_y_balance,
        ),
        r is Ok ==> final(pallet).event_seq() == old(pallet).event_seq(),
        r is Err ==> storage_unchanged(*old(pallet), *final(pallet)),
{
    let ghost l0 = *ledger;
    let dex_account_id = Pallet::get_dex_account();
    Pallet::check_asset_balance(ledger, who, asset_pair.asset_x, asset_x_balance).expect(
        "CheckAssetXBalanceError",
    );
    Pallet::check_asset_balance(ledger, who, asset_pair.asset_y, asset_x_balance).expect(
        "CheckAssetYBalanceError",
    );
    match ledger.transfer(asset_pair.asset_x, who, dex_account_id, asset_x_balance) {
        Ok(_) => {},
        Err(e) => {
            return Err(e);
        },
    }
    let ghost l1 = *ledger;
    proof {
        lemma_balances_after_transfer(l0, l1, asset_pair.asset_x, who, dex_account_id, asset_x_balance);
        lemma_known_assets_kept(l0, l1);
    }
    match ledger.transfer(asset_pair.asset_y, who, dex_account_id, asset_y_balance) {
        Ok(_) => {},
        Err(e) => {
            return Err(e);
        },
    }
    let ghost l2 = *ledger;
    proof {
        lemma_balances_after_transfer(l1, l2, asset_pair.asset_y, who, dex_account_id, asset_y_balance);
        lemma_known_assets_kept(l1, l2);
    }
    let (lp_token, lp_token_balance) = match pallet.compute_and_mint_lp_token(
        ledger,
        asset_pair,
        asset_x_balance,
        asset_y_balance,
    ) {
        Ok(minted) => minted,
        Err(_) => {
            return Err(DispatchError::Module(Error::ComputeAndMintLiquidityPoolTokenError));
        },
    };
    let ghost l3 = *ledger;
    assert(l3.balance_of(lp_token, dex_account_id) >= lp_token_balance) by {
        assert(balances_of(l3)(lp_token, dex_account_id) == l3.balance_of(lp_token, dex_account_id));
    }
    Pallet::check_asset_balance(ledger, dex_account_id, lp_token, lp_token_balance).expect(
        "CheckAssetLiquidityPoolTokenBalanceError",
    );
    match ledger.transfer(lp_token, dex_account_id, who, lp_token_balance) {
        Ok(_) => {},
        Err(e) => {
            return Err(e);
        },
    }
    let ghost l4 = *ledger;
    proof {
        lemma_balances_after_transfer(l3, l4, lp_token, dex_account_id, who, lp_token_balance);
        lemma_known_assets_kept(l3, l4);
    }
    assert(asset_x_balance > 0 && asset_y_balance > 0) by {
        if asset_x_balance == 0 || asset_y_balance == 0 {
            assert(asset_x_balance * asset_y_balance == 0) by (nonlinear_arith)
                requires
                    asset_x_balance == 0 || asset_y_balance == 0,
            ;
        }
    }
    proof {
        if find_pool(pallet.pools(), asset_pair) is None {
            let known = known_assets(l0);
            assert(known.contains(asset_pair.asset_x));
            assert(known_assets(l1).contains(asset_pair.asset_y));
        }
    }
    record_liquidity(
        pallet,
        who,
        asset_pair,
        asset_x_balance,
        asset_y_balance,
        lp_token,
        lp_token_balance,
    );
    Ok(())
}

/// Records deposits `asset_x_balance` and `asset_y_balance` of `who` into the pool for
/// `asset_pair`, for which `lp_token_balance` tokens of `lp_token` were issued: updates
/// the found pool (or makes a new one) under `asset_pair` and appends the position.
pub(crate) fn record_liquidity(
    pallet: &mut Pallet,
    who: AccountId,
    asset_pair: AssetPairs,
    asset_x_balance: AssetBalance,
    asset_y_balance: AssetBalance,
    lp_token: AssetId,
    lp_token_balance: AssetBalance,
)
    requires
        record_liquidity_pre(
            *old(pallet),
            who,
            asset_pair,
            asset_x_balance,
            asset_y_balance,
            lp_token_balance,
        ),
        find_pool(old(pallet).pools(), asset_pair) is None ==> lp_token != asset_pair.asset_x
            && lp_token != asset_pair.asset_y,
    ensures
        final(pallet).wf(),
        final(pallet).pools() == old(pallet).pools().insert(
            asset_pair,
            pool_after_adding(
                old(pallet).pools(),
                asset_pair,
                lp_token,
                asset_x_balance,
                asset_y_balance,
                lp_token_balance,
            ),
        ),
        final(pallet).account_pools() == old(pallet).account_pools().insert(
            (who, asset_pair),
            positions_after_adding(
                old(pallet).account_pools(),
                who,
                asset_pair,
                lp_token,
                asset_x_balance,
                asset_y_balance,
                lp_token_balance,
            ),
        ),
        final(pallet).event_seq() == old(pallet).event_seq(),
{
    let liquidity_pool_payload = match pallet.get_liquidity_pool(asset_pair) {
        Some(liquidity_pool) => {
            let update_asset_x_balance = fixed_add(liquidity_pool.asset_x_balance, asset_x_balance);
            let update_asset_y_balance = fixed_add(liquidity_pool.asset_y_balance, asset_y_balance);
            let update_price = Pallet::compute_price(
                update_asset_x_balance,
                update_asset_y_balance,
            ).expect("ComputePriceError");
            let update_lp_token_balance = fixed_add(
                liquidity_pool.lp_token_balance,
                lp_token_balance,
            );
            LiquidityPool {
                asset_pair: asset_pair,
                asset_x_balance: update_asset_x_balance,
                asset_y_balance: update_asset_y_balance,
                price: update_price,
                asset_x_fee: liquidity_pool.asset_x_fee,
                asset_y_fee: liquidity_pool.asset_y_fee,
                lp_token: liquidity_pool.lp_token,
                lp_token_balance: update_lp_token_balance,
            }
        },
        None => {
            let new_price = Pallet::compute_price(asset_x_balance, asset_y_balance).expect(
                "ComputePriceError",
            );
            LiquidityPool {
                asset_pair: asset_pair,
                asset_x_balance: asset_x_balance,
                asset_y_balance: asset_y_balance,
                price: new_price,
                asset_x_fee: 0,
                asset_y_fee: 0,
                lp_token: lp_token,
                lp_token_balance: lp_token_balance,
            }
        },
    };
    let mut account_liquidity_pool_payload = AccountLiquidityPool {
        id: 1,
        account_id: who,
        asset_pair: asset_pair,
        asset_x_balance: asset_x_balance,
        asset_y_balance: asset_y_balance,
        lp_token: lp_token,
        lp_token_balance: lp_token_balance,
    };
    let positions = match pallet.get_account_liquidity_pools(who, asset_pair) {
        Some(account_liquidity_pools) => {
            let mut last_id: AccountLiquidityPoolId = 0;
            match account_pools_last(&account_liquidity_pools) {
                Some(account_liquidity_pool) => {
                    last_id = account_liquidity_pool.id;
                },
                None => {},
            }
            account_liquidity_pool_payload.id = last_id.checked_add(1).expect(
                "AccountLiquidityPoolIdError",
            );
            let mut mutate_account_liquidity_pools = account_liquidity_pools;
            account_pools_try_push(
                &mut mutate_account_liquidity_pools,
                account_liquidity_pool_payload,
            ).expect("AccountLiquidityPoolBoundedVecError");
            mutate_account_liquidity_pools
        },
        None => {
            let mut new_account_liquidity_pools = account_pools_new();
            account_pools_try_push(
                &mut new_account_liquidity_pools,
                account_liquidity_pool_payload,
            ).expect("AccountLiquidityPoolBoundedVecError");
            new_account_liquidity_pools
        },
    };
    pallet.insert_liquidity_pool(liquidity_pool_payload);
    pallet.insert_account_liquidity_pools(who, asset_pair, positions);
}


/// The pool stored under `pair` itself (present when its price is not zero).
pub open spec fn pool_at(pallet: Pallet, pair: AssetPairs) -> LiquidityPool {
    pallet.pools()[pair]
}

/// The pool for `pair` after `x_out` and `y_out` were paid out and `lp_out` liquidity
/// tokens redeemed, with the new price.
pub open spec fn pool_after_redeeming(
    p: LiquidityPool,
    pair: AssetPairs,
    x_out: AssetBalance,
    y_out: AssetBalance,
    lp_out: AssetBalance,
) -> LiquidityPool {
    let nx = (p.asset_x_balance - x_out) as u128;
    let ny = (p.asset_y_balance - y_out) as u128;
    LiquidityPool {
        asset_pair: pair,
        asset_x_balance: nx,
        asset_y_balance: ny,
        price: fixed_from_rational_spec(ny, nx) as u128,
        asset_x_fee: p.asset_x_fee,
        asset_y_fee: p.asset_y_fee,
        lp_token: p.lp_token,
        lp_token_balance: (p.lp_token_balance - lp_out) as u128,
    }
}

/// What `redeem_liquidity` requires (it aborts otherwise): the invariant; when a pool for
/// `pair` is found, the position's value can be computed (positions are stored, the pool
/// stored under `pair` has a price, nothing overflows) and the exchange holds the amounts
/// (both checked, as the check is written, against its balance of the first asset); once
/// both payments succeeded, what `record_redemption` requires.
pub open spec fn redeem_liquidity_pre<F: Fungibles>(
    pallet: Pallet,
    ledger: F,
    who: AccountId,
    pair: AssetPairs,
    lp_token: AssetId,
    id: AccountLiquidityPoolId,
) -> bool {
    &&& pallet.wf()
    &&& find_pool(pallet.pools(), pair) is Some ==> {
        &&& xy_assets_fit(pallet, who, pair, lp_token, id)
        &&& match xy_assets_of(pallet, who, pair, lp_token, id) {
            Err(_) => false,
            Ok((x_out, y_out, lp_out)) => {
                &&& ledger.balance_of(pair.asset_x, dex_account()) >= x_out
                &&& ledger.balance_of(pair.asset_x, dex_account()) >= y_out
                &&& redeem_liquidity_outcome(pallet, ledger, who, pair, lp_token, id).0 is Ok
                    ==> record_redemption_pre(pallet, pair, x_out, y_out, lp_out)
            },
        }
    }
}

/// What a successful `redeem_liquidity` did: the pool stored under `pair` lost the paid
/// amounts and tokens, the positions of `who` stored under `pair` are gone, and the
/// exchange paid the amounts to `who`.
pub open spec fn redeem_liquidity_post<F: Fungibles>(
    pre: Pallet,
    post: Pallet,
    ledger0: F,
    ledger1: F,
    who: AccountId,
    pair: AssetPairs,
    lp_token: AssetId,
    id: AccountLiquidityPoolId,
) -> bool {
    let dex = dex_account();
    let (x_out, y_out, lp_out) = xy_assets_of(pre, who, pair, lp_token, id)->Ok_0;
    &&& find_pool(pre.pools(), pair) is Some
    &&& xy_assets_of(pre, who, pair, lp_token, id) is Ok
    &&& post.wf()
    &&& post.pools() == pre.pools().insert(
        pair,
        pool_after_redeeming(pool_at(pre, pair), pair, x_out, y_out, lp_out),
    )
    &&& post.account_pools() == pre.account_pools().remove((who, pair))
    &&& balances_of(ledger1) == after_transfer(
        after_transfer(balances_of(ledger0), pair.asset_x, dex, who, x_out),
        pair.asset_y,
        dex,
        who,
        y_out,
    )
    &&& known_assets(ledger1) == known_assets(ledger0)
}

/// What `redeem_liquidity` returns and the ledger it leaves: `LiquidityPoolDoesNotExists`
/// when no pool is found for `pair`; else the outcomes, in turn, of the transfers of the
/// position's value (`xy_assets_of`) in the pair's first and second asset from the
/// exchange to `who`; the first refusal ends it.
pub open spec fn redeem_liquidity_outcome<F: Fungibles>(
    pallet: Pallet,
    ledger: F,
    who: AccountId,
    pair: AssetPairs,
    lp_token: AssetId,
    id: AccountLiquidityPoolId,
) -> (Result<(), DispatchError>, F) {
    match find_pool(pallet.pools(), pair) {
        None => (Err(DispatchError::Module(Error::LiquidityPoolDoesNotExists)), ledger),
        Some(_) => {
            let (x_out, y_out, lp_out) = xy_assets_of(pallet, who, pair, lp_token, id)->Ok_0;
            let (paid_x, l1) = ledger.transfer_outcome(pair.asset_x, dex_account(), who, x_out);
            if paid_x is Err {
                (unit_result(paid_x), l1)
            } else {
                let (paid_y, l2) = l1.transfer_outcome(pair.asset_y, dex_account(), who, y_out);
                (unit_result(paid_y), l2)
            }
        },
    }
}

/// Redeems the position `(lp_token, id)` of `who` in the pool for `pair`: pays out
/// what its liquidity tokens are worth, updates the pool stored under `pair` and drops
/// the positions of `who` stored under `pair`.
pub fn redeem_liquidity<F: Fungibles>(
    pallet: &mut Pallet,
    ledger: &mut F,
    who: AccountId,
    asset_pair: AssetPairs,
    lp_token: AssetId,
    id: AccountLiquidityPoolId,
) -> (r: Result<(), DispatchError>)
    requires
        redeem_liquidity_pre(*old(pallet), *old(ledger), who, asset_pair, lp_token, id),
    ensures
        (r, *final(ledger)) == redeem_liquidity_outcome(
            *old(pallet),
            *old(ledger),
            who,
            asset_pair,
            lp_token,
            id,
        ),
        r is Ok ==> redeem_liquidity_post(
            *old(pallet),
            *final(pallet),
            *old(ledger),
            *final(ledger),
            who,
            asset_pair,
            lp_token,
            id,
        ),
        r is Ok ==> final(pallet).event_seq() == old(pallet).event_seq(),
        r is Err ==> storage_unchanged(*old(pallet), *final(pallet)),
        find_pool(old(pallet).pools(), asset_pair) is None ==> r == Err::<(), DispatchError>(
            DispatchError::Module(Error::LiquidityPoolDoesNotExists),
        ),
{
    let ghost l0 = *ledger;
    match pallet.get_liquidity_pool(asset_pair) {
        Some(_) => {},
        None => {
            return Err(DispatchError::Module(Error::LiquidityPoolDoesNotExists));
        },
    }
    let (asset_x_balance, asset_y_balance, lp_token_balance) = pallet.compute_xy_assets(
        who,
        asset_pair,
        lp_token,
        id,
    ).expect("ComputeXYBalancesError");
    assert(pallet.pools().contains_key(asset_pair));
    let dex_account_id = Pallet::get_dex_account();
    Pallet::check_asset_balance(ledger, dex_account_id, asset_pair.asset_x, asset_x_balance).expect(
        "CheckAssetXBalanceError",
    );
    Pallet::check_asset_balance(ledger, dex_account_id, asset_pair.asset_x, asset_y_balance).expect(
        "CheckAssetYBalanceError",
    );
    match ledger.transfer(asset_pair.asset_x, dex_account_id, who, asset_x_balance) {
        Ok(_) => {},
        Err(e) => {
            return Err(e);
        },
    }
    let ghost l1 = *ledger;
    proof {
        lemma_balances_after_transfer(l0, l1, asset_pair.asset_x, dex_account_id, who, asset_x_balance);
        lemma_known_assets_kept(l0, l1);
    }
    match ledger.transfer(asset_pair.asset_y, dex_account_id, who, asset_y_balance) {
        Ok(_) => {},
        Err(e) => {
            return Err(e);
        },
    }
    let ghost l2 = *ledger;
    proof {
        lemma_balances_after_transfer(l1, l2, asset_pair.asset_y, dex_account_id, who, asset_y_balance);
        lemma_known_assets_kept(l1, l2);
    }
    record_redemption(pallet, who, asset_pair, asset_x_balance, asset_y_balance, lp_token_balance);
    Ok(())
}

/// What `record_redemption` requires (it aborts otherwise) when a pool is stored under
/// the pair: the invariant, and the pool keeps positive balances, enough liquidity
/// tokens and a price that fits.
pub open spec fn record_redemption_pre(
    pallet: Pallet,
    pair: AssetPairs,
    x_out: AssetBalance,
    y_out: AssetBalance,
    lp_out: AssetBalance,
) -> bool {
    let p = pool_at(pallet, pair);
    &&& pallet.wf()
    &&& pallet.pools().contains_key(pair) ==> {
        &&& p.asset_x_balance > x_out
        &&& p.asset_y_balance > y_out
        &&& p.lp_token_balance >= lp_out
        &&& price_fits((p.asset_x_balance - x_out) as u128, (p.asset_y_balance - y_out) as u128)
    }
}

/// Records that `who` redeemed liquidity of `asset_pair` worth `x_out` and `y_out` and
/// `lp_out` liquidity tokens: the pool stored under the pair (if any) loses them, and the
/// positions of `who` stored under the pair are dropped.
pub(crate) fn record_redemption(
    pallet: &mut Pallet,
    who: AccountId,
    asset_pair: AssetPairs,
    x_out: AssetBalance,
    y_out: AssetBalance,
    lp_out: AssetBalance,
)
    requires
        record_redemption_pre(*old(pallet), asset_pair, x_out, y_out, lp_out),
    ensures
        final(pallet).wf(),
        final(pallet).pools() == if old(pallet).pools().contains_key(asset_pair) {
            old(pallet).pools().insert(
                asset_pair,
                pool_after_redeeming(pool_at(*old(pallet), asset_pair), asset_pair, x_out, y_out, lp_out),
            )
        } else {
            old(pallet).pools()
        },
        final(pallet).account_pools() == old(pallet).account_pools().remove((who, asset_pair)),
        final(pallet).event_seq() == old(pallet).event_seq(),
{
    match pallet.liquidity_pool_storage(asset_pair) {
        Some(mutate_liquidity_pool) => {
            let update_asset_x_balance = fixed_sub(
                mutate_liquidity_pool.asset_x_balance,
                x_out,
            );
            let update_asset_y_balance = fixed_sub(
                mutate_liquidity_pool.asset_y_balance,
                y_out,
            );
            let update_price = Pallet::compute_price(
                update_asset_x_balance,
                update_asset_y_balance,
            ).expect("ComputePriceError");
            let update_lp_token_balance = fixed_sub(
                mutate_liquidity_pool.lp_token_balance,
                lp_out,
            );
            pallet.insert_liquidity_pool(
                LiquidityPool {
                    asset_pair: asset_pair,
                    asset_x_balance: update_asset_x_balance,
                    asset_y_balance: update_asset_y_balance,
                    price: update_price,
                    asset_x_fee: mutate_liquidity_pool.asset_x_fee,
                    asset_y_fee: mutate_liquidity_pool.asset_y_fee,
                    lp_token: mutate_liquidity_pool.lp_token,
                    lp_token_balance: update_lp_token_balance,
                },
            );
        },
        None => {},
    }
    pallet.remove_account_liquidity_pools(who, asset_pair);
}

/// The price a swap into the pool trades at, by the asset paid in: `y / x` for the
/// first asset; `x / y` for the second, which wins when both are the same asset; zero
/// for another asset.
pub open spec fn swap_price(p: LiquidityPool, asset_in: AssetId) -> int {
    if asset_in == p.asset_pair.asset_y {
        fixed_from_rational_spec(p.asset_x_balance, p.asset_y_balance)
    } else if asset_in == p.asset_pair.asset_x {
        fixed_from_rational_spec(p.asset_y_balance, p.asset_x_balance)
    } else {
        0
    }
}

/// The swap price can be computed and applied to `amount`.
pub open spec fn swap_price_fits(p: LiquidityPool, asset_in: AssetId, amount: AssetBalance) -> bool {
    &&& asset_in == p.asset_pair.asset_y ==> price_fits(p.asset_y_balance, p.asset_x_balance)
    &&& fixed_mul_spec(swap_price(p, asset_in) as u128, amount) <= u128::MAX
}

/// The pool's balances after `added` of `asset_in` came in and `removed` of the other
/// asset went out (the second asset's case wins when both assets are the same).
pub open spec fn swap_balances(
    p: LiquidityPool,
    asset_in: AssetId,
    added: AssetBalance,
    removed: AssetBalance,
) -> (int, int) {
    if asset_in == p.asset_pair.asset_y {
        (p.asset_x_balance - removed, p.asset_y_balance + added)
    } else if asset_in == p.asset_pair.asset_x {
        (p.asset_x_balance + added, p.asset_y_balance - removed)
    } else {
        (0, 0)
    }
}

/// What `record_swap` requires (it aborts otherwise): the invariant; each update the
/// swap computes stays in range, and the new balances are positive with a price that
/// fits.
pub open spec fn record_swap_pre(
    pallet: Pallet,
    p: LiquidityPool,
    asset_in: AssetId,
    added: AssetBalance,
    removed: AssetBalance,
) -> bool {
    let (nx, ny) = swap_balances(p, asset_in, added, removed);
    &&& pallet.wf()
    &&& asset_in == p.asset_pair.asset_x ==> p.asset_x_balance + added <= u128::MAX
        && p.asset_y_balance >= removed
    &&& asset_in == p.asset_pair.asset_y ==> p.asset_x_balance >= removed && p.asset_y_balance
        + added <= u128::MAX
    &&& nx > 0 && ny > 0
    &&& price_fits(nx as u128, ny as u128)
}

/// The pool for `pair` after a swap: `p` with its new balances and price, now under
/// `pair`.
pub open spec fn pool_after_swap(
    p: LiquidityPool,
    pair: AssetPairs,
    asset_in: AssetId,
    added: AssetBalance,
    removed: AssetBalance,
) -> LiquidityPool {
    let (nx, ny) = swap_balances(p, asset_in, added, removed);
    LiquidityPool {
        asset_pair: pair,
        asset_x_balance: nx as u128,
        asset_y_balance: ny as u128,
        price: fixed_from_rational_spec(ny as u128, nx as u128) as u128,
        asset_x_fee: p.asset_x_fee,
        asset_y_fee: p.asset_y_fee,
        lp_token: p.lp_token,
        lp_token_balance: p.lp_token_balance,
    }
}

/// The amount the pool `p` trades for `amount` of `asset_in`: the amount at the swap
/// price.
pub open spec fn swap_amount(p: LiquidityPool, asset_in: AssetId, amount: AssetBalance) -> AssetBalance {
    fixed_mul_spec(swap_price(p, asset_in) as u128, amount) as u128
}

/// Computes the swap price of the pool `liquidity_pool` for `asset_in` (zero for an
/// asset outside the pool) and applies it to `amount`.
pub fn compute_swap_amount(liquidity_pool: LiquidityPool, asset_in: AssetId, amount: AssetBalance) -> (r:
    AssetBalance)
    requires
        pool_wf(liquidity_pool.asset_pair, liquidity_pool),
        swap_price_fits(liquidity_pool, asset_in, amount),
    ensures
        r == swap_amount(liquidity_pool, asset_in, amount),
{
    let mut price: AssetBalance = 0;
    if asset_in == liquidity_pool.asset_pair.asset_x {
        price = Pallet::compute_price(
            liquidity_pool.asset_x_balance,
            liquidity_pool.asset_y_balance,
        ).expect("ComputePriceError");
    }
    if asset_in == liquidity_pool.asset_pair.asset_y {
        price = Pallet::compute_price(
            liquidity_pool.asset_y_balance,
            liquidity_pool.asset_x_balance,
        ).expect("ComputePriceError");
    }
    fixed_mul(price, amount)
}

/// Records a swap into the pool `liquidity_pool` (found for `asset_pair`): `added` of
/// `asset_in` came in and `removed` of the other asset went out. The pool with its new
/// balances and price is stored under `asset_pair`.
pub(crate) fn record_swap(
    pallet: &mut Pallet,
    asset_pair: AssetPairs,
    liquidity_pool: LiquidityPool,
    asset_in: AssetId,
    added: AssetBalance,
    removed: AssetBalance,
)
    requires
        record_swap_pre(*old(pallet), liquidity_pool, asset_in, added, removed),
        liquidity_pool.lp_token != asset_pair.asset_x,
        liquidity_pool.lp_token != asset_pair.asset_y,
    ensures
        final(pallet).wf(),
        final(pallet).pools() == old(pallet).pools().insert(
            asset_pair,
            pool_after_swap(liquidity_pool, asset_pair, asset_in, added, removed),
        ),
        final(pallet).account_pools() == old(pallet).account_pools(),
        final(pallet).event_seq() == old(pallet).event_seq(),
{
    let mut update_asset_x_balance: AssetBalance = 0;
    let mut update_asset_y_balance: AssetBalance = 0;
    if asset_in == liquidity_pool.asset_pair.asset_x {
        update_asset_x_balance = fixed_add(liquidity_pool.asset_x_balance, added);
        update_asset_y_balance = fixed_sub(liquidity_pool.asset_y_balance, removed);
    }
    if asset_in == liquidity_pool.asset_pair.asset_y {
        update_asset_x_balance = fixed_sub(liquidity_pool.asset_x_balance, removed);
        update_asset_y_balance = fixed_add(liquidity_pool.asset_y_balance, added);
    }
    let update_price = Pallet::compute_price(update_asset_x_balance, update_asset_y_balance).expect(
        "ComputePriceError",
    );
    pallet.insert_liquidity_pool(
        LiquidityPool {
            asset_pair: asset_pair,
            asset_x_balance: update_asset_x_balance,
            asset_y_balance: update_asset_y_balance,
            price: update_price,
            asset_x_fee: liquidity_pool.asset_x_fee,
            asset_y_fee: liquidity_pool.asset_y_fee,
            lp_token: liquidity_pool.lp_token,
            lp_token_balance: liquidity_pool.lp_token_balance,
        },
    );
}

/// What `swap_exact_in_for_out` requires (it aborts otherwise): the invariant; `who` holds
/// the amount paid in; once it was paid in and when a pool is found, the price applies
/// and the exchange holds the amount paid out; once both payments succeeded, what
/// `record_swap` requires.
pub open spec fn swap_exact_in_for_out_pre<F: Fungibles>(
    pallet: Pallet,
    ledger: F,
    who: AccountId,
    asset_in: AssetId,
    amount_in: AssetBalance,
    asset_out: AssetId,
) -> bool {
    let pair = AssetPairs { asset_x: asset_in, asset_y: asset_out };
    let paid_in = ledger.transfer_outcome(asset_in, who, dex_account(), amount_in).0;
    &&& pallet.wf()
    &&& ledger.balance_of(asset_in, who) >= amount_in
    &&& match find_pool(pallet.pools(), pair) {
        None => true,
        Some(p) => {
            let out = swap_amount(p, asset_in, amount_in);
            &&& paid_in is Ok ==> swap_price_fits(p, asset_in, amount_in) && after_transfer(
                balances_of(ledger),
                asset_in,
                who,
                dex_account(),
                amount_in,
            )(asset_out, dex_account()) >= out
            &&& swap_exact_in_for_out_outcome(pallet, ledger, who, asset_in, amount_in, asset_out).0 is Ok
                ==> record_swap_pre(pallet, p, asset_in, amount_in, out)
        },
    }
}

/// What a successful `swap_exact_in_for_out` did: the pool now stored under the pair
/// `(asset_in, asset_out)` has its new balances and price; `amount_in` moved from `who`
/// to the exchange and the amount paid out from the exchange to `who`.
pub open spec fn swap_exact_in_for_out_post<F: Fungibles>(
    pre: Pallet,
    post: Pallet,
    ledger0: F,
    ledger1: F,
    who: AccountId,
    asset_in: AssetId,
    amount_in: AssetBalance,
    asset_out: AssetId,
) -> bool {
    let pair = AssetPairs { asset_x: asset_in, asset_y: asset_out };
    let p = find_pool(pre.pools(), pair)->Some_0;
    let out = swap_amount(p, asset_in, amount_in);
    &&& find_pool(pre.pools(), pair) is Some
    &&& post.wf()
    &&& post.pools() == pre.pools().insert(pair, pool_after_swap(p, pair, asset_in, amount_in, out))
    &&& post.account_pools() == pre.account_pools()
    &&& balances_of(ledger1) == after_transfer(
        after_transfer(balances_of(ledger0), asset_in, who, dex_account(), amount_in),
        asset_out,
        dex_account(),
        who,
        out,
    )
    &&& known_assets(ledger1) == known_assets(ledger0)
}

/// What `swap_exact_in_for_out` returns and the ledger it leaves: the outcome of the
/// transfer of `amount_in` from `who` to the exchange; when that succeeds,
/// `LiquidityPoolDoesNotExists` if no pool is found for the two assets, else the outcome
/// of the transfer of the amount paid out from the exchange to `who`.
pub open spec fn swap_exact_in_for_out_outcome<F: Fungibles>(
    pallet: Pallet,
    ledger: F,
    who: AccountId,
    asset_in: AssetId,
    amount_in: AssetBalance,
    asset_out: AssetId,
) -> (Result<(), DispatchError>, F) {
    let pair = AssetPairs { asset_x: asset_in, asset_y: asset_out };
    let (paid_in, l1) = ledger.transfer_outcome(asset_in, who, dex_account(), amount_in);
    if paid_in is Err {
        (unit_result(paid_in), l1)
    } else {
        match find_pool(pallet.pools(), pair) {
            None => (Err(DispatchError::Module(Error::LiquidityPoolDoesNotExists)), l1),
            Some(p) => {
                let (paid_out, l2) = l1.transfer_outcome(
                    asset_out,
                    dex_account(),
                    who,
                    swap_amount(p, asset_in, amount_in),
                );
                (unit_result(paid_out), l2)
            },
        }
    }
}

/// What `swap_in_for_exact_out` returns and the ledger it leaves: the outcome of the
/// transfer of `amount_out` from the exchange to `who`; when that succeeds,
/// `LiquidityPoolDoesNotExists` if no pool is found for the two assets, else the outcome
/// of the transfer of the amount paid in from `who` to the exchange.
pub open spec fn swap_in_for_exact_out_outcome<F: Fungibles>(
    pallet: Pallet,
    ledger: F,
    who: AccountId,
    asset_out: AssetId,
    amount_out: AssetBalance,
    asset_in: AssetId,
) -> (Result<(), DispatchError>, F) {
    let pair = AssetPairs { asset_x: asset_in, asset_y: asset_out };
    let (paid_out, l1) = ledger.transfer_outcome(asset_out, dex_account(), who, amount_out);
    if paid_out is Err {
        (unit_result(paid_out), l1)
    } else {
        match find_pool(pallet.pools(), pair) {
            None => (Err(DispatchError::Module(Error::LiquidityPoolDoesNotExists)), l1),
            Some(p) => {
                let (paid_in, l2) = l1.transfer_outcome(
                    asset_in,
                    who,
                    dex_account(),
                    swap_amount(p, asset_in, amount_out),
                );
                (unit_result(paid_in), l2)
            },
        }
    }
}

/// A found pool is stored under the pair or the swapped pair, and is well formed.
pub(crate) proof fn lemma_found_pool_wf(pallet: Pallet, pair: AssetPairs)
    requires
        pallet.wf(),
        find_pool(pallet.pools(), pair) is Some,
    ensures
        ({
            let p = find_pool(pallet.pools(), pair)->Some_0;
            &&& pool_wf(p.asset_pair, p)
            &&& p.asset_pair == pair || p.asset_pair == swapped(pair)
        }),
{
    if !pallet.pools().contains_key(pair) {
        assert(pallet.pools().contains_key(swapped(pair)));
    }
}

/// Swaps exactly `asset_exact_in_balance` of `asset_exact_in` paid by `who` for
/// `asset_max_out` at the price of the pool for the two assets.
pub fn swap_exact_in_for_out<F: Fungibles>(
    pallet: &mut Pallet,
    ledger: &mut F,
    who: AccountId,
    asset_exact_in: AssetId,
    asset_exact_in_balance: AssetBalance,
    asset_max_out: AssetId,
) -> (r: Result<(), DispatchError>)
    requires
        swap_exact_in_for_out_pre(
            *old(pallet),
            *old(ledger),
            who,
            asset_exact_in,
            asset_exact_in_balance,
            asset_max_out,
        ),
    ensures
        (r, *final(ledger)) == swap_exact_in_for_out_outcome(
            *old(pallet),
            *old(ledger),
            who,
            asset_exact_in,
            asset_exact_in_balance,
            asset_max_out,
        ),
        r is Ok ==> swap_exact_in_for_out_post(
            *old(pallet),
            *final(pallet),
            *old(ledger),
            *final(ledger),
            who,
            asset_exact_in,
            asset_exact_in_balance,
            asset_max_out,
        ),
        r is Ok ==> final(pallet).event_seq() == old(pallet).event_seq(),
        r is Err ==> storage_unchanged(*old(pallet), *final(pallet)),
        find_pool(
            old(pallet).pools(),
            AssetPairs { asset_x: asset_exact_in, asset_y: asset_max_out },
        ) is None ==> r is Err,
{
    let ghost l0 = *ledger;
    let dex_account_id = Pallet::get_dex_account();
    Pallet::check_asset_balance(ledger, who, asset_exact_in, asset_exact_in_balance).expect(
        "CheckAssetSwapInBalanceError",
    );
    match ledger.transfer(asset_exact_in, who, dex_account_id, asset_exact_in_balance) {
        Ok(_) => {},
        Err(e) => {
            return Err(e);
        },
    }
    let ghost l1 = *ledger;
    proof {
        lemma_balances_after_transfer(l0, l1, asset_exact_in, who, dex_account_id, asset_exact_in_balance);
        lemma_known_assets_kept(l0, l1);
    }
    let asset_pair = AssetPairs { asset_x: asset_exact_in, asset_y: asset_max_out };
    let liquidity_pool = match pallet.get_liquidity_pool(asset_pair) {
        Some(liquidity_pool) => liquidity_pool,
        None => {
            return Err(DispatchError::Module(Error::LiquidityPoolDoesNotExists));
        },
    };
    proof {
        lemma_found_pool_wf(*pallet, asset_pair);
    }
    let asset_max_out_balance = compute_swap_amount(
        liquidity_pool,
        asset_exact_in,
        asset_exact_in_balance,
    );
    assert(l1.balance_of(asset_max_out, dex_account_id) >= asset_max_out_balance) by {
        assert(balances_of(l1)(asset_max_out, dex_account_id) == l1.balance_of(
            asset_max_out,
            dex_account_id,
        ));
    }
    Pallet::check_asset_balance(
        ledger,
        dex_account_id,
        asset_max_out,
        asset_max_out_balance,
    ).expect("CheckAssetSwapOutBalanceError");
    match ledger.transfer(asset_max_out, dex_account_id, who, asset_max_out_balance) {
        Ok(_) => {},
        Err(e) => {
            return Err(e);
        },
    }
    let ghost l2 = *ledger;
    proof {
        lemma_balances_after_transfer(l1, l2, asset_max_out, dex_account_id, who, asset_max_out_balance);
        lemma_known_assets_kept(l1, l2);
    }
    record_swap(
        pallet,
        asset_pair,
        liquidity_pool,
        asset_exact_in,
        asset_exact_in_balance,
        asset_max_out_balance,
    );
    Ok(())
}

/// What `swap_in_for_exact_out` requires (it aborts otherwise): the invariant; the
/// exchange holds the amount paid out; once it was paid out and when a pool is found, the
/// price applies and `who` holds the amount paid in; once both payments succeeded, what
/// `record_swap` requires.
pub open spec fn swap_in_for_exact_out_pre<F: Fungibles>(
    pallet: Pallet,
    ledger: F,
    who: AccountId,
    asset_out: AssetId,
    amount_out: AssetBalance,
    asset_in: AssetId,
) -> bool {
    let pair = AssetPairs { asset_x: asset_in, asset_y: asset_out };
    let paid_out = ledger.transfer_outcome(asset_out, dex_account(), who, amount_out).0;
    &&& pallet.wf()
    &&& ledger.balance_of(asset_out, dex_account()) >= amount_out
    &&& match find_pool(pallet.pools(), pair) {
        None => true,
        Some(p) => {
            let paid = swap_amount(p, asset_in, amount_out);
            &&& paid_out is Ok ==> swap_price_fits(p, asset_in, amount_out) && after_transfer(
                balances_of(ledger),
                asset_out,
                dex_account(),
                who,
                amount_out,
            )(asset_in, who) >= paid
            &&& swap_in_for_exact_out_outcome(pallet, ledger, who, asset_out, amount_out, asset_in).0 is Ok
                ==> record_swap_pre(pallet, p, asset_in, paid, amount_out)
        },
    }
}

/// What a successful `swap_in_for_exact_out` did: the pool now stored under the pair
/// `(asset_in, asset_out)` has its new balances and price; `amount_out` moved from the
/// exchange to `who` and the amount paid in from `who` to the exchange.
pub open spec fn swap_in_for_exact_out_post<F: Fungibles>(
    pre: Pallet,
    post: Pallet,
    ledger0: F,
    ledger1: F,
    who: AccountId,
    asset_out: AssetId,
    amount_out: AssetBalance,
    asset_in: AssetId,
) -> bool {
    let pair = AssetPairs { asset_x: asset_in, asset_y: asset_out };
    let p = find_pool(pre.pools(), pair)->Some_0;
    let paid = swap_amount(p, asset_in, amount_out);
    &&& find_pool(pre.pools(), pair) is Some
    &&& post.wf()
    &&& post.pools() == pre.pools().insert(pair, pool_after_swap(p, pair, asset_in, paid, amount_out))
    &&& post.account_pools() == pre.account_pools()
    &&& balances_of(ledger1) == after_transfer(
        after_transfer(balances_of(ledger0), asset_out, dex_account(), who, amount_out),
        asset_in,
        who,
        dex_account(),
        paid,
    )
    &&& known_assets(ledger1) == known_assets(ledger0)
}

/// Pays `who` exactly `asset_exact_out_balance` of `asset_exact_out` and charges
/// `asset_min_in` at the price of the pool for the two assets.
pub fn swap_in_for_exact_out<F: Fungibles>(
    pallet: &mut Pallet,
    ledger: &mut F,
    who: AccountId,
    asset_exact_out: AssetId,
    asset_exact_out_balance: AssetBalance,
    asset_min_in: AssetId,
) -> (r: Result<(), DispatchError>)
    requires
        swap_in_for_exact_out_pre(
            *old(pallet),
            *old(ledger),
            who,
            asset_exact_out,
            asset_exact_out_balance,
            asset_min_in,
        ),
    ensures
        (r, *final(ledger)) == swap_in_for_exact_out_outcome(
            *old(pallet),
            *old(ledger),
            who,
            asset_exact_out,
            asset_exact_out_balance,
            asset_min_in,
        ),
        r is Ok ==> swap_in_for_exact_out_post(
            *old(pallet),
            *final(pallet),
            *old(ledger),
            *final(ledger),
            who,
            asset_exact_out,
            asset_exact_out_balance,
            asset_min_in,
        ),
        r is Ok ==> final(pallet).event_seq() == old(pallet).event_seq(),
        r is Err ==> storage_unchanged(*old(pallet), *final(pallet)),
        find_pool(
            old(pallet).pools(),
            AssetPairs { asset_x: asset_min_in, asset_y: asset_exact_out },
        ) is None ==> r is Err,
{
    let ghost l0 = *ledger;
    let dex_account_id = Pallet::get_dex_account();
    Pallet::check_asset_balance(
        ledger,
        dex_account_id,
        asset_exact_out,
        asset_exact_out_balance,
    ).expect("CheckAssetSwapOutBalanceError");
    match ledger.transfer(asset_exact_out, dex_account_id, who, asset_exact_out_balance) {
        Ok(_) => {},
        Err(e) => {
            return Err(e);
        },
    }
    let ghost l1 = *ledger;
    proof {
        lemma_balances_after_transfer(l0, l1, asset_exact_out, dex_account_id, who, asset_exact_out_balance);
        lemma_known_assets_kept(l0, l1);
    }
    let asset_pair = AssetPairs { asset_x: asset_min_in, asset_y: asset_exact_out };
    let liquidity_pool = match pallet.get_liquidity_pool(asset_pair) {
        Some(liquidity_pool) => liquidity_pool,
        None => {
            return Err(DispatchError::Module(Error::LiquidityPoolDoesNotExists));
        },
    };
    proof {
        lemma_found_pool_wf(*pallet, asset_pair);
    }
    let asset_min_in_balance = compute_swap_amount(
        liquidity_pool,
        asset_min_in,
        asset_exact_out_balance,
    );
    assert(l1.balance_of(asset_min_in, who) >= asset_min_in_balance) by {
        assert(balances_of(l1)(asset_min_in, who) == l1.balance_of(asset_min_in, who));
    }
    Pallet::check_asset_balance(ledger, who, asset_min_in, asset_min_in_balance).expect(
        "CheckAssetSwapInBalanceError",
    );
    match ledger.transfer(asset_min_in, who, dex_account_id, asset_min_in_balance) {
        Ok(_) => {},
        Err(e) => {
            return Err(e);
        },
    }
    let ghost l2 = *ledger;
    proof {
        lemma_balances_after_transfer(l1, l2, asset_min_in, who, dex_account_id, asset_min_in_balance);
        lemma_known_assets_kept(l1, l2);
    }
    record_swap(
        pallet,
        asset_pair,
        liquidity_pool,
        asset_min_in,
        asset_min_in_balance,
        asset_exact_out_balance,
    );
    Ok(())
}

/// A ledger result without its value.
pub open spec fn unit_result<T>(r: Result<T, DispatchError>) -> Result<(), DispatchError> {
    match r {
        Ok(_) => Ok(()),
        Err(e) => Err(e),
    }
}

/// What `transfer_asset` returns and the ledger it leaves: those of the ledger's
/// transfer of `amount` of `asset` from `who` to `account_id`.
pub open spec fn transfer_asset_outcome<F: Fungibles>(
    ledger: F,
    who: AccountId,
    asset: AssetId,
    amount: AssetBalance,
    account_id: AccountId,
) -> (Result<(), DispatchError>, F) {
    let (t, after) = ledger.transfer_outcome(asset, who, account_id, amount);
    (unit_result(t), after)
}

/// Moves `asset_balance` of `asset` from `who` to `account_id`; `who` must hold it (the
/// check aborts otherwise).
pub fn transfer_asset<F: Fungibles>(
    ledger: &mut F,
    who: AccountId,
    asset: AssetId,
    asset_balance: AssetBalance,
    account_id: AccountId,
) -> (r: Result<(), DispatchError>)
    requires
        old(ledger).balance_of(asset, who) >= asset_balance,
    ensures
        (r, *final(ledger)) == transfer_asset_outcome(
            *old(ledger),
            who,
            asset,
            asset_balance,
            account_id,
        ),
        r is Ok ==> balances_of(*final(ledger)) == after_transfer(
            balances_of(*old(ledger)),
            asset,
            who,
            account_id,
            asset_balance,
        ),
        r is Ok ==> known_assets(*final(ledger)) == known_assets(*old(ledger)),
{
    let ghost l0 = *ledger;
    Pallet::check_asset_balance(ledger, who, asset, asset_balance).expect(
        "CheckAssetSwapInBalanceError",
    );
    match ledger.transfer(asset, who, account_id, asset_balance) {
        Ok(_) => {},
        Err(e) => {
            return Err(e);
        },
    }
    proof {
        lemma_balances_after_transfer(l0, *ledger, asset, who, account_id, asset_balance);
        lemma_known_assets_kept(l0, *ledger);
    }
    Ok(())
}

} // verus!
