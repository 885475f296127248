//! Properties of the exchange that span its operations.
use crate::dex_caller::{
    lemma_found_pool_wf, new_liquidity_outcome, new_liquidity_post, new_liquidity_pre,
    pool_after_adding, positions_after_adding, redeem_liquidity_outcome, redeem_liquidity_post,
    redeem_liquidity_pre, swap_amount, swap_exact_in_for_out_outcome, swap_exact_in_for_out_post,
    swap_exact_in_for_out_pre, swap_in_for_exact_out_outcome, swap_in_for_exact_out_post,
    swap_price, transfer_asset_outcome,
};
use crate::fixed_point::{
    fixed_div_spec, fixed_from_rational_spec, fixed_mul_spec, fixed_sqrt_spec,
    lemma_div_round_half_down_monotone, lemma_div_round_half_down_ratio, lemma_fixed_sqrt_bounds,
    FIXED_DIV,
};
use crate::fungibles::{after_transfer, balances_of, Fungibles};
use crate::helpers::{
    dex_account, find_pool, find_positions, lemma_position_lp_balance_found, lp_minted,
    lp_token_for, price_of, xy_assets_of,
};
use crate::types::DispatchError;
use crate::pallet::{map_lookup, pool_wf, Pallet};
use crate::types::{
    swapped, AccountId, AccountLiquidityPoolId, AssetBalance, AssetId, AssetPairs, LiquidityPool,
};
use crate::fungibles::known_assets;
use vstd::prelude::*;

verus! {

/// A pool is found for a pair exactly when one is found for the swapped pair, and when
/// only one of the two is stored both lookups find that pool.
pub proof fn law_pool_lookup_is_symmetric(pools: Map<AssetPairs, LiquidityPool>, pair: AssetPairs)
    ensures
        find_pool(pools, pair) is Some <==> find_pool(pools, swapped(pair)) is Some,
        pools.contains_key(pair) != pools.contains_key(swapped(pair)) ==> find_pool(pools, pair)
            == find_pool(pools, swapped(pair)),
{
    assert(swapped(swapped(pair)) == pair);
}

/// A transfer keeps the sum of the two balances it touches and every other balance.
pub proof fn law_transfer_conserves(
    b: spec_fn(AssetId, AccountId) -> int,
    asset: AssetId,
    source: AccountId,
    dest: AccountId,
    amount: AssetBalance,
)
    ensures
        after_transfer(b, asset, source, dest, amount)(asset, source) + after_transfer(
            b,
            asset,
            source,
            dest,
            amount,
        )(asset, dest) == b(asset, source) + b(asset, dest),
        forall|a: AssetId, w: AccountId|
            !(a == asset && (w == source || w == dest)) ==> #[trigger] after_transfer(
                b,
                asset,
                source,
                dest,
                amount,
            )(a, w) == b(a, w),
{
}

/// After a successful `new_liquidity`, the pool stored under the pair holds the
/// deposits and is priced by its balances, and the last position of `who` for the pair
/// records the deposits and the minted tokens, numbered by the count of positions.
pub proof fn law_new_liquidity_records_pool_and_position<F: Fungibles>(
    pre: Pallet,
    post: Pallet,
    ledger0: F,
    ledger1: F,
    who: AccountId,
    pair: AssetPairs,
    x: AssetBalance,
    y: AssetBalance,
)
    requires
        pre.wf(),
        new_liquidity_post(pre, post, ledger0, ledger1, who, pair, x, y),
    ensures
        ({
            let lp = lp_token_for(pre.pools(), known_assets(ledger0), pair);
            let pool = post.pools()[pair];
            let positions = post.account_pools()[(who, pair)];
            &&& map_lookup(post.pools(), pair) == Some(pool_after_adding(pre.pools(), pair, lp, x, y, lp_minted(x, y)))
            &&& find_pool(post.pools(), pair) == Some(pool)
            &&& pool.price == fixed_from_rational_spec(pool.asset_y_balance, pool.asset_x_balance)
            &&& positions.len() >= 1
            &&& positions.last().id == positions.len()
            &&& positions.last().account_id == who
            &&& positions.last().asset_x_balance == x
            &&& positions.last().asset_y_balance == y
            &&& positions.last().lp_token == lp
            &&& positions.last().lp_token_balance == lp_minted(x, y)
        }),
{
    let lp = lp_token_for(pre.pools(), known_assets(ledger0), pair);
    let positions = positions_after_adding(pre.account_pools(), who, pair, lp, x, y, lp_minted(x, y));
    assert(post.account_pools()[(who, pair)] == positions);
    assert(post.pools().contains_key(pair));
    assert(pool_wf(pair, post.pools()[pair]));
}

/// After a successful `new_liquidity` by an account other than the exchange, the account
/// holds exactly the minted tokens more and the exchange's token balance is as before.
pub proof fn law_new_liquidity_hands_out_minted_tokens<F: Fungibles>(
    pre: Pallet,
    post: Pallet,
    ledger0: F,
    ledger1: F,
    who: AccountId,
    pair: AssetPairs,
    x: AssetBalance,
    y: AssetBalance,
)
    requires
        new_liquidity_post(pre, post, ledger0, ledger1, who, pair, x, y),
        who != dex_account(),
    ensures
        ({
            let lp = lp_token_for(pre.pools(), known_assets(ledger0), pair);
            &&& ledger1.balance_of(lp, who) == ledger0.balance_of(lp, who) + lp_minted(x, y)
            &&& ledger1.balance_of(lp, dex_account()) == ledger0.balance_of(lp, dex_account())
        }),
{
    let lp = lp_token_for(pre.pools(), known_assets(ledger0), pair);
    assert(post.pools().contains_key(pair));
    assert(balances_of(ledger1)(lp, who) == ledger1.balance_of(lp, who));
    assert(balances_of(ledger1)(lp, dex_account()) == ledger1.balance_of(lp, dex_account()));
}

/// After a successful `redeem_liquidity`, no positions of `who` are stored under the
/// pair, and the pool stored under the pair holds the paid amounts less.
pub proof fn law_redeem_liquidity_drops_positions<F: Fungibles>(
    pre: Pallet,
    post: Pallet,
    ledger0: F,
    ledger1: F,
    who: AccountId,
    pair: AssetPairs,
    lp_token: AssetId,
    id: AccountLiquidityPoolId,
)
    requires
        redeem_liquidity_pre(pre, ledger0, who, pair, lp_token, id),
        redeem_liquidity_outcome(pre, ledger0, who, pair, lp_token, id).0 is Ok,
        redeem_liquidity_post(pre, post, ledger0, ledger1, who, pair, lp_token, id),
    ensures
        !post.account_pools().contains_key((who, pair)),
        ({
            let (x_out, y_out, lp_out) = xy_assets_of(pre, who, pair, lp_token, id)->Ok_0;
            &&& post.pools()[pair].asset_x_balance == pre.pools()[pair].asset_x_balance - x_out
            &&& post.pools()[pair].asset_y_balance == pre.pools()[pair].asset_y_balance - y_out
            &&& post.pools()[pair].lp_token_balance == pre.pools()[pair].lp_token_balance - lp_out
        }),
{
}

/// In a successful `swap_exact_in_for_out` between two distinct assets by an account
/// other than the exchange, the account pays exactly the amount in and receives the
/// amount out, and the exchange the reverse.
pub proof fn law_swap_exact_in_moves_amounts<F: Fungibles>(
    pre: Pallet,
    post: Pallet,
    ledger0: F,
    ledger1: F,
    who: AccountId,
    asset_in: AssetId,
    amount_in: AssetBalance,
    asset_out: AssetId,
)
    requires
        swap_exact_in_for_out_post(pre, post, ledger0, ledger1, who, asset_in, amount_in, asset_out),
        who != dex_account(),
        asset_in != asset_out,
    ensures
        ({
            let pair = AssetPairs { asset_x: asset_in, asset_y: asset_out };
            let out = swap_amount(find_pool(pre.pools(), pair)->Some_0, asset_in, amount_in);
            &&& ledger1.balance_of(asset_in, who) == ledger0.balance_of(asset_in, who) - amount_in
            &&& ledger1.balance_of(asset_out, who) == ledger0.balance_of(asset_out, who) + out
            &&& ledger1.balance_of(asset_in, dex_account()) == ledger0.balance_of(asset_in, dex_account()) + amount_in
            &&& ledger1.balance_of(asset_out, dex_account()) == ledger0.balance_of(asset_out, dex_account()) - out
        }),
{
    let dex = dex_account();
    assert(balances_of(ledger1)(asset_in, who) == ledger1.balance_of(asset_in, who));
    assert(balances_of(ledger1)(asset_out, who) == ledger1.balance_of(asset_out, who));
    assert(balances_of(ledger1)(asset_in, dex) == ledger1.balance_of(asset_in, dex));
    assert(balances_of(ledger1)(asset_out, dex) == ledger1.balance_of(asset_out, dex));
}

/// In a successful `swap_in_for_exact_out` between two distinct assets by an account
/// other than the exchange, the account receives exactly the amount out and pays the
/// amount in, and the exchange the reverse.
pub proof fn law_swap_exact_out_moves_amounts<F: Fungibles>(
    pre: Pallet,
    post: Pallet,
    ledger0: F,
    ledger1: F,
    who: AccountId,
    asset_out: AssetId,
    amount_out: AssetBalance,
    asset_in: AssetId,
)
    requires
        swap_in_for_exact_out_post(pre, post, ledger0, ledger1, who, asset_out, amount_out, asset_in),
        who != dex_account(),
        asset_in != asset_out,
    ensures
        ({
            let pair = AssetPairs { asset_x: asset_in, asset_y: asset_out };
            let paid = swap_amount(find_pool(pre.pools(), pair)->Some_0, asset_in, amount_out);
            &&& ledger1.balance_of(asset_out, who) == ledger0.balance_of(asset_out, who) + amount_out
            &&& ledger1.balance_of(asset_in, who) == ledger0.balance_of(asset_in, who) - paid
            &&& ledger1.balance_of(asset_out, dex_account()) == ledger0.balance_of(asset_out, dex_account()) - amount_out
            &&& ledger1.balance_of(asset_in, dex_account()) == ledger0.balance_of(asset_in, dex_account()) + paid
        }),
{
    let dex = dex_account();
    assert(balances_of(ledger1)(asset_in, who) == ledger1.balance_of(asset_in, who));
    assert(balances_of(ledger1)(asset_out, who) == ledger1.balance_of(asset_out, who));
    assert(balances_of(ledger1)(asset_in, dex) == ledger1.balance_of(asset_in, dex));
    assert(balances_of(ledger1)(asset_out, dex) == ledger1.balance_of(asset_out, dex));
}

/// More paid in never pays out less: of two successful `swap_exact_in_for_out` calls
/// from the same state and ledger, the one with the larger amount in pays out at least as
/// much; between two distinct assets, for an account other than the exchange, it leaves
/// the account with at least as much of the asset out.
pub proof fn law_swap_pays_out_more_for_more<F: Fungibles>(
    pre: Pallet,
    post1: Pallet,
    post2: Pallet,
    ledger0: F,
    ledger1: F,
    ledger2: F,
    who: AccountId,
    asset_in: AssetId,
    amount1: AssetBalance,
    amount2: AssetBalance,
    asset_out: AssetId,
)
    requires
        swap_exact_in_for_out_pre(pre, ledger0, who, asset_in, amount1, asset_out),
        swap_exact_in_for_out_pre(pre, ledger0, who, asset_in, amount2, asset_out),
        swap_exact_in_for_out_outcome(pre, ledger0, who, asset_in, amount1, asset_out).0 is Ok,
        swap_exact_in_for_out_outcome(pre, ledger0, who, asset_in, amount2, asset_out).0 is Ok,
        swap_exact_in_for_out_post(pre, post1, ledger0, ledger1, who, asset_in, amount1, asset_out),
        swap_exact_in_for_out_post(pre, post2, ledger0, ledger2, who, asset_in, amount2, asset_out),
        amount1 <= amount2,
    ensures
        ({
            let p = find_pool(pre.pools(), AssetPairs { asset_x: asset_in, asset_y: asset_out })->Some_0;
            swap_amount(p, asset_in, amount1) <= swap_amount(p, asset_in, amount2)
        }),
        who != dex_account() && asset_in != asset_out ==> ledger1.balance_of(asset_out, who)
            <= ledger2.balance_of(asset_out, who),
{
    let p = find_pool(pre.pools(), AssetPairs { asset_x: asset_in, asset_y: asset_out })->Some_0;
    let c = swap_price(p, asset_in) as u128;
    assert(c * amount1 <= c * amount2) by (nonlinear_arith)
        requires
            amount1 <= amount2,
            c >= 0,
    ;
    assert(c * amount1 >= 0) by (nonlinear_arith)
        requires
            amount1 >= 0,
            c >= 0,
    ;
    lemma_div_round_half_down_monotone(c * amount1, c * amount2, FIXED_DIV as int);
    if who != dex_account() && asset_in != asset_out {
        law_swap_exact_in_moves_amounts(pre, post1, ledger0, ledger1, who, asset_in, amount1, asset_out);
        law_swap_exact_in_moves_amounts(pre, post2, ledger0, ledger2, who, asset_in, amount2, asset_out);
    }
}

/// The price of two balances depends only on their ratio: balances in the same
/// proportion (neither pair both zero) have the same price, or are refused alike.
pub proof fn law_price_depends_on_ratio(
    x1: AssetBalance,
    y1: AssetBalance,
    x2: AssetBalance,
    y2: AssetBalance,
)
    requires
        x1 != 0 || y1 != 0,
        x2 != 0 || y2 != 0,
        x1 * y2 == x2 * y1,
    ensures
        price_of(x1, y1) == price_of(x2, y2),
{
    if x1 != 0 && y1 != 0 {
        assert(x2 != 0 && y2 != 0) by (nonlinear_arith)
            requires
                x1 != 0,
                y1 != 0,
                x2 != 0 || y2 != 0,
                x1 * y2 == x2 * y1,
        ;
        let d = FIXED_DIV as int;
        assert((d * y1) * x2 == (d * y2) * x1) by (nonlinear_arith)
            requires
                x1 * y2 == x2 * y1,
        ;
        assert(d * y1 >= 0 && d * y2 >= 0) by (nonlinear_arith)
            requires
                d > 0,
                y1 >= 0,
                y2 >= 0,
        ;
        lemma_div_round_half_down_ratio(d * y1, x1 as int, d * y2, x2 as int);
    } else {
        assert(x2 == 0 || y2 == 0) by (nonlinear_arith)
            requires
                x1 == 0 || y1 == 0,
                x1 != 0 || y1 != 0,
                x1 * y2 == x2 * y1,
        ;
    }
}

/// A position is worth what its liquidity tokens are at the pool's price, whatever it
/// deposited: for the first position of `who` numbered `id` in token `lp_token` (found
/// under the pair or the swapped pair) and a pool stored under `pair` with a positive
/// price, the value is `lp / sqrt(price)` of the first asset and `lp * sqrt(price)` of the
/// second, in fixed point, together with the position's `lp` tokens.
pub proof fn law_position_worth_its_tokens_at_pool_price(
    pallet: Pallet,
    who: AccountId,
    pair: AssetPairs,
    lp_token: AssetId,
    id: AccountLiquidityPoolId,
    i: int,
)
    requires
        find_positions(pallet.account_pools(), who, pair) is Some,
        ({
            let s = find_positions(pallet.account_pools(), who, pair)->Some_0;
            &&& 0 <= i < s.len()
            &&& s[i].lp_token == lp_token && s[i].id == id
            &&& forall|j: int| 0 <= j < i ==> !(#[trigger] s[j].lp_token == lp_token && s[j].id == id)
        }),
        pallet.pools().contains_key(pair),
        pallet.pools()[pair].price > 0,
    ensures
        ({
            let lp = find_positions(pallet.account_pools(), who, pair)->Some_0[i].lp_token_balance;
            let root = fixed_sqrt_spec(pallet.pools()[pair].price) as u128;
            xy_assets_of(pallet, who, pair, lp_token, id) == Ok::<
                (AssetBalance, AssetBalance, AssetBalance),
                DispatchError,
            >((fixed_div_spec(lp, root) as u128, fixed_mul_spec(lp, root) as u128, lp))
        }),
{
    let s = find_positions(pallet.account_pools(), who, pair)->Some_0;
    lemma_position_lp_balance_found(s, lp_token, id, i);
}

/// The liquidity tokens minted for deposits `x` and `y` are the fixed-point square root of
/// the fixed-point product `p` of the deposits: `m * m <= p * 10^18 < (m + 1)^2` when
/// `p * 10^18` fits in a `u128` (when it does not, the root of `p` is scaled by `10^9`:
/// `p * 10^18 < (m + 10^9)^2`).
pub proof fn law_minted_tokens_are_square_root_of_product(x: AssetBalance, y: AssetBalance)
    requires
        fixed_mul_spec(x, y) <= u128::MAX,
    ensures
        ({
            let p = fixed_mul_spec(x, y);
            let m = lp_minted(x, y);
            &&& m * m <= p * FIXED_DIV
            &&& p * FIXED_DIV <= u128::MAX ==> p * FIXED_DIV < (m + 1) * (m + 1)
            &&& p * FIXED_DIV > u128::MAX ==> p * FIXED_DIV < (m + 1_000_000_000) * (m
                + 1_000_000_000)
        }),
{
    assert(x * y >= 0) by (nonlinear_arith)
        requires
            x >= 0,
            y >= 0,
    ;
    assert(fixed_mul_spec(x, y) >= 0);
    lemma_fixed_sqrt_bounds(fixed_mul_spec(x, y) as u128);
}

/// A swap trades at the pool's price in the direction of the asset paid in: for the
/// pool's second asset at the inverse `x / y` of its balances, for its first (distinct)
/// asset at `y / x`, and for an asset outside the pool for nothing.
pub proof fn law_swap_trades_at_the_price_of_the_asset_paid_in(
    p: LiquidityPool,
    asset_in: AssetId,
    amount: AssetBalance,
)
    ensures
        asset_in == p.asset_pair.asset_y ==> swap_amount(p, asset_in, amount) == fixed_mul_spec(
            fixed_from_rational_spec(p.asset_x_balance, p.asset_y_balance) as u128,
            amount,
        ) as u128,
        asset_in == p.asset_pair.asset_x && asset_in != p.asset_pair.asset_y ==> swap_amount(
            p,
            asset_in,
            amount,
        ) == fixed_mul_spec(
            fixed_from_rational_spec(p.asset_y_balance, p.asset_x_balance) as u128,
            amount,
        ) as u128,
        asset_in != p.asset_pair.asset_x && asset_in != p.asset_pair.asset_y ==> swap_amount(
            p,
            asset_in,
            amount,
        ) == 0,
{
    assert(0 * (amount as int) == 0);
}

/// A successful `new_liquidity` by an account other than the exchange, between two
/// distinct assets, takes exactly `x` of the first asset and `y` of the second from the
/// account and gives exactly those to the exchange, nothing more.
pub proof fn law_new_liquidity_takes_exactly_the_deposits<F: Fungibles>(
    pallet: Pallet,
    ledger0: F,
    ledger1: F,
    who: AccountId,
    pair: AssetPairs,
    x: AssetBalance,
    y: AssetBalance,
)
    requires
        new_liquidity_pre(pallet, ledger0, who, pair, x, y),
        new_liquidity_outcome(pallet, ledger0, who, pair, x, y) == (
            Ok::<(), DispatchError>(()),
            ledger1,
        ),
        who != dex_account(),
        pair.asset_x != pair.asset_y,
    ensures
        ledger1.balance_of(pair.asset_x, who) == ledger0.balance_of(pair.asset_x, who) - x,
        ledger1.balance_of(pair.asset_y, who) == ledger0.balance_of(pair.asset_y, who) - y,
        ledger1.balance_of(pair.asset_x, dex_account()) == ledger0.balance_of(
            pair.asset_x,
            dex_account(),
        ) + x,
        ledger1.balance_of(pair.asset_y, dex_account()) == ledger0.balance_of(
            pair.asset_y,
            dex_account(),
        ) + y,
{
    let dex = dex_account();
    let ax = pair.asset_x;
    let ay = pair.asset_y;
    let (paid_x, l1) = ledger0.transfer_outcome(ax, who, dex, x);
    ledger0.lemma_transfer_ok(ax, who, dex, x);
    let (paid_y, l2) = l1.transfer_outcome(ay, who, dex, y);
    l1.lemma_transfer_ok(ay, who, dex, y);
    assert(x > 0 && y > 0) by {
        if x == 0 || y == 0 {
            assert(x * y == 0) by (nonlinear_arith)
                requires
                    x == 0 || y == 0,
            ;
        }
    }
    let m = lp_minted(x, y);
    let known2 = known_assets(l2);
    let lp = lp_token_for(pallet.pools(), known2, pair);
    let l2c = if find_pool(pallet.pools(), pair) is Some {
        l2
    } else {
        l2.create_outcome(lp, dex, true, 1).1
    };
    if find_pool(pallet.pools(), pair) is Some {
        lemma_found_pool_wf(pallet, pair);
    } else {
        l2.lemma_create_ok(lp, dex, true, 1);
    }
    assert(lp != ax && lp != ay);
    let l3 = l2c.mint_outcome(lp, dex, m).1;
    l2c.lemma_mint_ok(lp, dex, m);
    let l4 = l3.transfer_outcome(lp, dex, who, m).1;
    l3.lemma_transfer_ok(lp, dex, who, m);
    assert(l4 == ledger1);
    assert(ledger1.balance_of(ax, who) == l3.balance_of(ax, who));
    assert(l3.balance_of(ax, who) == l2c.balance_of(ax, who));
    assert(l2.balance_of(ax, who) == l1.balance_of(ax, who));
    assert(ledger1.balance_of(ay, who) == l3.balance_of(ay, who));
    assert(l3.balance_of(ay, who) == l2c.balance_of(ay, who));
    assert(ledger1.balance_of(ax, dex) == l3.balance_of(ax, dex));
    assert(l3.balance_of(ax, dex) == l2c.balance_of(ax, dex));
    assert(l2.balance_of(ax, dex) == l1.balance_of(ax, dex));
    assert(ledger1.balance_of(ay, dex) == l3.balance_of(ay, dex));
    assert(l3.balance_of(ay, dex) == l2c.balance_of(ay, dex));
}

/// A successful `swap_exact_in_for_out` between two distinct assets, by an account other
/// than the exchange, needs a pool for the two assets; the account pays exactly the
/// amount in and receives exactly that amount at the pool's price (`swap_amount`), and
/// the exchange the reverse.
pub proof fn law_swap_exact_in_pays_at_pool_price<F: Fungibles>(
    pallet: Pallet,
    ledger0: F,
    ledger1: F,
    who: AccountId,
    asset_in: AssetId,
    amount_in: AssetBalance,
    asset_out: AssetId,
)
    requires
        swap_exact_in_for_out_outcome(pallet, ledger0, who, asset_in, amount_in, asset_out) == (
            Ok::<(), DispatchError>(()),
            ledger1,
        ),
        who != dex_account(),
        asset_in != asset_out,
    ensures
        find_pool(pallet.pools(), AssetPairs { asset_x: asset_in, asset_y: asset_out }) is Some,
        ({
            let p = find_pool(pallet.pools(), AssetPairs { asset_x: asset_in, asset_y: asset_out })->Some_0;
            let out = swap_amount(p, asset_in, amount_in);
            &&& ledger1.balance_of(asset_in, who) == ledger0.balance_of(asset_in, who) - amount_in
            &&& ledger1.balance_of(asset_out, who) == ledger0.balance_of(asset_out, who) + out
            &&& ledger1.balance_of(asset_in, dex_account()) == ledger0.balance_of(asset_in, dex_account()) + amount_in
            &&& ledger1.balance_of(asset_out, dex_account()) == ledger0.balance_of(asset_out, dex_account()) - out
        }),
{
    let dex = dex_account();
    let p = find_pool(pallet.pools(), AssetPairs { asset_x: asset_in, asset_y: asset_out })->Some_0;
    let out = swap_amount(p, asset_in, amount_in);
    let l1 = ledger0.transfer_outcome(asset_in, who, dex, amount_in).1;
    ledger0.lemma_transfer_ok(asset_in, who, dex, amount_in);
    l1.lemma_transfer_ok(asset_out, dex, who, out);
    assert(ledger1.balance_of(asset_in, who) == l1.balance_of(asset_in, who));
    assert(ledger1.balance_of(asset_out, who) == l1.balance_of(asset_out, who) + out);
    assert(ledger1.balance_of(asset_in, dex) == l1.balance_of(asset_in, dex));
    assert(ledger1.balance_of(asset_out, dex) == l1.balance_of(asset_out, dex) - out);
    assert(l1.balance_of(asset_in, who) == ledger0.balance_of(asset_in, who) - amount_in);
    assert(l1.balance_of(asset_out, who) == ledger0.balance_of(asset_out, who));
    assert(l1.balance_of(asset_in, dex) == ledger0.balance_of(asset_in, dex) + amount_in);
    assert(l1.balance_of(asset_out, dex) == ledger0.balance_of(asset_out, dex));
}

/// A successful `swap_in_for_exact_out` between two distinct assets, by an account other
/// than the exchange, needs a pool for the two assets; the account receives exactly the
/// amount out and pays exactly that amount at the price of the asset paid in
/// (`swap_amount`), and the exchange the reverse.
pub proof fn law_swap_exact_out_charges_at_pool_price<F: Fungibles>(
    pallet: Pallet,
    ledger0: F,
    ledger1: F,
    who: AccountId,
    asset_out: AssetId,
    amount_out: AssetBalance,
    asset_in: AssetId,
)
    requires
        swap_in_for_exact_out_outcome(pallet, ledger0, who, asset_out, amount_out, asset_in) == (
            Ok::<(), DispatchError>(()),
            ledger1,
        ),
        who != dex_account(),
        asset_in != asset_out,
    ensures
        find_pool(pallet.pools(), AssetPairs { asset_x: asset_in, asset_y: asset_out }) is Some,
        ({
            let p = find_pool(pallet.pools(), AssetPairs { asset_x: asset_in, asset_y: asset_out })->Some_0;
            let paid = swap_amount(p, asset_in, amount_out);
            &&& ledger1.balance_of(asset_out, who) == ledger0.balance_of(asset_out, who) + amount_out
            &&& ledger1.balance_of(asset_in, who) == ledger0.balance_of(asset_in, who) - paid
            &&& ledger1.balance_of(asset_out, dex_account()) == ledger0.balance_of(asset_out, dex_account()) - amount_out
            &&& ledger1.balance_of(asset_in, dex_account()) == ledger0.balance_of(asset_in, dex_account()) + paid
        }),
{
    let dex = dex_account();
    let p = find_pool(pallet.pools(), AssetPairs { asset_x: asset_in, asset_y: asset_out })->Some_0;
    let paid = swap_amount(p, asset_in, amount_out);
    let l1 = ledger0.transfer_outcome(asset_out, dex, who, amount_out).1;
    ledger0.lemma_transfer_ok(asset_out, dex, who, amount_out);
    l1.lemma_transfer_ok(asset_in, who, dex, paid);
    assert(ledger1.balance_of(asset_in, who) == l1.balance_of(asset_in, who) - paid);
    assert(ledger1.balance_of(asset_out, who) == l1.balance_of(asset_out, who));
    assert(ledger1.balance_of(asset_in, dex) == l1.balance_of(asset_in, dex) + paid);
    assert(ledger1.balance_of(asset_out, dex) == l1.balance_of(asset_out, dex));
    assert(l1.balance_of(asset_in, who) == ledger0.balance_of(asset_in, who));
    assert(l1.balance_of(asset_out, who) == ledger0.balance_of(asset_out, who) + amount_out);
    assert(l1.balance_of(asset_in, dex) == ledger0.balance_of(asset_in, dex));
    assert(l1.balance_of(asset_out, dex) == ledger0.balance_of(asset_out, dex) - amount_out);
}

/// A successful `redeem_liquidity` of a pair of distinct assets, by an account other than
/// the exchange, needs a pool for the pair; the exchange pays the account exactly the
/// position's value (`xy_assets_of`) in each asset.
pub proof fn law_redeem_pays_the_position_value<F: Fungibles>(
    pallet: Pallet,
    ledger0: F,
    ledger1: F,
    who: AccountId,
    pair: AssetPairs,
    lp_token: AssetId,
    id: AccountLiquidityPoolId,
)
    requires
        redeem_liquidity_outcome(pallet, ledger0, who, pair, lp_token, id) == (
            Ok::<(), DispatchError>(()),
            ledger1,
        ),
        who != dex_account(),
        pair.asset_x != pair.asset_y,
    ensures
        find_pool(pallet.pools(), pair) is Some,
        ({
            let (x_out, y_out, lp_out) = xy_assets_of(pallet, who, pair, lp_token, id)->Ok_0;
            &&& ledger1.balance_of(pair.asset_x, who) == ledger0.balance_of(pair.asset_x, who) + x_out
            &&& ledger1.balance_of(pair.asset_y, who) == ledger0.balance_of(pair.asset_y, who) + y_out
            &&& ledger1.balance_of(pair.asset_x, dex_account()) == ledger0.balance_of(pair.asset_x, dex_account()) - x_out
            &&& ledger1.balance_of(pair.asset_y, dex_account()) == ledger0.balance_of(pair.asset_y, dex_account()) - y_out
        }),
{
    let dex = dex_account();
    let ax = pair.asset_x;
    let ay = pair.asset_y;
    let (x_out, y_out, lp_out) = xy_assets_of(pallet, who, pair, lp_token, id)->Ok_0;
    let l1 = ledger0.transfer_outcome(ax, dex, who, x_out).1;
    ledger0.lemma_transfer_ok(ax, dex, who, x_out);
    l1.lemma_transfer_ok(ay, dex, who, y_out);
    assert(ledger1.balance_of(ax, who) == l1.balance_of(ax, who));
    assert(ledger1.balance_of(ay, who) == l1.balance_of(ay, who) + y_out);
    assert(ledger1.balance_of(ax, dex) == l1.balance_of(ax, dex));
    assert(ledger1.balance_of(ay, dex) == l1.balance_of(ay, dex) - y_out);
    assert(l1.balance_of(ax, who) == ledger0.balance_of(ax, who) + x_out);
    assert(l1.balance_of(ay, who) == ledger0.balance_of(ay, who));
    assert(l1.balance_of(ax, dex) == ledger0.balance_of(ax, dex) - x_out);
    assert(l1.balance_of(ay, dex) == ledger0.balance_of(ay, dex));
}

/// A successful `transfer_asset` to another account moves exactly the amount: the
/// sender holds it less and the receiver it more.
pub proof fn law_transfer_asset_moves_exactly_the_amount<F: Fungibles>(
    ledger0: F,
    ledger1: F,
    who: AccountId,
    asset: AssetId,
    amount: AssetBalance,
    account_id: AccountId,
)
    requires
        transfer_asset_outcome(ledger0, who, asset, amount, account_id) == (
            Ok::<(), DispatchError>(()),
            ledger1,
        ),
        who != account_id,
    ensures
        ledger1.balance_of(asset, who) == ledger0.balance_of(asset, who) - amount,
        ledger1.balance_of(asset, account_id) == ledger0.balance_of(asset, account_id) + amount,
{
    ledger0.lemma_transfer_ok(asset, who, account_id, amount);
    assert(ledger1.balance_of(asset, who) == ledger0.balance_of(asset, who) - amount);
    assert(ledger1.balance_of(asset, account_id) == ledger0.balance_of(asset, account_id) + amount);
}

} // verus!
