//! Lookups and computations the exchange's calls are built from.
use crate::bounded::{
    account_pools_entries, account_pools_index, account_pools_len, AccountLiquidityPools,
};
use crate::fixed_point::{
    fixed_div, fixed_div_spec, fixed_from_rational, fixed_from_rational_spec, fixed_mul,
    fixed_mul_spec, fixed_sqrt, fixed_sqrt_spec, lemma_fixed_sqrt_pos,
};
use crate::fungibles::{after_mint, balances_of, known_assets, Fungibles};
use crate::pallet::{map_lookup, Pallet};
use crate::types::{
    swapped, AccountId, AccountLiquidityPool, AccountLiquidityPoolId, AssetBalance, AssetId,
    AssetPairs, DispatchError, Error, LiquidityPool,
};
use vstd::prelude::*;

verus! {

/// Little-endian value of the first eight bytes of `b`.
pub open spec fn le_u64(b: Seq<u8>) -> int {
    b[0] + 0x100 * b[1] + 0x1_0000 * b[2] + 0x100_0000 * b[3] + 0x1_0000_0000 * b[4]
        + 0x100_0000_0000 * b[5] + 0x1_0000_0000_0000 * b[6] + 0x100_0000_0000_0000 * b[7]
}

/// The account of a pallet identifier, as a 64-bit account id: the encoding of the
/// type id `modl` (bytes 6d 6f 64 6c) followed by the identifier, cut to eight bytes and read little-endian.
pub open spec fn pallet_account(pallet_id: Seq<u8>) -> u64 {
    le_u64(seq![0x6du8, 0x6fu8, 0x64u8, 0x6cu8] + pallet_id) as u64
}

/// The exchange's account: that of the pallet identifier `HUMIDEFI`
/// (bytes 48 55 4d 49 44 45 46 49).
pub open spec fn dex_account() -> u64 {
    pallet_account(seq![0x48u8, 0x55u8, 0x4du8, 0x49u8, 0x44u8, 0x45u8, 0x46u8, 0x49u8])
}

/// The pool stored under `pair`, else the one stored under the swapped pair.
pub open spec fn find_pool(pools: Map<AssetPairs, LiquidityPool>, pair: AssetPairs) -> Option<
    LiquidityPool,
> {
    match map_lookup(pools, pair) {
        Some(pool) => Some(pool),
        None => map_lookup(pools, swapped(pair)),
    }
}

/// The positions of `who` stored under `pair`, else those stored under the swapped pair.
pub open spec fn find_positions(
    positions: Map<(AccountId, AssetPairs), Seq<AccountLiquidityPool>>,
    who: AccountId,
    pair: AssetPairs,
) -> Option<Seq<AccountLiquidityPool>> {
    match map_lookup(positions, (who, pair)) {
        Some(s) => Some(s),
        None => map_lookup(positions, (who, swapped(pair))),
    }
}

/// What `compute_price` returns: `CannotBeZero` when a balance is zero, else the
/// fixed-point ratio `y / x`.
pub open spec fn price_of(x: AssetBalance, y: AssetBalance) -> Result<AssetBalance, DispatchError> {
    if x == 0 || y == 0 {
        Err(DispatchError::Module(Error::CannotBeZero))
    } else {
        Ok(fixed_from_rational_spec(y, x) as u128)
    }
}

/// `compute_price(x, y)` does not overflow.
pub open spec fn price_fits(x: AssetBalance, y: AssetBalance) -> bool {
    x != 0 && y != 0 ==> fixed_from_rational_spec(y, x) <= u128::MAX
}

/// Some asset id from 1 on is not among `known`.
pub open spec fn has_free_asset(known: Set<AssetId>) -> bool {
    exists|a: AssetId| a >= 1 && !known.contains(a)
}

/// The least asset id from 1 on that is not among `known`.
pub open spec fn first_free_asset(known: Set<AssetId>) -> AssetId {
    choose|a: AssetId|
        a >= 1 && !known.contains(a) && forall|b: AssetId| 1 <= b < a ==> #[trigger] known.contains(b)
}

/// The liquidity token of the pool for `pair`, or the least free asset id when there is
/// no pool.
pub open spec fn lp_token_for(
    pools: Map<AssetPairs, LiquidityPool>,
    known: Set<AssetId>,
    pair: AssetPairs,
) -> AssetId {
    match find_pool(pools, pair) {
        Some(pool) => pool.lp_token,
        None => first_free_asset(known),
    }
}

/// The liquidity tokens minted for deposits `x` and `y`: the square root of their
/// fixed-point product.
pub open spec fn lp_minted(x: AssetBalance, y: AssetBalance) -> AssetBalance {
    fixed_sqrt_spec(fixed_mul_spec(x, y) as u128) as u128
}

/// What `compute_and_mint_lp_token` returns and the ledger it leaves. The token is the
/// pool's for `pair`; without a pool it is the least free asset id, which is created first
/// (a refused creation is returned). Then `CannotBeZero` when the product of the deposits
/// is zero, else the outcome of minting `lp_minted(x, y)` of the token into the
/// exchange's account, which returns the token and that amount.
pub open spec fn lp_mint_outcome<F: Fungibles>(
    pools: Map<AssetPairs, LiquidityPool>,
    ledger: F,
    pair: AssetPairs,
    x: AssetBalance,
    y: AssetBalance,
) -> (Result<(AssetId, AssetBalance), DispatchError>, F) {
    let lp = lp_token_for(pools, known_assets(ledger), pair);
    let kept: Result<(), DispatchError> = Ok(());
    let (created, l1) = if find_pool(pools, pair) is Some {
        (kept, ledger)
    } else {
        ledger.create_outcome(lp, dex_account(), true, 1)
    };
    if created is Err {
        (Err(created->Err_0), l1)
    } else if fixed_mul_spec(x, y) == 0 {
        (Err(DispatchError::Module(Error::CannotBeZero)), l1)
    } else {
        let (minted, l2) = l1.mint_outcome(lp, dex_account(), lp_minted(x, y));
        match minted {
            Ok(_) => (Ok((lp, lp_minted(x, y))), l2),
            Err(e) => (Err(e), l2),
        }
    }
}

/// The liquidity token balance of the first position with token `lp_token` and id `id`,
/// or zero.
pub open spec fn position_lp_balance(
    positions: Seq<AccountLiquidityPool>,
    lp_token: AssetId,
    id: AccountLiquidityPoolId,
) -> AssetBalance
    decreases positions.len(),
{
    if positions.len() == 0 {
        0
    } else if positions[0].lp_token == lp_token && positions[0].id == id {
        positions[0].lp_token_balance
    } else {
        position_lp_balance(positions.drop_first(), lp_token, id)
    }
}

/// The price of the pool stored under `pair` itself, or zero.
pub open spec fn stored_price(pools: Map<AssetPairs, LiquidityPool>, pair: AssetPairs) -> AssetBalance {
    match map_lookup(pools, pair) {
        Some(pool) => pool.price,
        None => 0,
    }
}

/// What `compute_xy_assets` returns: the amounts of `x` and `y` a position's liquidity
/// tokens are worth at the pool's price, and the liquidity tokens.
pub open spec fn xy_assets_of(
    pallet: Pallet,
    who: AccountId,
    pair: AssetPairs,
    lp_token: AssetId,
    id: AccountLiquidityPoolId,
) -> Result<(AssetBalance, AssetBalance, AssetBalance), DispatchError> {
    match find_positions(pallet.account_pools(), who, pair) {
        None => Err(DispatchError::Module(Error::AccountLiquidityPoolDoesNotExists)),
        Some(positions) => {
            let lp = position_lp_balance(positions, lp_token, id);
            let price = stored_price(pallet.pools(), pair);
            if price == 0 {
                Err(DispatchError::Module(Error::CannotBeZero))
            } else {
                let root = fixed_sqrt_spec(price) as u128;
                Ok((fixed_div_spec(lp, root) as u128, fixed_mul_spec(lp, root) as u128, lp))
            }
        },
    }
}

/// `compute_xy_assets` does not overflow.
pub open spec fn xy_assets_fit(
    pallet: Pallet,
    who: AccountId,
    pair: AssetPairs,
    lp_token: AssetId,
    id: AccountLiquidityPoolId,
) -> bool {
    match find_positions(pallet.account_pools(), who, pair) {
        None => true,
        Some(positions) => {
            let lp = position_lp_balance(positions, lp_token, id);
            let price = stored_price(pallet.pools(), pair);
            let root = fixed_sqrt_spec(price) as u128;
            price != 0 ==> fixed_div_spec(lp, root) <= u128::MAX && fixed_mul_spec(lp, root)
                <= u128::MAX
        },
    }
}

pub(crate) proof fn lemma_position_lp_balance_found(
    positions: Seq<AccountLiquidityPool>,
    lp_token: AssetId,
    id: AccountLiquidityPoolId,
    i: int,
)
    requires
        0 <= i < positions.len(),
        positions[i].lp_token == lp_token && positions[i].id == id,
        forall|j: int|
            0 <= j < i ==> !(#[trigger] positions[j].lp_token == lp_token && positions[j].id
                == id),
    ensures
        position_lp_balance(positions, lp_token, id) == positions[i].lp_token_balance,
    decreases i,
{
    if i > 0 {
        let rest = positions.drop_first();
        assert forall|j: int| 0 <= j < i - 1 implies !(#[trigger] rest[j].lp_token == lp_token
            && rest[j].id == id) by {
            assert(rest[j] == positions[j + 1]);
        }
        lemma_position_lp_balance_found(rest, lp_token, id, i - 1);
    }
}

pub(crate) proof fn lemma_position_lp_balance_absent(
    positions: Seq<AccountLiquidityPool>,
    lp_token: AssetId,
    id: AccountLiquidityPoolId,
)
    requires
        forall|j: int|
            0 <= j < positions.len() ==> !(#[trigger] positions[j].lp_token == lp_token
                && positions[j].id == id),
    ensures
        position_lp_balance(positions, lp_token, id) == 0,
    decreases positions.len(),
{
    if positions.len() > 0 {
        let rest = positions.drop_first();
        assert forall|j: int| 0 <= j < rest.len() implies !(#[trigger] rest[j].lp_token
            == lp_token && rest[j].id == id) by {
            assert(rest[j] == positions[j + 1]);
        }
        lemma_position_lp_balance_absent(rest, lp_token, id);
    }
}

impl Pallet {
    /// The exchange's account.
    pub fn get_dex_account() -> (r: AccountId)
        ensures
            r == dex_account(),
    {
        let type_id: [u8; 4] = [0x6du8, 0x6fu8, 0x64u8, 0x6cu8];
        let pallet_id: [u8; 8] = [0x48u8, 0x55u8, 0x4du8, 0x49u8, 0x44u8, 0x45u8, 0x46u8, 0x49u8];
        let r = (type_id[0] as u64) + 0x100 * (type_id[1] as u64) + 0x1_0000 * (type_id[2] as u64)
            + 0x100_0000 * (type_id[3] as u64) + 0x1_0000_0000 * (pallet_id[0] as u64)
            + 0x100_0000_0000 * (pallet_id[1] as u64) + 0x1_0000_0000_0000 * (pallet_id[2] as u64)
            + 0x100_0000_0000_0000 * (pallet_id[3] as u64);
        proof {
            let b = seq![0x6du8, 0x6fu8, 0x64u8, 0x6cu8] + seq![0x48u8, 0x55u8, 0x4du8, 0x49u8, 0x44u8, 0x45u8, 0x46u8, 0x49u8];
            assert(b[0] == 0x6du8 && b[1] == 0x6fu8 && b[2] == 0x64u8 && b[3] == 0x6cu8);
            assert(b[4] == 0x48u8 && b[5] == 0x55u8 && b[6] == 0x4du8 && b[7] == 0x49u8);
        }
        r
    }

    /// The balance of `account_id` in `asset`.
    pub fn get_asset_balance<F: Fungibles>(ledger: &F, asset: AssetId, account_id: AccountId) -> (r:
        AssetBalance)
        ensures
            r == ledger.balance_of(asset, account_id),
    {
        ledger.balance(asset, account_id)
    }

    /// The pool for `pair`, stored under the pair or under the swapped pair.
    pub fn get_liquidity_pool(&self, asset_pair: AssetPairs) -> (r: Option<LiquidityPool>)
        ensures
            r == find_pool(self.pools(), asset_pair),
    {
        match self.liquidity_pool_storage(asset_pair) {
            Some(pool) => Some(pool),
            None => {
                let swap_asset_pair = AssetPairs {
                    asset_x: asset_pair.asset_y,
                    asset_y: asset_pair.asset_x,
                };
                self.liquidity_pool_storage(swap_asset_pair)
            },
        }
    }

    /// The positions of `account_id` for `pair`, stored under the pair or under the
    /// swapped pair.
    pub fn get_account_liquidity_pools(&self, account_id: AccountId, asset_pair: AssetPairs) -> (r:
        Option<AccountLiquidityPools>)
        ensures
            r is Some <==> find_positions(self.account_pools(), account_id, asset_pair) is Some,
            r is Some ==> account_pools_entries(r->Some_0) == find_positions(
                self.account_pools(),
                account_id,
                asset_pair,
            )->Some_0,
    {
        match self.account_liquidity_pool_storage(account_id, asset_pair) {
            Some(positions) => Some(positions),
            None => {
                let swap_asset_pair = AssetPairs {
                    asset_x: asset_pair.asset_y,
                    asset_y: asset_pair.asset_x,
                };
                self.account_liquidity_pool_storage(account_id, swap_asset_pair)
            },
        }
    }

    /// Checks that `account_id` holds at least `asset_balance` of `asset` (it aborts
    /// otherwise, so that is required).
    pub fn check_asset_balance<F: Fungibles>(
        ledger: &F,
        account_id: AccountId,
        asset: AssetId,
        asset_balance: AssetBalance,
    ) -> (r: Result<(), DispatchError>)
        requires
            ledger.balance_of(asset, account_id) >= asset_balance,
        ensures
            r == Ok::<(), DispatchError>(()),
    {
        let current_asset_balance = Self::get_asset_balance(ledger, asset, account_id);
        let _remaining = current_asset_balance - asset_balance;
        Ok(())
    }

    /// The price `y / x` of balances `x` and `y`; `CannotBeZero` when one is zero.
    pub fn compute_price(asset_x_balance: AssetBalance, asset_y_balance: AssetBalance) -> (r:
        Result<AssetBalance, DispatchError>)
        requires
            price_fits(asset_x_balance, asset_y_balance),
        ensures
            r == price_of(asset_x_balance, asset_y_balance),
    {
        if asset_x_balance == 0 || asset_y_balance == 0 {
            return Err(DispatchError::Module(Error::CannotBeZero));
        }
        let price = fixed_from_rational(asset_y_balance, asset_x_balance);
        Ok(price)
    }

    /// Finds the liquidity token of `pair` (the pool's, or the least free asset id,
    /// which it creates), and mints into the exchange's account the square root of the
    /// product of the deposits; `CannotBeZero` when that product is zero. Returns the
    /// token and the minted amount.
    pub fn compute_and_mint_lp_token<F: Fungibles>(
        &self,
        ledger: &mut F,
        asset_pair: AssetPairs,
        asset_x_balance: AssetBalance,
        asset_y_balance: AssetBalance,
    ) -> (r: Result<(AssetId, AssetBalance), DispatchError>)
        requires
            fixed_mul_spec(asset_x_balance, asset_y_balance) <= u128::MAX,
            find_pool(self.pools(), asset_pair) is None ==> has_free_asset(known_assets(*old(ledger))),
        ensures
            (r, *final(ledger)) == lp_mint_outcome(
                self.pools(),
                *old(ledger),
                asset_pair,
                asset_x_balance,
                asset_y_balance,
            ),
            r is Ok ==> r->Ok_0 == (
                lp_token_for(self.pools(), known_assets(*old(ledger)), asset_pair),
                lp_minted(asset_x_balance, asset_y_balance),
            ),
            r is Ok ==> fixed_mul_spec(asset_x_balance, asset_y_balance) > 0,
            r is Ok ==> forall|a: AssetId| #[trigger]
                final(ledger).issuance_of(a) == old(ledger).issuance_of(a) + if a == r->Ok_0.0 {
                    r->Ok_0.1 as int
                } else {
                    0int
                },
            r is Ok && find_pool(self.pools(), asset_pair) is None ==> !known_assets(
                *old(ledger),
            ).contains(r->Ok_0.0),
            r is Ok ==> balances_of(*final(ledger)) == after_mint(
                balances_of(*old(ledger)),
                lp_token_for(self.pools(), known_assets(*old(ledger)), asset_pair),
                dex_account(),
                lp_minted(asset_x_balance, asset_y_balance),
            ),
            r is Ok && find_pool(self.pools(), asset_pair) is Some ==> known_assets(*final(ledger))
                == known_assets(*old(ledger)),
            r is Ok && find_pool(self.pools(), asset_pair) is None ==> known_assets(*final(ledger))
                == known_assets(*old(ledger)).insert(first_free_asset(known_assets(*old(ledger)))),
            fixed_mul_spec(asset_x_balance, asset_y_balance) == 0 ==> r is Err,
            find_pool(self.pools(), asset_pair) is Some && fixed_mul_spec(
                asset_x_balance,
                asset_y_balance,
            ) == 0 ==> r == Err::<(AssetId, AssetBalance), DispatchError>(
                DispatchError::Module(Error::CannotBeZero),
            ),
    {
        let ghost ledger0 = *ledger;
        let dex_account_id = Self::get_dex_account();
        let mut lp_token: AssetId = 1;
        match self.get_liquidity_pool(asset_pair) {
            Some(liquidity_pool) => {
                lp_token = liquidity_pool.lp_token;
            },
            None => {
                let mut counter: AssetId = 1;
                loop
                    invariant_except_break
                        1 <= counter,
                        *ledger == ledger0,
                        forall|b: AssetId| 1 <= b < counter ==> #[trigger] known_assets(ledger0).contains(b),
                        has_free_asset(known_assets(ledger0)),
                        find_pool(self.pools(), asset_pair) is None,
                        dex_account_id == dex_account(),
                        ledger0 == *old(ledger),
                    ensures
                        lp_token == first_free_asset(known_assets(ledger0)),
                        !known_assets(ledger0).contains(lp_token),
                        ledger0.create_outcome(lp_token, dex_account(), true, 1).0 is Ok,
                        *ledger == ledger0.create_outcome(lp_token, dex_account(), true, 1).1,
                        forall|a: AssetId| #[trigger]
                            ledger.asset_is_known(a) == (ledger0.asset_is_known(a) || a == lp_token),
                        forall|a: AssetId, w: AccountId| #[trigger]
                            ledger.balance_of(a, w) == ledger0.balance_of(a, w),
                        forall|a: AssetId| #[trigger] ledger.issuance_of(a) == ledger0.issuance_of(a),
                    decreases u32::MAX - counter,
                {
                    lp_token = counter;
                    if !ledger.asset_exists(lp_token) {
                        proof {
                            let known = known_assets(ledger0);
                            let c = first_free_asset(known);
                            assert(counter >= 1 && !known.contains(counter) && forall|b: AssetId|
                                1 <= b < counter ==> #[trigger] known.contains(b));
                            if c < counter {
                                assert(known.contains(c));
                            }
                            if c > counter {
                                assert(known.contains(counter));
                            }
                        }
                        match ledger.create(lp_token, dex_account_id, true, 1) {
                            Ok(()) => {},
                            Err(e) => {
                                return Err(e);
                            },
                        }
                        break;
                    }
                    if counter == u32::MAX {
                        proof {
                            let known = known_assets(ledger0);
                            let a = choose|a: AssetId| a >= 1 && !known.contains(a);
                            assert(known.contains(a));
                        }
                    }
                    counter = counter + 1;
                }
            },
        }
        let mul_xy_assets = fixed_mul(asset_x_balance, asset_y_balance);
        if mul_xy_assets == 0 {
            return Err(DispatchError::Module(Error::CannotBeZero));
        }
        let lp_token_balance = fixed_sqrt(mul_xy_assets);
        match ledger.mint_into(lp_token, dex_account_id, lp_token_balance) {
            Ok(_) => {},
            Err(e) => {
                return Err(e);
            },
        }
        Ok((lp_token, lp_token_balance))
    }

    /// The amounts of `x` and `y` the position `(lp_token, id)` of `account_id` is worth
    /// at the price of the pool stored under `pair`, and its liquidity tokens.
    pub fn compute_xy_assets(
        &self,
        account_id: AccountId,
        asset_pair: AssetPairs,
        lp_token: AssetId,
        id: AccountLiquidityPoolId,
    ) -> (r: Result<(AssetBalance, AssetBalance, AssetBalance), DispatchError>)
        requires
            xy_assets_fit(*self, account_id, asset_pair, lp_token, id),
        ensures
            r == xy_assets_of(*self, account_id, asset_pair, lp_token, id),
    {
        let existing = self.get_account_liquidity_pools(account_id, asset_pair);
        let positions = match existing {
            Some(positions) => positions,
            None => {
                return Err(DispatchError::Module(Error::AccountLiquidityPoolDoesNotExists));
            },
        };
        let ghost entries = account_pools_entries(positions);
        let mut lp_token_balance: AssetBalance = 0;
        let n = account_pools_len(&positions);
        let mut i: usize = 0;
        let mut found = false;
        while i < n && !found
            invariant
                n == entries.len(),
                0 <= i <= n,
                entries == account_pools_entries(positions),
                found ==> lp_token_balance == position_lp_balance(entries, lp_token, id),
                !found ==> lp_token_balance == 0,
                !found ==> forall|j: int|
                    0 <= j < i ==> !(#[trigger] entries[j].lp_token == lp_token && entries[j].id
                        == id),
            decreases n - i + if found {
                0int
            } else {
                1int
            },
        {
            let account_liquidity_pool = account_pools_index(&positions, i);
            if account_liquidity_pool.lp_token == lp_token && account_liquidity_pool.id == id {
                lp_token_balance = account_liquidity_pool.lp_token_balance;
                proof {
                    lemma_position_lp_balance_found(entries, lp_token, id, i as int);
                }
                found = true;
            } else {
                i = i + 1;
            }
        }
        proof {
            if !found {
                lemma_position_lp_balance_absent(entries, lp_token, id);
            }
        }
        let mut price: AssetBalance = 0;
        match self.liquidity_pool_storage(asset_pair) {
            Some(liquidity_pool) => {
                price = liquidity_pool.price;
            },
            None => {},
        }
        if price == 0 {
            return Err(DispatchError::Module(Error::CannotBeZero));
        }
        let root = fixed_sqrt(price);
        proof {
            lemma_fixed_sqrt_pos(price);
        }
        let get_asset_x_balance = fixed_div(lp_token_balance, root);
        let get_asset_y_balance = fixed_mul(lp_token_balance, root);
        Ok((get_asset_x_balance, get_asset_y_balance, lp_token_balance))
    }
}

} // verus!
