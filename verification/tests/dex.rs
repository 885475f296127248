use pallet_dex::dex_caller;
use pallet_dex::fixed_point::FIXED_DIV;
use pallet_dex::fungibles::{Fungibles, MemoryAssets};
use pallet_dex::pallet::Pallet;
use pallet_dex::types::{
    ensure_signed, AccountLiquidityPool, AssetPairs, DispatchError, Error, Event, LiquidityPool,
    Origin, TokenError,
};

const ALICE: u64 = 1;
const BOB: u64 = 2;
const ONE: u128 = FIXED_DIV;
const DEX: u64 = 0x494d_5548_6c64_6f6d;

fn pair(x: u32, y: u32) -> AssetPairs {
    AssetPairs { asset_x: x, asset_y: y }
}

/// Assets 1 and 2, with `amount` of each minted to every listed account.
fn ledger_with(accounts: &[u64], amount: u128) -> MemoryAssets {
    let mut ledger = MemoryAssets::new();
    for asset in [1u32, 2u32] {
        ledger.create(asset, ALICE, true, 1).unwrap();
        for who in accounts {
            ledger.mint_into(asset, *who, amount).unwrap();
        }
    }
    ledger
}

/// Bob has deposited 100 of asset 1 and 400 of asset 2 into the pool (1, 2).
fn bob_pool() -> (Pallet, MemoryAssets) {
    let mut dex = Pallet::new();
    let mut ledger = ledger_with(&[ALICE, BOB], 2000 * ONE);
    dex.new_liquidity(&mut ledger, Origin::Signed(BOB), pair(1, 2), 100 * ONE, 400 * ONE)
        .unwrap();
    (dex, ledger)
}

#[test]
fn create_liquidity_pool_works() {
    let mut dex = Pallet::new();
    let mut ledger = ledger_with(&[BOB], 100_000_000_000_000_000_000_000_000);
    let bob = Origin::Signed(2);
    let first_balance_a: u128 = 15_000_000_000_000_000_000_000_000;
    let first_balance_b: u128 = 20_000_000_000_000_000_000_000_000;
    let asset_pairs = AssetPairs { asset_x: 1, asset_y: 2 };
    assert!(dex
        .new_liquidity(&mut ledger, bob, asset_pairs, first_balance_a, first_balance_b)
        .is_ok());
    assert_eq!(Pallet::get_asset_balance(&ledger, 3, 2), 17_320_508_075_688_772_000_000_000);
}

#[test]
fn tests_create_liquidity_pool_works() {
    let mut dex = Pallet::new();
    let mut ledger = ledger_with(&[BOB], 100_000_000_000_000_000_000_000_000);
    let bob = Origin::Signed(2);
    let first_balance_a: u128 = 15_000_000_000_000_000_000_000_000;
    let first_balance_b: u128 = 20_000_000_000_000_000_000_000_000;
    let asset_pairs = AssetPairs { asset_x: 1, asset_y: 2 };
    assert!(dex
        .new_liquidity(&mut ledger, bob, asset_pairs, first_balance_a, first_balance_b)
        .is_ok());
}

#[test]
fn dex_account_is_the_pallet_account() {
    assert_eq!(Pallet::get_dex_account(), DEX);
    assert_eq!(Pallet::get_dex_account().to_le_bytes(), *b"modlHUMI");
}

#[test]
fn ensure_signed_gives_the_signer() {
    assert_eq!(ensure_signed(Origin::Signed(7)), Ok(7));
    assert_eq!(ensure_signed(Origin::Root), Err(DispatchError::BadOrigin));
    assert_eq!(ensure_signed(Origin::Unsigned), Err(DispatchError::BadOrigin));
}

#[test]
fn new_liquidity_creates_pool_position_and_token() {
    let (dex, ledger) = bob_pool();
    let pool = dex.liquidity_pool_storage(pair(1, 2)).unwrap();
    assert_eq!(
        pool,
        LiquidityPool {
            asset_pair: pair(1, 2),
            asset_x_balance: 100 * ONE,
            asset_y_balance: 400 * ONE,
            price: 4 * ONE,
            asset_x_fee: 0,
            asset_y_fee: 0,
            lp_token: 3,
            lp_token_balance: 200 * ONE,
        }
    );
    let positions = dex.account_liquidity_pool_storage(BOB, pair(1, 2)).unwrap();
    assert_eq!(positions.len(), 1);
    assert_eq!(
        positions[0],
        AccountLiquidityPool {
            id: 1,
            account_id: BOB,
            asset_pair: pair(1, 2),
            asset_x_balance: 100 * ONE,
            asset_y_balance: 400 * ONE,
            lp_token: 3,
            lp_token_balance: 200 * ONE,
        }
    );
    assert!(ledger.asset_exists(3));
    assert_eq!(ledger.balance(1, BOB), 1900 * ONE);
    assert_eq!(ledger.balance(2, BOB), 1600 * ONE);
    assert_eq!(ledger.balance(3, BOB), 200 * ONE);
    assert_eq!(ledger.balance(1, DEX), 100 * ONE);
    assert_eq!(ledger.balance(2, DEX), 400 * ONE);
    assert_eq!(ledger.balance(3, DEX), 0);
    assert_eq!(dex.events().clone(), vec![Event::LiquidityAddedSuccessfully]);
}

#[test]
fn new_liquidity_adds_to_existing_pool_and_numbers_positions() {
    let (mut dex, mut ledger) = bob_pool();
    dex.new_liquidity(&mut ledger, Origin::Signed(BOB), pair(1, 2), 50 * ONE, 200 * ONE)
        .unwrap();
    let pool = dex.liquidity_pool_storage(pair(1, 2)).unwrap();
    assert_eq!(pool.asset_x_balance, 150 * ONE);
    assert_eq!(pool.asset_y_balance, 600 * ONE);
    assert_eq!(pool.price, 4 * ONE);
    assert_eq!(pool.lp_token, 3);
    assert_eq!(pool.lp_token_balance, 300 * ONE);
    let positions = dex.account_liquidity_pool_storage(BOB, pair(1, 2)).unwrap();
    assert_eq!(positions.len(), 2);
    assert_eq!(positions[1].id, 2);
    assert_eq!(positions[1].lp_token_balance, 100 * ONE);
    assert_eq!(ledger.balance(3, BOB), 300 * ONE);
    assert_eq!(ledger.balance(3, DEX), 0);
}

#[test]
fn new_liquidity_on_swapped_pair_stores_under_the_given_pair() {
    let (mut dex, mut ledger) = bob_pool();
    dex.new_liquidity(&mut ledger, Origin::Signed(BOB), pair(2, 1), 40 * ONE, 10 * ONE)
        .unwrap();
    // The pool found under (1, 2) is updated and written under (2, 1).
    let pool = dex.liquidity_pool_storage(pair(2, 1)).unwrap();
    assert_eq!(pool.asset_pair, pair(2, 1));
    assert_eq!(pool.asset_x_balance, 140 * ONE);
    assert_eq!(pool.asset_y_balance, 410 * ONE);
    assert_eq!(pool.price, 2_928_571_428_571_428_571);
    assert_eq!(pool.lp_token, 3);
    assert_eq!(pool.lp_token_balance, 220 * ONE);
    assert_eq!(dex.liquidity_pool_storage(pair(1, 2)).unwrap().asset_x_balance, 100 * ONE);
    let positions = dex.account_liquidity_pool_storage(BOB, pair(2, 1)).unwrap();
    assert_eq!(positions.len(), 2);
    assert_eq!(positions[1].id, 2);
    assert_eq!(positions[1].lp_token_balance, 20 * ONE);
    assert_eq!(dex.account_liquidity_pool_storage(BOB, pair(1, 2)).unwrap().len(), 1);
}

#[test]
fn unsigned_calls_are_refused() {
    let (mut dex, mut ledger) = bob_pool();
    for origin in [Origin::Root, Origin::Unsigned] {
        assert_eq!(
            dex.new_liquidity(&mut ledger, origin, pair(1, 2), ONE, ONE),
            Err(DispatchError::BadOrigin)
        );
        assert_eq!(
            dex.redeem_liquidity(&mut ledger, origin, pair(1, 2), 3, 1),
            Err(DispatchError::BadOrigin)
        );
        assert_eq!(
            dex.swap_exact_in_for_out(&mut ledger, origin, 1, ONE, 2),
            Err(DispatchError::BadOrigin)
        );
        assert_eq!(
            dex.swap_in_for_exact_out(&mut ledger, origin, 2, ONE, 1),
            Err(DispatchError::BadOrigin)
        );
        assert_eq!(
            dex.transfer_asset(&mut ledger, origin, 1, ONE, ALICE),
            Err(DispatchError::BadOrigin)
        );
    }
    assert_eq!(dex.events().len(), 1);
    assert_eq!(dex.liquidity_pool_storage(pair(1, 2)).unwrap().asset_x_balance, 100 * ONE);
}

#[test]
fn redeem_without_pool_is_refused() {
    let mut dex = Pallet::new();
    let mut ledger = ledger_with(&[BOB], 10 * ONE);
    assert_eq!(
        dex.redeem_liquidity(&mut ledger, Origin::Signed(BOB), pair(1, 2), 3, 1),
        Err(DispatchError::Module(Error::LiquidityPoolDoesNotExists))
    );
    assert!(dex.events().is_empty());
}

#[test]
fn redeem_liquidity_pays_out_position_value() {
    let (mut dex, mut ledger) = bob_pool();
    dex.new_liquidity(&mut ledger, Origin::Signed(ALICE), pair(1, 2), 300 * ONE, 1200 * ONE)
        .unwrap();
    assert_eq!(ledger.balance(3, ALICE), 600 * ONE);
    assert_eq!(dex.compute_xy_assets(BOB, pair(1, 2), 3, 1), Ok((100 * ONE, 400 * ONE, 200 * ONE)));
    dex.redeem_liquidity(&mut ledger, Origin::Signed(BOB), pair(1, 2), 3, 1).unwrap();
    let pool = dex.liquidity_pool_storage(pair(1, 2)).unwrap();
    assert_eq!(pool.asset_x_balance, 300 * ONE);
    assert_eq!(pool.asset_y_balance, 1200 * ONE);
    assert_eq!(pool.price, 4 * ONE);
    assert_eq!(pool.lp_token_balance, 600 * ONE);
    assert!(dex.account_liquidity_pool_storage(BOB, pair(1, 2)).is_none());
    assert!(dex.account_liquidity_pool_storage(ALICE, pair(1, 2)).is_some());
    assert_eq!(ledger.balance(1, BOB), 2000 * ONE);
    assert_eq!(ledger.balance(2, BOB), 2000 * ONE);
    assert_eq!(ledger.balance(1, DEX), 300 * ONE);
    assert_eq!(ledger.balance(2, DEX), 1200 * ONE);
    assert_eq!(
        dex.events().clone(),
        vec![
            Event::LiquidityAddedSuccessfully,
            Event::LiquidityAddedSuccessfully,
            Event::LiquidityRedeemedSuccessfully
        ]
    );
}

#[test]
fn swap_exact_in_for_out_trades_at_pool_price() {
    let (mut dex, mut ledger) = bob_pool();
    dex.swap_exact_in_for_out(&mut ledger, Origin::Signed(BOB), 1, 10 * ONE, 2).unwrap();
    let pool = dex.liquidity_pool_storage(pair(1, 2)).unwrap();
    assert_eq!(pool.asset_x_balance, 110 * ONE);
    assert_eq!(pool.asset_y_balance, 360 * ONE);
    assert_eq!(pool.price, 3_272_727_272_727_272_727);
    assert_eq!(pool.lp_token_balance, 200 * ONE);
    assert_eq!(ledger.balance(1, BOB), 1890 * ONE);
    assert_eq!(ledger.balance(2, BOB), 1640 * ONE);
    assert_eq!(ledger.balance(1, DEX), 110 * ONE);
    assert_eq!(ledger.balance(2, DEX), 360 * ONE);
    assert_eq!(dex.events().last(), Some(&Event::SwapExecutedSuccessfully));
}

#[test]
fn swap_exact_in_of_second_asset_uses_inverse_price() {
    let (mut dex, mut ledger) = bob_pool();
    dex.swap_exact_in_for_out(&mut ledger, Origin::Signed(BOB), 2, 40 * ONE, 1).unwrap();
    // Paying in asset 2 trades at x / y = 1/4; the pool found under (1, 2) is written
    // under (2, 1).
    let pool = dex.liquidity_pool_storage(pair(2, 1)).unwrap();
    assert_eq!(pool.asset_pair, pair(2, 1));
    assert_eq!(pool.asset_x_balance, 90 * ONE);
    assert_eq!(pool.asset_y_balance, 440 * ONE);
    assert_eq!(ledger.balance(1, BOB), 1910 * ONE);
    assert_eq!(ledger.balance(2, BOB), 1560 * ONE);
}

#[test]
fn swap_in_for_exact_out_charges_at_pool_price() {
    let (mut dex, mut ledger) = bob_pool();
    dex.swap_in_for_exact_out(&mut ledger, Origin::Signed(BOB), 2, 40 * ONE, 1).unwrap();
    let pool = dex.liquidity_pool_storage(pair(1, 2)).unwrap();
    assert_eq!(pool.asset_x_balance, 260 * ONE);
    assert_eq!(pool.asset_y_balance, 360 * ONE);
    assert_eq!(pool.price, 1_384_615_384_615_384_615);
    assert_eq!(ledger.balance(1, BOB), 1740 * ONE);
    assert_eq!(ledger.balance(2, BOB), 1640 * ONE);
    assert_eq!(ledger.balance(1, DEX), 260 * ONE);
    assert_eq!(ledger.balance(2, DEX), 360 * ONE);
}

#[test]
fn swaps_without_pool_are_refused() {
    let mut dex = Pallet::new();
    let mut ledger = ledger_with(&[BOB], 10 * ONE);
    assert_eq!(
        dex.swap_exact_in_for_out(&mut ledger, Origin::Signed(BOB), 1, ONE, 2),
        Err(DispatchError::Module(Error::LiquidityPoolDoesNotExists))
    );
    assert_eq!(
        dex.swap_in_for_exact_out(&mut ledger, Origin::Signed(BOB), 2, 0, 1),
        Err(DispatchError::Module(Error::LiquidityPoolDoesNotExists))
    );
    assert!(dex.liquidity_pool_storage(pair(1, 2)).is_none());
    assert!(dex.events().is_empty());
    // A refused call leaves the ledger as it was.
    assert_eq!(ledger.balance(1, BOB), 10 * ONE);
    assert_eq!(ledger.balance(1, DEX), 0);
}

#[test]
fn refused_operation_without_layer_keeps_its_ledger_work() {
    let mut dex = Pallet::new();
    let mut ledger = ledger_with(&[BOB], 10 * ONE);
    assert_eq!(
        dex_caller::swap_exact_in_for_out(&mut dex, &mut ledger, BOB, 1, ONE, 2),
        Err(DispatchError::Module(Error::LiquidityPoolDoesNotExists))
    );
    assert_eq!(ledger.balance(1, BOB), 9 * ONE);
    assert_eq!(ledger.balance(1, DEX), ONE);
}

#[test]
fn refused_transfer_leaves_ledger_unchanged() {
    let mut dex = Pallet::new();
    let mut ledger = ledger_with(&[BOB], 10 * ONE);
    assert_eq!(
        dex.transfer_asset(&mut ledger, Origin::Signed(BOB), 9, 0, ALICE),
        Err(DispatchError::Token(TokenError::UnknownAsset))
    );
    assert_eq!(ledger.balance(1, BOB), 10 * ONE);
    assert_eq!(ledger.balance(9, BOB), 0);
    assert!(dex.events().is_empty());
}

#[test]
fn transfer_asset_moves_funds() {
    let mut dex = Pallet::new();
    let mut ledger = ledger_with(&[BOB], 10 * ONE);
    dex.transfer_asset(&mut ledger, Origin::Signed(BOB), 1, 4 * ONE, ALICE).unwrap();
    assert_eq!(ledger.balance(1, BOB), 6 * ONE);
    assert_eq!(ledger.balance(1, ALICE), 4 * ONE);
    assert_eq!(ledger.balance(2, BOB), 10 * ONE);
    assert_eq!(dex.events().clone(), vec![Event::TransferExecutedSuccessfully]);
    assert_eq!(
        dex_caller::transfer_asset(&mut ledger, BOB, 9, 0, ALICE),
        Err(DispatchError::Token(TokenError::UnknownAsset))
    );
}

#[test]
fn compute_price_is_ratio_of_balances() {
    assert_eq!(Pallet::compute_price(2 * ONE, 3 * ONE), Ok(1_500_000_000_000_000_000));
    assert_eq!(Pallet::compute_price(3, 1), Ok(333_333_333_333_333_333));
    assert_eq!(Pallet::compute_price(3, 2), Ok(666_666_666_666_666_667));
    assert_eq!(
        Pallet::compute_price(0, ONE),
        Err(DispatchError::Module(Error::CannotBeZero))
    );
    assert_eq!(
        Pallet::compute_price(ONE, 0),
        Err(DispatchError::Module(Error::CannotBeZero))
    );
}

#[test]
fn compute_and_mint_rejects_zero_product() {
    let (dex, mut ledger) = bob_pool();
    assert_eq!(
        dex.compute_and_mint_lp_token(&mut ledger, pair(1, 2), 1, 1),
        Err(DispatchError::Module(Error::CannotBeZero))
    );
}

#[test]
fn compute_and_mint_mints_square_root_of_product() {
    let (dex, mut ledger) = bob_pool();
    assert_eq!(dex.compute_and_mint_lp_token(&mut ledger, pair(2, 1), 2 * ONE, ONE), Ok((3, 1_414_213_562_373_095_048)));
    assert_eq!(ledger.balance(3, DEX), 1_414_213_562_373_095_048);
    let empty = Pallet::new();
    let mut fresh = ledger_with(&[], 0);
    assert_eq!(empty.compute_and_mint_lp_token(&mut fresh, pair(1, 2), 4 * ONE, ONE), Ok((3, 2 * ONE)));
    assert!(fresh.asset_exists(3));
    assert_eq!(fresh.balance(3, DEX), 2 * ONE);
}

#[test]
fn compute_xy_assets_errors() {
    let (mut dex, mut ledger) = bob_pool();
    assert_eq!(
        dex.compute_xy_assets(ALICE, pair(1, 2), 3, 1),
        Err(DispatchError::Module(Error::AccountLiquidityPoolDoesNotExists))
    );
    // Positions are found under the swapped pair, but no pool is stored under (2, 1).
    assert_eq!(
        dex.compute_xy_assets(BOB, pair(2, 1), 3, 1),
        Err(DispatchError::Module(Error::CannotBeZero))
    );
    // An unknown position is worth nothing.
    assert_eq!(dex.compute_xy_assets(BOB, pair(1, 2), 3, 9), Ok((0, 0, 0)));
    dex.new_liquidity(&mut ledger, Origin::Signed(BOB), pair(1, 2), 50 * ONE, 200 * ONE)
        .unwrap();
    assert_eq!(dex.compute_xy_assets(BOB, pair(1, 2), 3, 2), Ok((50 * ONE, 200 * ONE, 100 * ONE)));
}

#[test]
fn pool_lookup_is_symmetric() {
    let (dex, _ledger) = bob_pool();
    assert_eq!(dex.get_liquidity_pool(pair(1, 2)), dex.get_liquidity_pool(pair(2, 1)));
    assert!(dex.get_liquidity_pool(pair(2, 1)).is_some());
    assert!(dex.get_liquidity_pool(pair(1, 3)).is_none());
    assert!(dex.liquidity_pool_storage(pair(2, 1)).is_none());
    let positions = dex.get_account_liquidity_pools(BOB, pair(2, 1)).unwrap();
    assert_eq!(positions.len(), 1);
    assert!(dex.get_account_liquidity_pools(ALICE, pair(1, 2)).is_none());
}

#[test]
fn check_asset_balance_accepts_held_amounts() {
    let ledger = ledger_with(&[BOB], 10 * ONE);
    assert_eq!(Pallet::check_asset_balance(&ledger, BOB, 1, 10 * ONE), Ok(()));
    assert_eq!(Pallet::get_asset_balance(&ledger, 1, BOB), 10 * ONE);
    assert_eq!(Pallet::get_asset_balance(&ledger, 1, ALICE), 0);
}

#[test]
fn memory_assets_errors() {
    let mut ledger = ledger_with(&[BOB], 10 * ONE);
    assert_eq!(
        ledger.create(1, ALICE, true, 1),
        Err(DispatchError::Token(TokenError::AlreadyExists))
    );
    assert_eq!(
        ledger.mint_into(7, BOB, 1),
        Err(DispatchError::Token(TokenError::UnknownAsset))
    );
    assert_eq!(
        ledger.mint_into(1, BOB, u128::MAX),
        Err(DispatchError::Token(TokenError::Overflow))
    );
    assert_eq!(
        ledger.transfer(1, BOB, ALICE, 11 * ONE),
        Err(DispatchError::Token(TokenError::FundsUnavailable))
    );
    assert_eq!(
        ledger.transfer(7, BOB, ALICE, 0),
        Err(DispatchError::Token(TokenError::UnknownAsset))
    );
    // The total issuance of asset 1 (10 held by Bob) cannot grow past the maximum.
    assert_eq!(
        ledger.mint_into(1, ALICE, u128::MAX - 5 * ONE),
        Err(DispatchError::Token(TokenError::Overflow))
    );
    assert_eq!(ledger.total_issuance(1), 10 * ONE);
    assert_eq!(ledger.transfer(1, BOB, BOB, 5 * ONE), Ok(5 * ONE));
    assert_eq!(ledger.balance(1, BOB), 10 * ONE);
}

#[test]
fn transfers_conserve_the_sum_of_balances() {
    let mut ledger = ledger_with(&[ALICE, BOB], 10 * ONE);
    ledger.transfer(2, ALICE, BOB, 3 * ONE).unwrap();
    assert_eq!(ledger.balance(2, ALICE) + ledger.balance(2, BOB), 20 * ONE);
    assert_eq!(ledger.balance(1, ALICE), 10 * ONE);
}


#[test]
fn compute_swap_amount_applies_pool_price() {
    let (dex, _ledger) = bob_pool();
    let pool = dex.liquidity_pool_storage(pair(1, 2)).unwrap();
    assert_eq!(dex_caller::compute_swap_amount(pool, 1, 10 * ONE), 40 * ONE);
    assert_eq!(dex_caller::compute_swap_amount(pool, 2, 40 * ONE), 10 * ONE);
    assert_eq!(dex_caller::compute_swap_amount(pool, 7, 40 * ONE), 0);
    // Amounts are rounded to the nearest unit, down when equidistant.
    assert_eq!(dex_caller::compute_swap_amount(pool, 2, 2), 0);
    assert_eq!(dex_caller::compute_swap_amount(pool, 2, 3), 1);
    assert_eq!(dex_caller::compute_swap_amount(pool, 2, 6), 1);
}

#[test]
fn liquidity_tokens_go_to_the_provider() {
    let (mut dex, mut ledger) = bob_pool();
    let before_bob = ledger.balance(3, BOB);
    let before_dex = ledger.balance(3, DEX);
    dex.new_liquidity(&mut ledger, Origin::Signed(BOB), pair(1, 2), 50 * ONE, 200 * ONE)
        .unwrap();
    assert_eq!(ledger.balance(3, BOB), before_bob + 100 * ONE);
    assert_eq!(ledger.balance(3, DEX), before_dex);
}

#[test]
fn swap_moves_exact_amounts_between_account_and_exchange() {
    let (mut dex, mut ledger) = bob_pool();
    let (bob_in, bob_out) = (ledger.balance(2, BOB), ledger.balance(1, BOB));
    let (dex_in, dex_out) = (ledger.balance(2, DEX), ledger.balance(1, DEX));
    dex.swap_in_for_exact_out(&mut ledger, Origin::Signed(BOB), 1, 5 * ONE, 2).unwrap();
    // Paying in asset 2 trades at its swap price x / y = 1/4: 1.25 for 5.
    let paid = 1_250_000_000_000_000_000;
    assert_eq!(ledger.balance(1, BOB), bob_out + 5 * ONE);
    assert_eq!(ledger.balance(2, BOB), bob_in - paid);
    assert_eq!(ledger.balance(1, DEX), dex_out - 5 * ONE);
    assert_eq!(ledger.balance(2, DEX), dex_in + paid);
}

#[test]
fn failed_mint_refuses_new_liquidity() {
    let (mut dex, mut ledger) = bob_pool();
    // The liquidity token's issuance (200 held by Bob) is brought to the maximum.
    ledger.mint_into(3, DEX, u128::MAX - 200 * ONE).unwrap();
    assert_eq!(
        dex.new_liquidity(&mut ledger, Origin::Signed(BOB), pair(1, 2), 50 * ONE, 200 * ONE),
        Err(DispatchError::Module(Error::ComputeAndMintLiquidityPoolTokenError))
    );
    assert_eq!(ledger.balance(1, BOB), 1900 * ONE);
    assert_eq!(ledger.balance(3, DEX), u128::MAX - 200 * ONE);
    assert_eq!(dex.liquidity_pool_storage(pair(1, 2)).unwrap().asset_x_balance, 100 * ONE);
    assert_eq!(dex.account_liquidity_pool_storage(BOB, pair(1, 2)).unwrap().len(), 1);
    assert_eq!(dex.events().len(), 1);
}

#[test]
fn larger_swap_in_pays_out_more() {
    let (mut dex1, mut ledger1) = bob_pool();
    let (mut dex2, mut ledger2) = bob_pool();
    dex1.swap_exact_in_for_out(&mut ledger1, Origin::Signed(BOB), 1, 5 * ONE, 2).unwrap();
    dex2.swap_exact_in_for_out(&mut ledger2, Origin::Signed(BOB), 1, 10 * ONE, 2).unwrap();
    assert_eq!(ledger1.balance(2, BOB), 1620 * ONE);
    assert_eq!(ledger2.balance(2, BOB), 1640 * ONE);
    assert!(ledger1.balance(2, BOB) <= ledger2.balance(2, BOB));
}

#[test]
fn price_depends_only_on_the_ratio() {
    assert_eq!(Pallet::compute_price(2 * ONE, 3 * ONE), Pallet::compute_price(4 * ONE, 6 * ONE));
    assert_eq!(Pallet::compute_price(3, 2), Pallet::compute_price(6, 4));
    assert_eq!(Pallet::compute_price(3, 2), Ok(666_666_666_666_666_667));
    assert_eq!(Pallet::compute_price(0, 5), Pallet::compute_price(0, 7));
}

#[test]
fn new_pool_token_differs_from_its_assets() {
    let (dex, _ledger) = bob_pool();
    let pool = dex.liquidity_pool_storage(pair(1, 2)).unwrap();
    assert_eq!(pool.lp_token, 3);
}

#[test]
fn minting_liquidity_tokens_raises_their_issuance() {
    let dex = Pallet::new();
    let mut ledger = ledger_with(&[BOB], 100 * ONE);
    assert_eq!(ledger.total_issuance(1), 100 * ONE);
    let (lp, minted) = dex
        .compute_and_mint_lp_token(&mut ledger, pair(1, 2), 4 * ONE, 9 * ONE)
        .unwrap();
    assert_eq!((lp, minted), (3, 6 * ONE));
    assert_eq!(ledger.total_issuance(3), 6 * ONE);
    assert_eq!(ledger.total_issuance(1), 100 * ONE);
    ledger.transfer(3, DEX, BOB, 2 * ONE).unwrap();
    assert_eq!(ledger.total_issuance(3), 6 * ONE);
}
