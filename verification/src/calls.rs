//! The dispatchable calls: each checks that the call is signed and performs the
//! operation for the signer on a layer of the ledger; on success the layer is kept and
//! the call's event deposited, on failure the storage and the ledger are as before.
use crate::dex_caller;
use crate::dex_caller::{
    new_liquidity_post, new_liquidity_pre, redeem_liquidity_post, redeem_liquidity_pre,
    storage_unchanged, swap_exact_in_for_out_post, swap_exact_in_for_out_pre,
    swap_in_for_exact_out_post, swap_in_for_exact_out_pre,
};
use crate::fungibles::{after_transfer, balances_of, known_assets, lemma_same_views, Fungibles};
use crate::pallet::Pallet;
use crate::types::{
    ensure_signed, AccountId, AccountLiquidityPoolId, AssetBalance, AssetId, AssetPairs,
    DispatchError, Event, Origin,
};
use vstd::prelude::*;

verus! {

impl Pallet {
    /// Adds liquidity to the pool for `asset_pair` on behalf of the signer; deposits
    /// `LiquidityAddedSuccessfully`.
    pub fn new_liquidity<F: Fungibles>(
        &mut self,
        ledger: &mut F,
        origin: Origin,
        asset_pair: AssetPairs,
        asset_x_balance: AssetBalance,
        asset_y_balance: AssetBalance,
    ) -> (r: Result<(), DispatchError>)
        requires
            origin matches Origin::Signed(who) ==> new_liquidity_pre(
                *old(self),
                *old(ledger),
                who,
                asset_pair,
                asset_x_balance,
                asset_y_balance,
            ),
        ensures
            !(origin is Signed) ==> r == Err::<(), DispatchError>(DispatchError::BadOrigin),
            origin matches Origin::Signed(who) ==> r == dex_caller::new_liquidity_outcome(
                *old(self),
                *old(ledger),
                who,
                asset_pair,
                asset_x_balance,
                asset_y_balance,
            ).0,
            origin matches Origin::Signed(who) ==> (r is Ok ==> *final(ledger)
                == dex_caller::new_liquidity_outcome(
                    *old(self),
                    *old(ledger),
                    who,
                    asset_pair,
                    asset_x_balance,
                    asset_y_balance,
                ).1),
            r is Err ==> *final(ledger) == *old(ledger),
            r is Err ==> storage_unchanged(*old(self), *final(self)),
            origin matches Origin::Signed(who) ==> (r is Ok ==> new_liquidity_post(
                *old(self),
                *final(self),
                *old(ledger),
                *final(ledger),
                who,
                asset_pair,
                asset_x_balance,
                asset_y_balance,
            )),
            r is Ok ==> final(self).event_seq() == old(self).event_seq().push(
                Event::LiquidityAddedSuccessfully,
            ),
    {
        let who = match ensure_signed(origin) {
            Ok(who) => who,
            Err(e) => {
                return Err(e);
            },
        };
        let mut layer = ledger.snapshot();
        proof {
            lemma_same_views(layer, *ledger);
        }
        match dex_caller::new_liquidity(
            self,
            &mut layer,
            who,
            asset_pair,
            asset_x_balance,
            asset_y_balance,
        ) {
            Ok(()) => {},
            Err(e) => {
                return Err(e);
            },
        }
        *ledger = layer;
        self.deposit_event(Event::LiquidityAddedSuccessfully);
        Ok(())
    }

    /// Redeems the signer's position `(lp_token, id)` in the pool for `asset_pair`;
    /// deposits `LiquidityRedeemedSuccessfully`.
    pub fn redeem_liquidity<F: Fungibles>(
        &mut self,
        ledger: &mut F,
        origin: Origin,
        asset_pair: AssetPairs,
        lp_token: AssetId,
        id: AccountLiquidityPoolId,
    ) -> (r: Result<(), DispatchError>)
        requires
            origin matches Origin::Signed(who) ==> redeem_liquidity_pre(
                *old(self),
                *old(ledger),
                who,
                asset_pair,
                lp_token,
                id,
            ),
        ensures
            !(origin is Signed) ==> r == Err::<(), DispatchError>(DispatchError::BadOrigin),
            origin matches Origin::Signed(who) ==> r == dex_caller::redeem_liquidity_outcome(
                *old(self),
                *old(ledger),
                who,
                asset_pair,
                lp_token,
                id,
            ).0,
            origin matches Origin::Signed(who) ==> (r is Ok ==> *final(ledger)
                == dex_caller::redeem_liquidity_outcome(
                    *old(self),
                    *old(ledger),
                    who,
                    asset_pair,
                    lp_token,
                    id,
                ).1),
            r is Err ==> *final(ledger) == *old(ledger),
            r is Err ==> storage_unchanged(*old(self), *final(self)),
            origin matches Origin::Signed(who) ==> (r is Ok ==> redeem_liquidity_post(
                *old(self),
                *final(self),
                *old(ledger),
                *final(ledger),
                who,
                asset_pair,
                lp_token,
                id,
            )),
            r is Ok ==> final(self).event_seq() == old(self).event_seq().push(
                Event::LiquidityRedeemedSuccessfully,
            ),
    {
        let who = match ensure_signed(origin) {
            Ok(who) => who,
            Err(e) => {
                return Err(e);
            },
        };
        let mut layer = ledger.snapshot();
        proof {
            lemma_same_views(layer, *ledger);
        }
        match dex_caller::redeem_liquidity(self, &mut layer, who, asset_pair, lp_token, id) {
            Ok(()) => {},
            Err(e) => {
                return Err(e);
            },
        }
        *ledger = layer;
        self.deposit_event(Event::LiquidityRedeemedSuccessfully);
        Ok(())
    }

    /// Swaps exactly `asset_exact_in_balance` of `asset_exact_in` paid by the signer for
    /// `asset_max_out`; deposits `SwapExecutedSuccessfully`.
    pub fn swap_exact_in_for_out<F: Fungibles>(
        &mut self,
        ledger: &mut F,
        origin: Origin,
        asset_exact_in: AssetId,
        asset_exact_in_balance: AssetBalance,
        asset_max_out: AssetId,
    ) -> (r: Result<(), DispatchError>)
        requires
            origin matches Origin::Signed(who) ==> swap_exact_in_for_out_pre(
                *old(self),
                *old(ledger),
                who,
                asset_exact_in,
                asset_exact_in_balance,
                asset_max_out,
            ),
        ensures
            !(origin is Signed) ==> r == Err::<(), DispatchError>(DispatchError::BadOrigin),
            origin matches Origin::Signed(who) ==> r == dex_caller::swap_exact_in_for_out_outcome(
                *old(self),
                *old(ledger),
                who,
                asset_exact_in,
                asset_exact_in_balance,
                asset_max_out,
            ).0,
            origin matches Origin::Signed(who) ==> (r is Ok ==> *final(ledger)
                == dex_caller::swap_exact_in_for_out_outcome(
                    *old(self),
                    *old(ledger),
                    who,
                    asset_exact_in,
                    asset_exact_in_balance,
                    asset_max_out,
                ).1),
            r is Err ==> *final(ledger) == *old(ledger),
            r is Err ==> storage_unchanged(*old(self), *final(self)),
            origin matches Origin::Signed(who) ==> (r is Ok ==> swap_exact_in_for_out_post(
                *old(self),
                *final(self),
                *old(ledger),
                *final(ledger),
                who,
                asset_exact_in,
                asset_exact_in_balance,
                asset_max_out,
            )),
            r is Ok ==> final(self).event_seq() == old(self).event_seq().push(
                Event::SwapExecutedSuccessfully,
            ),
    {
        let who = match ensure_signed(origin) {
            Ok(who) => who,
            Err(e) => {
                return Err(e);
            },
        };
        let mut layer = ledger.snapshot();
        proof {
            lemma_same_views(layer, *ledger);
        }
        match dex_caller::swap_exact_in_for_out(
            self,
            &mut layer,
            who,
            asset_exact_in,
            asset_exact_in_balance,
            asset_max_out,
        ) {
            Ok(()) => {},
            Err(e) => {
                return Err(e);
            },
        }
        *ledger = layer;
        self.deposit_event(Event::SwapExecutedSuccessfully);
        Ok(())
    }

    /// Pays the signer exactly `asset_exact_out_balance` of `asset_exact_out`, charged in
    /// `asset_min_in`; deposits `SwapExecutedSuccessfully`.
    pub fn swap_in_for_exact_out<F: Fungibles>(
        &mut self,
        ledger: &mut F,
        origin: Origin,
        asset_exact_out: AssetId,
        asset_exact_out_balance: AssetBalance,
        asset_min_in: AssetId,
    ) -> (r: Result<(), DispatchError>)
        requires
            origin matches Origin::Signed(who) ==> swap_in_for_exact_out_pre(
                *old(self),
                *old(ledger),
                who,
                asset_exact_out,
                asset_exact_out_balance,
                asset_min_in,
            ),
        ensures
            !(origin is Signed) ==> r == Err::<(), DispatchError>(DispatchError::BadOrigin),
            origin matches Origin::Signed(who) ==> r == dex_caller::swap_in_for_exact_out_outcome(
                *old(self),
                *old(ledger),
                who,
                asset_exact_out,
                asset_exact_out_balance,
                asset_min_in,
            ).0,
            origin matches Origin::Signed(who) ==> (r is Ok ==> *final(ledger)
                == dex_caller::swap_in_for_exact_out_outcome(
                    *old(self),
                    *old(ledger),
                    who,
                    asset_exact_out,
                    asset_exact_out_balance,
                    asset_min_in,
                ).1),
            r is Err ==> *final(ledger) == *old(ledger),
            r is Err ==> storage_unchanged(*old(self), *final(self)),
            origin matches Origin::Signed(who) ==> (r is Ok ==> swap_in_for_exact_out_post(
                *old(self),
                *final(self),
                *old(ledger),
                *final(ledger),
                who,
                asset_exact_out,
                asset_exact_out_balance,
                asset_min_in,
            )),
            r is Ok ==> final(self).event_seq() == old(self).event_seq().push(
                Event::SwapExecutedSuccessfully,
            ),
    {
        let who = match ensure_signed(origin) {
            Ok(who) => who,
            Err(e) => {
                return Err(e);
            },
        };
        let mut layer = ledger.snapshot();
        proof {
            lemma_same_views(layer, *ledger);
        }
        match dex_caller::swap_in_for_exact_out(
            self,
            &mut layer,
            who,
            asset_exact_out,
            asset_exact_out_balance,
            asset_min_in,
        ) {
            Ok(()) => {},
            Err(e) => {
                return Err(e);
            },
        }
        *ledger = layer;
        self.deposit_event(Event::SwapExecutedSuccessfully);
        Ok(())
    }

    /// Moves `asset_balance` of `asset` from the signer to `account_id`; deposits
    /// `TransferExecutedSuccessfully`.
    pub fn transfer_asset<F: Fungibles>(
        &mut self,
        ledger: &mut F,
        origin: Origin,
        asset: AssetId,
        asset_balance: AssetBalance,
        account_id: AccountId,
    ) -> (r: Result<(), DispatchError>)
        requires
            origin matches Origin::Signed(who) ==> old(ledger).balance_of(asset, who)
                >= asset_balance,
        ensures
            !(origin is Signed) ==> r == Err::<(), DispatchError>(DispatchError::BadOrigin),
            origin matches Origin::Signed(who) ==> r == dex_caller::transfer_asset_outcome(
                *old(ledger),
                who,
                asset,
                asset_balance,
                account_id,
            ).0,
            origin matches Origin::Signed(who) ==> (r is Ok ==> *final(ledger)
                == dex_caller::transfer_asset_outcome(
                    *old(ledger),
                    who,
                    asset,
                    asset_balance,
                    account_id,
                ).1),
            r is Err ==> *final(ledger) == *old(ledger),
            final(self).pools() == old(self).pools(),
            final(self).account_pools() == old(self).account_pools(),
            r is Err ==> final(self).event_seq() == old(self).event_seq(),
            origin matches Origin::Signed(who) ==> (r is Ok ==> balances_of(*final(ledger))
                == after_transfer(balances_of(*old(ledger)), asset, who, account_id, asset_balance)
                && known_assets(*final(ledger)) == known_assets(*old(ledger))),
            r is Ok ==> final(self).event_seq() == old(self).event_seq().push(
                Event::TransferExecutedSuccessfully,
            ),
    {
        let who = match ensure_signed(origin) {
            Ok(who) => who,
            Err(e) => {
                return Err(e);
            },
        };
        let mut layer = ledger.snapshot();
        proof {
            lemma_same_views(layer, *ledger);
        }
        match dex_caller::transfer_asset(&mut layer, who, asset, asset_balance, account_id) {
            Ok(()) => {},
            Err(e) => {
                return Err(e);
            },
        }
        *ledger = layer;
        self.deposit_event(Event::TransferExecutedSuccessfully);
        Ok(())
    }
}

} // verus!
