//! The exchange's storage: the liquidity pools by asset pair, the liquidity positions
//! by account and asset pair, and the deposited events.
use crate::bounded::{
    account_pools_clone, account_pools_entries, AccountLiquidityPools, MAX_ACCOUNT_POOLS,
};
use crate::fixed_point::fixed_from_rational_spec;
use crate::types::{
    AccountId, AccountLiquidityPool, AssetPairs, Event, LiquidityPool,
};
use std::collections::HashMap;
use vstd::prelude::*;

verus! {

broadcast use vstd::std_specs::hash::group_hash_axioms;

/// The value a map holds at `k`, if any.
pub open spec fn map_lookup<K, V>(m: Map<K, V>, k: K) -> Option<V> {
    if m.contains_key(k) {
        Some(m[k])
    } else {
        None
    }
}

/// The storage key of an asset pair.
pub open spec fn pair_key(pair: AssetPairs) -> u64 {
    (pair.asset_x as int * 0x1_0000_0000 + pair.asset_y as int) as u64
}

/// The storage key of an account's positions for an asset pair.
pub open spec fn account_pair_key(who: AccountId, pair: AssetPairs) -> u128 {
    (who as int * 0x1_0000_0000_0000_0000 + pair_key(pair) as int) as u128
}

proof fn lemma_pair_key_injective(p: AssetPairs, q: AssetPairs)
    ensures
        pair_key(p) == pair_key(q) ==> p == q,
{
}

proof fn lemma_account_pair_key_injective(w: AccountId, p: AssetPairs, v: AccountId, q: AssetPairs)
    ensures
        account_pair_key(w, p) == account_pair_key(v, q) ==> w == v && p == q,
{
    lemma_pair_key_injective(p, q);
}

fn pair_key_exec(pair: AssetPairs) -> (k: u64)
    ensures
        k == pair_key(pair),
{
    (pair.asset_x as u64) * 0x1_0000_0000u64 + (pair.asset_y as u64)
}

fn account_pair_key_exec(who: AccountId, pair: AssetPairs) -> (k: u128)
    ensures
        k == account_pair_key(who, pair),
{
    (who as u128) * 0x1_0000_0000_0000_0000u128 + (pair_key_exec(pair) as u128)
}

/// A stored pool: kept under its own pair, with positive balances, the price `y / x`
/// of its balances, and a liquidity token other than its two assets.
pub open spec fn pool_wf(pair: AssetPairs, pool: LiquidityPool) -> bool {
    &&& pool.asset_pair == pair
    &&& pool.lp_token != pair.asset_x
    &&& pool.lp_token != pair.asset_y
    &&& pool.asset_x_balance > 0
    &&& pool.asset_y_balance > 0
    &&& pool.price == fixed_from_rational_spec(pool.asset_y_balance, pool.asset_x_balance)
}

/// The stored positions of `who` for one pair: at most 100, numbered from 1 in order,
/// all held by `who`.
pub open spec fn positions_wf(who: AccountId, positions: Seq<AccountLiquidityPool>) -> bool {
    &&& positions.len() <= MAX_ACCOUNT_POOLS
    &&& forall|i: int| 0 <= i < positions.len() ==> #[trigger] positions[i].id == i + 1
    &&& forall|i: int| 0 <= i < positions.len() ==> #[trigger] positions[i].account_id == who
}

/// The exchange's storage.
pub struct Pallet {
    liquidity_pools: HashMap<u64, LiquidityPool>,
    account_liquidity_pools: HashMap<u128, AccountLiquidityPools>,
    events: Vec<Event>,
}

impl Pallet {
    /// The stored pools, by asset pair.
    pub closed spec fn pools(self) -> Map<AssetPairs, LiquidityPool> {
        Map::new(
            |p: AssetPairs| self.liquidity_pools@.contains_key(pair_key(p)),
            |p: AssetPairs| self.liquidity_pools@[pair_key(p)],
        )
    }

    /// The stored positions, by account and asset pair.
    pub closed spec fn account_pools(self) -> Map<(AccountId, AssetPairs), Seq<AccountLiquidityPool>> {
        Map::new(
            |k: (AccountId, AssetPairs)|
                self.account_liquidity_pools@.contains_key(account_pair_key(k.0, k.1)),
            |k: (AccountId, AssetPairs)|
                account_pools_entries(self.account_liquidity_pools@[account_pair_key(k.0, k.1)]),
        )
    }

    /// The deposited events, oldest first.
    pub closed spec fn event_seq(self) -> Seq<Event> {
        self.events@
    }

    /// The storage invariant: every pool and every list of positions is well formed.
    pub open spec fn wf(self) -> bool {
        &&& forall|p: AssetPairs| #[trigger]
            self.pools().contains_key(p) ==> pool_wf(p, self.pools()[p])
        &&& forall|k: (AccountId, AssetPairs)| #[trigger]
            self.account_pools().contains_key(k) ==> positions_wf(k.0, self.account_pools()[k])
    }

    /// Empty storage.
    pub fn new() -> (r: Self)
        ensures
            r.wf(),
            r.pools() == Map::<AssetPairs, LiquidityPool>::empty(),
            r.account_pools() == Map::<(AccountId, AssetPairs), Seq<AccountLiquidityPool>>::empty(),
            r.event_seq() == Seq::<Event>::empty(),
    {
        let r = Pallet {
            liquidity_pools: HashMap::new(),
            account_liquidity_pools: HashMap::new(),
            events: Vec::new(),
        };
        assert(r.pools() =~= Map::<AssetPairs, LiquidityPool>::empty());
        assert(r.account_pools() =~= Map::<(AccountId, AssetPairs), Seq<AccountLiquidityPool>>::empty());
        r
    }

    /// The pool stored under `pair`, if any.
    pub fn liquidity_pool_storage(&self, pair: AssetPairs) -> (r: Option<LiquidityPool>)
        ensures
            r == map_lookup(self.pools(), pair),
    {
        let k = pair_key_exec(pair);
        match self.liquidity_pools.get(&k) {
            Some(pool) => Some(*pool),
            None => None,
        }
    }

    /// The positions of `who` stored under `pair`, if any.
    pub fn account_liquidity_pool_storage(&self, who: AccountId, pair: AssetPairs) -> (r: Option<
        AccountLiquidityPools,
    >)
        ensures
            r is Some <==> self.account_pools().contains_key((who, pair)),
            r is Some ==> account_pools_entries(r->Some_0) == self.account_pools()[(who, pair)],
    {
        let k = account_pair_key_exec(who, pair);
        match self.account_liquidity_pools.get(&k) {
            Some(v) => Some(account_pools_clone(v)),
            None => None,
        }
    }

    /// The deposited events.
    pub fn events(&self) -> (r: &Vec<Event>)
        ensures
            r@ == self.event_seq(),
    {
        &self.events
    }

    /// Stores `pool` under its pair.
    pub(crate) fn insert_liquidity_pool(&mut self, pool: LiquidityPool)
        ensures
            final(self).pools() == old(self).pools().insert(pool.asset_pair, pool),
            final(self).account_pools() == old(self).account_pools(),
            final(self).event_seq() == old(self).event_seq(),
    {
        let k = pair_key_exec(pool.asset_pair);
        self.liquidity_pools.insert(k, pool);
        proof {
            assert forall|p: AssetPairs| true implies (#[trigger] self.pools().contains_key(p)
                == old(self).pools().insert(pool.asset_pair, pool).contains_key(p)) && (
            self.pools().contains_key(p) ==> self.pools()[p] == old(self).pools().insert(
                pool.asset_pair,
                pool,
            )[p]) by {
                lemma_pair_key_injective(p, pool.asset_pair);
            }
            assert(self.pools() =~= old(self).pools().insert(pool.asset_pair, pool));
            assert(self.account_pools() =~= old(self).account_pools());
        }
    }

    /// Stores `positions` as the positions of `who` under `pair`.
    pub(crate) fn insert_account_liquidity_pools(
        &mut self,
        who: AccountId,
        pair: AssetPairs,
        positions: AccountLiquidityPools,
    )
        ensures
            final(self).account_pools() == old(self).account_pools().insert(
                (who, pair),
                account_pools_entries(positions),
            ),
            final(self).pools() == old(self).pools(),
            final(self).event_seq() == old(self).event_seq(),
    {
        let ghost entries = account_pools_entries(positions);
        let k = account_pair_key_exec(who, pair);
        self.account_liquidity_pools.insert(k, positions);
        proof {
            assert forall|q: (AccountId, AssetPairs)| true implies (
            #[trigger] self.account_pools().contains_key(q) == old(
                self,
            ).account_pools().insert((who, pair), entries).contains_key(q)) && (
            self.account_pools().contains_key(q) ==> self.account_pools()[q] == old(
                self,
            ).account_pools().insert((who, pair), entries)[q]) by {
                lemma_account_pair_key_injective(q.0, q.1, who, pair);
            }
            assert(self.account_pools() =~= old(self).account_pools().insert((who, pair), entries));
            assert(self.pools() =~= old(self).pools());
        }
    }

    /// Removes the positions of `who` stored under `pair`.
    pub(crate) fn remove_account_liquidity_pools(&mut self, who: AccountId, pair: AssetPairs)
        ensures
            final(self).account_pools() == old(self).account_pools().remove((who, pair)),
            final(self).pools() == old(self).pools(),
            final(self).event_seq() == old(self).event_seq(),
    {
        let k = account_pair_key_exec(who, pair);
        self.account_liquidity_pools.remove(&k);
        proof {
            assert forall|q: (AccountId, AssetPairs)| true implies (
            #[trigger] self.account_pools().contains_key(q) == old(
                self,
            ).account_pools().remove((who, pair)).contains_key(q)) && (
            self.account_pools().contains_key(q) ==> self.account_pools()[q] == old(
                self,
            ).account_pools().remove((who, pair))[q]) by {
                lemma_account_pair_key_injective(q.0, q.1, who, pair);
            }
            assert(self.account_pools() =~= old(self).account_pools().remove((who, pair)));
            assert(self.pools() =~= old(self).pools());
        }
    }

    /// Deposits `event`.
    pub(crate) fn deposit_event(&mut self, event: Event)
        ensures
            final(self).event_seq() == old(self).event_seq().push(event),
            final(self).pools() == old(self).pools(),
            final(self).account_pools() == old(self).account_pools(),
    {
        self.events.push(event);
        proof {
            assert(self.pools() =~= old(self).pools());
            assert(self.account_pools() =~= old(self).account_pools());
        }
    }
}

} // verus!
