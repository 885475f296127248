//! The asset ledger the exchange moves funds on.
//!
//! A runtime supplies the ledger (`Fungibles`); its methods are the inspect, create and
//! mutate operations the exchange calls. What a mutating operation returns, and the ledger
//! it leaves, are a function of the ledger and the arguments (its `_outcome`); on success
//! the balances, the total issuances and the set of known assets change as each method
//! states. `MemoryAssets` is an in-memory ledger with these operations, kept in lists.
use crate::types::{AccountId, AssetBalance, AssetId, DispatchError, TokenError};
use vstd::prelude::*;

verus! {

/// The balances after `amount` of `asset` moved from `source` to `dest`.
pub open spec fn after_transfer(
    b: spec_fn(AssetId, AccountId) -> int,
    asset: AssetId,
    source: AccountId,
    dest: AccountId,
    amount: AssetBalance,
) -> spec_fn(AssetId, AccountId) -> int {
    |a: AssetId, w: AccountId|
        if source != dest && a == asset && w == source {
            b(a, w) - amount
        } else if source != dest && a == asset && w == dest {
            b(a, w) + amount
        } else {
            b(a, w)
        }
}

/// The balances after `amount` of `asset` was minted into `who`.
pub open spec fn after_mint(
    b: spec_fn(AssetId, AccountId) -> int,
    asset: AssetId,
    who: AccountId,
    amount: AssetBalance,
) -> spec_fn(AssetId, AccountId) -> int {
    |a: AssetId, w: AccountId|
        if a == asset && w == who {
            b(a, w) + amount
        } else {
            b(a, w)
        }
}

/// Every balance of a ledger.
pub open spec fn balances_of<F: Fungibles>(f: F) -> spec_fn(AssetId, AccountId) -> int {
    |a: AssetId, w: AccountId| f.balance_of(a, w) as int
}

/// The assets a ledger knows.
pub open spec fn known_assets<F: Fungibles>(f: F) -> Set<AssetId> {
    Set::new(|a: AssetId| f.asset_is_known(a))
}

/// A ledger of fungible assets. Each mutating method returns, and leaves, its outcome on
/// the ledger it was called on. The ledger is exact: a successful transfer or mint moves
/// exactly the amount asked, and no balance is reaped below a minimum; minting raises the
/// asset's total issuance by the amount, and transfers and creations keep every issuance.
pub trait Fungibles: Sized {
    /// The balance of `who` in `asset`.
    spec fn balance_of(&self, asset: AssetId, who: AccountId) -> AssetBalance;

    /// Whether `asset` exists.
    spec fn asset_is_known(&self, asset: AssetId) -> bool;

    /// The total issuance of `asset`.
    spec fn issuance_of(&self, asset: AssetId) -> AssetBalance;

    /// What `create` returns on this ledger, and the ledger it leaves.
    spec fn create_outcome(
        &self,
        asset: AssetId,
        admin: AccountId,
        is_sufficient: bool,
        min_balance: AssetBalance,
    ) -> (Result<(), DispatchError>, Self);

    /// What `mint_into` returns on this ledger, and the ledger it leaves.
    spec fn mint_outcome(&self, asset: AssetId, who: AccountId, amount: AssetBalance) -> (
        Result<AssetBalance, DispatchError>,
        Self,
    );

    /// What `transfer` returns on this ledger, and the ledger it leaves.
    spec fn transfer_outcome(
        &self,
        asset: AssetId,
        source: AccountId,
        dest: AccountId,
        amount: AssetBalance,
    ) -> (Result<AssetBalance, DispatchError>, Self);

    /// A successful creation: the asset was unknown and is now known; every balance and
    /// issuance stays.
    proof fn lemma_create_ok(
        &self,
        asset: AssetId,
        admin: AccountId,
        is_sufficient: bool,
        min_balance: AssetBalance,
    )
        ensures
            ({
                let (r, after) = self.create_outcome(asset, admin, is_sufficient, min_balance);
                r is Ok ==> {
                    &&& !self.asset_is_known(asset)
                    &&& forall|a: AssetId| #[trigger]
                        after.asset_is_known(a) == (self.asset_is_known(a) || a == asset)
                    &&& forall|a: AssetId, w: AccountId| #[trigger]
                        after.balance_of(a, w) == self.balance_of(a, w)
                    &&& forall|a: AssetId| #[trigger] after.issuance_of(a) == self.issuance_of(a)
                }
            }),
    ;

    /// A successful mint: it returns `amount`, credits it to `who` and adds it to the
    /// asset's issuance; the known assets stay.
    proof fn lemma_mint_ok(&self, asset: AssetId, who: AccountId, amount: AssetBalance)
        ensures
            ({
                let (r, after) = self.mint_outcome(asset, who, amount);
                r is Ok ==> {
                    &&& r->Ok_0 == amount
                    &&& forall|a: AssetId, w: AccountId| #[trigger]
                        after.balance_of(a, w) == after_mint(
                            |a0: AssetId, w0: AccountId| self.balance_of(a0, w0) as int,
                            asset,
                            who,
                            amount,
                        )(a, w)
                    &&& forall|a: AssetId| #[trigger] after.asset_is_known(a) == self.asset_is_known(a)
                    &&& forall|a: AssetId| #[trigger]
                        after.issuance_of(a) == self.issuance_of(a) + if a == asset {
                            amount as int
                        } else {
                            0int
                        }
                }
            }),
    ;

    /// A successful transfer: it returns `amount` and moves exactly it from `source` to
    /// `dest`, in a known asset when it is positive; the known assets and every issuance
    /// stay.
    proof fn lemma_transfer_ok(
        &self,
        asset: AssetId,
        source: AccountId,
        dest: AccountId,
        amount: AssetBalance,
    )
        ensures
            ({
                let (r, after) = self.transfer_outcome(asset, source, dest, amount);
                r is Ok ==> {
                    &&& r->Ok_0 == amount
                    &&& amount > 0 ==> self.asset_is_known(asset)
                    &&& forall|a: AssetId, w: AccountId| #[trigger]
                        after.balance_of(a, w) == after_transfer(
                            |a0: AssetId, w0: AccountId| self.balance_of(a0, w0) as int,
                            asset,
                            source,
                            dest,
                            amount,
                        )(a, w)
                    &&& forall|a: AssetId| #[trigger] after.asset_is_known(a) == self.asset_is_known(a)
                    &&& forall|a: AssetId| #[trigger] after.issuance_of(a) == self.issuance_of(a)
                }
            }),
    ;

    /// The balance of `who` in `asset`.
    fn balance(&self, asset: AssetId, who: AccountId) -> (r: AssetBalance)
        ensures
            r == self.balance_of(asset, who),
    ;

    /// Whether `asset` exists.
    fn asset_exists(&self, asset: AssetId) -> (r: bool)
        ensures
            r == self.asset_is_known(asset),
    ;

    /// The total issuance of `asset`.
    fn total_issuance(&self, asset: AssetId) -> (r: AssetBalance)
        ensures
            r == self.issuance_of(asset),
    ;

    /// A copy of the ledger, with the same balances and assets, to work on in a layer
    /// that is kept only when the work succeeds.
    fn snapshot(&self) -> (r: Self)
        ensures
            r == *self,
            forall|a: AssetId, w: AccountId| #[trigger] r.balance_of(a, w) == self.balance_of(a, w),
            forall|a: AssetId| #[trigger] r.asset_is_known(a) == self.asset_is_known(a),
    ;

    /// Creates `asset`; on success it is known and no balance changed.
    fn create(
        &mut self,
        asset: AssetId,
        admin: AccountId,
        is_sufficient: bool,
        min_balance: AssetBalance,
    ) -> (r: Result<(), DispatchError>)
        ensures
            (r, *final(self)) == old(self).create_outcome(asset, admin, is_sufficient, min_balance),
            r is Ok ==> forall|a: AssetId| #[trigger]
                final(self).issuance_of(a) == old(self).issuance_of(a),
            r is Ok ==> forall|a: AssetId| #[trigger]
                final(self).asset_is_known(a) == (old(self).asset_is_known(a) || a == asset),
            r is Ok ==> forall|a: AssetId, w: AccountId| #[trigger]
                final(self).balance_of(a, w) == old(self).balance_of(a, w),
    ;

    /// Mints `amount` of `asset` into `who`; on success it returns `amount`, and the
    /// asset's total issuance grows by it.
    fn mint_into(&mut self, asset: AssetId, who: AccountId, amount: AssetBalance) -> (r: Result<
        AssetBalance,
        DispatchError,
    >)
        ensures
            (r, *final(self)) == old(self).mint_outcome(asset, who, amount),
            r is Ok ==> forall|a: AssetId| #[trigger]
                final(self).issuance_of(a) == old(self).issuance_of(a) + if a == asset {
                    amount as int
                } else {
                    0int
                },
            r is Ok ==> r->Ok_0 == amount,
            r is Ok ==> forall|a: AssetId, w: AccountId| #[trigger]
                final(self).balance_of(a, w) == after_mint(
                    |a0: AssetId, w0: AccountId| old(self).balance_of(a0, w0) as int,
                    asset,
                    who,
                    amount,
                )(a, w),
            r is Ok ==> forall|a: AssetId| #[trigger]
                final(self).asset_is_known(a) == old(self).asset_is_known(a),
    ;

    /// Moves `amount` of `asset` from `source` to `dest` (the source may be emptied);
    /// on success it returns `amount`, and a positive amount moves only in a known asset.
    fn transfer(
        &mut self,
        asset: AssetId,
        source: AccountId,
        dest: AccountId,
        amount: AssetBalance,
    ) -> (r: Result<AssetBalance, DispatchError>)
        ensures
            (r, *final(self)) == old(self).transfer_outcome(asset, source, dest, amount),
            r is Ok && amount > 0 ==> old(self).asset_is_known(asset),
            r is Ok ==> forall|a: AssetId| #[trigger]
                final(self).issuance_of(a) == old(self).issuance_of(a),
            r is Ok ==> r->Ok_0 == amount,
            r is Ok ==> forall|a: AssetId, w: AccountId| #[trigger]
                final(self).balance_of(a, w) == after_transfer(
                    |a0: AssetId, w0: AccountId| old(self).balance_of(a0, w0) as int,
                    asset,
                    source,
                    dest,
                    amount,
                )(a, w),
            r is Ok ==> forall|a: AssetId| #[trigger]
                final(self).asset_is_known(a) == old(self).asset_is_known(a),
    ;
}

/// A transfer's postcondition, as an equation on the balance functions.
pub proof fn lemma_balances_after_transfer<F: Fungibles>(
    pre: F,
    post: F,
    asset: AssetId,
    source: AccountId,
    dest: AccountId,
    amount: AssetBalance,
)
    requires
        forall|a: AssetId, w: AccountId| #[trigger]
            post.balance_of(a, w) == after_transfer(
                |a0: AssetId, w0: AccountId| pre.balance_of(a0, w0) as int,
                asset,
                source,
                dest,
                amount,
            )(a, w),
    ensures
        balances_of(post) == after_transfer(balances_of(pre), asset, source, dest, amount),
{
    assert(balances_of(post) =~= after_transfer(balances_of(pre), asset, source, dest, amount));
}

/// Two ledgers with the same balances and assets have the same views.
pub proof fn lemma_same_views<F: Fungibles>(a: F, b: F)
    requires
        forall|x: AssetId, w: AccountId| #[trigger] a.balance_of(x, w) == b.balance_of(x, w),
        forall|x: AssetId| #[trigger] a.asset_is_known(x) == b.asset_is_known(x),
    ensures
        balances_of(a) == balances_of(b),
        known_assets(a) == known_assets(b),
{
    assert(balances_of(a) =~= balances_of(b));
    assert(known_assets(a) =~= known_assets(b));
}

/// An operation that keeps every known asset keeps the set of known assets.
pub proof fn lemma_known_assets_kept<F: Fungibles>(pre: F, post: F)
    requires
        forall|a: AssetId| #[trigger] post.asset_is_known(a) == pre.asset_is_known(a),
    ensures
        known_assets(post) == known_assets(pre),
{
    assert(known_assets(post) =~= known_assets(pre));
}

/// The balances of a `MemoryAssets`, as entries `(asset, account, balance)`; the first
/// entry for a pair holds its balance, a pair without an entry has none.
enum BalanceList {
    Empty,
    Entry(AssetId, AccountId, AssetBalance, Box<BalanceList>),
}

impl BalanceList {
    /// The balance of `who` in `asset`.
    spec fn get(self, asset: AssetId, who: AccountId) -> AssetBalance
        decreases self,
    {
        match self {
            BalanceList::Empty => 0,
            BalanceList::Entry(a, w, v, rest) => if a == asset && w == who {
                v
            } else {
                rest.get(asset, who)
            },
        }
    }

    /// The list with the balance of `who` in `asset` set to `value`: the pair's entry
    /// updated in place, or a new entry at the end.
    spec fn set(self, asset: AssetId, who: AccountId, value: AssetBalance) -> BalanceList
        decreases self,
    {
        match self {
            BalanceList::Empty => BalanceList::Entry(asset, who, value, Box::new(BalanceList::Empty)),
            BalanceList::Entry(a, w, v, rest) => if a == asset && w == who {
                BalanceList::Entry(a, w, value, rest)
            } else {
                BalanceList::Entry(a, w, v, Box::new(rest.set(asset, who, value)))
            },
        }
    }

    /// Setting a balance changes that balance and no other.
    proof fn lemma_get_set(
        self,
        asset: AssetId,
        who: AccountId,
        value: AssetBalance,
        a: AssetId,
        w: AccountId,
    )
        ensures
            self.set(asset, who, value).get(a, w) == if a == asset && w == who {
                value
            } else {
                self.get(a, w)
            },
        decreases self,
    {
        match self {
            BalanceList::Empty => {},
            BalanceList::Entry(a0, w0, v0, rest) => {
                rest.lemma_get_set(asset, who, value, a, w);
            },
        }
    }

    /// The balance of `who` in `asset`.
    fn lookup(&self, asset: AssetId, who: AccountId) -> (r: AssetBalance)
        ensures
            r == self.get(asset, who),
        decreases self,
    {
        match self {
            BalanceList::Empty => 0,
            BalanceList::Entry(a, w, v, rest) => {
                if *a == asset && *w == who {
                    *v
                } else {
                    rest.lookup(asset, who)
                }
            },
        }
    }

    /// The list with the balance of `who` in `asset` set to `value`.
    fn update(self, asset: AssetId, who: AccountId, value: AssetBalance) -> (r: BalanceList)
        ensures
            r == self.set(asset, who, value),
        decreases self,
    {
        match self {
            BalanceList::Empty => BalanceList::Entry(asset, who, value, Box::new(BalanceList::Empty)),
            BalanceList::Entry(a, w, v, rest) => {
                if a == asset && w == who {
                    BalanceList::Entry(a, w, value, rest)
                } else {
                    let tail = (*rest).update(asset, who, value);
                    BalanceList::Entry(a, w, v, Box::new(tail))
                }
            },
        }
    }

    /// An equal copy of the list.
    fn duplicate(&self) -> (r: BalanceList)
        ensures
            r == *self,
        decreases self,
    {
        match self {
            BalanceList::Empty => BalanceList::Empty,
            BalanceList::Entry(a, w, v, rest) => {
                let tail = rest.duplicate();
                BalanceList::Entry(*a, *w, *v, Box::new(tail))
            },
        }
    }
}

/// The assets a `MemoryAssets` knows, newest first.
enum AssetList {
    Empty,
    Entry(AssetId, Box<AssetList>),
}

impl AssetList {
    /// Whether `asset` is in the list.
    spec fn contains(self, asset: AssetId) -> bool
        decreases self,
    {
        match self {
            AssetList::Empty => false,
            AssetList::Entry(a, rest) => a == asset || rest.contains(asset),
        }
    }

    /// Whether `asset` is in the list.
    fn has(&self, asset: AssetId) -> (r: bool)
        ensures
            r == self.contains(asset),
        decreases self,
    {
        match self {
            AssetList::Empty => false,
            AssetList::Entry(a, rest) => {
                if *a == asset {
                    true
                } else {
                    rest.has(asset)
                }
            },
        }
    }

    /// An equal copy of the list.
    fn duplicate(&self) -> (r: AssetList)
        ensures
            r == *self,
        decreases self,
    {
        match self {
            AssetList::Empty => AssetList::Empty,
            AssetList::Entry(a, rest) => {
                let tail = rest.duplicate();
                AssetList::Entry(*a, Box::new(tail))
            },
        }
    }
}

/// The total issuance of each asset of a `MemoryAssets`, as entries `(asset, supply)`;
/// the first entry for an asset holds its supply, an asset without an entry has none.
enum SupplyList {
    Empty,
    Entry(AssetId, AssetBalance, Box<SupplyList>),
}

impl SupplyList {
    spec fn get(self, asset: AssetId) -> AssetBalance
        decreases self,
    {
        match self {
            SupplyList::Empty => 0,
            SupplyList::Entry(a, v, rest) => if a == asset {
                v
            } else {
                rest.get(asset)
            },
        }
    }

    spec fn set(self, asset: AssetId, value: AssetBalance) -> SupplyList
        decreases self,
    {
        match self {
            SupplyList::Empty => SupplyList::Entry(asset, value, Box::new(SupplyList::Empty)),
            SupplyList::Entry(a, v, rest) => if a == asset {
                SupplyList::Entry(a, value, rest)
            } else {
                SupplyList::Entry(a, v, Box::new(rest.set(asset, value)))
            },
        }
    }

    /// Setting a supply changes that supply and no other.
    proof fn lemma_get_set(self, asset: AssetId, value: AssetBalance, a: AssetId)
        ensures
            self.set(asset, value).get(a) == if a == asset {
                value
            } else {
                self.get(a)
            },
        decreases self,
    {
        match self {
            SupplyList::Empty => {},
            SupplyList::Entry(a0, v0, rest) => {
                rest.lemma_get_set(asset, value, a);
            },
        }
    }

    fn lookup(&self, asset: AssetId) -> (r: AssetBalance)
        ensures
            r == self.get(asset),
        decreases self,
    {
        match self {
            SupplyList::Empty => 0,
            SupplyList::Entry(a, v, rest) => {
                if *a == asset {
                    *v
                } else {
                    rest.lookup(asset)
                }
            },
        }
    }

    fn update(self, asset: AssetId, value: AssetBalance) -> (r: SupplyList)
        ensures
            r == self.set(asset, value),
        decreases self,
    {
        match self {
            SupplyList::Empty => SupplyList::Entry(asset, value, Box::new(SupplyList::Empty)),
            SupplyList::Entry(a, v, rest) => {
                if a == asset {
                    SupplyList::Entry(a, value, rest)
                } else {
                    let tail = (*rest).update(asset, value);
                    SupplyList::Entry(a, v, Box::new(tail))
                }
            },
        }
    }

    fn duplicate(&self) -> (r: SupplyList)
        ensures
            r == *self,
        decreases self,
    {
        match self {
            SupplyList::Empty => SupplyList::Empty,
            SupplyList::Entry(a, v, rest) => {
                let tail = rest.duplicate();
                SupplyList::Entry(*a, *v, Box::new(tail))
            },
        }
    }
}

/// An in-memory asset ledger: the known assets, the balance of each account and the
/// total issuance of each asset.
pub struct MemoryAssets {
    balances: BalanceList,
    assets: AssetList,
    issuance: SupplyList,
}

impl MemoryAssets {
    /// A ledger without assets.
    pub fn new() -> (r: Self)
        ensures
            forall|a: AssetId, w: AccountId| r.balance_of(a, w) == 0,
            forall|a: AssetId| !r.asset_is_known(a),
            forall|a: AssetId| r.issuance_of(a) == 0,
    {
        MemoryAssets {
            balances: BalanceList::Empty,
            assets: AssetList::Empty,
            issuance: SupplyList::Empty,
        }
    }

    /// The ledger with the balance of `who` in `asset` set to `value`.
    closed spec fn with_balance(self, asset: AssetId, who: AccountId, value: AssetBalance) -> Self {
        MemoryAssets {
            balances: self.balances.set(asset, who, value),
            assets: self.assets,
            issuance: self.issuance,
        }
    }

    /// What `create` returns on this ledger: `AlreadyExists` for a known asset, else
    /// success, after which the asset is known; no balance changes.
    pub proof fn lemma_create_outcome(
        self,
        asset: AssetId,
        admin: AccountId,
        is_sufficient: bool,
        min_balance: AssetBalance,
    )
        ensures
            ({
                let (r, after) = self.create_outcome(asset, admin, is_sufficient, min_balance);
                &&& r == if self.asset_is_known(asset) {
                    Err(DispatchError::Token(TokenError::AlreadyExists))
                } else {
                    Ok(())
                }
                &&& known_assets(after) == known_assets(self).insert(asset)
                &&& balances_of(after) == balances_of(self)
                &&& forall|a: AssetId| #[trigger] after.issuance_of(a) == self.issuance_of(a)
            }),
    {
        let after = self.create_outcome(asset, admin, is_sufficient, min_balance).1;
        assert(known_assets(after) =~= known_assets(self).insert(asset));
        assert(balances_of(after) =~= balances_of(self));
    }

    /// What `mint_into` returns on this ledger: `UnknownAsset` for an unknown asset,
    /// `Overflow` when the balance or the total issuance would overflow, else `amount`,
    /// minted into `who`; the known assets stay.
    pub proof fn lemma_mint_outcome(self, asset: AssetId, who: AccountId, amount: AssetBalance)
        ensures
            ({
                let (r, after) = self.mint_outcome(asset, who, amount);
                &&& r == if !self.asset_is_known(asset) {
                    Err(DispatchError::Token(TokenError::UnknownAsset))
                } else if self.balance_of(asset, who) + amount > u128::MAX || self.issuance_of(
                    asset,
                ) + amount > u128::MAX {
                    Err(DispatchError::Token(TokenError::Overflow))
                } else {
                    Ok(amount)
                }
                &&& known_assets(after) == known_assets(self)
                &&& balances_of(after) == if r is Ok {
                    after_mint(balances_of(self), asset, who, amount)
                } else {
                    balances_of(self)
                }
                &&& forall|a: AssetId| #[trigger]
                    after.issuance_of(a) == self.issuance_of(a) + if r is Ok && a == asset {
                        amount as int
                    } else {
                        0int
                    }
            }),
    {
        let (r, after) = self.mint_outcome(asset, who, amount);
        assert(known_assets(after) =~= known_assets(self));
        if r is Ok {
            assert forall|a: AssetId| #[trigger]
                after.issuance_of(a) == self.issuance_of(a) + if a == asset {
                    amount as int
                } else {
                    0int
                } by {
                self.issuance.lemma_get_set(asset, (self.issuance.get(asset) + amount) as u128, a);
            }
        }
        if r is Ok {
            assert forall|a: AssetId, w: AccountId|
                #[trigger] balances_of(after)(a, w) == after_mint(balances_of(self), asset, who, amount)(
                    a,
                    w,
                ) by {
                self.balances.lemma_get_set(
                    asset,
                    who,
                    (self.balances.get(asset, who) + amount) as u128,
                    a,
                    w,
                );
            }
            assert(balances_of(after) =~= after_mint(balances_of(self), asset, who, amount));
        } else {
            assert(balances_of(after) =~= balances_of(self));
        }
    }

    /// What `transfer` returns on this ledger: `UnknownAsset` for an unknown asset,
    /// `FundsUnavailable` when `source` holds less than `amount`, `Overflow` when the
    /// balance of a distinct `dest` would overflow, else `amount`, moved from `source` to
    /// `dest`; the known assets stay.
    pub proof fn lemma_transfer_outcome(
        self,
        asset: AssetId,
        source: AccountId,
        dest: AccountId,
        amount: AssetBalance,
    )
        ensures
            ({
                let (r, after) = self.transfer_outcome(asset, source, dest, amount);
                &&& r == if !self.asset_is_known(asset) {
                    Err(DispatchError::Token(TokenError::UnknownAsset))
                } else if self.balance_of(asset, source) < amount {
                    Err(DispatchError::Token(TokenError::FundsUnavailable))
                } else if source != dest && self.balance_of(asset, dest) + amount > u128::MAX {
                    Err(DispatchError::Token(TokenError::Overflow))
                } else {
                    Ok(amount)
                }
                &&& known_assets(after) == known_assets(self)
                &&& balances_of(after) == if r is Ok {
                    after_transfer(balances_of(self), asset, source, dest, amount)
                } else {
                    balances_of(self)
                }
                &&& forall|a: AssetId| #[trigger] after.issuance_of(a) == self.issuance_of(a)
            }),
    {
        let (r, after) = self.transfer_outcome(asset, source, dest, amount);
        assert(known_assets(after) =~= known_assets(self));
        if r is Ok && source != dest {
            let from = self.balances.get(asset, source);
            let to = self.balances.get(asset, dest);
            let mid = self.with_balance(asset, source, (from - amount) as u128);
            assert forall|a: AssetId, w: AccountId|
                #[trigger] balances_of(after)(a, w) == after_transfer(
                    balances_of(self),
                    asset,
                    source,
                    dest,
                    amount,
                )(a, w) by {
                self.balances.lemma_get_set(asset, source, (from - amount) as u128, a, w);
                mid.balances.lemma_get_set(asset, dest, (to + amount) as u128, a, w);
                self.balances.lemma_get_set(asset, source, (from - amount) as u128, asset, dest);
            }
            assert(balances_of(after) =~= after_transfer(
                balances_of(self),
                asset,
                source,
                dest,
                amount,
            ));
        } else {
            assert(balances_of(after) =~= balances_of(self));
            if r is Ok {
                assert(balances_of(self) =~= after_transfer(
                    balances_of(self),
                    asset,
                    source,
                    dest,
                    amount,
                ));
            }
        }
    }

    /// The ledger with the total issuance of `asset` set to `value`.
    closed spec fn with_supply(self, asset: AssetId, value: AssetBalance) -> Self {
        MemoryAssets {
            balances: self.balances,
            assets: self.assets,
            issuance: self.issuance.set(asset, value),
        }
    }

    fn set_supply(&mut self, asset: AssetId, value: AssetBalance)
        ensures
            *final(self) == old(self).with_supply(asset, value),
            forall|a: AssetId, w: AccountId| #[trigger]
                final(self).balance_of(a, w) == old(self).balance_of(a, w),
            forall|a: AssetId| #[trigger] final(self).asset_is_known(a) == old(self).asset_is_known(a),
    {
        let mut list = SupplyList::Empty;
        std::mem::swap(&mut list, &mut self.issuance);
        self.issuance = list.update(asset, value);
    }

    fn set_balance(&mut self, asset: AssetId, who: AccountId, value: AssetBalance)
        ensures
            *final(self) == old(self).with_balance(asset, who, value),
            forall|a: AssetId, w: AccountId| #[trigger]
                final(self).balance_of(a, w) == if a == asset && w == who {
                    value
                } else {
                    old(self).balance_of(a, w)
                },
            forall|a: AssetId| #[trigger] final(self).asset_is_known(a) == old(self).asset_is_known(a),
    {
        let mut list = BalanceList::Empty;
        std::mem::swap(&mut list, &mut self.balances);
        self.balances = list.update(asset, who, value);
        proof {
            assert forall|a: AssetId, w: AccountId| #[trigger]
                self.balance_of(a, w) == if a == asset && w == who {
                    value
                } else {
                    old(self).balance_of(a, w)
                } by {
                old(self).balances.lemma_get_set(asset, who, value, a, w);
            }
        }
    }
}

impl Fungibles for MemoryAssets {
    closed spec fn balance_of(&self, asset: AssetId, who: AccountId) -> AssetBalance {
        self.balances.get(asset, who)
    }

    closed spec fn asset_is_known(&self, asset: AssetId) -> bool {
        self.assets.contains(asset)
    }

    closed spec fn issuance_of(&self, asset: AssetId) -> AssetBalance {
        self.issuance.get(asset)
    }

    closed spec fn create_outcome(
        &self,
        asset: AssetId,
        admin: AccountId,
        is_sufficient: bool,
        min_balance: AssetBalance,
    ) -> (Result<(), DispatchError>, Self) {
        if self.assets.contains(asset) {
            (Err(DispatchError::Token(TokenError::AlreadyExists)), *self)
        } else {
            (
                Ok(()),
                MemoryAssets {
                    balances: self.balances,
                    assets: AssetList::Entry(asset, Box::new(self.assets)),
                    issuance: self.issuance,
                },
            )
        }
    }

    closed spec fn mint_outcome(&self, asset: AssetId, who: AccountId, amount: AssetBalance) -> (
        Result<AssetBalance, DispatchError>,
        Self,
    ) {
        let current = self.balances.get(asset, who);
        let supply = self.issuance.get(asset);
        if !self.assets.contains(asset) {
            (Err(DispatchError::Token(TokenError::UnknownAsset)), *self)
        } else if current + amount > u128::MAX || supply + amount > u128::MAX {
            (Err(DispatchError::Token(TokenError::Overflow)), *self)
        } else {
            (
                Ok(amount),
                self.with_balance(asset, who, (current + amount) as u128).with_supply(
                    asset,
                    (supply + amount) as u128,
                ),
            )
        }
    }

    closed spec fn transfer_outcome(
        &self,
        asset: AssetId,
        source: AccountId,
        dest: AccountId,
        amount: AssetBalance,
    ) -> (Result<AssetBalance, DispatchError>, Self) {
        let from = self.balances.get(asset, source);
        let to = self.balances.get(asset, dest);
        if !self.assets.contains(asset) {
            (Err(DispatchError::Token(TokenError::UnknownAsset)), *self)
        } else if from < amount {
            (Err(DispatchError::Token(TokenError::FundsUnavailable)), *self)
        } else if source == dest {
            (Ok(amount), *self)
        } else if to + amount > u128::MAX {
            (Err(DispatchError::Token(TokenError::Overflow)), *self)
        } else {
            (
                Ok(amount),
                self.with_balance(asset, source, (from - amount) as u128).with_balance(
                    asset,
                    dest,
                    (to + amount) as u128,
                ),
            )
        }
    }

    proof fn lemma_create_ok(
        &self,
        asset: AssetId,
        admin: AccountId,
        is_sufficient: bool,
        min_balance: AssetBalance,
    ) {
    }

    proof fn lemma_mint_ok(&self, asset: AssetId, who: AccountId, amount: AssetBalance) {
        let (r, after) = self.mint_outcome(asset, who, amount);
        if r is Ok {
            let current = self.balances.get(asset, who);
            let supply = self.issuance.get(asset);
            assert forall|a: AssetId, w: AccountId| #[trigger]
                after.balance_of(a, w) == after_mint(
                    |a0: AssetId, w0: AccountId| self.balance_of(a0, w0) as int,
                    asset,
                    who,
                    amount,
                )(a, w) by {
                self.balances.lemma_get_set(asset, who, (current + amount) as u128, a, w);
            }
            assert forall|a: AssetId| #[trigger]
                after.issuance_of(a) == self.issuance_of(a) + if a == asset {
                    amount as int
                } else {
                    0int
                } by {
                self.issuance.lemma_get_set(asset, (supply + amount) as u128, a);
            }
        }
    }

    proof fn lemma_transfer_ok(
        &self,
        asset: AssetId,
        source: AccountId,
        dest: AccountId,
        amount: AssetBalance,
    ) {
        let (r, after) = self.transfer_outcome(asset, source, dest, amount);
        if r is Ok && source != dest {
            let from = self.balances.get(asset, source);
            let to = self.balances.get(asset, dest);
            let mid = self.with_balance(asset, source, (from - amount) as u128);
            assert forall|a: AssetId, w: AccountId| #[trigger]
                after.balance_of(a, w) == after_transfer(
                    |a0: AssetId, w0: AccountId| self.balance_of(a0, w0) as int,
                    asset,
                    source,
                    dest,
                    amount,
                )(a, w) by {
                self.balances.lemma_get_set(asset, source, (from - amount) as u128, a, w);
                mid.balances.lemma_get_set(asset, dest, (to + amount) as u128, a, w);
                self.balances.lemma_get_set(asset, source, (from - amount) as u128, asset, dest);
            }
        }
    }

    fn balance(&self, asset: AssetId, who: AccountId) -> (r: AssetBalance) {
        self.balances.lookup(asset, who)
    }

    fn asset_exists(&self, asset: AssetId) -> (r: bool) {
        self.assets.has(asset)
    }

    fn total_issuance(&self, asset: AssetId) -> (r: AssetBalance) {
        self.issuance.lookup(asset)
    }

    fn snapshot(&self) -> (r: Self) {
        MemoryAssets {
            balances: self.balances.duplicate(),
            assets: self.assets.duplicate(),
            issuance: self.issuance.duplicate(),
        }
    }

    fn create(
        &mut self,
        asset: AssetId,
        admin: AccountId,
        is_sufficient: bool,
        min_balance: AssetBalance,
    ) -> (r: Result<(), DispatchError>)
        ensures
            r is Ok <==> !old(self).asset_is_known(asset),
            r is Err ==> r == Err::<(), DispatchError>(DispatchError::Token(TokenError::AlreadyExists)),
            r is Err ==> *final(self) == *old(self),
    {
        if self.assets.has(asset) {
            return Err(DispatchError::Token(TokenError::AlreadyExists));
        }
        let mut list = AssetList::Empty;
        std::mem::swap(&mut list, &mut self.assets);
        self.assets = AssetList::Entry(asset, Box::new(list));
        Ok(())
    }

    fn mint_into(&mut self, asset: AssetId, who: AccountId, amount: AssetBalance) -> (r: Result<
        AssetBalance,
        DispatchError,
    >)
        ensures
            r is Ok <==> old(self).asset_is_known(asset) && old(self).balance_of(asset, who) + amount
                <= u128::MAX && old(self).issuance_of(asset) + amount <= u128::MAX,
            !old(self).asset_is_known(asset) ==> r == Err::<AssetBalance, DispatchError>(
                DispatchError::Token(TokenError::UnknownAsset),
            ),
            old(self).asset_is_known(asset) && r is Err ==> r == Err::<AssetBalance, DispatchError>(
                DispatchError::Token(TokenError::Overflow),
            ),
            r is Err ==> *final(self) == *old(self),
    {
        if !self.assets.has(asset) {
            return Err(DispatchError::Token(TokenError::UnknownAsset));
        }
        let current = self.balances.lookup(asset, who);
        let supply = self.issuance.lookup(asset);
        if current > u128::MAX - amount || supply > u128::MAX - amount {
            return Err(DispatchError::Token(TokenError::Overflow));
        }
        self.set_balance(asset, who, current + amount);
        self.set_supply(asset, supply + amount);
        proof {
            assert forall|a: AssetId| #[trigger]
                self.issuance_of(a) == old(self).issuance_of(a) + if a == asset {
                    amount as int
                } else {
                    0int
                } by {
                old(self).issuance.lemma_get_set(asset, (supply + amount) as u128, a);
            }
        }
        Ok(amount)
    }

    fn transfer(
        &mut self,
        asset: AssetId,
        source: AccountId,
        dest: AccountId,
        amount: AssetBalance,
    ) -> (r: Result<AssetBalance, DispatchError>)
        ensures
            r is Ok <==> old(self).asset_is_known(asset) && old(self).balance_of(asset, source)
                >= amount && (source == dest || old(self).balance_of(asset, dest) + amount
                <= u128::MAX),
            !old(self).asset_is_known(asset) ==> r == Err::<AssetBalance, DispatchError>(
                DispatchError::Token(TokenError::UnknownAsset),
            ),
            old(self).asset_is_known(asset) && old(self).balance_of(asset, source) < amount ==> r
                == Err::<AssetBalance, DispatchError>(
                DispatchError::Token(TokenError::FundsUnavailable),
            ),
            old(self).asset_is_known(asset) && old(self).balance_of(asset, source) >= amount
                && r is Err ==> r == Err::<AssetBalance, DispatchError>(
                DispatchError::Token(TokenError::Overflow),
            ),
            r is Err ==> *final(self) == *old(self),
    {
        if !self.assets.has(asset) {
            return Err(DispatchError::Token(TokenError::UnknownAsset));
        }
        let from_balance = self.balances.lookup(asset, source);
        if from_balance < amount {
            return Err(DispatchError::Token(TokenError::FundsUnavailable));
        }
        if source == dest {
            return Ok(amount);
        }
        let to_balance = self.balances.lookup(asset, dest);
        if to_balance > u128::MAX - amount {
            return Err(DispatchError::Token(TokenError::Overflow));
        }
        self.set_balance(asset, source, from_balance - amount);
        self.set_balance(asset, dest, to_balance + amount);
        Ok(amount)
    }
}

} // verus!
