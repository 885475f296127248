//! The bounded list of an account's liquidity positions in one pool, kept in a
//! `bounded_collections::BoundedVec` with room for 100 entries.
use crate::types::AccountLiquidityPool;
use bounded_collections::{BoundedVec, ConstU32};
use vstd::prelude::*;

verus! {

/// `bounded_collections::BoundedVec`, a vector with at most `S` elements; opaque here,
/// its contents are `account_pools_entries`.
#[verifier::external_type_specification]
#[verifier::external_body]
#[verifier::reject_recursive_types(T)]
#[verifier::reject_recursive_types(S)]
pub struct ExBoundedVec<T, S>(BoundedVec<T, S>);

/// `bounded_collections::ConstU32`, the bound of a `BoundedVec` as a type.
#[verifier::external_type_specification]
#[verifier::external_body]
pub struct ExConstU32<const T: u32>(ConstU32<T>);

/// The most positions one account keeps for one asset pair.
pub const MAX_ACCOUNT_POOLS: usize = 100;

/// An account's liquidity positions for one asset pair.
pub type AccountLiquidityPools = BoundedVec<AccountLiquidityPool, ConstU32<100>>;

/// The positions held in a bounded list, in order.
pub uninterp spec fn account_pools_entries(
    v: BoundedVec<AccountLiquidityPool, ConstU32<100>>,
) -> Seq<AccountLiquidityPool>;

/// An empty list.
/// Outside code: `BoundedVec::default`, which holds no element.
#[verifier::external_body]
pub(crate) fn account_pools_new() -> (r: AccountLiquidityPools)
    ensures
        account_pools_entries(r) == Seq::<AccountLiquidityPool>::empty(),
{
    BoundedVec::default()
}

/// The number of positions in the list.
/// Outside code: `len` of the vector that `BoundedVec` dereferences to.
#[verifier::external_body]
pub(crate) fn account_pools_len(v: &AccountLiquidityPools) -> (r: usize)
    ensures
        r == account_pools_entries(*v).len(),
{
    v.len()
}

/// The position at index `i`.
/// Outside code: `BoundedVec`'s indexing, which reads the inner vector.
#[verifier::external_body]
pub(crate) fn account_pools_index(v: &AccountLiquidityPools, i: usize) -> (r: AccountLiquidityPool)
    requires
        i < account_pools_entries(*v).len(),
    ensures
        r == account_pools_entries(*v)[i as int],
{
    v[i]
}

/// The last position of the list, if any.
/// Outside code: `last` of the vector that `BoundedVec` dereferences to.
#[verifier::external_body]
pub(crate) fn account_pools_last(v: &AccountLiquidityPools) -> (r: Option<AccountLiquidityPool>)
    ensures
        r == (if account_pools_entries(*v).len() == 0 {
            None
        } else {
            Some(account_pools_entries(*v).last())
        }),
{
    v.last().copied()
}

/// A copy of the list.
/// Outside code: `BoundedVec::clone`, which clones the inner vector.
#[verifier::external_body]
pub(crate) fn account_pools_clone(v: &AccountLiquidityPools) -> (r: AccountLiquidityPools)
    ensures
        account_pools_entries(r) == account_pools_entries(*v),
{
    v.clone()
}

/// Appends `e` when the list holds fewer than 100 positions; otherwise the list is
/// unchanged and `e` comes back as the error.
/// Outside code: `BoundedVec::try_push`, whose bound is `ConstU32<100>`.
#[verifier::external_body]
pub(crate) fn account_pools_try_push(
    v: &mut AccountLiquidityPools,
    e: AccountLiquidityPool,
) -> (r: Result<(), AccountLiquidityPool>)
    ensures
        r is Ok <==> account_pools_entries(*old(v)).len() < MAX_ACCOUNT_POOLS,
        r is Err ==> r->Err_0 == e,
        r is Ok ==> account_pools_entries(*final(v)) == account_pools_entries(*old(v)).push(e),
        r is Err ==> account_pools_entries(*final(v)) == account_pools_entries(*old(v)),
{
    v.try_push(e)
}

} // verus!
