//! The market maker's entry points, one per instruction.
use crate::admin::{
    self, create_pool_outcome, init_admin_outcome, set_admin_outcome, AdminSet, InitAdmin,
    PoolCreation,
};
use crate::engine::{Deposited, Withdrawn};
use crate::error::CustomError;
use crate::liquidity::{
    self, deposit_outcome, withdraw_outcome, DepositLiquidity, WithdrawLiquidity,
};
use crate::state::Pubkey;
use crate::swap::{self, swap_outcome, SwapExactInput};
use vstd::prelude::*;

verus! {

/// Creates the admin record; see [`crate::admin::init_admin`].
pub fn init_admin(ctx: &mut InitAdmin, new_admin: Pubkey) -> (r: Result<(), CustomError>)
    ensures
        (*final(ctx), r) == init_admin_outcome(*old(ctx), new_admin),
{
    admin::init_admin(ctx, new_admin)
}

/// Hands the admin role on; see [`crate::admin::set_admin`].
pub fn set_admin(ctx: &mut AdminSet, new_admin: Pubkey) -> (r: Result<(), CustomError>)
    ensures
        (*final(ctx), r) == set_admin_outcome(*old(ctx), new_admin),
{
    admin::set_admin(ctx, new_admin)
}

/// Creates an empty pool for an ordered pair; see [`crate::admin::create_pool`].
pub fn create_pool(ctx: &mut PoolCreation) -> (r: Result<(), CustomError>)
    ensures
        (*final(ctx), r) == create_pool_outcome(*old(ctx)),
{
    admin::create_pool(ctx)
}

/// Deposits into a pool; see [`crate::liquidity::deposit`].
pub fn deposit(ctx: &mut DepositLiquidity, amount_a: u64, amount_b: u64) -> (r: Result<
    Deposited,
    CustomError,
>)
    ensures
        (*final(ctx), r) == deposit_outcome(*old(ctx), amount_a, amount_b),
{
    liquidity::deposit(ctx, amount_a, amount_b)
}

/// Redeems claim tokens; see [`crate::liquidity::withdraw_liquidity`].
pub fn withdraw(ctx: &mut WithdrawLiquidity, amount: u64) -> (r: Result<Withdrawn, CustomError>)
    ensures
        (*final(ctx), r) == withdraw_outcome(*old(ctx), amount),
{
    liquidity::withdraw_liquidity(ctx, amount)
}

/// Swaps an exact input; see [`crate::swap::swapExactInput`].
#[allow(non_snake_case)]
pub fn swapExactInput(ctx: &mut SwapExactInput, amount: u64) -> (r: Result<u64, CustomError>)
    ensures
        (*final(ctx), r) == swap_outcome(*old(ctx), amount),
{
    swap::swapExactInput(ctx, amount)
}

} // verus!
