use crate::curve::{claim_for_deposit, deposit_amounts, lemma_share_within_vault, withdraw_share};
use crate::engine::{deposit_step, withdraw_step, Deposited, Reserves, Withdrawn};
use crate::error::CustomError;
use crate::state::Pool;
use vstd::prelude::*;

verus! {

/// What a deposit reads and writes: the precision of the two assets, the
/// balances of the pool's two vaults, and the pool record.
#[derive(Debug, Clone, Copy)]
pub struct DepositLiquidity {
    pub token0_decimals: u8,
    pub token1_decimals: u8,
    pub token0_vault: u64,
    pub token1_vault: u64,
    pub pool: Pool,
}

impl DepositLiquidity {
    pub open spec fn reserves(&self) -> Reserves {
        Reserves {
            supply: self.pool.liquidity as int,
            vault0: self.token0_vault as int,
            vault1: self.token1_vault as int,
        }
    }
}

/// What a withdrawal reads and writes: the balances of the pool's two vaults
/// and the pool record, whose `liquidity` is the outstanding claim supply.
#[derive(Debug, Clone, Copy)]
pub struct WithdrawLiquidity {
    pub token0_vault: u64,
    pub token1_vault: u64,
    pub pool: Pool,
}

impl WithdrawLiquidity {
    pub open spec fn reserves(&self) -> Reserves {
        Reserves {
            supply: self.pool.liquidity as int,
            vault0: self.token0_vault as int,
            vault1: self.token1_vault as int,
        }
    }
}

/// The context after a deposit of `(amount_a, amount_b)` and its result: on
/// success the vaults and the claim supply take their values from
/// [`deposit_step`], on failure the context is as it was.
pub open spec fn deposit_outcome(ctx: DepositLiquidity, amount_a: u64, amount_b: u64) -> (
    DepositLiquidity,
    Result<Deposited, CustomError>,
) {
    match deposit_step(
        ctx.reserves(),
        ctx.token0_decimals == ctx.token1_decimals,
        amount_a as int,
        amount_b as int,
    ) {
        Ok((next, done)) => (
            DepositLiquidity {
                token0_vault: next.vault0 as u64,
                token1_vault: next.vault1 as u64,
                pool: Pool { liquidity: next.supply as u64, ..ctx.pool },
                ..ctx
            },
            Ok(done),
        ),
        Err(e) => (ctx, Err(e)),
    }
}

/// The context after a withdrawal of `amount` claims and its result: on
/// success the vaults and the claim supply take their values from
/// [`withdraw_step`], on failure the context is as it was.
pub open spec fn withdraw_outcome(ctx: WithdrawLiquidity, amount: u64) -> (
    WithdrawLiquidity,
    Result<Withdrawn, CustomError>,
) {
    match withdraw_step(ctx.reserves(), amount as int) {
        Ok((next, done)) => (
            WithdrawLiquidity {
                token0_vault: next.vault0 as u64,
                token1_vault: next.vault1 as u64,
                pool: Pool { liquidity: next.supply as u64, ..ctx.pool },
            },
            Ok(done),
        ),
        Err(e) => (ctx, Err(e)),
    }
}

/// Deposits up to `(amount_a, amount_b)` into the pool and mints claim
/// tokens for what was taken. On success the vaults grow by the returned
/// amounts and the claim supply by the returned liquidity; on failure nothing
/// changes.
pub fn deposit(ctx: &mut DepositLiquidity, amount_a: u64, amount_b: u64) -> (r: Result<
    Deposited,
    CustomError,
>)
    ensures
        (*final(ctx), r) == deposit_outcome(*old(ctx), amount_a, amount_b),
{
    if ctx.token0_decimals != ctx.token1_decimals {
        return Err(CustomError::DecimalsNotEqual);
    }
    if amount_a == 0 || amount_b == 0 {
        return Err(CustomError::ZeroAmount);
    }
    let (amount0, amount1) = deposit_amounts(
        ctx.token0_vault,
        ctx.token1_vault,
        amount_a,
        amount_b,
    )?;
    let liquidity = claim_for_deposit(amount0, amount1)?;
    let vault0 = match ctx.token0_vault.checked_add(amount0) {
        Some(v) => v,
        None => return Err(CustomError::MathOverflow),
    };
    let vault1 = match ctx.token1_vault.checked_add(amount1) {
        Some(v) => v,
        None => return Err(CustomError::MathOverflow),
    };
    let supply = match ctx.pool.liquidity.checked_add(liquidity) {
        Some(v) => v,
        None => return Err(CustomError::MathOverflow),
    };
    ctx.token0_vault = vault0;
    ctx.token1_vault = vault1;
    ctx.pool.liquidity = supply;
    Ok(Deposited { amount0, amount1, liquidity })
}

/// Redeems `amount` claim tokens for the pro-rata share of each vault,
/// rounded down. On success the vaults shrink by the returned amounts and the
/// claim supply by `amount`; on failure nothing changes.
pub fn withdraw_liquidity(ctx: &mut WithdrawLiquidity, amount: u64) -> (r: Result<
    Withdrawn,
    CustomError,
>)
    ensures
        (*final(ctx), r) == withdraw_outcome(*old(ctx), amount),
{
    if amount == 0 {
        return Err(CustomError::ZeroAmount);
    }
    let supply = ctx.pool.liquidity;
    if amount > supply {
        return Err(CustomError::InvalidLiquidity);
    }
    let amount0 = withdraw_share(amount, ctx.token0_vault, supply)?;
    let amount1 = withdraw_share(amount, ctx.token1_vault, supply)?;
    proof {
        lemma_share_within_vault(amount as int, ctx.token0_vault as int, supply as int);
        lemma_share_within_vault(amount as int, ctx.token1_vault as int, supply as int);
    }
    ctx.token0_vault = ctx.token0_vault - amount0;
    ctx.token1_vault = ctx.token1_vault - amount1;
    ctx.pool.liquidity = supply - amount;
    Ok(Withdrawn { amount0, amount1 })
}

} // verus!
