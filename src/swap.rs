use crate::curve::{lemma_quote_within_reserve, swap_output};
use crate::engine::{swap_step, Reserves};
use crate::error::CustomError;
use crate::state::{Pool, Pubkey};
use vstd::prelude::*;

verus! {

/// What a swap reads and writes: the asset offered, the balances of the
/// pool's two vaults, and the pool record.
#[derive(Debug, Clone, Copy)]
pub struct SwapExactInput {
    pub token_in: Pubkey,
    pub token0_vault: u64,
    pub token1_vault: u64,
    pub pool: Pool,
}

impl SwapExactInput {
    pub open spec fn reserves(&self) -> Reserves {
        Reserves {
            supply: self.pool.liquidity as int,
            vault0: self.token0_vault as int,
            vault1: self.token1_vault as int,
        }
    }

    /// `Some(true)` when asset 0 is offered, `Some(false)` for asset 1, and
    /// `None` for an asset that is not in the pool.
    pub open spec fn direction(&self) -> Option<bool> {
        if self.token_in@ == self.pool.token0@ {
            Some(true)
        } else if self.token_in@ == self.pool.token1@ {
            Some(false)
        } else {
            None
        }
    }
}

/// The context after a swap of `amount` and its result: an asset outside the
/// pool is refused; otherwise on success the vaults take their values from
/// [`swap_step`], and on failure the context is as it was.
pub open spec fn swap_outcome(ctx: SwapExactInput, amount: u64) -> (
    SwapExactInput,
    Result<u64, CustomError>,
) {
    match ctx.direction() {
        None => (ctx, Err(CustomError::InvalidToken)),
        Some(zero_for_one) => match swap_step(ctx.reserves(), zero_for_one, amount as int) {
            Ok((next, out)) => (
                SwapExactInput {
                    token0_vault: next.vault0 as u64,
                    token1_vault: next.vault1 as u64,
                    ..ctx
                },
                Ok(out),
            ),
            Err(e) => (ctx, Err(e)),
        },
    }
}

/// Swaps exactly `amount` of the offered asset for the other one at the
/// constant-product price and returns the output. On success the input vault
/// grows by `amount` and the output vault shrinks by the output; on failure
/// nothing changes. A zero amount is accepted and moves nothing.
#[allow(non_snake_case)]
pub fn swapExactInput(ctx: &mut SwapExactInput, amount: u64) -> (r: Result<u64, CustomError>)
    ensures
        (*final(ctx), r) == swap_outcome(*old(ctx), amount),
{
    if ctx.token_in == ctx.pool.token0 {
        let out = swap_output(amount, ctx.token0_vault, ctx.token1_vault)?;
        proof {
            lemma_quote_within_reserve(amount as int, ctx.token0_vault as int, ctx.token1_vault as int);
        }
        ctx.token0_vault = ctx.token0_vault + amount;
        ctx.token1_vault = ctx.token1_vault - out;
        Ok(out)
    } else if ctx.token_in == ctx.pool.token1 {
        let out = swap_output(amount, ctx.token1_vault, ctx.token0_vault)?;
        proof {
            lemma_quote_within_reserve(amount as int, ctx.token1_vault as int, ctx.token0_vault as int);
        }
        ctx.token1_vault = ctx.token1_vault + amount;
        ctx.token0_vault = ctx.token0_vault - out;
        Ok(out)
    } else {
        Err(CustomError::InvalidToken)
    }
}

} // verus!
