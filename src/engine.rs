use crate::curve::{adjusted_amounts, minted_claims, released_share, swap_quote};
use crate::error::CustomError;
use vstd::prelude::*;

verus! {

/// The state of one pool as the engine sees it: outstanding claims and what
/// each vault holds.
pub struct Reserves {
    pub supply: int,
    pub vault0: int,
    pub vault1: int,
}

/// Every quantity is a `u64`.
pub open spec fn reserves_valid(s: Reserves) -> bool {
    &&& 0 <= s.supply <= u64::MAX
    &&& 0 <= s.vault0 <= u64::MAX
    &&& 0 <= s.vault1 <= u64::MAX
}

/// Claims are outstanding exactly when the pool holds something.
pub open spec fn backed(s: Reserves) -> bool {
    (s.supply == 0) <==> (s.vault0 == 0 && s.vault1 == 0)
}

/// What a successful deposit moved: the amounts pulled into each vault and
/// the claim tokens minted for them.
#[derive(Debug, Clone, Copy, PartialEq, Eq, Structural)]
pub struct Deposited {
    pub amount0: u64,
    pub amount1: u64,
    pub liquidity: u64,
}

/// What a successful withdrawal released from each vault.
#[derive(Debug, Clone, Copy, PartialEq, Eq, Structural)]
pub struct Withdrawn {
    pub amount0: u64,
    pub amount1: u64,
}

/// A deposit of `(amount_a, amount_b)`: the decimals must agree and both
/// amounts be nonzero; the amounts are then adjusted to the pool's ratio and
/// claims minted for the adjusted amounts.
pub open spec fn deposit_step(s: Reserves, same_decimals: bool, amount_a: int, amount_b: int) -> Result<
    (Reserves, Deposited),
    CustomError,
> {
    if !same_decimals {
        Err(CustomError::DecimalsNotEqual)
    } else if amount_a == 0 || amount_b == 0 {
        Err(CustomError::ZeroAmount)
    } else {
        match adjusted_amounts(s.vault0, s.vault1, amount_a, amount_b) {
            Err(e) => Err(e),
            Ok((x, y)) => match minted_claims(x as int, y as int) {
                Err(e) => Err(e),
                Ok(l) => {
                    if s.vault0 + x > u64::MAX || s.vault1 + y > u64::MAX || s.supply + l
                        > u64::MAX {
                        Err(CustomError::MathOverflow)
                    } else {
                        Ok(
                            (
                                Reserves {
                                    supply: s.supply + l,
                                    vault0: s.vault0 + x,
                                    vault1: s.vault1 + y,
                                },
                                Deposited { amount0: x, amount1: y, liquidity: l },
                            ),
                        )
                    }
                },
            },
        }
    }
}

/// A withdrawal of `claim` claim tokens: nonzero and at most the supply; each
/// vault releases its pro-rata share, rounded down.
pub open spec fn withdraw_step(s: Reserves, claim: int) -> Result<(Reserves, Withdrawn), CustomError> {
    if claim == 0 {
        Err(CustomError::ZeroAmount)
    } else if claim > s.supply {
        Err(CustomError::InvalidLiquidity)
    } else {
        match (released_share(claim, s.vault0, s.supply), released_share(claim, s.vault1, s.supply)) {
            (Ok(x), Ok(y)) => Ok(
                (
                    Reserves { supply: s.supply - claim, vault0: s.vault0 - x, vault1: s.vault1 - y },
                    Withdrawn { amount0: x, amount1: y },
                ),
            ),
            (Err(e), _) => Err(e),
            (_, Err(e)) => Err(e),
        }
    }
}

/// An exact-input swap of `amount`, of asset 0 when `zero_for_one`, else of
/// asset 1: the input enters its vault and the quoted output leaves the other.
pub open spec fn swap_step(s: Reserves, zero_for_one: bool, amount: int) -> Result<
    (Reserves, u64),
    CustomError,
> {
    let (reserve_in, reserve_out) = if zero_for_one {
        (s.vault0, s.vault1)
    } else {
        (s.vault1, s.vault0)
    };
    match swap_quote(amount, reserve_in, reserve_out) {
        Err(e) => Err(e),
        Ok(out) => {
            let next = if zero_for_one {
                Reserves { supply: s.supply, vault0: s.vault0 + amount, vault1: s.vault1 - out }
            } else {
                Reserves { supply: s.supply, vault0: s.vault0 - out, vault1: s.vault1 + amount }
            };
            Ok((next, out))
        },
    }
}

} // verus!
