//! Properties that hold across operations of the pool.
use crate::admin::{init_admin_outcome, set_admin_outcome, AdminSet, InitAdmin};
use crate::curve::{
    adjusted_amounts, fits, isqrt, lemma_isqrt_bounds, lemma_quote_within_reserve,
    lemma_share_within_vault, minted_claims, swap_quote,
};
use crate::engine::{
    backed, deposit_step, reserves_valid, swap_step, withdraw_step, Deposited, Reserves,
};
use crate::error::CustomError;
use crate::state::{AdminSettings, Pubkey};
use vstd::arithmetic::div_mod::{lemma_div_pos_is_pos, lemma_fundamental_div_mod};
use vstd::prelude::*;

verus! {

/// One operation on a pool's liquidity and reserves.
pub enum PoolOp {
    Deposit { amount_a: u64, amount_b: u64 },
    Withdraw { claim: u64 },
    Swap { zero_for_one: bool, amount: u64 },
}

/// The pool before any operation: no claims, empty vaults.
pub open spec fn empty_reserves() -> Reserves {
    Reserves { supply: 0, vault0: 0, vault1: 0 }
}

/// Applies one operation (a refused one changes nothing) and reports the
/// claims it minted and burned.
pub open spec fn apply_op(s: Reserves, same_decimals: bool, op: PoolOp) -> (Reserves, int, int) {
    match op {
        PoolOp::Deposit { amount_a, amount_b } => match deposit_step(
            s,
            same_decimals,
            amount_a as int,
            amount_b as int,
        ) {
            Ok((t, done)) => (t, done.liquidity as int, 0),
            Err(_) => (s, 0, 0),
        },
        PoolOp::Withdraw { claim } => match withdraw_step(s, claim as int) {
            Ok((t, _)) => (t, 0, claim as int),
            Err(_) => (s, 0, 0),
        },
        PoolOp::Swap { zero_for_one, amount } => match swap_step(s, zero_for_one, amount as int) {
            Ok((t, _)) => (t, 0, 0),
            Err(_) => (s, 0, 0),
        },
    }
}

/// Applies a sequence of operations in order, with the claims minted and
/// burned over all of them.
pub open spec fn run_ops(s: Reserves, same_decimals: bool, ops: Seq<PoolOp>) -> (Reserves, int, int)
    decreases ops.len(),
{
    if ops.len() == 0 {
        (s, 0, 0)
    } else {
        let (t, minted, burned) = run_ops(s, same_decimals, ops.drop_last());
        let (u, m, b) = apply_op(t, same_decimals, ops.last());
        (u, minted + m, burned + b)
    }
}

/// Each operation keeps every quantity a `u64`, keeps claims backed by
/// holdings (and holdings by claims), and changes the supply by exactly what
/// it minted minus what it burned.
pub proof fn lemma_op_keeps_backing(s: Reserves, same_decimals: bool, op: PoolOp)
    requires
        reserves_valid(s),
        backed(s),
    ensures
        ({
            let (t, minted, burned) = apply_op(s, same_decimals, op);
            &&& reserves_valid(t)
            &&& backed(t)
            &&& minted >= 0
            &&& burned >= 0
            &&& t.supply == s.supply + minted - burned
        }),
{
    match op {
        PoolOp::Deposit { amount_a, amount_b } => {
            if let Ok((t, done)) = deposit_step(s, same_decimals, amount_a as int, amount_b as int) {
                let (x, y) = adjusted_amounts(
                    s.vault0,
                    s.vault1,
                    amount_a as int,
                    amount_b as int,
                )->Ok_0;
                assert(minted_claims(x as int, y as int) is Ok);
                let n = x * y;
                assert(n >= 0) by (nonlinear_arith)
                    requires
                        n == x * y,
                        x >= 0,
                        y >= 0,
                ;
                lemma_isqrt_bounds(n as nat);
                let r = isqrt(n as nat);
                assert(r < 0x1_0000_0000) by (nonlinear_arith)
                    requires
                        r * r <= n,
                        n < 0x8000_0000_0000_0000,
                        r >= 0,
                ;
                if x == 0 {
                    assert(n == 0) by (nonlinear_arith)
                        requires
                            n == x * y,
                            x == 0,
                    ;
                    assert(isqrt(0) == 0);
                }
                assert(done.liquidity > 0);
                assert(t.vault0 > 0);
            }
        },
        PoolOp::Withdraw { claim } => {
            if let Ok((t, done)) = withdraw_step(s, claim as int) {
                lemma_share_within_vault(claim as int, s.vault0, s.supply);
                lemma_share_within_vault(claim as int, s.vault1, s.supply);
            }
        },
        PoolOp::Swap { zero_for_one, amount } => {
            if let Ok((t, out)) = swap_step(s, zero_for_one, amount as int) {
                if zero_for_one {
                    lemma_quote_within_reserve(amount as int, s.vault0, s.vault1);
                } else {
                    lemma_quote_within_reserve(amount as int, s.vault1, s.vault0);
                }
            }
        },
    }
}

/// Conservation: over any sequence of deposits, withdrawals and swaps on a
/// new pool, the claim supply equals the claims ever minted minus those ever
/// burned, and a pool with no claims outstanding holds nothing.
pub proof fn lemma_claims_conserved(same_decimals: bool, ops: Seq<PoolOp>)
    ensures
        ({
            let (t, minted, burned) = run_ops(empty_reserves(), same_decimals, ops);
            &&& t.supply == minted - burned
            &&& t.supply == 0 ==> t.vault0 == 0 && t.vault1 == 0
            &&& reserves_valid(t)
            &&& backed(t)
        }),
    decreases ops.len(),
{
    if ops.len() > 0 {
        lemma_claims_conserved(same_decimals, ops.drop_last());
        let (t, minted, burned) = run_ops(empty_reserves(), same_decimals, ops.drop_last());
        lemma_op_keeps_backing(t, same_decimals, ops.last());
    }
}

/// No overpayment: a withdrawal of at most the supply releases at most what
/// each vault holds, and withdrawing the whole supply empties both vaults.
pub proof fn lemma_withdraw_never_overpays(s: Reserves, claim: int)
    requires
        reserves_valid(s),
        0 <= claim <= s.supply,
    ensures
        withdraw_step(s, claim) matches Ok((t, done)) ==> {
            &&& done.amount0 <= s.vault0
            &&& done.amount1 <= s.vault1
            &&& claim == s.supply ==> t.supply == 0 && t.vault0 == 0 && t.vault1 == 0
        },
{
    if let Ok((t, done)) = withdraw_step(s, claim) {
        lemma_share_within_vault(claim, s.vault0, s.supply);
        lemma_share_within_vault(claim, s.vault1, s.supply);
    }
}

/// `a / b <= c / d` whenever `a / b <= c / d` holds of the exact fractions.
proof fn lemma_floor_ratio_monotone(a: int, b: int, c: int, d: int)
    requires
        a >= 0,
        c >= 0,
        b > 0,
        d > 0,
        a * d <= c * b,
    ensures
        a / b <= c / d,
{
    lemma_fundamental_div_mod(a, b);
    lemma_fundamental_div_mod(c, d);
    let q = a / b;
    let p = c / d;
    lemma_div_pos_is_pos(a, b);
    assert(q * b <= a) by (nonlinear_arith)
        requires
            a == b * q + a % b,
            0 <= a % b,
    ;
    assert(c < (p + 1) * d) by (nonlinear_arith)
        requires
            c == d * p + c % d,
            c % d < d,
    ;
    assert(q * b * d <= a * d) by (nonlinear_arith)
        requires
            q * b <= a,
            d > 0,
    ;
    assert(q < p + 1) by (nonlinear_arith)
        requires
            q * b * d <= c * b,
            c < (p + 1) * d,
            b > 0,
            d > 0,
    ;
}

/// Swap monotonicity: offering more never yields less, and the exact curve
/// `amount * reserve_out / (reserve_in + amount)` rises strictly with the
/// amount.
pub proof fn lemma_swap_monotone(x: int, y: int, reserve_in: int, reserve_out: int)
    requires
        0 <= x <= y,
        reserve_in >= 0,
        swap_quote(y, reserve_in, reserve_out) is Ok,
    ensures
        swap_quote(x, reserve_in, reserve_out) is Ok,
        swap_quote(x, reserve_in, reserve_out)->Ok_0 <= swap_quote(y, reserve_in, reserve_out)->Ok_0,
        x < y && reserve_out > 0 ==> x * reserve_out * (reserve_in + y) < y * reserve_out * (
        reserve_in + x),
{
    assert(x * reserve_out <= y * reserve_out) by (nonlinear_arith)
        requires
            0 <= x <= y,
            reserve_out >= 0,
    ;
    assert(x * reserve_out * (reserve_in + y) <= y * reserve_out * (reserve_in + x))
        by (nonlinear_arith)
        requires
            0 <= x <= y,
            reserve_out >= 0,
            reserve_in >= 0,
    ;
    lemma_floor_ratio_monotone(
        x * reserve_out,
        reserve_in + x,
        y * reserve_out,
        reserve_in + y,
    );
    if x < y && reserve_out > 0 {
        assert(x * reserve_out * (reserve_in + y) < y * reserve_out * (reserve_in + x))
            by (nonlinear_arith)
            requires
                0 <= x < y,
                reserve_out > 0,
                reserve_in > 0,
        ;
    }
}

/// The spread: a nonzero swap against nonempty reserves pays strictly less
/// than `amount * reserve_out / reserve_in`, the price before the trade.
pub proof fn lemma_swap_pays_below_spot(amount: int, reserve_in: int, reserve_out: int)
    requires
        amount > 0,
        reserve_in >= 0,
        reserve_out > 0,
        swap_quote(amount, reserve_in, reserve_out) is Ok,
    ensures
        swap_quote(amount, reserve_in, reserve_out)->Ok_0 * reserve_in < amount * reserve_out,
{
    let out = swap_quote(amount, reserve_in, reserve_out)->Ok_0 as int;
    let m = amount * reserve_out;
    let d = reserve_in + amount;
    assert(m > 0) by (nonlinear_arith)
        requires
            amount > 0,
            reserve_out > 0,
            m == amount * reserve_out,
    ;
    lemma_fundamental_div_mod(m, d);
    lemma_div_pos_is_pos(m, d);
    assert(out * d <= m) by (nonlinear_arith)
        requires
            out == m / d,
            m == d * (m / d) + m % d,
            0 <= m % d,
    ;
    assert(out * reserve_in < m) by (nonlinear_arith)
        requires
            out * d <= m,
            d == reserve_in + amount,
            out >= 0,
            amount > 0,
            m > 0,
    ;
}

/// The curve: a swap never lowers the product of the two reserves.
pub proof fn lemma_swap_keeps_product(s: Reserves, zero_for_one: bool, amount: int)
    requires
        reserves_valid(s),
        swap_step(s, zero_for_one, amount) is Ok,
    ensures
        ({
            let t = swap_step(s, zero_for_one, amount)->Ok_0.0;
            t.vault0 * t.vault1 >= s.vault0 * s.vault1
        }),
{
    let (reserve_in, reserve_out) = if zero_for_one {
        (s.vault0, s.vault1)
    } else {
        (s.vault1, s.vault0)
    };
    let out = swap_quote(amount, reserve_in, reserve_out)->Ok_0 as int;
    let m = amount * reserve_out;
    let d = reserve_in + amount;
    assert(m >= 0) by (nonlinear_arith)
        requires
            amount >= 0,
            reserve_out >= 0,
            m == amount * reserve_out,
    ;
    lemma_fundamental_div_mod(m, d);
    assert(out * d <= m) by (nonlinear_arith)
        requires
            out == m / d,
            m == d * (m / d) + m % d,
            0 <= m % d,
    ;
    assert(d * (reserve_out - out) >= reserve_in * reserve_out) by (nonlinear_arith)
        requires
            out * d <= m,
            m == amount * reserve_out,
            d == reserve_in + amount,
    ;
    if zero_for_one {
        assert(s.vault0 * s.vault1 == reserve_in * reserve_out);
    } else {
        assert(s.vault0 * s.vault1 == reserve_in * reserve_out) by (nonlinear_arith)
            requires
                reserve_in == s.vault1,
                reserve_out == s.vault0,
        ;
        assert(d * (reserve_out - out) == (reserve_out - out) * d) by (nonlinear_arith);
    }
}

/// First deposit: into an empty pool, `(a, b)` is taken as it is and mints
/// `floor(sqrt(a * b))` claims, which become the whole supply.
pub proof fn lemma_first_deposit(amount_a: int, amount_b: int)
    requires
        amount_a > 0,
        amount_b > 0,
        fits(amount_a * amount_b),
    ensures
        deposit_step(empty_reserves(), true, amount_a, amount_b) == Ok::<
            (Reserves, Deposited),
            CustomError,
        >(
            (
                Reserves {
                    supply: isqrt((amount_a * amount_b) as nat) as int,
                    vault0: amount_a,
                    vault1: amount_b,
                },
                Deposited {
                    amount0: amount_a as u64,
                    amount1: amount_b as u64,
                    liquidity: isqrt((amount_a * amount_b) as nat) as u64,
                },
            ),
        ),
{
    assert(amount_a <= amount_a * amount_b && amount_b <= amount_a * amount_b)
        by (nonlinear_arith)
        requires
            amount_a > 0,
            amount_b > 0,
    ;
    lemma_isqrt_bounds((amount_a * amount_b) as nat);
    let r = isqrt((amount_a * amount_b) as nat);
    if r == 0 {
        assert((r + 1) * (r + 1) == 1) by (nonlinear_arith)
            requires
                r == 0,
        ;
    }
    assert(r <= amount_a * amount_b) by (nonlinear_arith)
        requires
            r * r <= amount_a * amount_b,
            r >= 0,
    ;
}

/// Ratio enforcement: into a non-empty pool with `vault0 <= vault1`, the
/// first amount is kept and the second becomes `amount_a / (vault0 * vault1)`;
/// with `vault0 > vault1` the second is kept and the first becomes
/// `amount_b * (vault0 * vault1)`.
pub proof fn lemma_ratio_enforced(s: Reserves, amount_a: int, amount_b: int)
    requires
        reserves_valid(s),
        s.vault0 != 0 || s.vault1 != 0,
        deposit_step(s, true, amount_a, amount_b) is Ok,
    ensures
        ({
            let done = deposit_step(s, true, amount_a, amount_b)->Ok_0.1;
            &&& s.vault0 <= s.vault1 ==> done.amount0 == amount_a && done.amount1 == amount_a / (
            s.vault0 * s.vault1)
            &&& s.vault0 > s.vault1 ==> done.amount0 == amount_b * (s.vault0 * s.vault1)
                && done.amount1 == amount_b
        }),
{
}

/// A caller other than the admin never moves the admin role.
pub proof fn lemma_non_admin_cannot_set(ctx: AdminSet, new_admin: Pubkey)
    requires
        ctx.admin@ != ctx.admin_settings.admin@,
    ensures
        set_admin_outcome(ctx, new_admin) == (ctx, Err::<(), CustomError>(CustomError::Unauthorized)),
{
}

/// After one admin assignment has succeeded, a second one is refused and the
/// first admin stays.
pub proof fn lemma_init_admin_once(ctx: InitAdmin, first: Pubkey, second: Pubkey)
    requires
        ctx.admin_settings is None,
    ensures
        ({
            let (after_first, r1) = init_admin_outcome(ctx, first);
            let (after_second, r2) = init_admin_outcome(after_first, second);
            &&& r1 is Ok
            &&& r2 == Err::<(), CustomError>(CustomError::AlreadyInitialized)
            &&& after_second.admin_settings == Some(AdminSettings { admin: first })
        }),
{
}

} // verus!
