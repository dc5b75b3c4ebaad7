use crate::error::CustomError;
use crate::fixed_point::{
    fixed_add, fixed_div, fixed_floor, fixed_from_u64, fixed_mul, fixed_sqrt, fixed_to_u64,
    in_i128, scale, Fixed,
};
use vstd::arithmetic::div_mod::{
    lemma_div_denominator, lemma_div_is_ordered, lemma_div_multiples_vanish,
    lemma_div_multiples_vanish_quotient, lemma_div_pos_is_pos, lemma_multiply_divide_le,
    lemma_multiply_divide_lt,
};
use vstd::prelude::*;

verus! {

/// Whether a whole number has an `I64F64` value: `0 <= x < 2^63`.
pub open spec fn fits(x: int) -> bool {
    0 <= x < 0x8000_0000_0000_0000
}

/// The integer square root: the greatest `r` with `r * r <= n`.
pub open spec fn isqrt(n: nat) -> nat
    decreases n,
{
    if n == 0 {
        0
    } else {
        let r = isqrt((n - 1) as nat);
        if (r + 1) * (r + 1) <= n {
            r + 1
        } else {
            r
        }
    }
}

/// `isqrt(n)` squared is at most `n`, and the next square is above `n`.
pub proof fn lemma_isqrt_bounds(n: nat)
    ensures
        isqrt(n) * isqrt(n) <= n,
        n < (isqrt(n) + 1) * (isqrt(n) + 1),
    decreases n,
{
    if n > 0 {
        lemma_isqrt_bounds((n - 1) as nat);
        let r = isqrt((n - 1) as nat);
        let s = isqrt(n);
        if (r + 1) * (r + 1) <= n {
            assert(s == r + 1);
            assert((s + 1) * (s + 1) > (r + 1) * (r + 1)) by (nonlinear_arith)
                requires
                    s == r + 1,
                    r >= 0,
            ;
            assert(n <= (r + 1) * (r + 1));
            assert(n < (s + 1) * (s + 1));
        } else {
            assert(s == r);
            assert(n < (s + 1) * (s + 1));
        }
    } else {
        let s = isqrt(n);
        assert(s == 0);
        assert((s + 1) * (s + 1) == 1) by (nonlinear_arith)
            requires
                s == 0,
        ;
    }
}

/// A whole number scaled to raw bits stays in range exactly when it fits.
proof fn lemma_in_i128_scaled(x: int)
    requires
        x >= 0,
    ensures
        in_i128(x * scale()) <==> fits(x),
        fits(x) ==> x * scale() <= i128::MAX,
{
}

/// The fixed-point product of two whole numbers is their exact product.
proof fn lemma_mul_scaled(x: int, y: int)
    requires
        x >= 0,
        y >= 0,
    ensures
        (x * scale()) * (y * scale()) / scale() == x * y * scale(),
{
    assert((x * scale()) * (y * scale()) == scale() * (x * y * scale())) by (nonlinear_arith);
    lemma_div_multiples_vanish(x * y * scale(), scale());
}

/// The fixed-point quotient of two whole numbers, read back to a whole
/// number, is their quotient rounded down.
proof fn lemma_div_scaled(m: int, n: int)
    requires
        m >= 0,
        n > 0,
    ensures
        (m * scale()) * scale() / (n * scale()) == m * scale() / n,
        (m * scale() / n) / scale() == m / n,
        0 <= m * scale() / n <= m * scale(),
{
    lemma_div_multiples_vanish_quotient(scale(), m * scale(), n);
    assert(scale() * (m * scale()) == (m * scale()) * scale()) by (nonlinear_arith);
    assert(scale() * n == n * scale()) by (nonlinear_arith);
    lemma_div_denominator(m * scale(), n, scale());
    assert(n * scale() == scale() * n) by (nonlinear_arith);
    lemma_div_multiples_vanish_quotient(scale(), m, n);
    assert(scale() * m == m * scale()) by (nonlinear_arith);
    assert(m * scale() <= n * (m * scale())) by (nonlinear_arith)
        requires
            n >= 1,
            m >= 0,
    ;
    lemma_multiply_divide_le(m * scale(), n, m * scale());
    lemma_div_pos_is_pos(m * scale(), n);
}

/// A square root of `n * 2^128` rounded down, read back to a whole number,
/// is the integer square root of `n`.
proof fn lemma_sqrt_scaled(n: nat, r: int)
    requires
        r >= 0,
        r * r <= n * scale() * scale(),
        n * scale() * scale() < (r + 1) * (r + 1),
    ensures
        r / scale() == isqrt(n),
{
    lemma_isqrt_bounds(n);
    let s = isqrt(n) as int;
    let k = scale();
    assert((s * k) * (s * k) == (s * s) * (k * k)) by (nonlinear_arith);
    assert((s * s) * (k * k) <= n * k * k) by (nonlinear_arith)
        requires
            s * s <= n,
            k > 0,
    ;
    assert(s * k <= r) by (nonlinear_arith)
        requires
            (s * k) * (s * k) < (r + 1) * (r + 1),
            s >= 0,
            k > 0,
            r >= 0,
    ;
    assert(((s + 1) * k) * ((s + 1) * k) == ((s + 1) * (s + 1)) * (k * k)) by (nonlinear_arith);
    assert(((s + 1) * (s + 1)) * (k * k) >= (n + 1) * (k * k)) by (nonlinear_arith)
        requires
            (s + 1) * (s + 1) >= n + 1,
            k > 0,
    ;
    assert(r < (s + 1) * k) by (nonlinear_arith)
        requires
            r * r <= n * k * k,
            ((s + 1) * k) * ((s + 1) * k) >= (n + 1) * (k * k),
            s >= 0,
            k > 0,
            r >= 0,
    ;
    assert(r / k == s) by (nonlinear_arith)
        requires
            s * k <= r < (s + 1) * k,
            k > 0,
    ;
}

/// Claim tokens issued for amounts `(a, b)`: `floor(sqrt(a * b))`. Every
/// intermediate value is an `I64F64`, so the product must stay below 2^63;
/// an issue of zero is refused.
pub open spec fn minted_claims(a: int, b: int) -> Result<u64, CustomError> {
    if !(fits(a) && fits(b) && fits(a * b)) {
        Err(CustomError::MathOverflow)
    } else if isqrt((a * b) as nat) == 0 {
        Err(CustomError::InvalidLiquidity)
    } else {
        Ok(isqrt((a * b) as nat) as u64)
    }
}

/// The amounts a deposit actually moves. An empty pool takes the request as
/// it is. Otherwise, with `p = vault0 * vault1`: where `vault0 > vault1` the
/// first amount becomes `amount_b * p`, else the second becomes
/// `floor(amount_a / p)`.
pub open spec fn adjusted_amounts(vault0: int, vault1: int, amount_a: int, amount_b: int) -> Result<
    (u64, u64),
    CustomError,
> {
    if vault0 == 0 && vault1 == 0 {
        Ok((amount_a as u64, amount_b as u64))
    } else if !(fits(vault0) && fits(vault1) && fits(vault0 * vault1)) {
        Err(CustomError::MathOverflow)
    } else if vault0 > vault1 {
        if fits(amount_b) && fits(amount_b * (vault0 * vault1)) {
            Ok(((amount_b * (vault0 * vault1)) as u64, amount_b as u64))
        } else {
            Err(CustomError::MathOverflow)
        }
    } else {
        if fits(amount_a) && vault0 * vault1 > 0 {
            Ok((amount_a as u64, (amount_a / (vault0 * vault1)) as u64))
        } else {
            Err(CustomError::MathOverflow)
        }
    }
}

/// What `claim` of `supply` outstanding claims releases from a vault holding
/// `vault`: `floor(claim * vault / supply)`.
pub open spec fn released_share(claim: int, vault: int, supply: int) -> Result<u64, CustomError> {
    if fits(claim) && fits(vault) && fits(claim * vault) && fits(supply) && supply > 0 {
        Ok((claim * vault / supply) as u64)
    } else {
        Err(CustomError::MathOverflow)
    }
}

/// Output of an exact-input swap: `floor(amount * reserve_out / (reserve_in + amount))`.
/// An empty input reserve is refused.
pub open spec fn swap_quote(amount: int, reserve_in: int, reserve_out: int) -> Result<
    u64,
    CustomError,
> {
    if reserve_in == 0 {
        Err(CustomError::InvalidLiquidity)
    } else if fits(amount) && fits(reserve_out) && fits(amount * reserve_out) && fits(
        reserve_in + amount,
    ) {
        Ok((amount * reserve_out / (reserve_in + amount)) as u64)
    } else {
        Err(CustomError::MathOverflow)
    }
}

fn to_fixed(x: u64) -> (r: Result<Fixed, CustomError>)
    ensures
        fits(x as int) ==> r == Ok::<Fixed, CustomError>(Fixed { bits: (x * scale()) as i128 }),
        !fits(x as int) ==> r == Err::<Fixed, CustomError>(CustomError::MathOverflow),
{
    proof {
        lemma_in_i128_scaled(x as int);
    }
    match fixed_from_u64(x) {
        Some(v) => Ok(v),
        None => Err(CustomError::MathOverflow),
    }
}

/// Claim tokens for a deposit of `(amount0, amount1)`: the square root of the
/// product, taken in fixed point and rounded down.
pub fn claim_for_deposit(amount0: u64, amount1: u64) -> (r: Result<u64, CustomError>)
    ensures
        r == minted_claims(amount0 as int, amount1 as int),
{
    let a = to_fixed(amount0)?;
    let b = to_fixed(amount1)?;
    let ghost n: int = amount0 * amount1;
    proof {
        lemma_mul_scaled(amount0 as int, amount1 as int);
        assert(n >= 0) by (nonlinear_arith)
            requires
                n == amount0 * amount1,
        ;
        lemma_in_i128_scaled(n);
    }
    let product = match fixed_mul(a, b) {
        Some(p) => p,
        None => return Err(CustomError::MathOverflow),
    };
    let root = fixed_sqrt(product);
    proof {
        assert(product.bits * scale() == n * scale() * scale());
        lemma_sqrt_scaled(n as nat, root.bits as int);
        lemma_isqrt_bounds(n as nat);
        let s = isqrt(n as nat);
        assert(s < 0x1_0000_0000) by (nonlinear_arith)
            requires
                s * s <= n,
                n < 0x8000_0000_0000_0000,
                s >= 0,
        ;
    }
    match fixed_to_u64(root) {
        Some(claims) => {
            if claims == 0 {
                Err(CustomError::InvalidLiquidity)
            } else {
                Ok(claims)
            }
        },
        None => Err(CustomError::InvalidLiquidity),
    }
}

/// The amounts a deposit moves, with the pool's current ratio imposed on a
/// non-empty pool.
pub fn deposit_amounts(vault0: u64, vault1: u64, amount_a: u64, amount_b: u64) -> (r: Result<
    (u64, u64),
    CustomError,
>)
    ensures
        r == adjusted_amounts(vault0 as int, vault1 as int, amount_a as int, amount_b as int),
{
    if vault0 == 0 && vault1 == 0 {
        return Ok((amount_a, amount_b));
    }
    let v0 = to_fixed(vault0)?;
    let v1 = to_fixed(vault1)?;
    let ghost p: int = vault0 * vault1;
    proof {
        lemma_mul_scaled(vault0 as int, vault1 as int);
        assert(p >= 0) by (nonlinear_arith)
            requires
                p == vault0 * vault1,
        ;
        lemma_in_i128_scaled(p);
    }
    let ratio = match fixed_mul(v0, v1) {
        Some(x) => x,
        None => return Err(CustomError::MathOverflow),
    };
    if vault0 > vault1 {
        let b = to_fixed(amount_b)?;
        proof {
            lemma_mul_scaled(amount_b as int, p);
            assert(amount_b * p >= 0) by (nonlinear_arith)
                requires
                    p >= 0,
            ;
            lemma_in_i128_scaled(amount_b * p);
        }
        let scaled = match fixed_mul(b, ratio) {
            Some(x) => x,
            None => return Err(CustomError::MathOverflow),
        };
        proof {
            lemma_div_multiples_vanish(amount_b * p, scale());
            assert(scale() * (amount_b * p) == amount_b * p * scale()) by (nonlinear_arith);
        }
        match fixed_to_u64(scaled) {
            Some(amount0) => Ok((amount0, amount_b)),
            None => Err(CustomError::MathOverflow),
        }
    } else {
        let a = to_fixed(amount_a)?;
        if vault0 == 0 {
            assert(ratio.bits == 0);
            let none = fixed_div(a, ratio);
            assert(none is None);
            return Err(CustomError::MathOverflow);
        }
        proof {
            assert(p > 0) by (nonlinear_arith)
                requires
                    p == vault0 * vault1,
                    vault0 > 0,
                    vault1 >= vault0,
            ;
            lemma_div_scaled(amount_a as int, p);
        }
        let quotient = match fixed_div(a, ratio) {
            Some(x) => x,
            None => return Err(CustomError::MathOverflow),
        };
        match fixed_to_u64(quotient) {
            Some(amount1) => Ok((amount_a, amount1)),
            None => Err(CustomError::MathOverflow),
        }
    }
}

/// What `claim` of `supply` outstanding claims releases from a vault holding
/// `vault`, rounded down.
pub fn withdraw_share(claim: u64, vault: u64, supply: u64) -> (r: Result<u64, CustomError>)
    ensures
        r == released_share(claim as int, vault as int, supply as int),
{
    let c = to_fixed(claim)?;
    let v = to_fixed(vault)?;
    let ghost m: int = claim * vault;
    proof {
        lemma_mul_scaled(claim as int, vault as int);
        assert(m >= 0) by (nonlinear_arith)
            requires
                m == claim * vault,
        ;
        lemma_in_i128_scaled(m);
    }
    let product = match fixed_mul(c, v) {
        Some(x) => x,
        None => return Err(CustomError::MathOverflow),
    };
    let s = to_fixed(supply)?;
    if supply == 0 {
        let none = fixed_div(product, s);
        assert(none is None);
        return Err(CustomError::MathOverflow);
    }
    proof {
        lemma_div_scaled(m, supply as int);
    }
    let quotient = match fixed_div(product, s) {
        Some(x) => x,
        None => return Err(CustomError::MathOverflow),
    };
    let whole = fixed_floor(quotient);
    proof {
        let q = quotient.bits as int;
        lemma_div_multiples_vanish(q / scale(), scale());
        assert(scale() * (q / scale()) == (q / scale()) * scale());
        lemma_div_is_ordered(m * scale() / (supply as int), m * scale(), scale());
        lemma_div_multiples_vanish(m, scale());
        assert(scale() * m == m * scale());
    }
    match fixed_to_u64(whole) {
        Some(share) => Ok(share),
        None => Err(CustomError::MathOverflow),
    }
}

/// Output of an exact-input swap of `amount` against reserves
/// `(reserve_in, reserve_out)`, rounded down.
pub fn swap_output(amount: u64, reserve_in: u64, reserve_out: u64) -> (r: Result<u64, CustomError>)
    ensures
        r == swap_quote(amount as int, reserve_in as int, reserve_out as int),
{
    if reserve_in == 0 {
        return Err(CustomError::InvalidLiquidity);
    }
    let a = to_fixed(amount)?;
    let o = to_fixed(reserve_out)?;
    let ghost m: int = amount * reserve_out;
    proof {
        lemma_mul_scaled(amount as int, reserve_out as int);
        assert(m >= 0) by (nonlinear_arith)
            requires
                m == amount * reserve_out,
        ;
        lemma_in_i128_scaled(m);
    }
    let numerator = match fixed_mul(a, o) {
        Some(x) => x,
        None => return Err(CustomError::MathOverflow),
    };
    let i = to_fixed(reserve_in)?;
    proof {
        lemma_in_i128_scaled(reserve_in + amount);
    }
    let denominator = match fixed_add(i, a) {
        Some(x) => x,
        None => return Err(CustomError::MathOverflow),
    };
    proof {
        lemma_div_scaled(m, reserve_in + amount);
        lemma_div_is_ordered(m * scale() / (reserve_in + amount), m * scale(), scale());
        lemma_div_multiples_vanish(m, scale());
        assert(scale() * m == m * scale());
    }
    let quotient = match fixed_div(numerator, denominator) {
        Some(x) => x,
        None => return Err(CustomError::MathOverflow),
    };
    match fixed_to_u64(quotient) {
        Some(out) => Ok(out),
        None => Err(CustomError::MathOverflow),
    }
}

/// A share of at most the whole supply releases at most the vault, all of
/// the supply releases all of it, and less than the supply leaves something
/// in a vault that held something.
pub proof fn lemma_share_within_vault(claim: int, vault: int, supply: int)
    requires
        0 <= claim <= supply,
        supply > 0,
        vault >= 0,
    ensures
        0 <= claim * vault / supply <= vault,
        claim == supply ==> claim * vault / supply == vault,
        claim < supply && vault > 0 ==> claim * vault / supply < vault,
{
    assert(0 <= claim * vault <= supply * vault) by (nonlinear_arith)
        requires
            0 <= claim <= supply,
            vault >= 0,
    ;
    lemma_multiply_divide_le(claim * vault, supply, vault);
    lemma_div_pos_is_pos(claim * vault, supply);
    if claim == supply {
        lemma_div_multiples_vanish(vault, supply);
        assert(supply * vault == claim * vault);
    }
    if claim < supply && vault > 0 {
        assert(claim * vault < supply * vault) by (nonlinear_arith)
            requires
                0 <= claim < supply,
                vault > 0,
        ;
        lemma_multiply_divide_lt(claim * vault, supply, vault);
    }
}

/// A swap never pays out more than the output reserve.
pub proof fn lemma_quote_within_reserve(amount: int, reserve_in: int, reserve_out: int)
    requires
        amount >= 0,
        reserve_in > 0,
        reserve_out >= 0,
    ensures
        0 <= amount * reserve_out / (reserve_in + amount) <= reserve_out,
{
    lemma_share_within_vault(amount, reserve_out, reserve_in + amount);
}

} // verus!
