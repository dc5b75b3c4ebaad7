use amm::curve::{claim_for_deposit, deposit_amounts, swap_output, withdraw_share};
use amm::{
    create_pool, deposit, init_admin, set_admin, swapExactInput, withdraw_liquidity, AdminSet,
    AdminSettings, CustomError, DepositLiquidity, InitAdmin, Pool, PoolCreation, Pubkey,
    SwapExactInput, WithdrawLiquidity,
};

fn key(byte: u8) -> Pubkey {
    Pubkey::new_from_array([byte; 32])
}

fn pool_with(liquidity: u64) -> Pool {
    Pool { token0: key(3), token1: key(4), liquidity }
}

fn deposit_ctx(vault0: u64, vault1: u64, liquidity: u64) -> DepositLiquidity {
    DepositLiquidity {
        token0_decimals: 9,
        token1_decimals: 9,
        token0_vault: vault0,
        token1_vault: vault1,
        pool: pool_with(liquidity),
    }
}

#[test]
fn first_deposit_mints_integer_square_root() {
    let mut ctx = deposit_ctx(0, 0, 0);
    let done = deposit(&mut ctx, 10_000_000, 10_000_000).unwrap();
    assert_eq!(done.liquidity, 10_000_000);
    assert_eq!(ctx.pool.liquidity, 10_000_000);

    let mut uneven = deposit_ctx(0, 0, 0);
    let done = deposit(&mut uneven, 2, 5).unwrap();
    assert_eq!(done.liquidity, 3);
    assert_eq!((done.amount0, done.amount1), (2, 5));
    assert_eq!((uneven.token0_vault, uneven.token1_vault), (2, 5));
}

#[test]
fn claims_round_down_through_fixed_point() {
    assert_eq!(claim_for_deposit(3, 5), Ok(3));
    assert_eq!(claim_for_deposit(1, 1), Ok(1));
    assert_eq!(claim_for_deposit(999_999, 1_000_001), Ok(999_999));
    assert_eq!(claim_for_deposit(0, 5), Err(CustomError::InvalidLiquidity));
    assert_eq!(claim_for_deposit(1 << 32, 1 << 31), Err(CustomError::MathOverflow));
    assert_eq!(claim_for_deposit((1 << 31) + 1, 1 << 31), Ok(2_147_483_648));
}

#[test]
fn ratio_enforced_when_vault0_not_larger() {
    let mut ctx = deposit_ctx(2, 5, 3);
    let done = deposit(&mut ctx, 100, 7).unwrap();
    assert_eq!(done.amount0, 100);
    assert_eq!(done.amount1, 100 / (2 * 5));
    assert_eq!(done.liquidity, 31);
    assert_eq!((ctx.token0_vault, ctx.token1_vault, ctx.pool.liquidity), (102, 15, 34));
}

#[test]
fn ratio_enforced_when_vault0_larger() {
    assert_eq!(deposit_amounts(5, 2, 100, 7), Ok((70, 7)));
    let mut ctx = deposit_ctx(5, 2, 3);
    let done = deposit(&mut ctx, 100, 7).unwrap();
    assert_eq!((done.amount0, done.amount1), (7 * 5 * 2, 7));
    assert_eq!(done.liquidity, 22);
}

#[test]
fn ratio_that_rounds_to_nothing_is_refused() {
    let before = deposit_ctx(100, 100, 100);
    let mut ctx = before;
    assert_eq!(deposit(&mut ctx, 50, 50), Err(CustomError::InvalidLiquidity));
    assert_eq!(ctx.token0_vault, before.token0_vault);
    assert_eq!(ctx.pool.liquidity, before.pool.liquidity);
}

#[test]
fn deposit_errors() {
    let mut ctx = deposit_ctx(0, 0, 0);
    ctx.token1_decimals = 6;
    assert_eq!(deposit(&mut ctx, 1, 1), Err(CustomError::DecimalsNotEqual));

    let mut ctx = deposit_ctx(0, 0, 0);
    assert_eq!(deposit(&mut ctx, 0, 1), Err(CustomError::ZeroAmount));
    assert_eq!(deposit(&mut ctx, 1, 0), Err(CustomError::ZeroAmount));
    assert_eq!(deposit(&mut ctx, 1 << 63, 1), Err(CustomError::MathOverflow));
    assert_eq!(ctx.pool.liquidity, 0);

    let mut lopsided = deposit_ctx(0, 10, 1);
    assert_eq!(deposit(&mut lopsided, 5, 5), Err(CustomError::MathOverflow));
    let mut too_big = deposit_ctx(1 << 40, 1 << 40, 1);
    assert_eq!(deposit(&mut too_big, 5, 5), Err(CustomError::MathOverflow));
}

#[test]
fn withdraw_never_overpays() {
    assert_eq!(withdraw_share(1, 10, 3), Ok(3));
    assert_eq!(withdraw_share(2, 10, 3), Ok(6));
    assert_eq!(withdraw_share(3, 10, 3), Ok(10));
    let mut ctx = WithdrawLiquidity { token0_vault: 10, token1_vault: 7, pool: pool_with(3) };
    let first = withdraw_liquidity(&mut ctx, 1).unwrap();
    assert_eq!((first.amount0, first.amount1), (3, 2));
    assert!(first.amount0 <= 10 && first.amount1 <= 7);
    assert_eq!((ctx.token0_vault, ctx.token1_vault, ctx.pool.liquidity), (7, 5, 2));
    let rest = withdraw_liquidity(&mut ctx, 2).unwrap();
    assert_eq!((rest.amount0, rest.amount1), (7, 5));
    assert_eq!((ctx.token0_vault, ctx.token1_vault, ctx.pool.liquidity), (0, 0, 0));
}

#[test]
fn withdraw_errors() {
    let mut ctx = WithdrawLiquidity { token0_vault: 10, token1_vault: 7, pool: pool_with(3) };
    assert_eq!(withdraw_liquidity(&mut ctx, 0), Err(CustomError::ZeroAmount));
    assert_eq!(withdraw_liquidity(&mut ctx, 4), Err(CustomError::InvalidLiquidity));
    let mut empty = WithdrawLiquidity { token0_vault: 0, token1_vault: 0, pool: pool_with(0) };
    assert_eq!(withdraw_liquidity(&mut empty, 1), Err(CustomError::InvalidLiquidity));
    let mut huge = WithdrawLiquidity { token0_vault: 1 << 62, token1_vault: 1, pool: pool_with(4) };
    assert_eq!(withdraw_liquidity(&mut huge, 2), Err(CustomError::MathOverflow));
    assert_eq!(huge.pool.liquidity, 4);
    assert_eq!(withdraw_share(1, 1, 0), Err(CustomError::MathOverflow));
}

#[test]
fn swap_is_monotone_and_pays_below_spot() {
    let reserve_in: u64 = 1_000;
    let reserve_out: u64 = 500;
    let mut previous = 0;
    for amount in 1..200u64 {
        let out = swap_output(amount, reserve_in, reserve_out).unwrap();
        assert!(out >= previous);
        assert!((out as u128) * (reserve_in as u128) < (amount as u128) * (reserve_out as u128));
        previous = out;
    }
    assert_eq!(swap_output(100, 1_000, 500), Ok(45));
    assert_eq!(swap_output(0, 1_000, 500), Ok(0));
}

#[test]
fn swap_errors() {
    assert_eq!(swap_output(10, 0, 500), Err(CustomError::InvalidLiquidity));
    assert_eq!(swap_output(1 << 62, 1 << 62, 1), Err(CustomError::MathOverflow));
    let mut ctx = SwapExactInput {
        token_in: key(9),
        token0_vault: 10,
        token1_vault: 10,
        pool: pool_with(10),
    };
    assert_eq!(swapExactInput(&mut ctx, 5), Err(CustomError::InvalidToken));
    assert_eq!((ctx.token0_vault, ctx.token1_vault), (10, 10));
}

#[test]
fn swap_of_asset_one() {
    let mut ctx = SwapExactInput {
        token_in: key(4),
        token0_vault: 500,
        token1_vault: 1_000,
        pool: pool_with(700),
    };
    assert_eq!(swapExactInput(&mut ctx, 100), Ok(45));
    assert_eq!((ctx.token0_vault, ctx.token1_vault), (455, 1_100));
    assert!(ctx.token0_vault * ctx.token1_vault >= 500 * 1_000);
}

#[test]
fn conservation_over_a_sequence() {
    let mut minted: u64 = 0;
    let mut burned: u64 = 0;
    let mut dep = deposit_ctx(0, 0, 0);
    minted += deposit(&mut dep, 10_000, 40_000).unwrap().liquidity;
    minted += deposit(&mut dep, 1, 3).map(|d| d.liquidity).unwrap_or(0);
    let mut swap = SwapExactInput {
        token_in: key(3),
        token0_vault: dep.token0_vault,
        token1_vault: dep.token1_vault,
        pool: dep.pool,
    };
    swapExactInput(&mut swap, 250).unwrap();
    let mut wd = WithdrawLiquidity {
        token0_vault: swap.token0_vault,
        token1_vault: swap.token1_vault,
        pool: swap.pool,
    };
    withdraw_liquidity(&mut wd, 5_000).unwrap();
    burned += 5_000;
    assert_eq!(wd.pool.liquidity, minted - burned);
    let rest = wd.pool.liquidity;
    withdraw_liquidity(&mut wd, rest).unwrap();
    burned += rest;
    assert_eq!(wd.pool.liquidity, minted - burned);
    assert_eq!((wd.token0_vault, wd.token1_vault), (0, 0));
}

#[test]
fn end_to_end_scenario() {
    let admin = key(1);
    let mut init = InitAdmin { admin, admin_settings: None };
    init_admin(&mut init, admin).unwrap();
    let mut creation = PoolCreation {
        admin,
        token0: key(3),
        token1: key(4),
        admin_settings: init.admin_settings.unwrap(),
        pool: None,
    };
    create_pool(&mut creation).unwrap();
    let mut dep = DepositLiquidity {
        token0_decimals: 6,
        token1_decimals: 6,
        token0_vault: 0,
        token1_vault: 0,
        pool: creation.pool.unwrap(),
    };
    let claims = deposit(&mut dep, 10_000_000, 10_000_000).unwrap().liquidity;
    assert_eq!(claims, 10_000_000);
    let mut swap = SwapExactInput {
        token_in: key(3),
        token0_vault: dep.token0_vault,
        token1_vault: dep.token1_vault,
        pool: dep.pool,
    };
    let out = swapExactInput(&mut swap, 100).unwrap();
    assert!(out < 100);
    assert_eq!(swap.token0_vault, 10_000_100);
    let mut wd = WithdrawLiquidity {
        token0_vault: swap.token0_vault,
        token1_vault: swap.token1_vault,
        pool: swap.pool,
    };
    let back = withdraw_liquidity(&mut wd, claims).unwrap();
    assert_eq!((back.amount0, back.amount1), (10_000_100, 10_000_000 - out));
    assert_eq!((wd.token0_vault, wd.token1_vault, wd.pool.liquidity), (0, 0, 0));
}

#[test]
fn non_admin_cannot_set_admin() {
    let settings = AdminSettings { admin: key(1) };
    let mut ctx = AdminSet { admin: key(2), admin_settings: settings };
    assert_eq!(set_admin(&mut ctx, key(2)), Err(CustomError::Unauthorized));
    assert_eq!(ctx.admin_settings.admin, key(1));
}

#[test]
fn second_init_admin_is_refused() {
    let mut ctx = InitAdmin { admin: key(1), admin_settings: None };
    assert_eq!(init_admin(&mut ctx, key(1)), Ok(()));
    assert_eq!(init_admin(&mut ctx, key(7)), Err(CustomError::AlreadyInitialized));
    assert_eq!(ctx.admin_settings.unwrap().admin, key(1));
}

#[test]
fn pool_creation_rules() {
    let settings = AdminSettings { admin: key(1) };
    let mut stranger = PoolCreation {
        admin: key(2),
        token0: key(3),
        token1: key(4),
        admin_settings: settings,
        pool: None,
    };
    assert_eq!(create_pool(&mut stranger), Err(CustomError::Unauthorized));
    assert!(stranger.pool.is_none());

    let mut reversed = PoolCreation {
        admin: key(1),
        token0: key(4),
        token1: key(3),
        admin_settings: settings,
        pool: None,
    };
    assert_eq!(create_pool(&mut reversed), Err(CustomError::InvalidToken));
    let mut same = PoolCreation { token1: key(4), ..reversed };
    assert_eq!(create_pool(&mut same), Err(CustomError::InvalidToken));

    let mut low = [3u8; 32];
    let mut high = [3u8; 32];
    low[31] = 1;
    high[31] = 2;
    let mut ok = PoolCreation {
        admin: key(1),
        token0: Pubkey::new_from_array(low),
        token1: Pubkey::new_from_array(high),
        admin_settings: settings,
        pool: None,
    };
    assert_eq!(create_pool(&mut ok), Ok(()));
    assert_eq!(ok.pool.unwrap().liquidity, 0);
    assert_eq!(create_pool(&mut ok), Err(CustomError::AlreadyInitialized));
}

#[test]
fn key_order_is_lexicographic() {
    let mut a = [0u8; 32];
    let mut b = [0u8; 32];
    a[0] = 1;
    b[1] = 200;
    assert!(Pubkey::new_from_array(b).precedes(&Pubkey::new_from_array(a)));
    assert!(!Pubkey::new_from_array(a).precedes(&Pubkey::new_from_array(b)));
    assert!(!key(5).precedes(&key(5)));
    assert_eq!(key(5).to_bytes(), [5u8; 32]);
}
