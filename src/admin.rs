use crate::error::CustomError;
use crate::state::{key_lt, AdminSettings, Pool, Pubkey};
use vstd::prelude::*;

verus! {

/// What the first admin assignment reads and writes: the payer and the admin
/// record, which is `None` until it has been created.
#[derive(Debug, Clone, Copy)]
pub struct InitAdmin {
    pub admin: Pubkey,
    pub admin_settings: Option<AdminSettings>,
}

/// What an admin transfer reads and writes: the signer and the admin record.
#[derive(Debug, Clone, Copy)]
pub struct AdminSet {
    pub admin: Pubkey,
    pub admin_settings: AdminSettings,
}

/// What pool creation reads and writes: the signer, the two assets, the admin
/// record, and the pool record for the pair, `None` until it is created.
#[derive(Debug, Clone, Copy)]
pub struct PoolCreation {
    pub admin: Pubkey,
    pub token0: Pubkey,
    pub token1: Pubkey,
    pub admin_settings: AdminSettings,
    pub pool: Option<Pool>,
}

/// The admin record is created once: a second creation is refused and the
/// first admin stays.
pub open spec fn init_admin_outcome(ctx: InitAdmin, new_admin: Pubkey) -> (
    InitAdmin,
    Result<(), CustomError>,
) {
    match ctx.admin_settings {
        Some(_) => (ctx, Err(CustomError::AlreadyInitialized)),
        None => (InitAdmin { admin_settings: Some(AdminSettings { admin: new_admin }), ..ctx }, Ok(())),
    }
}

/// Only the current admin can hand the role on; anyone else is refused and
/// the record stays.
pub open spec fn set_admin_outcome(ctx: AdminSet, new_admin: Pubkey) -> (
    AdminSet,
    Result<(), CustomError>,
) {
    if ctx.admin@ != ctx.admin_settings.admin@ {
        (ctx, Err(CustomError::Unauthorized))
    } else {
        (AdminSet { admin_settings: AdminSettings { admin: new_admin }, ..ctx }, Ok(()))
    }
}

/// Only the admin creates pools, only for a pair in canonical order, and only
/// once per pair; a new pool starts with no claims outstanding.
pub open spec fn create_pool_outcome(ctx: PoolCreation) -> (PoolCreation, Result<(), CustomError>) {
    if ctx.admin@ != ctx.admin_settings.admin@ {
        (ctx, Err(CustomError::Unauthorized))
    } else if !key_lt(ctx.token0@, ctx.token1@) {
        (ctx, Err(CustomError::InvalidToken))
    } else if ctx.pool is Some {
        (ctx, Err(CustomError::AlreadyInitialized))
    } else {
        (
            PoolCreation {
                pool: Some(Pool { token0: ctx.token0, token1: ctx.token1, liquidity: 0 }),
                ..ctx
            },
            Ok(()),
        )
    }
}

/// Creates the admin record with `new_admin` in it.
pub fn init_admin(ctx: &mut InitAdmin, new_admin: Pubkey) -> (r: Result<(), CustomError>)
    ensures
        (*final(ctx), r) == init_admin_outcome(*old(ctx), new_admin),
{
    if ctx.admin_settings.is_some() {
        return Err(CustomError::AlreadyInitialized);
    }
    ctx.admin_settings = Some(AdminSettings { admin: new_admin });
    Ok(())
}

/// Hands the admin role to `new_admin`; the signer must be the current admin.
pub fn set_admin(ctx: &mut AdminSet, new_admin: Pubkey) -> (r: Result<(), CustomError>)
    ensures
        (*final(ctx), r) == set_admin_outcome(*old(ctx), new_admin),
{
    if ctx.admin != ctx.admin_settings.admin {
        return Err(CustomError::Unauthorized);
    }
    ctx.admin_settings = AdminSettings { admin: new_admin };
    Ok(())
}

/// Creates the empty pool for `(token0, token1)`.
pub fn create_pool(ctx: &mut PoolCreation) -> (r: Result<(), CustomError>)
    ensures
        (*final(ctx), r) == create_pool_outcome(*old(ctx)),
{
    if ctx.admin != ctx.admin_settings.admin {
        return Err(CustomError::Unauthorized);
    }
    if !ctx.token0.precedes(&ctx.token1) {
        return Err(CustomError::InvalidToken);
    }
    if ctx.pool.is_some() {
        return Err(CustomError::AlreadyInitialized);
    }
    ctx.pool = Some(Pool { token0: ctx.token0, token1: ctx.token1, liquidity: 0 });
    Ok(())
}

} // verus!
