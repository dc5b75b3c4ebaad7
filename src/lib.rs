//! Verified core of a two-asset constant-product market maker: claim-token
//! issuance on deposit, pro-rata release on withdrawal, exact-input swaps and
//! the single-admin gate, computed over `I64F64` fixed-point values.

pub mod admin;
pub mod amm;
pub mod curve;
pub mod engine;
pub mod error;
mod fixed_point;
pub mod laws;
pub mod liquidity;
pub mod state;
pub mod swap;

pub use admin::{create_pool, init_admin, set_admin, AdminSet, InitAdmin, PoolCreation};
pub use engine::{Deposited, Withdrawn};
pub use error::CustomError;
pub use liquidity::{deposit, withdraw_liquidity, DepositLiquidity, WithdrawLiquidity};
pub use state::{AdminSettings, Pool, Pubkey};
pub use swap::{swapExactInput, SwapExactInput};
