use vstd::prelude::*;

verus! {

/// The ways an instruction of the market maker can be rejected. A rejected
/// instruction changes nothing.
#[derive(Debug, Clone, Copy, PartialEq, Eq, Structural)]
pub enum CustomError {
    /// The caller is not the admin recorded in the admin settings.
    Unauthorized,
    /// The two assets of a deposit have different decimal precision.
    DecimalsNotEqual,
    /// A computed claim amount is zero, or a swap meets an empty input reserve,
    /// or a withdrawal asks for more claims than are outstanding.
    InvalidLiquidity,
    /// An intermediate fixed-point value or a balance left its range, or a
    /// division met a zero divisor.
    MathOverflow,
    /// A deposit or withdrawal asked for zero of something.
    ZeroAmount,
    /// The record that an initialization would create already exists.
    AlreadyInitialized,
    /// An asset does not belong to the pool, or a pair is not in canonical order.
    InvalidToken,
}

} // verus!
