use vstd::prelude::*;

verus! {

/// Errors reported by the engine.
#[derive(Clone, Copy, Debug, PartialEq, Eq, Structural)]
pub enum ErrorCode {
    /// An exchange id must be exactly six bytes long.
    UuidMustBeExactly6Length,
    /// Parallel input vectors have different lengths.
    LengthMismatch,
    /// The rows of a matrix do not all have the same length.
    RaggedMatrix,
    /// A computation that needs at least one instrument or scenario got none.
    EmptyInput,
    /// A result does not fit the fixed-point integer type.
    Overflow,
    /// The operation is not allowed in the current state of the cycle.
    WrongState,
    /// An instrument has expired.
    InstrumentExpired,
    /// An instrument is not known to the account or exchange.
    InstrumentNotFound,
    /// A supplied oracle account is not the trusted one.
    IncorrectOracleAccount,
    /// Available collateral does not cover the margin requirement.
    InsufficientMargin,
    /// The signer does not own the account.
    UnauthorizedAccount,
    /// The token account is not the user's margin account.
    UnauthorizedTokenVault,
    /// The withdrawal would leave less than the reserved margin.
    InsufficientFund,
    /// The user is under liquidation and may not place orders.
    CannotPlaceOrdersInLiquidation,
}

} // verus!
