//! The reasons for which a pool refuses a call.

use crate::address::Address;
use vstd::prelude::*;

verus! {

/// Why a pool refuses a call.
#[derive(Debug, Clone, Copy, PartialEq, Eq)]
pub enum AmmError {
    AlreadyInitialized { contract: Address },
    IdenticalTokens { token: Address },
    InvalidFee { fee_bps: i128 },
    NotInitialized,
    Unauthorized { required: Address, signer: Address },
    NonPositiveAmounts { amount_a: i128, amount_b: i128 },
    NonPositiveShares { shares: i128 },
    NonPositiveAmountIn { amount_in: i128 },
    ZeroShares,
    SharesBelowMinimum { shares: i128, min_shares: i128 },
    InsufficientShares { owned: i128, requested: i128 },
    AmountABelowMinimum { amount_a: i128, min_a: i128 },
    AmountBBelowMinimum { amount_b: i128, min_b: i128 },
    UnknownToken { token: Address },
    EmptyPool { reserve_in: i128, reserve_out: i128 },
    OutputBelowMinimum { amount_out: i128, min_out: i128 },
    InsufficientLiquidity { amount_out: i128, reserve_out: i128 },
    NegativeSquareRoot { n: i128 },
    Overflow,
    DivisionByZero,
}

} // verus!
