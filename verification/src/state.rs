//! The storage of a pool that has been set up, and what each operation makes of it.

use crate::address::Address;
use crate::arith::fits;
use crate::curve::{input_of, mul_div_of, output_of, sqrt_of, BPS};
use crate::error::AmmError;
use vstd::prelude::*;

verus! {

/// What a pool that has been set up keeps in storage.
#[derive(Debug, Clone, Copy, PartialEq, Eq)]
pub struct PoolState {
    pub token_a: Address,
    pub token_b: Address,
    pub lp_token: Address,
    pub reserve_a: i128,
    pub reserve_b: i128,
    pub total_shares: i128,
    /// The swap fee in basis points, e.g. 30 = 0.30 %.
    pub fee_bps: i128,
}

/// The two sides of a swap.
#[derive(Debug, Clone, Copy, PartialEq, Eq)]
pub struct Sides {
    pub token_in: Address,
    pub token_out: Address,
    pub reserve_in: i128,
    pub reserve_out: i128,
}

impl PoolState {
    /// The tokens differ, the fee is a fraction, and the pool is either empty or has reserves of
    /// both tokens and shares in them.
    pub open spec fn wf(self) -> bool {
        &&& self.token_a != self.token_b
        &&& 0 <= self.fee_bps <= BPS
        &&& {
            ||| self.reserve_a == 0 && self.reserve_b == 0 && self.total_shares == 0
            ||| self.reserve_a > 0 && self.reserve_b > 0 && self.total_shares > 0
        }
    }

    /// The product of the reserves.
    pub open spec fn k(self) -> int {
        self.reserve_a * self.reserve_b
    }

    /// The sides of a swap that sells `token_in`.
    pub open spec fn sides_selling(self, token_in: Address) -> Option<Sides> {
        if token_in == self.token_a {
            Some(
                Sides {
                    token_in,
                    token_out: self.token_b,
                    reserve_in: self.reserve_a,
                    reserve_out: self.reserve_b,
                },
            )
        } else if token_in == self.token_b {
            Some(
                Sides {
                    token_in,
                    token_out: self.token_a,
                    reserve_in: self.reserve_b,
                    reserve_out: self.reserve_a,
                },
            )
        } else {
            None
        }
    }

    /// The sides of a swap that buys `token_out`.
    pub open spec fn sides_buying(self, token_out: Address) -> Option<Sides> {
        if token_out == self.token_a {
            Some(
                Sides {
                    token_in: self.token_b,
                    token_out,
                    reserve_in: self.reserve_b,
                    reserve_out: self.reserve_a,
                },
            )
        } else if token_out == self.token_b {
            Some(
                Sides {
                    token_in: self.token_a,
                    token_out,
                    reserve_in: self.reserve_a,
                    reserve_out: self.reserve_b,
                },
            )
        } else {
            None
        }
    }

    /// The shares that a deposit is worth: the geometric mean of the amounts in a pool without
    /// shares, and otherwise the lesser of what each amount is worth in its own reserve.
    pub open spec fn shares_for(self, amount_a: i128, amount_b: i128) -> Result<i128, AmmError> {
        if self.total_shares == 0 {
            if fits(amount_a * amount_b) {
                sqrt_of((amount_a * amount_b) as i128)
            } else {
                Err(AmmError::Overflow)
            }
        } else {
            match (
                mul_div_of(amount_a, self.total_shares, self.reserve_a),
                mul_div_of(amount_b, self.total_shares, self.reserve_b),
            ) {
                (Err(e), _) => Err(e),
                (_, Err(e)) => Err(e),
                (Ok(shares_a), Ok(shares_b)) => Ok(
                    if shares_a <= shares_b {
                        shares_a
                    } else {
                        shares_b
                    },
                ),
            }
        }
    }

    /// The amounts of both tokens that `shares` are worth.
    pub open spec fn amounts_for(self, shares: i128) -> Result<(i128, i128), AmmError> {
        match (
            mul_div_of(shares, self.reserve_a, self.total_shares),
            mul_div_of(shares, self.reserve_b, self.total_shares),
        ) {
            (Err(e), _) => Err(e),
            (_, Err(e)) => Err(e),
            (Ok(amount_a), Ok(amount_b)) => Ok((amount_a, amount_b)),
        }
    }

    /// The pool after a deposit.
    pub open spec fn after_deposit(self, amount_a: i128, amount_b: i128, shares: i128) -> PoolState {
        PoolState {
            reserve_a: (self.reserve_a + amount_a) as i128,
            reserve_b: (self.reserve_b + amount_b) as i128,
            total_shares: (self.total_shares + shares) as i128,
            ..self
        }
    }

    /// The pool after a withdrawal.
    pub open spec fn after_withdrawal(self, shares: i128, amount_a: i128, amount_b: i128) -> PoolState {
        PoolState {
            reserve_a: (self.reserve_a - amount_a) as i128,
            reserve_b: (self.reserve_b - amount_b) as i128,
            total_shares: (self.total_shares - shares) as i128,
            ..self
        }
    }

    /// The pool after a swap that sells `token_in`.
    pub open spec fn after_swap(self, token_in: Address, amount_in: i128, amount_out: i128) -> PoolState {
        if token_in == self.token_a {
            PoolState {
                reserve_a: (self.reserve_a + amount_in) as i128,
                reserve_b: (self.reserve_b - amount_out) as i128,
                ..self
            }
        } else {
            PoolState {
                reserve_a: (self.reserve_a - amount_out) as i128,
                reserve_b: (self.reserve_b + amount_in) as i128,
                ..self
            }
        }
    }

    /// Why a deposit is refused, if it is.
    pub open spec fn deposit_refusal(self, amount_a: i128, amount_b: i128, min_shares: i128) -> Option<
        AmmError,
    > {
        match self.shares_for(amount_a, amount_b) {
            Err(e) => Some(e),
            Ok(shares) => if shares <= 0 {
                Some(AmmError::ZeroShares)
            } else if shares < min_shares {
                Some(AmmError::SharesBelowMinimum { shares, min_shares })
            } else if !fits(self.reserve_a + amount_a) || !fits(self.reserve_b + amount_b) || !fits(
                self.total_shares + shares,
            ) {
                Some(AmmError::Overflow)
            } else {
                None
            },
        }
    }

    /// Why a withdrawal by a provider who owns `owned` shares is refused, if it is.
    pub open spec fn withdrawal_refusal(self, owned: i128, shares: i128, min_a: i128, min_b: i128) -> Option<
        AmmError,
    > {
        if owned < shares {
            Some(AmmError::InsufficientShares { owned, requested: shares })
        } else {
            match self.amounts_for(shares) {
                Err(e) => Some(e),
                Ok((amount_a, amount_b)) => if amount_a < min_a {
                    Some(AmmError::AmountABelowMinimum { amount_a, min_a })
                } else if amount_b < min_b {
                    Some(AmmError::AmountBBelowMinimum { amount_b, min_b })
                } else if !fits(self.reserve_a - amount_a) || !fits(self.reserve_b - amount_b)
                    || !fits(self.total_shares - shares) {
                    Some(AmmError::Overflow)
                } else {
                    None
                },
            }
        }
    }

    /// What a swap of `amount_in` of `token_in` is quoted at, or why there is no quote.
    pub open spec fn quote_out(self, token_in: Address, amount_in: i128) -> Result<i128, AmmError> {
        match self.sides_selling(token_in) {
            None => Err(AmmError::UnknownToken { token: token_in }),
            Some(sides) => if sides.reserve_in <= 0 || sides.reserve_out <= 0 {
                Err(
                    AmmError::EmptyPool {
                        reserve_in: sides.reserve_in,
                        reserve_out: sides.reserve_out,
                    },
                )
            } else {
                output_of(sides.reserve_in, sides.reserve_out, self.fee_bps, amount_in)
            },
        }
    }

    /// What `amount_out` of `token_out` is quoted to cost, or why there is no quote.
    pub open spec fn quote_in(self, token_out: Address, amount_out: i128) -> Result<i128, AmmError> {
        match self.sides_buying(token_out) {
            None => Err(AmmError::UnknownToken { token: token_out }),
            Some(sides) => if sides.reserve_in <= 0 || sides.reserve_out <= 0 {
                Err(
                    AmmError::EmptyPool {
                        reserve_in: sides.reserve_in,
                        reserve_out: sides.reserve_out,
                    },
                )
            } else if amount_out >= sides.reserve_out {
                Err(
                    AmmError::InsufficientLiquidity { amount_out, reserve_out: sides.reserve_out },
                )
            } else {
                input_of(sides.reserve_in, sides.reserve_out, self.fee_bps, amount_out)
            },
        }
    }

    /// Why a swap is refused, if it is.
    pub open spec fn swap_refusal(self, token_in: Address, amount_in: i128, min_out: i128) -> Option<
        AmmError,
    > {
        match self.quote_out(token_in, amount_in) {
            Err(e) => Some(e),
            Ok(amount_out) => {
                let sides = self.sides_selling(token_in)->0;
                if amount_out < min_out {
                    Some(AmmError::OutputBelowMinimum { amount_out, min_out })
                } else if amount_out >= sides.reserve_out {
                    Some(
                        AmmError::InsufficientLiquidity {
                            amount_out,
                            reserve_out: sides.reserve_out,
                        },
                    )
                } else if !fits(sides.reserve_in + amount_in) || !fits(
                    sides.reserve_out - amount_out,
                ) {
                    Some(AmmError::Overflow)
                } else {
                    None
                }
            },
        }
    }
}

impl PoolState {
    /// The sides of a swap that sells `token_in`, if it is one of the two tokens.
    pub(crate) fn selling(&self, token_in: Address) -> (sides: Option<Sides>)
        ensures
            sides == self.sides_selling(token_in),
    {
        if token_in == self.token_a {
            Some(
                Sides {
                    token_in,
                    token_out: self.token_b,
                    reserve_in: self.reserve_a,
                    reserve_out: self.reserve_b,
                },
            )
        } else if token_in == self.token_b {
            Some(
                Sides {
                    token_in,
                    token_out: self.token_a,
                    reserve_in: self.reserve_b,
                    reserve_out: self.reserve_a,
                },
            )
        } else {
            None
        }
    }

    /// The sides of a swap that buys `token_out`, if it is one of the two tokens.
    pub(crate) fn buying(&self, token_out: Address) -> (sides: Option<Sides>)
        ensures
            sides == self.sides_buying(token_out),
    {
        if token_out == self.token_a {
            Some(
                Sides {
                    token_in: self.token_b,
                    token_out,
                    reserve_in: self.reserve_b,
                    reserve_out: self.reserve_a,
                },
            )
        } else if token_out == self.token_b {
            Some(
                Sides {
                    token_in: self.token_a,
                    token_out,
                    reserve_in: self.reserve_a,
                    reserve_out: self.reserve_b,
                },
            )
        } else {
            None
        }
    }
}

} // verus!
