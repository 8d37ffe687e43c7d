//! The pool contract: reserves of two tokens, shares in them, and the swaps between them.

use crate::address::Address;
use crate::arith::{is_sqrt, lemma_isqrt_unique, lemma_newton_fits, lemma_newton_start, lemma_newton_step};
use crate::curve::{
    difference, input, mul_div, mul_div_of, output, product, sqrt_of, sum, BPS, PRICE_SCALE,
};
use crate::error::AmmError;
use crate::pool_laws::{
    law_deposit_does_not_dilute, law_swap_keeps_the_product, law_withdrawal_does_not_dilute,
};
use crate::state::{PoolState, Sides};
use vstd::prelude::*;

verus! {

/// A deployed pool contract: its own address, and its storage once it has been initialized.
#[derive(Debug, Clone, Copy, PartialEq, Eq)]
pub struct AmmPool {
    pub address: Address,
    pub state: Option<PoolState>,
}

/// A snapshot of the pool.
#[derive(Debug, Clone, Copy, PartialEq, Eq)]
pub struct PoolInfo {
    pub token_a: Address,
    pub token_b: Address,
    pub reserve_a: i128,
    pub reserve_b: i128,
    pub total_shares: i128,
    pub fee_bps: i128,
}

/// A call that the pool asks for on one of its token contracts.
#[derive(Debug, Clone, Copy, PartialEq, Eq)]
pub enum Call {
    Transfer { token: Address, from: Address, to: Address, amount: i128 },
    Mint { token: Address, to: Address, amount: i128 },
    Burn { token: Address, from: Address, amount: i128 },
}

/// A question that the pool asks of its LP token contract: how much of `token` does `holder` hold?
#[derive(Debug, Clone, Copy, PartialEq, Eq)]
pub struct BalanceQuery {
    pub token: Address,
    pub holder: Address,
}

/// What the pool announces once a call has gone through.
#[derive(Debug, Clone, Copy, PartialEq, Eq)]
pub enum PoolEvent {
    AddLiquidity { provider: Address, amount_a: i128, amount_b: i128, shares: i128 },
    RemoveLiquidity { provider: Address, shares: i128, amount_a: i128, amount_b: i128 },
    Swap { trader: Address, token_in: Address, amount_in: i128, amount_out: i128 },
}

/// An accepted deposit: the shares minted, the token calls that carry it out, in order, and the
/// event to publish after them.
#[derive(Debug, PartialEq, Eq)]
pub struct Deposit {
    pub shares: i128,
    pub calls: Vec<Call>,
    pub event: PoolEvent,
}

/// An accepted withdrawal: the amounts paid out, the token calls that carry it out, in order, and
/// the event to publish after them.
#[derive(Debug, PartialEq, Eq)]
pub struct Withdrawal {
    pub amount_a: i128,
    pub amount_b: i128,
    pub calls: Vec<Call>,
    pub event: PoolEvent,
}

/// An accepted swap: the amount paid out, the token calls that carry it out, in order, and the
/// event to publish after them.
#[derive(Debug, PartialEq, Eq)]
pub struct Swap {
    pub amount_out: i128,
    pub calls: Vec<Call>,
    pub event: PoolEvent,
}

impl AmmPool {
    /// The pool is not set up yet, or is set up as it should be.
    pub open spec fn wf(self) -> bool {
        self.state matches Some(state) ==> state.wf()
    }

    /// Why `initialize` refuses, if it does.
    pub open spec fn initialize_refusal(self, token_a: Address, token_b: Address, fee_bps: i128) -> Option<
        AmmError,
    > {
        if self.state is Some {
            Some(AmmError::AlreadyInitialized { contract: self.address })
        } else if token_a == token_b {
            Some(AmmError::IdenticalTokens { token: token_a })
        } else if fee_bps < 0 || fee_bps > BPS {
            Some(AmmError::InvalidFee { fee_bps })
        } else {
            None
        }
    }

    /// Why `add_liquidity` refuses, if it does.
    pub open spec fn add_liquidity_refusal(
        self,
        signer: Address,
        provider: Address,
        amount_a: i128,
        amount_b: i128,
        min_shares: i128,
    ) -> Option<AmmError> {
        if signer != provider {
            Some(AmmError::Unauthorized { required: provider, signer })
        } else if amount_a <= 0 || amount_b <= 0 {
            Some(AmmError::NonPositiveAmounts { amount_a, amount_b })
        } else {
            match self.state {
                None => Some(AmmError::NotInitialized),
                Some(state) => state.deposit_refusal(amount_a, amount_b, min_shares),
            }
        }
    }

    /// Why `remove_liquidity` refuses, if it does.
    pub open spec fn remove_liquidity_refusal(
        self,
        signer: Address,
        provider: Address,
        owned: i128,
        shares: i128,
        min_a: i128,
        min_b: i128,
    ) -> Option<AmmError> {
        if signer != provider {
            Some(AmmError::Unauthorized { required: provider, signer })
        } else if shares <= 0 {
            Some(AmmError::NonPositiveShares { shares })
        } else {
            match self.state {
                None => Some(AmmError::NotInitialized),
                Some(state) => state.withdrawal_refusal(owned, shares, min_a, min_b),
            }
        }
    }

    /// Why `swap` refuses, if it does.
    pub open spec fn swap_refusal(
        self,
        signer: Address,
        trader: Address,
        token_in: Address,
        amount_in: i128,
        min_out: i128,
    ) -> Option<AmmError> {
        if signer != trader {
            Some(AmmError::Unauthorized { required: trader, signer })
        } else if amount_in <= 0 {
            Some(AmmError::NonPositiveAmountIn { amount_in })
        } else {
            match self.state {
                None => Some(AmmError::NotInitialized),
                Some(state) => state.swap_refusal(token_in, amount_in, min_out),
            }
        }
    }

    /// The reserve of the first token, which is zero before `initialize`.
    pub open spec fn reserve_a(self) -> i128 {
        match self.state {
            Some(state) => state.reserve_a,
            None => 0,
        }
    }

    /// The reserve of the second token, which is zero before `initialize`.
    pub open spec fn reserve_b(self) -> i128 {
        match self.state {
            Some(state) => state.reserve_b,
            None => 0,
        }
    }

    /// The shares outstanding, of which there are none before `initialize`.
    pub open spec fn total_shares(self) -> i128 {
        match self.state {
            Some(state) => state.total_shares,
            None => 0,
        }
    }

    /// The price of each token in terms of the other, scaled by `PRICE_SCALE`, or why there is
    /// none.
    pub open spec fn prices(self) -> Result<(i128, i128), AmmError> {
        let (reserve_a, reserve_b) = (self.reserve_a(), self.reserve_b());
        if reserve_a <= 0 || reserve_b <= 0 {
            Err(AmmError::EmptyPool { reserve_in: reserve_a, reserve_out: reserve_b })
        } else {
            match (
                mul_div_of(reserve_b, PRICE_SCALE, reserve_a),
                mul_div_of(reserve_a, PRICE_SCALE, reserve_b),
            ) {
                (Err(e), _) => Err(e),
                (_, Err(e)) => Err(e),
                (Ok(price_a), Ok(price_b)) => Ok((price_a, price_b)),
            }
        }
    }

    /// The token calls of a deposit: both amounts come in, then the shares are minted.
    pub open spec fn deposit_calls(
        self,
        provider: Address,
        amount_a: i128,
        amount_b: i128,
        shares: i128,
    ) -> Seq<Call> {
        let state = self.state->0;
        seq![
            Call::Transfer {
                token: state.token_a,
                from: provider,
                to: self.address,
                amount: amount_a,
            },
            Call::Transfer {
                token: state.token_b,
                from: provider,
                to: self.address,
                amount: amount_b,
            },
            Call::Mint { token: state.lp_token, to: provider, amount: shares },
        ]
    }

    /// The token calls of a withdrawal: the shares are burned, then both amounts go out.
    pub open spec fn withdrawal_calls(
        self,
        provider: Address,
        shares: i128,
        amount_a: i128,
        amount_b: i128,
    ) -> Seq<Call> {
        let state = self.state->0;
        seq![
            Call::Burn { token: state.lp_token, from: provider, amount: shares },
            Call::Transfer {
                token: state.token_a,
                from: self.address,
                to: provider,
                amount: amount_a,
            },
            Call::Transfer {
                token: state.token_b,
                from: self.address,
                to: provider,
                amount: amount_b,
            },
        ]
    }

    /// The token calls of a swap: `amount_in` comes in, then `amount_out` goes out.
    pub open spec fn swap_calls(
        self,
        trader: Address,
        token_in: Address,
        amount_in: i128,
        amount_out: i128,
    ) -> Seq<Call> {
        let sides = self.state->0.sides_selling(token_in)->0;
        seq![
            Call::Transfer {
                token: token_in,
                from: trader,
                to: self.address,
                amount: amount_in,
            },
            Call::Transfer {
                token: sides.token_out,
                from: self.address,
                to: trader,
                amount: amount_out,
            },
        ]
    }
}

impl PoolEvent {
    /// The name under which the event is published.
    pub fn topic(&self) -> (name: &'static str)
        ensures
            name@ == match self {
                PoolEvent::AddLiquidity { .. } => "add_liquidity"@,
                PoolEvent::RemoveLiquidity { .. } => "rm_liq"@,
                PoolEvent::Swap { .. } => "swap"@,
            },
    {
        match self {
            PoolEvent::AddLiquidity { .. } => "add_liquidity",
            PoolEvent::RemoveLiquidity { .. } => "rm_liq",
            PoolEvent::Swap { .. } => "swap",
        }
    }
}

impl AmmPool {
    /// Set the pool up with two tokens, an LP token, and a swap fee in basis points.
    ///
    /// This can be done once. The LP token contract has to have this contract as its admin, so
    /// that it can mint and burn shares on behalf of liquidity providers.
    pub fn initialize(
        &mut self,
        token_a: Address,
        token_b: Address,
        lp_token: Address,
        fee_bps: i128,
    ) -> (r: Result<(), AmmError>)
        ensures
            match old(self).initialize_refusal(token_a, token_b, fee_bps) {
                Some(refusal) => {
                    &&& r == Err::<(), AmmError>(refusal)
                    &&& *final(self) == *old(self)
                },
                None => {
                    &&& r == Ok::<(), AmmError>(())
                    &&& final(self).address == old(self).address
                    &&& final(self).state == Some(
                        PoolState {
                            token_a,
                            token_b,
                            lp_token,
                            reserve_a: 0,
                            reserve_b: 0,
                            total_shares: 0,
                            fee_bps,
                        },
                    )
                },
            },
            old(self).wf() ==> final(self).wf(),
    {
        if self.state.is_some() {
            return Err(AmmError::AlreadyInitialized { contract: self.address });
        }
        if token_a == token_b {
            return Err(AmmError::IdenticalTokens { token: token_a });
        }
        if fee_bps < 0 || fee_bps > BPS {
            return Err(AmmError::InvalidFee { fee_bps });
        }
        self.state = Some(
            PoolState {
                token_a,
                token_b,
                lp_token,
                reserve_a: 0,
                reserve_b: 0,
                total_shares: 0,
                fee_bps,
            },
        );
        Ok(())
    }

    /// The current spot price of each token in terms of the other, scaled by `PRICE_SCALE`.
    ///
    /// Returns `(price_a, price_b)` where `price_a` is the price of the first token in terms of
    /// the second, and `price_b` the price of the second in terms of the first.
    pub fn price_ratio(&self) -> (r: Result<(i128, i128), AmmError>)
        ensures
            r == self.prices(),
    {
        let reserve_a: i128 = self.get_reserve_a();
        let reserve_b: i128 = self.get_reserve_b();
        if reserve_a <= 0 || reserve_b <= 0 {
            return Err(AmmError::EmptyPool { reserve_in: reserve_a, reserve_out: reserve_b });
        }
        let price_a: i128 = mul_div(reserve_b, PRICE_SCALE, reserve_a)?;
        let price_b: i128 = mul_div(reserve_a, PRICE_SCALE, reserve_b)?;
        Ok((price_a, price_b))
    }

    /// Quote what a swap of `amount_in` of `token_in` would pay out, without making it.
    pub fn get_amount_out(&self, token_in: Address, amount_in: i128) -> (r: Result<i128, AmmError>)
        ensures
            r == match self.state {
                None => Err(AmmError::NotInitialized),
                Some(state) => state.quote_out(token_in, amount_in),
            },
    {
        let state: PoolState = self.state.ok_or(AmmError::NotInitialized)?;
        let sides: Sides = state.selling(token_in).ok_or(
            AmmError::UnknownToken { token: token_in },
        )?;
        if sides.reserve_in <= 0 || sides.reserve_out <= 0 {
            return Err(
                AmmError::EmptyPool {
                    reserve_in: sides.reserve_in,
                    reserve_out: sides.reserve_out,
                },
            );
        }
        output(sides.reserve_in, sides.reserve_out, state.fee_bps, amount_in)
    }

    /// Quote what has to be paid in to receive `amount_out` of `token_out`.
    pub fn get_amount_in(&self, token_out: Address, amount_out: i128) -> (r: Result<i128, AmmError>)
        ensures
            r == match self.state {
                None => Err(AmmError::NotInitialized),
                Some(state) => state.quote_in(token_out, amount_out),
            },
    {
        let state: PoolState = self.state.ok_or(AmmError::NotInitialized)?;
        let sides: Sides = state.buying(token_out).ok_or(
            AmmError::UnknownToken { token: token_out },
        )?;
        if sides.reserve_in <= 0 || sides.reserve_out <= 0 {
            return Err(
                AmmError::EmptyPool {
                    reserve_in: sides.reserve_in,
                    reserve_out: sides.reserve_out,
                },
            );
        }
        if amount_out >= sides.reserve_out {
            return Err(
                AmmError::InsufficientLiquidity { amount_out, reserve_out: sides.reserve_out },
            );
        }
        input(sides.reserve_in, sides.reserve_out, state.fee_bps, amount_out)
    }

    /// A snapshot of the pool.
    pub fn get_info(&self) -> (r: Result<PoolInfo, AmmError>)
        ensures
            r == match self.state {
                None => Err(AmmError::NotInitialized),
                Some(state) => Ok(
                    PoolInfo {
                        token_a: state.token_a,
                        token_b: state.token_b,
                        reserve_a: state.reserve_a,
                        reserve_b: state.reserve_b,
                        total_shares: state.total_shares,
                        fee_bps: state.fee_bps,
                    },
                ),
            },
    {
        let state: PoolState = self.state.ok_or(AmmError::NotInitialized)?;
        Ok(
            PoolInfo {
                token_a: state.token_a,
                token_b: state.token_b,
                reserve_a: self.get_reserve_a(),
                reserve_b: self.get_reserve_b(),
                total_shares: self.get_total_shares(),
                fee_bps: state.fee_bps,
            },
        )
    }

    /// The query whose answer is the number of LP shares that `provider` holds.
    ///
    /// The LP token is the only record of who holds shares, so it is the LP token that is asked.
    pub fn shares_of(&self, provider: Address) -> (r: Result<BalanceQuery, AmmError>)
        ensures
            r == match self.state {
                None => Err(AmmError::NotInitialized),
                Some(state) => Ok(BalanceQuery { token: state.lp_token, holder: provider }),
            },
    {
        let state: PoolState = self.state.ok_or(AmmError::NotInitialized)?;
        Ok(BalanceQuery { token: state.lp_token, holder: provider })
    }

    /// The reserve of the first token.
    fn get_reserve_a(&self) -> (reserve: i128)
        ensures
            reserve == self.reserve_a(),
    {
        match self.state {
            Some(state) => state.reserve_a,
            None => 0,
        }
    }

    /// The reserve of the second token.
    fn get_reserve_b(&self) -> (reserve: i128)
        ensures
            reserve == self.reserve_b(),
    {
        match self.state {
            Some(state) => state.reserve_b,
            None => 0,
        }
    }

    /// The shares outstanding.
    fn get_total_shares(&self) -> (shares: i128)
        ensures
            shares == self.total_shares(),
    {
        match self.state {
            Some(state) => state.total_shares,
            None => 0,
        }
    }
}

impl AmmPool {
    /// Deposit tokens into the pool and receive LP shares in return.
    ///
    /// On the first deposit any ratio is accepted and the initial share supply is set to the
    /// geometric mean of the two amounts. Later deposits are credited with the lesser of what the
    /// two amounts are worth; what one of them is worth beyond that is not refunded.
    ///
    /// `signer` is the address that has authorized the call; it has to be `provider`. A deposit
    /// that would mint fewer than `min_shares` shares is refused.
    pub fn add_liquidity(
        &mut self,
        signer: Address,
        provider: Address,
        amount_a: i128,
        amount_b: i128,
        min_shares: i128,
    ) -> (r: Result<Deposit, AmmError>)
        ensures
            match old(self).add_liquidity_refusal(signer, provider, amount_a, amount_b, min_shares) {
                Some(refusal) => {
                    &&& r == Err::<Deposit, AmmError>(refusal)
                    &&& *final(self) == *old(self)
                },
                None => {
                    let state = old(self).state->0;
                    let shares = state.shares_for(amount_a, amount_b)->Ok_0;
                    &&& r is Ok
                    &&& r->Ok_0.shares == shares
                    &&& r->Ok_0.calls@ == old(self).deposit_calls(
                        provider,
                        amount_a,
                        amount_b,
                        shares,
                    )
                    &&& r->Ok_0.event == (PoolEvent::AddLiquidity {
                        provider,
                        amount_a,
                        amount_b,
                        shares,
                    })
                    &&& final(self).address == old(self).address
                    &&& final(self).state == Some(state.after_deposit(amount_a, amount_b, shares))
                },
            },
            r matches Ok(deposit) ==> {
                &&& signer == provider
                &&& amount_a > 0 && amount_b > 0
                &&& deposit.shares >= 1 && deposit.shares >= min_shares
                &&& final(self).reserve_a() == old(self).reserve_a() + amount_a
                &&& final(self).reserve_b() == old(self).reserve_b() + amount_b
                &&& final(self).total_shares() == old(self).total_shares() + deposit.shares
            },
            old(self).wf() ==> final(self).wf(),
    {
        if signer != provider {
            return Err(AmmError::Unauthorized { required: provider, signer });
        }
        if amount_a <= 0 || amount_b <= 0 {
            return Err(AmmError::NonPositiveAmounts { amount_a, amount_b });
        }
        let state: PoolState = self.state.ok_or(AmmError::NotInitialized)?;
        let shares: i128 = if state.total_shares == 0 {
            let value: i128 = product(amount_a, amount_b)?;
            Self::sqrt(value)?
        } else {
            let shares_a: i128 = mul_div(amount_a, state.total_shares, state.reserve_a)?;
            let shares_b: i128 = mul_div(amount_b, state.total_shares, state.reserve_b)?;
            if shares_a <= shares_b {
                shares_a
            } else {
                shares_b
            }
        };
        if shares <= 0 {
            return Err(AmmError::ZeroShares);
        }
        if shares < min_shares {
            return Err(AmmError::SharesBelowMinimum { shares, min_shares });
        }
        let reserve_a: i128 = sum(state.reserve_a, amount_a)?;
        let reserve_b: i128 = sum(state.reserve_b, amount_b)?;
        let total_shares: i128 = sum(state.total_shares, shares)?;
        proof {
            if state.wf() {
                law_deposit_does_not_dilute(state, amount_a, amount_b, min_shares);
            }
        }
        self.state = Some(PoolState { reserve_a, reserve_b, total_shares, ..state });
        let calls: Vec<Call> = vec![
            Call::Transfer {
                token: state.token_a,
                from: provider,
                to: self.address,
                amount: amount_a,
            },
            Call::Transfer {
                token: state.token_b,
                from: provider,
                to: self.address,
                amount: amount_b,
            },
            Call::Mint { token: state.lp_token, to: provider, amount: shares },
        ];
        Ok(
            Deposit {
                shares,
                calls,
                event: PoolEvent::AddLiquidity { provider, amount_a, amount_b, shares },
            },
        )
    }

    /// Withdraw liquidity from the pool by burning LP shares.
    ///
    /// Burns exactly `shares` LP tokens held by `provider` and pays out the part
    /// `shares / total_shares` of both reserves, rounded down.
    ///
    /// `signer` is the address that has authorized the call; it has to be `provider`. `owned` is
    /// the answer of the LP token to the query of `shares_of(provider)`. A withdrawal that would
    /// pay out less than `min_a` or `min_b` is refused.
    ///
    /// Nobody owns more shares than there are as long as this contract alone mints and burns the LP
    /// token. The pool does not look into that: it pays out by the formula whatever is owned.
    pub fn remove_liquidity(
        &mut self,
        signer: Address,
        provider: Address,
        owned: i128,
        shares: i128,
        min_a: i128,
        min_b: i128,
    ) -> (r: Result<Withdrawal, AmmError>)
        ensures
            match old(self).remove_liquidity_refusal(
                signer,
                provider,
                owned,
                shares,
                min_a,
                min_b,
            ) {
                Some(refusal) => {
                    &&& r == Err::<Withdrawal, AmmError>(refusal)
                    &&& *final(self) == *old(self)
                },
                None => {
                    let state = old(self).state->0;
                    let (amount_a, amount_b) = state.amounts_for(shares)->Ok_0;
                    &&& r is Ok
                    &&& r->Ok_0.amount_a == amount_a
                    &&& r->Ok_0.amount_b == amount_b
                    &&& r->Ok_0.calls@ == old(self).withdrawal_calls(
                        provider,
                        shares,
                        amount_a,
                        amount_b,
                    )
                    &&& r->Ok_0.event == (PoolEvent::RemoveLiquidity {
                        provider,
                        shares,
                        amount_a,
                        amount_b,
                    })
                    &&& final(self).address == old(self).address
                    &&& final(self).state == Some(
                        state.after_withdrawal(shares, amount_a, amount_b),
                    )
                },
            },
            r matches Ok(withdrawal) ==> {
                &&& signer == provider
                &&& 0 < shares <= owned
                &&& withdrawal.amount_a >= min_a && withdrawal.amount_b >= min_b
                &&& final(self).reserve_a() == old(self).reserve_a() - withdrawal.amount_a
                &&& final(self).reserve_b() == old(self).reserve_b() - withdrawal.amount_b
                &&& final(self).total_shares() == old(self).total_shares() - shares
            },
            old(self).wf() && shares <= old(self).total_shares() ==> final(self).wf(),
    {
        if signer != provider {
            return Err(AmmError::Unauthorized { required: provider, signer });
        }
        if shares <= 0 {
            return Err(AmmError::NonPositiveShares { shares });
        }
        let state: PoolState = self.state.ok_or(AmmError::NotInitialized)?;
        if owned < shares {
            return Err(AmmError::InsufficientShares { owned, requested: shares });
        }
        let amount_a: i128 = mul_div(shares, state.reserve_a, state.total_shares)?;
        let amount_b: i128 = mul_div(shares, state.reserve_b, state.total_shares)?;
        if amount_a < min_a {
            return Err(AmmError::AmountABelowMinimum { amount_a, min_a });
        }
        if amount_b < min_b {
            return Err(AmmError::AmountBBelowMinimum { amount_b, min_b });
        }
        let reserve_a: i128 = difference(state.reserve_a, amount_a)?;
        let reserve_b: i128 = difference(state.reserve_b, amount_b)?;
        let total_shares: i128 = difference(state.total_shares, shares)?;
        proof {
            if state.wf() && shares <= state.total_shares {
                law_withdrawal_does_not_dilute(state, owned, shares, min_a, min_b);
            }
        }
        self.state = Some(PoolState { reserve_a, reserve_b, total_shares, ..state });
        let calls: Vec<Call> = vec![
            Call::Burn { token: state.lp_token, from: provider, amount: shares },
            Call::Transfer {
                token: state.token_a,
                from: self.address,
                to: provider,
                amount: amount_a,
            },
            Call::Transfer {
                token: state.token_b,
                from: self.address,
                to: provider,
                amount: amount_b,
            },
        ];
        Ok(
            Withdrawal {
                amount_a,
                amount_b,
                calls,
                event: PoolEvent::RemoveLiquidity { provider, shares, amount_a, amount_b },
            },
        )
    }

    /// Swap an exact amount of one pool token for the other.
    ///
    /// Takes `amount_in` of `token_in` from `trader` and pays out the other token along the curve
    /// `x * y = k`, with the pool fee deducted from `amount_in` before the calculation.
    ///
    /// `signer` is the address that has authorized the call; it has to be `trader`. A swap that
    /// would pay out less than `min_out` is refused.
    pub fn swap(
        &mut self,
        signer: Address,
        trader: Address,
        token_in: Address,
        amount_in: i128,
        min_out: i128,
    ) -> (r: Result<Swap, AmmError>)
        ensures
            match old(self).swap_refusal(signer, trader, token_in, amount_in, min_out) {
                Some(refusal) => {
                    &&& r == Err::<Swap, AmmError>(refusal)
                    &&& *final(self) == *old(self)
                },
                None => {
                    let state = old(self).state->0;
                    let amount_out = state.quote_out(token_in, amount_in)->Ok_0;
                    &&& r is Ok
                    &&& r->Ok_0.amount_out == amount_out
                    &&& r->Ok_0.calls@ == old(self).swap_calls(
                        trader,
                        token_in,
                        amount_in,
                        amount_out,
                    )
                    &&& r->Ok_0.event == (PoolEvent::Swap {
                        trader,
                        token_in,
                        amount_in,
                        amount_out,
                    })
                    &&& final(self).address == old(self).address
                    &&& final(self).state == Some(
                        state.after_swap(token_in, amount_in, amount_out),
                    )
                },
            },
            r matches Ok(swap) ==> {
                let (from, to) = (*old(self), *final(self));
                let out = swap.amount_out;
                &&& signer == trader
                &&& amount_in > 0
                &&& out >= min_out
                &&& to.total_shares() == from.total_shares()
                &&& token_in == from.state->0.token_a || token_in == from.state->0.token_b
                &&& token_in == from.state->0.token_a ==> to.reserve_a() == from.reserve_a()
                    + amount_in && to.reserve_b() == from.reserve_b() - out
                &&& token_in != from.state->0.token_a ==> to.reserve_b() == from.reserve_b()
                    + amount_in && to.reserve_a() == from.reserve_a() - out
            },
            old(self).wf() ==> final(self).wf(),
    {
        if signer != trader {
            return Err(AmmError::Unauthorized { required: trader, signer });
        }
        if amount_in <= 0 {
            return Err(AmmError::NonPositiveAmountIn { amount_in });
        }
        let state: PoolState = self.state.ok_or(AmmError::NotInitialized)?;
        let sides: Sides = state.selling(token_in).ok_or(
            AmmError::UnknownToken { token: token_in },
        )?;
        if sides.reserve_in <= 0 || sides.reserve_out <= 0 {
            return Err(
                AmmError::EmptyPool {
                    reserve_in: sides.reserve_in,
                    reserve_out: sides.reserve_out,
                },
            );
        }
        let amount_out: i128 = output(
            sides.reserve_in,
            sides.reserve_out,
            state.fee_bps,
            amount_in,
        )?;
        if amount_out < min_out {
            return Err(AmmError::OutputBelowMinimum { amount_out, min_out });
        }
        if amount_out >= sides.reserve_out {
            return Err(
                AmmError::InsufficientLiquidity { amount_out, reserve_out: sides.reserve_out },
            );
        }
        let reserve_in: i128 = sum(sides.reserve_in, amount_in)?;
        let reserve_out: i128 = difference(sides.reserve_out, amount_out)?;
        proof {
            if state.wf() {
                law_swap_keeps_the_product(state, token_in, amount_in, min_out);
            }
        }
        self.state = Some(
            if token_in == state.token_a {
                PoolState { reserve_a: reserve_in, reserve_b: reserve_out, ..state }
            } else {
                PoolState { reserve_a: reserve_out, reserve_b: reserve_in, ..state }
            },
        );
        let calls: Vec<Call> = vec![
            Call::Transfer {
                token: token_in,
                from: trader,
                to: self.address,
                amount: amount_in,
            },
            Call::Transfer {
                token: sides.token_out,
                from: self.address,
                to: trader,
                amount: amount_out,
            },
        ];
        Ok(
            Swap {
                amount_out,
                calls,
                event: PoolEvent::Swap { trader, token_in, amount_in, amount_out },
            },
        )
    }
}

impl AmmPool {
    /// Integer square root via Newton's method.
    pub fn sqrt(n: i128) -> (root: Result<i128, AmmError>)
        ensures
            root == sqrt_of(n),
            root matches Ok(r) ==> is_sqrt(n as int, r as int),
    {
        if n < 0 {
            return Err(AmmError::NegativeSquareRoot { n });
        }
        if n == 0 {
            proof {
                lemma_isqrt_unique(0, 0);
            }
            return Ok(0);
        }
        let mut x: i128 = n;
        let mut y: i128 = n - n / 2;
        proof {
            vstd::arithmetic::div_mod::lemma_div_by_self(n as int);
            lemma_newton_step(n as int, x as int);
            assert(n < (n + 1) * (n + 1)) by (nonlinear_arith)
                requires
                    n > 0,
            ;
        }
        while y < x
            invariant
                0 < n,
                0 < x <= n,
                y == (x + n as int / x as int) / 2,
                n < (y + 1) * (y + 1),
                n < (x + 1) * (x + 1),
            decreases x,
        {
            proof {
                vstd::arithmetic::div_mod::lemma_div_pos_is_pos(n as int, x as int);
                lemma_newton_start(n as int, y as int);
                lemma_newton_step(n as int, y as int);
                lemma_newton_fits(n as int, y as int);
            }
            x = y;
            y = (x + n / x) / 2;
        }
        proof {
            let q = n as int / x as int;
            vstd::arithmetic::div_mod::lemma_fundamental_div_mod(n as int, x as int);
            assert(x * x <= n) by (nonlinear_arith)
                requires
                    q >= x,
                    x > 0,
                    n == x * q + n as int % x as int,
                    n as int % x as int >= 0,
            ;
            lemma_isqrt_unique(n as int, x as int);
        }
        Ok(x)
    }
}

} // verus!
