//! When each operation of a pool succeeds, and what it then comes to, as relations between the
//! numbers that go in and those that come out.

use crate::address::Address;
use crate::arith::{is_sqrt, isqrt, lemma_isqrt_exists, lemma_isqrt_unique, quotient};
use crate::curve::sqrt_of;
use crate::error::AmmError;
use crate::pool::AmmPool;
use crate::state::PoolState;
use vstd::prelude::*;

verus! {

/// Whether there is room for `x` in an `i128`.
pub open spec fn has_room(x: int) -> bool {
    i128::MIN <= x <= i128::MAX
}

/// Whether `q` is what dividing `a` by `b` gives when it is cut off toward zero: the rest is
/// smaller than `b`, and is not on the other side of zero than `a`.
pub open spec fn divides_to(a: int, b: int, q: int) -> bool {
    let rest = a - q * b;
    &&& -b < rest < b || b < rest < -b
    &&& a >= 0 ==> rest >= 0
    &&& a <= 0 ==> rest <= 0
}

/// A quotient leaves a rest that is smaller than the divisor.
proof fn lemma_quotient_divides(a: int, b: int)
    requires
        b != 0,
    ensures
        divides_to(a, b, quotient(a, b)),
{
    let m = if a < 0 { -a } else { a };
    let d = if b < 0 { -b } else { b };
    let k = m / d;
    vstd::arithmetic::div_mod::lemma_fundamental_div_mod(m, d);
    vstd::arithmetic::div_mod::lemma_mod_bound(m, d);
    let q = quotient(a, b);
    assert(k * d == d * k) by (nonlinear_arith);
    assert(q * b == if a < 0 { -(k * d) } else { k * d }) by (nonlinear_arith)
        requires
            d == if b < 0 { -b } else { b },
            q == if (a < 0) == (b < 0) { k } else { -k },
    ;
}

/// Division by anything but zero has an answer.
pub proof fn law_division_has_an_answer(a: int, b: int)
    requires
        b != 0,
    ensures
        exists|q: int| divides_to(a, b, q),
{
    lemma_quotient_divides(a, b);
}

/// There is only one such quotient.
proof fn lemma_quotient_unique(a: int, b: int, q: int)
    requires
        b != 0,
    ensures
        divides_to(a, b, q) <==> q == quotient(a, b),
{
    lemma_quotient_divides(a, b);
    let p = quotient(a, b);
    if divides_to(a, b, q) && q != p {
        let gap = (a - p * b) - (a - q * b);
        assert(gap == (q - p) * b) by (nonlinear_arith)
            requires
                gap == (a - p * b) - (a - q * b),
        ;
        assert(b > 0 ==> gap <= -b || gap >= b) by (nonlinear_arith)
            requires
                gap == (q - p) * b,
                q != p,
        ;
        assert(b < 0 ==> gap <= b || gap >= -b) by (nonlinear_arith)
            requires
                gap == (q - p) * b,
                q != p,
        ;
        assert(false);
    }
}

/// `initialize` succeeds exactly on a pool that is not set up, with two tokens that differ and a fee
/// from 0 to 10_000 basis points, both of them included. Otherwise the first of these that fails is
/// what it is refused for.
pub proof fn law_initialize_is_exact(
    pool: AmmPool,
    token_a: Address,
    token_b: Address,
    fee_bps: i128,
)
    ensures
        ({
            let refusal = pool.initialize_refusal(token_a, token_b, fee_bps);
            let fresh = pool.state is None;
            let sound = 0 <= fee_bps <= 10_000;
            &&& refusal is None <==> fresh && token_a != token_b && sound
            &&& refusal == Some(AmmError::AlreadyInitialized { contract: pool.address })
                <==> !fresh
            &&& refusal == Some(AmmError::IdenticalTokens { token: token_a }) <==> fresh && token_a
                == token_b
            &&& refusal == Some(AmmError::InvalidFee { fee_bps }) <==> fresh && token_a != token_b
                && !sound
        }),
{
}

/// Before a deposit is weighed, the provider has to have authorized it, both amounts have to be
/// positive, and the pool has to be set up. Nothing else is asked.
pub proof fn law_deposit_is_open_to_providers(
    pool: AmmPool,
    signer: Address,
    provider: Address,
    amount_a: i128,
    amount_b: i128,
    min_shares: i128,
)
    ensures
        ({
            let refusal = pool.add_liquidity_refusal(
                signer,
                provider,
                amount_a,
                amount_b,
                min_shares,
            );
            let signed = signer == provider;
            let positive = amount_a > 0 && amount_b > 0;
            &&& refusal == Some(AmmError::Unauthorized { required: provider, signer }) <==> !signed
            &&& refusal == Some(AmmError::NonPositiveAmounts { amount_a, amount_b }) <==> signed
                && !positive
            &&& signed && positive && pool.state is None ==> refusal == Some(
                AmmError::NotInitialized,
            )
            &&& signed && positive && pool.state is Some ==> refusal
                == pool.state->0.deposit_refusal(amount_a, amount_b, min_shares)
        }),
{
    if let Some(state) = pool.state {
        lemma_deposit_errors(state, amount_a, amount_b, min_shares);
    }
}

/// A deposit is weighed only by its shares, their minimum and the room for the sums.
proof fn lemma_deposit_errors(
    state: PoolState,
    amount_a: i128,
    amount_b: i128,
    min_shares: i128,
)
    ensures
        state.deposit_refusal(amount_a, amount_b, min_shares) matches Some(e) ==> (e is ZeroShares
            || e is SharesBelowMinimum || e is Overflow || e is DivisionByZero
            || e is NegativeSquareRoot),
{
}

/// The first deposit mints the whole number whose square is the greatest one that is not above
/// `amount_a * amount_b`. It succeeds exactly when there is room for that product and the shares
/// are at least `min_shares` (and for the sums, which in an empty pool there is).
pub proof fn law_first_deposit_is_exact(
    state: PoolState,
    amount_a: i128,
    amount_b: i128,
    min_shares: i128,
    root: int,
)
    requires
        state.total_shares == 0,
        amount_a > 0,
        amount_b > 0,
        root >= 0,
        root * root <= amount_a * amount_b < (root + 1) * (root + 1),
    ensures
        ({
            let refusal = state.deposit_refusal(amount_a, amount_b, min_shares);
            let room = has_room(amount_a * amount_b);
            let grown = has_room(state.reserve_a + amount_a) && has_room(
                state.reserve_b + amount_b,
            );
            &&& room ==> state.shares_for(amount_a, amount_b) == Ok::<i128, AmmError>(root as i128)
            &&& root >= 1
            &&& refusal is None <==> room && root >= min_shares && grown
            &&& refusal == Some(
                AmmError::SharesBelowMinimum { shares: root as i128, min_shares },
            ) <==> room && root < min_shares
            &&& refusal == Some(AmmError::Overflow) <==> !room || (root >= min_shares && !grown)
        }),
{
    let value = amount_a * amount_b;
    assert(value > 0) by (nonlinear_arith)
        requires
            value == amount_a * amount_b,
            amount_a > 0,
            amount_b > 0,
    ;
    assert(is_sqrt(value, root));
    lemma_isqrt_unique(value, root);
    assert(0 < root <= value) by (nonlinear_arith)
        requires
            root >= 0,
            value > 0,
            root * root <= value < (root + 1) * (root + 1),
    ;
}

/// A deposit into a pool with shares mints the lesser of `amount_a * total_shares / reserve_a` and
/// `amount_b * total_shares / reserve_b`, each cut off to a whole number. It succeeds exactly when
/// that is at least one and at least `min_shares`, and there is room for the products and the sums.
pub proof fn law_later_deposit_is_exact(
    state: PoolState,
    amount_a: i128,
    amount_b: i128,
    min_shares: i128,
    shares_a: int,
    shares_b: int,
)
    requires
        state.total_shares != 0,
        state.reserve_a != 0,
        state.reserve_b != 0,
        divides_to(amount_a * state.total_shares, state.reserve_a as int, shares_a),
        divides_to(amount_b * state.total_shares, state.reserve_b as int, shares_b),
    ensures
        ({
            let refusal = state.deposit_refusal(amount_a, amount_b, min_shares);
            let shares = if shares_a <= shares_b {
                shares_a
            } else {
                shares_b
            };
            let room = has_room(amount_a * state.total_shares) && has_room(
                amount_b * state.total_shares,
            ) && has_room(shares_a) && has_room(shares_b);
            let grown = has_room(state.reserve_a + amount_a) && has_room(
                state.reserve_b + amount_b,
            ) && has_room(state.total_shares + shares);
            &&& room ==> state.shares_for(amount_a, amount_b) == Ok::<i128, AmmError>(
                shares as i128,
            )
            &&& refusal is None <==> room && shares >= 1 && shares >= min_shares && grown
            &&& refusal == Some(AmmError::ZeroShares) <==> room && shares < 1
            &&& refusal == Some(
                AmmError::SharesBelowMinimum { shares: shares as i128, min_shares },
            ) <==> room && 1 <= shares < min_shares
            &&& refusal == Some(AmmError::Overflow) <==> !room || (shares >= 1 && shares
                >= min_shares && !grown)
        }),
{
    let total = state.total_shares;
    lemma_quotient_unique(amount_a * total, state.reserve_a as int, shares_a);
    lemma_quotient_unique(amount_b * total, state.reserve_b as int, shares_b);
}

/// A deposit of positive amounts into a pool with shares and reserves is accepted for every minimum
/// up to what the amount that is worth less is worth, rounded down, as long as that is at least one
/// share and there is room for the products and the sums.
pub proof fn law_later_deposit_is_accepted(
    state: PoolState,
    amount_a: i128,
    amount_b: i128,
    min_shares: i128,
    shares: int,
)
    requires
        state.total_shares > 0,
        state.reserve_a > 0,
        state.reserve_b > 0,
        amount_a > 0,
        amount_b > 0,
        shares >= 1,
        shares >= min_shares,
        shares * state.reserve_a <= amount_a * state.total_shares,
        shares * state.reserve_b <= amount_b * state.total_shares,
        (shares + 1) * state.reserve_a > amount_a * state.total_shares || (shares + 1)
            * state.reserve_b > amount_b * state.total_shares,
        has_room(amount_a * state.total_shares),
        has_room(amount_b * state.total_shares),
        has_room(state.reserve_a + amount_a),
        has_room(state.reserve_b + amount_b),
        has_room(state.total_shares + shares),
    ensures
        state.deposit_refusal(amount_a, amount_b, min_shares) is None,
        state.shares_for(amount_a, amount_b) == Ok::<i128, AmmError>(shares as i128),
{
    let total = state.total_shares as int;
    let worth_a = quotient(amount_a * total, state.reserve_a as int);
    let worth_b = quotient(amount_b * total, state.reserve_b as int);
    lemma_worth(amount_a as int, total, state.reserve_a as int, shares);
    lemma_worth(amount_b as int, total, state.reserve_b as int, shares);
    law_later_deposit_is_exact(state, amount_a, amount_b, min_shares, worth_a, worth_b);
}

/// What an amount is worth, next to a number of shares.
proof fn lemma_worth(amount: int, total: int, reserve: int, shares: int)
    requires
        amount > 0,
        total > 0,
        reserve > 0,
        shares * reserve <= amount * total,
    ensures
        ({
            let worth = quotient(amount * total, reserve);
            &&& divides_to(amount * total, reserve, worth)
            &&& shares <= worth <= amount * total
            &&& (shares + 1) * reserve > amount * total ==> worth == shares
        }),
{
    let value = amount * total;
    let worth = quotient(value, reserve);
    lemma_quotient_divides(value, reserve);
    assert(value > 0) by (nonlinear_arith)
        requires
            value == amount * total,
            amount > 0,
            total > 0,
    ;
    let rest = value - worth * reserve;
    assert(worth >= shares) by (nonlinear_arith)
        requires
            rest == value - worth * reserve,
            rest < reserve,
            shares * reserve <= value,
            reserve > 0,
    ;
    assert(worth <= value) by (nonlinear_arith)
        requires
            value == worth * reserve + rest,
            rest >= 0,
            value > 0,
            reserve >= 1,
    ;
    if (shares + 1) * reserve > value {
        assert(worth < shares + 1) by (nonlinear_arith)
            requires
                value == worth * reserve + rest,
                rest >= 0,
                (shares + 1) * reserve > value,
                reserve > 0,
        ;
    }
}

/// An accepted deposit adds just the two amounts to the reserves and just its shares to the total.
pub proof fn law_deposit_adds_what_was_paid(
    state: PoolState,
    amount_a: i128,
    amount_b: i128,
    min_shares: i128,
)
    requires
        state.deposit_refusal(amount_a, amount_b, min_shares) is None,
    ensures
        ({
            let shares = state.shares_for(amount_a, amount_b)->Ok_0;
            let after = state.after_deposit(amount_a, amount_b, shares);
            &&& after.reserve_a == state.reserve_a + amount_a
            &&& after.reserve_b == state.reserve_b + amount_b
            &&& after.total_shares == state.total_shares + shares
            &&& after.same_setup(state)
        }),
{
}

/// Before a withdrawal is weighed, the provider has to have authorized it, the shares have to be
/// positive, and the pool has to be set up. Nothing else is asked.
pub proof fn law_withdrawal_is_open_to_providers(
    pool: AmmPool,
    signer: Address,
    provider: Address,
    owned: i128,
    shares: i128,
    min_a: i128,
    min_b: i128,
)
    ensures
        ({
            let refusal = pool.remove_liquidity_refusal(
                signer,
                provider,
                owned,
                shares,
                min_a,
                min_b,
            );
            let signed = signer == provider;
            &&& signer != provider ==> refusal == Some(
                AmmError::Unauthorized { required: provider, signer },
            )
            &&& signed && shares <= 0 ==> refusal == Some(AmmError::NonPositiveShares { shares })
            &&& signed && shares > 0 && pool.state is None ==> refusal == Some(
                AmmError::NotInitialized,
            )
            &&& signed && shares > 0 && pool.state is Some ==> refusal
                == pool.state->0.withdrawal_refusal(owned, shares, min_a, min_b)
        }),
{
}

/// A withdrawal pays out `shares * reserve_a / total_shares` and `shares * reserve_b /
/// total_shares`, each cut off to a whole number. It succeeds exactly when no more shares are
/// withdrawn than owned, the first amount is at least `min_a` and the second at least `min_b`, and
/// there is room for the products and the differences.
pub proof fn law_withdrawal_is_exact(
    state: PoolState,
    owned: i128,
    shares: i128,
    min_a: i128,
    min_b: i128,
    amount_a: int,
    amount_b: int,
)
    requires
        state.total_shares != 0,
        divides_to(shares * state.reserve_a, state.total_shares as int, amount_a),
        divides_to(shares * state.reserve_b, state.total_shares as int, amount_b),
    ensures
        ({
            let refusal = state.withdrawal_refusal(owned, shares, min_a, min_b);
            let paid = (amount_a as i128, amount_b as i128);
            let room = has_room(shares * state.reserve_a) && has_room(shares * state.reserve_b)
                && has_room(amount_a) && has_room(amount_b);
            let shrunk = has_room(state.reserve_a - amount_a) && has_room(
                state.reserve_b - amount_b,
            ) && has_room(state.total_shares - shares);
            let enough = amount_a >= min_a && amount_b >= min_b;
            &&& room ==> state.amounts_for(shares) == Ok::<(i128, i128), AmmError>(paid)
            &&& refusal is None <==> shares <= owned && room && enough && shrunk
            &&& refusal == Some(AmmError::InsufficientShares { owned, requested: shares }) <==> owned
                < shares
            &&& refusal == Some(AmmError::AmountABelowMinimum { amount_a: paid.0, min_a }) <==> shares
                <= owned && room && amount_a < min_a
            &&& refusal == Some(AmmError::AmountBBelowMinimum { amount_b: paid.1, min_b }) <==> shares
                <= owned && room && amount_a >= min_a && amount_b < min_b
            &&& refusal == Some(AmmError::Overflow) <==> shares <= owned && (!room || (enough
                && !shrunk))
        }),
{
    lemma_quotient_unique(shares * state.reserve_a, state.total_shares as int, amount_a);
    lemma_quotient_unique(shares * state.reserve_b, state.total_shares as int, amount_b);
}

/// A withdrawal from a pool without shares is refused.
pub proof fn law_withdrawal_needs_shares(
    state: PoolState,
    owned: i128,
    shares: i128,
    min_a: i128,
    min_b: i128,
)
    requires
        state.total_shares == 0,
    ensures
        ({
            let refusal = state.withdrawal_refusal(owned, shares, min_a, min_b);
            &&& refusal is Some
            &&& shares <= owned && has_room(shares * state.reserve_a) ==> refusal == Some(
                AmmError::DivisionByZero,
            )
        }),
{
}

/// Shares that exist and are owned can be withdrawn for every pair of minima up to the parts of the
/// two reserves that they stand for, rounded down, and each minimum is held against its own amount
/// alone. All there has to be room for are the products.
pub proof fn law_withdrawal_is_accepted(
    state: PoolState,
    owned: i128,
    shares: i128,
    min_a: i128,
    min_b: i128,
    amount_a: int,
    amount_b: int,
)
    requires
        0 < shares <= state.total_shares,
        shares <= owned,
        state.reserve_a > 0,
        state.reserve_b > 0,
        has_room(shares * state.reserve_a),
        has_room(shares * state.reserve_b),
        amount_a * state.total_shares <= shares * state.reserve_a < (amount_a + 1)
            * state.total_shares,
        amount_b * state.total_shares <= shares * state.reserve_b < (amount_b + 1)
            * state.total_shares,
        min_a <= amount_a,
        min_b <= amount_b,
    ensures
        state.withdrawal_refusal(owned, shares, min_a, min_b) is None,
        state.amounts_for(shares) == Ok::<(i128, i128), AmmError>(
            (amount_a as i128, amount_b as i128),
        ),
{
    let total = state.total_shares as int;
    lemma_share_of(shares as int, total, state.reserve_a as int, amount_a);
    lemma_share_of(shares as int, total, state.reserve_b as int, amount_b);
    law_withdrawal_is_exact(state, owned, shares, min_a, min_b, amount_a, amount_b);
}

/// The part of a reserve that shares stand for.
proof fn lemma_share_of(shares: int, total: int, reserve: int, amount: int)
    requires
        0 < shares <= total,
        reserve > 0,
        amount * total <= shares * reserve < (amount + 1) * total,
    ensures
        divides_to(shares * reserve, total, amount),
        0 <= amount <= reserve,
{
    assert((amount + 1) * total == amount * total + total) by (nonlinear_arith);
    assert(shares * reserve > 0) by (nonlinear_arith)
        requires
            shares > 0,
            reserve > 0,
    ;
    assert(0 <= amount <= reserve) by (nonlinear_arith)
        requires
            0 < shares <= total,
            reserve > 0,
            shares * reserve > 0,
            amount * total <= shares * reserve < (amount + 1) * total,
    ;
}

/// An accepted withdrawal takes just the two amounts off the reserves and just the shares off the
/// total.
pub proof fn law_withdrawal_takes_what_was_paid(
    state: PoolState,
    owned: i128,
    shares: i128,
    min_a: i128,
    min_b: i128,
)
    requires
        state.withdrawal_refusal(owned, shares, min_a, min_b) is None,
    ensures
        ({
            let paid = state.amounts_for(shares)->Ok_0;
            let after = state.after_withdrawal(shares, paid.0, paid.1);
            &&& after.reserve_a == state.reserve_a - paid.0
            &&& after.reserve_b == state.reserve_b - paid.1
            &&& after.total_shares == state.total_shares - shares
            &&& after.same_setup(state)
        }),
{
}

/// The reserve of the token sold and that of the token bought, in a swap that sells `token_in`.
pub open spec fn reserves_selling(state: PoolState, token_in: Address) -> (int, int) {
    if token_in == state.token_a {
        (state.reserve_a as int, state.reserve_b as int)
    } else {
        (state.reserve_b as int, state.reserve_a as int)
    }
}

/// The reserve of the token sold and that of the token bought, in a swap that buys `token_out`.
pub open spec fn reserves_buying(state: PoolState, token_out: Address) -> (int, int) {
    if token_out == state.token_a {
        (state.reserve_b as int, state.reserve_a as int)
    } else {
        (state.reserve_a as int, state.reserve_b as int)
    }
}

/// A token that is not one of the pool's two has no quote in either direction, and neither has a
/// pool without one of its reserves. Each is refused for just that, and for nothing else.
pub proof fn law_quotes_need_a_token_and_reserves(state: PoolState, token: Address, amount: i128)
    ensures
        ({
            let known = token == state.token_a || token == state.token_b;
            let (out_in, out_out) = reserves_selling(state, token);
            let (in_in, in_out) = reserves_buying(state, token);
            let unknown = Err::<i128, AmmError>(AmmError::UnknownToken { token });
            let quote_out = state.quote_out(token, amount);
            let quote_in = state.quote_in(token, amount);
            &&& quote_out == unknown <==> !known
            &&& quote_in == unknown <==> !known
            &&& (quote_out is Err && quote_out->Err_0 is EmptyPool) <==> known && (out_in <= 0
                || out_out <= 0)
            &&& (quote_in is Err && quote_in->Err_0 is EmptyPool) <==> known && (in_in <= 0 || in_out
                <= 0)
            &&& known && (out_in <= 0 || out_out <= 0) ==> quote_out == Err::<i128, AmmError>(
                AmmError::EmptyPool { reserve_in: out_in as i128, reserve_out: out_out as i128 },
            )
            &&& known && (in_in <= 0 || in_out <= 0) ==> quote_in == Err::<i128, AmmError>(
                AmmError::EmptyPool { reserve_in: in_in as i128, reserve_out: in_out as i128 },
            )
        }),
{
}

/// A sale is quoted at `net * y / (x * 10_000 + net)`, cut off toward zero, where `x` is the reserve
/// of the token sold, `y` that of the token bought, and `net` is `amount_in` times what the fee
/// leaves of 10_000. There is a quote exactly when there is room for every step. This is for every
/// amount, negative ones included, and for every fee.
pub proof fn law_quote_out_is_exact(
    state: PoolState,
    token_in: Address,
    amount_in: i128,
    out: int,
)
    requires
        token_in == state.token_a || token_in == state.token_b,
        state.reserve_a > 0,
        state.reserve_b > 0,
    ensures
        ({
            let (x, y) = reserves_selling(state, token_in);
            let kept = 10_000 - state.fee_bps;
            let net = amount_in * kept;
            let depth = x * 10_000 + net;
            let room = has_room(kept) && has_room(net) && has_room(net * y) && has_room(
                x * 10_000,
            ) && has_room(depth);
            let quote = state.quote_out(token_in, amount_in);
            &&& room && depth == 0 <==> quote == Err::<i128, AmmError>(AmmError::DivisionByZero)
            &&& depth != 0 && divides_to(net * y, depth, out) ==> {
                &&& room && has_room(out) <==> quote == Ok::<i128, AmmError>(out as i128)
                &&& room && has_room(out) <==> quote is Ok
                &&& !(room && has_room(out)) <==> quote == Err::<i128, AmmError>(
                    AmmError::Overflow,
                )
            }
        }),
{
    let (x, y) = reserves_selling(state, token_in);
    let net = amount_in * (10_000 - state.fee_bps);
    let depth = x * 10_000 + net;
    if depth != 0 {
        lemma_quotient_unique(net * y, depth, out);
    }
}

/// A sale of an amount that is not negative, in a pool with reserves whose fee is a fraction, is
/// quoted at the greatest output `out` for which `out * (x * 10_000 + net)` is not above `net * y`,
/// as long as there is room for the products and the sum.
pub proof fn law_sale_is_quoted(state: PoolState, token_in: Address, amount_in: i128, out: int)
    requires
        token_in == state.token_a || token_in == state.token_b,
        state.reserve_a > 0,
        state.reserve_b > 0,
        0 <= state.fee_bps <= 10_000,
        amount_in >= 0,
        ({
            let (x, y) = reserves_selling(state, token_in);
            let net = amount_in * (10_000 - state.fee_bps);
            let depth = x * 10_000 + net;
            &&& has_room(net * y)
            &&& has_room(depth)
            &&& out * depth <= net * y < (out + 1) * depth
        }),
    ensures
        state.quote_out(token_in, amount_in) == Ok::<i128, AmmError>(out as i128),
        0 <= out < reserves_selling(state, token_in).1,
{
    let (x, y) = reserves_selling(state, token_in);
    let kept = 10_000 - state.fee_bps;
    let net = amount_in * kept;
    let depth = x * 10_000 + net;
    assert(0 <= net) by (nonlinear_arith)
        requires
            net == amount_in * kept,
            amount_in >= 0,
            kept >= 0,
    ;
    assert(net * y >= 0) by (nonlinear_arith)
        requires
            net >= 0,
            y > 0,
    ;
    assert((out + 1) * depth == out * depth + depth) by (nonlinear_arith);
    assert(0 <= out < y) by (nonlinear_arith)
        requires
            net * y >= 0,
            0 <= net < depth,
            y > 0,
            out * depth <= net * y < (out + 1) * depth,
    ;
    law_quote_out_is_exact(state, token_in, amount_in, out);
}

/// To buy `amount_out` is quoted at `x * amount_out * 10_000 / ((y - amount_out) * kept) + 1`, where
/// the quotient is cut off toward zero, `x` is the reserve of the token sold, `y` that of the token
/// bought, and `kept` is what the fee leaves of 10_000. There is a quote exactly when `amount_out`
/// is below `y`, the fee leaves something, and there is room for every step. This is for every
/// amount, negative ones included, and for every fee.
pub proof fn law_quote_in_is_exact(
    state: PoolState,
    token_out: Address,
    amount_out: i128,
    exact: int,
)
    requires
        token_out == state.token_a || token_out == state.token_b,
        state.reserve_a > 0,
        state.reserve_b > 0,
    ensures
        ({
            let (x, y) = reserves_buying(state, token_out);
            let kept = 10_000 - state.fee_bps;
            let value = x * amount_out * 10_000;
            let depth = (y - amount_out) * kept;
            let room = has_room(x * amount_out) && has_room(value) && has_room(y - amount_out)
                && has_room(kept) && has_room(depth);
            let quote = state.quote_in(token_out, amount_out);
            &&& quote == Err::<i128, AmmError>(
                AmmError::InsufficientLiquidity { amount_out, reserve_out: y as i128 },
            ) <==> amount_out >= y
            &&& quote == Err::<i128, AmmError>(AmmError::DivisionByZero) <==> amount_out < y && room
                && depth == 0
            &&& amount_out < y && depth != 0 && divides_to(value, depth, exact) ==> {
                let held = room && has_room(exact) && has_room(exact + 1);
                &&& held <==> quote == Ok::<i128, AmmError>((exact + 1) as i128)
                &&& held <==> quote is Ok
                &&& !held <==> quote == Err::<i128, AmmError>(AmmError::Overflow)
            }
        }),
{
    let (x, y) = reserves_buying(state, token_out);
    let value = x * amount_out * 10_000;
    let depth = (y - amount_out) * (10_000 - state.fee_bps);
    if depth != 0 {
        lemma_quotient_unique(value, depth, exact);
    }
}

/// Any amount from zero up to what the pool has of it, the latter left out, can be quoted for, in a
/// pool with reserves whose fee leaves something, however the amount compares to the other reserve.
/// The quote is the least `cost` for which `cost * (y - amount_out) * kept` is above
/// `x * amount_out * 10_000`, as long as there is room for the products and the result.
pub proof fn law_purchase_is_quoted(
    state: PoolState,
    token_out: Address,
    amount_out: i128,
    cost: int,
)
    requires
        token_out == state.token_a || token_out == state.token_b,
        state.reserve_a > 0,
        state.reserve_b > 0,
        0 <= state.fee_bps < 10_000,
        0 <= amount_out < reserves_buying(state, token_out).1,
        ({
            let (x, y) = reserves_buying(state, token_out);
            let value = x * amount_out * 10_000;
            let depth = (y - amount_out) * (10_000 - state.fee_bps);
            &&& has_room(value)
            &&& has_room(depth)
            &&& has_room(cost)
            &&& (cost - 1) * depth <= value < cost * depth
        }),
    ensures
        state.quote_in(token_out, amount_out) == Ok::<i128, AmmError>(cost as i128),
        cost >= 1,
{
    let (x, y) = reserves_buying(state, token_out);
    let kept = 10_000 - state.fee_bps;
    let left = y - amount_out;
    let part = x * amount_out;
    let value = part * 10_000;
    let depth = left * kept;
    assert(part >= 0) by (nonlinear_arith)
        requires
            part == x * amount_out,
            x > 0,
            amount_out >= 0,
    ;
    assert(depth > 0) by (nonlinear_arith)
        requires
            depth == left * kept,
            left > 0,
            kept > 0,
    ;
    assert(cost * depth == (cost - 1) * depth + depth) by (nonlinear_arith);
    assert(cost >= 1) by (nonlinear_arith)
        requires
            value < cost * depth,
            value >= 0,
            depth > 0,
    ;
    law_quote_in_is_exact(state, token_out, amount_out, cost - 1);
}

/// Before a swap is weighed, the trader has to have authorized it, the amount has to be positive,
/// and the pool has to be set up. Nothing else is asked.
pub proof fn law_swap_is_open_to_traders(
    pool: AmmPool,
    signer: Address,
    trader: Address,
    token_in: Address,
    amount_in: i128,
    min_out: i128,
)
    ensures
        ({
            let refusal = pool.swap_refusal(signer, trader, token_in, amount_in, min_out);
            let signed = signer == trader;
            &&& signer != trader ==> refusal == Some(
                AmmError::Unauthorized { required: trader, signer },
            )
            &&& signed && amount_in <= 0 ==> refusal == Some(
                AmmError::NonPositiveAmountIn { amount_in },
            )
            &&& signed && amount_in > 0 && pool.state is None ==> refusal == Some(
                AmmError::NotInitialized,
            )
            &&& signed && amount_in > 0 && pool.state is Some ==> refusal
                == pool.state->0.swap_refusal(token_in, amount_in, min_out)
        }),
{
}

/// A swap without a quote is refused for what there is no quote for. One with a quote succeeds
/// exactly when the quote is at least `min_out` and below the reserve of the token bought, and there
/// is room for the new reserves. It then adds just `amount_in` to the reserve of the token sold, and
/// takes just the quote off the other.
pub proof fn law_swap_is_exact(
    state: PoolState,
    token_in: Address,
    amount_in: i128,
    min_out: i128,
)
    ensures
        ({
            let (x, y) = reserves_selling(state, token_in);
            let quote = state.quote_out(token_in, amount_in);
            let refusal = state.swap_refusal(token_in, amount_in, min_out);
            &&& quote matches Err(e) ==> refusal == Some(e)
            &&& quote matches Ok(out) ==> {
                let after = state.after_swap(token_in, amount_in, out);
                let room = has_room(x + amount_in) && has_room(y - out);
                &&& refusal is None <==> min_out <= out < y && room
                &&& refusal == Some(
                    AmmError::OutputBelowMinimum { amount_out: out, min_out },
                ) <==> out < min_out
                &&& refusal == Some(
                    AmmError::InsufficientLiquidity { amount_out: out, reserve_out: y as i128 },
                ) <==> min_out <= out && y <= out
                &&& refusal == Some(AmmError::Overflow) <==> min_out <= out < y && !room
                &&& room ==> reserves_selling(after, token_in) == (x + amount_in, y - out)
                &&& after.same_setup(state)
                &&& after.total_shares == state.total_shares
            }
        }),
{
}

/// A pool does not favour one of its tokens: with the two exchanged, everything is quoted as
/// before, and what shares are worth is exchanged with them.
pub proof fn law_tokens_are_alike(
    state: PoolState,
    mirror: PoolState,
    token: Address,
    amount: i128,
    other: i128,
)
    requires
        state.token_a != state.token_b,
        mirror.token_a == state.token_b,
        mirror.token_b == state.token_a,
        mirror.reserve_a == state.reserve_b,
        mirror.reserve_b == state.reserve_a,
        mirror.total_shares == state.total_shares,
        mirror.fee_bps == state.fee_bps,
    ensures
        mirror.quote_out(token, amount) == state.quote_out(token, amount),
        mirror.quote_in(token, amount) == state.quote_in(token, amount),
        mirror.swap_refusal(token, amount, other) == state.swap_refusal(token, amount, other),
        state.shares_for(amount, other) is Ok <==> mirror.shares_for(other, amount) is Ok,
        state.shares_for(amount, other) is Ok ==> mirror.shares_for(other, amount)
            == state.shares_for(amount, other),
        state.amounts_for(amount) is Ok <==> mirror.amounts_for(amount) is Ok,
        state.amounts_for(amount) matches Ok(paid) ==> mirror.amounts_for(amount) == Ok::<
            (i128, i128),
            AmmError,
        >((paid.1, paid.0)),
{
    assert(amount * other == other * amount) by (nonlinear_arith);
}

/// The price of a token is the reserve of the other, times 1_000_000, over its own, rounded down.
/// There are prices exactly where there are both reserves and room for the two products. Before
/// `initialize` both reserves count as zero.
pub proof fn law_prices_are_exact(pool: AmmPool, price_a: int, price_b: int)
    ensures
        ({
            let (x, y) = match pool.state {
                Some(state) => (state.reserve_a as int, state.reserve_b as int),
                None => (0, 0),
            };
            let room = has_room(y * 1_000_000) && has_room(x * 1_000_000);
            let stocked = x > 0 && y > 0;
            let rounded = price_a * x <= y * 1_000_000 < (price_a + 1) * x && price_b * y <= x
                * 1_000_000 < (price_b + 1) * y;
            &&& !stocked <==> pool.prices() == Err::<(i128, i128), AmmError>(
                AmmError::EmptyPool { reserve_in: x as i128, reserve_out: y as i128 },
            )
            &&& stocked && room <==> pool.prices() is Ok
            &&& stocked && !room <==> pool.prices() == Err::<(i128, i128), AmmError>(
                AmmError::Overflow,
            )
            &&& stocked && room && rounded ==> pool.prices() == Ok::<(i128, i128), AmmError>(
                (price_a as i128, price_b as i128),
            )
        }),
{
    let (x, y) = match pool.state {
        Some(state) => (state.reserve_a as int, state.reserve_b as int),
        None => (0, 0),
    };
    if x > 0 && y > 0 {
        lemma_price(x, y, price_a);
        lemma_price(y, x, price_b);
    }
}

/// A price is no greater than the product that it is a part of.
proof fn lemma_price(own: int, other: int, price: int)
    requires
        own > 0,
        other > 0,
    ensures
        0 <= quotient(other * 1_000_000, own) <= other * 1_000_000,
        price * own <= other * 1_000_000 < (price + 1) * own ==> price == quotient(
            other * 1_000_000,
            own,
        ),
{
    let value = other * 1_000_000;
    vstd::arithmetic::div_mod::lemma_div_pos_is_pos(value, own);
    vstd::arithmetic::div_mod::lemma_div_nonincreasing(value, own);
    assert((price + 1) * own == price * own + own) by (nonlinear_arith);
    lemma_quotient_unique(value, own, price);
}

/// The square root of a number that is not negative is there for every such number, and is the one
/// whole number with a square that is not above it and a successor whose square is.
pub proof fn law_square_root_is_exact(n: i128, root: int)
    ensures
        n < 0 <==> sqrt_of(n) == Err::<i128, AmmError>(AmmError::NegativeSquareRoot { n }),
        n >= 0 <==> sqrt_of(n) is Ok,
        n >= 0 && 0 <= root && root * root <= n < (root + 1) * (root + 1) ==> sqrt_of(n) == Ok::<
            i128,
            AmmError,
        >(root as i128),
        n >= 0 ==> 0 <= sqrt_of(n)->Ok_0 <= n,
{
    if n >= 0 {
        lemma_isqrt_exists(n as int);
        let r = isqrt(n as int);
        assert(r <= n) by (nonlinear_arith)
            requires
                0 <= r,
                r * r <= n,
        ;
        if 0 <= root && root * root <= n < (root + 1) * (root + 1) {
            assert(is_sqrt(n as int, root));
            lemma_isqrt_unique(n as int, root);
        }
    }
}

} // verus!
