//! What holds of every pool, whatever is done with it.

use crate::address::Address;
use crate::arith::{fits, is_sqrt, isqrt, lemma_isqrt_exists};
use crate::curve::{input_of, mul_div_of, output_of, ratio_of, BPS, PRICE_SCALE};
use crate::error::AmmError;
use crate::pool::AmmPool;
use crate::state::PoolState;
use vstd::prelude::*;

verus! {

impl PoolState {
    /// There are no more shares than the geometric mean of the reserves.
    pub open spec fn shares_covered(self) -> bool {
        self.total_shares * self.total_shares <= self.k()
    }

    /// Two states have the same tokens, LP token and fee.
    pub open spec fn same_setup(self, other: PoolState) -> bool {
        &&& self.token_a == other.token_a
        &&& self.token_b == other.token_b
        &&& self.lp_token == other.lp_token
        &&& self.fee_bps == other.fee_bps
    }
}

/// A quotient of numbers that are not negative is rounded down.
proof fn lemma_ratio(a: int, b: int)
    requires
        a >= 0,
        b > 0,
        ratio_of(a, b) is Ok,
    ensures
        ({
            let q = ratio_of(a, b)->Ok_0;
            &&& q >= 0
            &&& q == a / b
            &&& q * b <= a < (q + 1) * b
        }),
{
    let q = a / b;
    vstd::arithmetic::div_mod::lemma_fundamental_div_mod(a, b);
    vstd::arithmetic::div_mod::lemma_mod_bound(a, b);
    vstd::arithmetic::div_mod::lemma_div_pos_is_pos(a, b);
    assert(q * b <= a < (q + 1) * b) by (nonlinear_arith)
        requires
            a == b * q + a % b,
            0 <= a % b < b,
    ;
}

/// What a swap pays out, in numbers: the most that keeps the pool above its curve.
proof fn lemma_output(reserve_in: i128, reserve_out: i128, fee_bps: i128, amount_in: i128)
    requires
        reserve_in > 0,
        reserve_out > 0,
        0 <= fee_bps <= BPS,
        amount_in >= 0,
        output_of(reserve_in, reserve_out, fee_bps, amount_in) is Ok,
    ensures
        ({
            let out = output_of(reserve_in, reserve_out, fee_bps, amount_in)->Ok_0;
            let net = amount_in * (BPS - fee_bps);
            let depth = reserve_in * BPS + net;
            &&& 0 <= net <= amount_in * BPS
            &&& depth > 0
            &&& 0 <= out < reserve_out
            &&& out * depth <= net * reserve_out < (out + 1) * depth
        }),
{
    let out = output_of(reserve_in, reserve_out, fee_bps, amount_in)->Ok_0;
    let kept = BPS - fee_bps;
    let net = amount_in * kept;
    let depth = reserve_in * BPS + net;
    assert(0 <= net <= amount_in * BPS && net * reserve_out >= 0) by (nonlinear_arith)
        requires
            amount_in >= 0,
            0 <= kept <= BPS,
            net == amount_in * kept,
            reserve_out > 0,
    ;
    lemma_ratio(net * reserve_out, depth);
    assert(out < reserve_out) by (nonlinear_arith)
        requires
            out * depth <= net * reserve_out,
            0 <= net < depth,
            reserve_out > 0,
    ;
}

/// A swap that the pool accepts never lowers the product of the reserves, and raises it where
/// there is a fee.
pub proof fn law_swap_keeps_the_product(
    state: PoolState,
    token_in: Address,
    amount_in: i128,
    min_out: i128,
)
    requires
        state.wf(),
        amount_in > 0,
        state.swap_refusal(token_in, amount_in, min_out) is None,
    ensures
        ({
            let out = state.quote_out(token_in, amount_in)->Ok_0;
            let after = state.after_swap(token_in, amount_in, out);
            &&& after.wf()
            &&& after.k() >= state.k()
            &&& state.fee_bps > 0 ==> after.k() > state.k()
        }),
{
    let sides = state.sides_selling(token_in)->0;
    let (ri, ro) = (sides.reserve_in as int, sides.reserve_out as int);
    let out = state.quote_out(token_in, amount_in)->Ok_0;
    let after = state.after_swap(token_in, amount_in, out);
    lemma_output(sides.reserve_in, sides.reserve_out, state.fee_bps, amount_in);
    let kept = BPS - state.fee_bps;
    let net = amount_in * kept;
    let depth = ri * BPS + net;
    lemma_product_grows(ri, ro, kept as int, amount_in as int, out as int);
    assert(ri * ro == state.k() && (ri + amount_in) * (ro - out) == after.k()) by (nonlinear_arith)
        requires
            state.k() == state.reserve_a * state.reserve_b,
            after.k() == after.reserve_a * after.reserve_b,
            (ri == state.reserve_a && ro == state.reserve_b && after.reserve_a == ri + amount_in
                && after.reserve_b == ro - out) || (ri == state.reserve_b && ro == state.reserve_a
                && after.reserve_b == ri + amount_in && after.reserve_a == ro - out),
    ;
}

/// Paying out what the curve gives keeps the product of the reserves.
proof fn lemma_product_grows(ri: int, ro: int, kept: int, x: int, out: int)
    requires
        ri > 0,
        ro > 0,
        0 <= kept <= BPS,
        x > 0,
        0 <= out < ro,
        out * (ri * BPS + x * kept) <= x * kept * ro,
    ensures
        (ri + x) * (ro - out) >= ri * ro,
        kept < BPS ==> (ri + x) * (ro - out) > ri * ro,
{
    let net = x * kept;
    let depth = ri * BPS + net;
    let full = (ri + x) * BPS;
    let new = (ri + x) * (ro - out);
    assert(0 <= net <= x * BPS && (kept < BPS ==> net < x * BPS)) by (nonlinear_arith)
        requires
            net == x * kept,
            x > 0,
            0 <= kept <= BPS,
    ;
    assert(full == ri * BPS + x * BPS) by (nonlinear_arith)
        requires
            full == (ri + x) * BPS,
    ;
    assert((ro - out) * depth >= ro * (ri * BPS)) by (nonlinear_arith)
        requires
            depth == ri * BPS + net,
            out * depth <= net * ro,
    ;
    assert(new * depth >= (ri * ro) * full) by (nonlinear_arith)
        requires
            new == (ri + x) * (ro - out),
            full == (ri + x) * BPS,
            (ro - out) * depth >= ro * (ri * BPS),
            ri + x > 0,
    ;
    assert(ri * ro > 0) by (nonlinear_arith)
        requires
            ri > 0,
            ro > 0,
    ;
    let k = ri * ro;
    assert(new >= k) by (nonlinear_arith)
        requires
            new * depth >= k * full,
            full >= depth,
            depth > 0,
            k > 0,
    ;
    if kept < BPS {
        assert(new > k) by (nonlinear_arith)
            requires
                new * depth >= k * full,
                full > depth,
                depth > 0,
                k > 0,
        ;
    }
}

/// A swap that a trader asks for.
pub struct Trade {
    pub token_in: Address,
    pub amount_in: i128,
    pub min_out: i128,
}

/// The pool after swaps that it accepts one after the other, and nothing where it refuses one.
pub open spec fn after_trades(state: PoolState, trades: Seq<Trade>) -> Option<PoolState>
    decreases trades.len(),
{
    if trades.len() == 0 {
        Some(state)
    } else {
        let trade = trades.last();
        match after_trades(state, trades.drop_last()) {
            None => None,
            Some(before) => if trade.amount_in <= 0 || before.swap_refusal(
                trade.token_in,
                trade.amount_in,
                trade.min_out,
            ) is Some {
                None
            } else {
                Some(
                    before.after_swap(
                        trade.token_in,
                        trade.amount_in,
                        before.quote_out(trade.token_in, trade.amount_in)->Ok_0,
                    ),
                )
            },
        }
    }
}

/// Any number of swaps, in any order and direction, never lowers the product of the reserves, and
/// raises it where there is a fee and at least one swap.
pub proof fn law_swaps_keep_the_product(state: PoolState, trades: Seq<Trade>)
    requires
        state.wf(),
    ensures
        after_trades(state, trades) matches Some(after) ==> {
            &&& after.wf()
            &&& after.same_setup(state)
            &&& after.total_shares == state.total_shares
            &&& after.k() >= state.k()
            &&& state.fee_bps > 0 && trades.len() > 0 ==> after.k() > state.k()
        },
    decreases trades.len(),
{
    if trades.len() > 0 && after_trades(state, trades) is Some {
        let trade = trades.last();
        law_swaps_keep_the_product(state, trades.drop_last());
        let before = after_trades(state, trades.drop_last())->0;
        law_swap_keeps_the_product(before, trade.token_in, trade.amount_in, trade.min_out);
    }
}

/// What a pool pays out for an amount sold is never negative and always less than its reserve.
pub proof fn law_output_is_below_the_reserve(state: PoolState, token_in: Address, amount_in: i128)
    requires
        state.wf(),
        amount_in >= 0,
        state.quote_out(token_in, amount_in) is Ok,
    ensures
        0 <= state.quote_out(token_in, amount_in)->Ok_0 < state.sides_selling(token_in)->0.reserve_out,
{
    let sides = state.sides_selling(token_in)->0;
    lemma_output(sides.reserve_in, sides.reserve_out, state.fee_bps, amount_in);
}

/// A swap pays out what was quoted for it: one that asks for no more than the quote is accepted.
/// Where the whole amount goes into the fee, the reserve has to have room for it.
pub proof fn law_swap_pays_the_quote(
    state: PoolState,
    token_in: Address,
    amount_in: i128,
    min_out: i128,
)
    requires
        state.wf(),
        amount_in > 0,
        state.quote_out(token_in, amount_in) is Ok,
        min_out <= state.quote_out(token_in, amount_in)->Ok_0,
        state.fee_bps < BPS || fits(state.sides_selling(token_in)->0.reserve_in + amount_in),
    ensures
        state.swap_refusal(token_in, amount_in, min_out) is None,
{
    let sides = state.sides_selling(token_in)->0;
    lemma_output(sides.reserve_in, sides.reserve_out, state.fee_bps, amount_in);
    if state.fee_bps < BPS {
        let kept = BPS - state.fee_bps;
        assert(amount_in <= amount_in * kept) by (nonlinear_arith)
            requires
                amount_in > 0,
                kept >= 1,
        ;
    }
}

/// An accepted swap never pays out less than the trader asked for.
pub proof fn law_swap_respects_the_minimum(
    state: PoolState,
    token_in: Address,
    amount_in: i128,
    min_out: i128,
)
    requires
        state.swap_refusal(token_in, amount_in, min_out) is None,
    ensures
        state.quote_out(token_in, amount_in) is Ok,
        state.quote_out(token_in, amount_in)->Ok_0 >= min_out,
{
}

/// Selling more never pays out less.
pub proof fn law_selling_more_pays_no_less(
    state: PoolState,
    token_in: Address,
    less: i128,
    more: i128,
)
    requires
        state.wf(),
        0 <= less <= more,
        state.quote_out(token_in, less) is Ok,
        state.quote_out(token_in, more) is Ok,
    ensures
        state.quote_out(token_in, less)->Ok_0 <= state.quote_out(token_in, more)->Ok_0,
{
    let sides = state.sides_selling(token_in)->0;
    let (ri, ro) = (sides.reserve_in as int, sides.reserve_out as int);
    lemma_output(sides.reserve_in, sides.reserve_out, state.fee_bps, less);
    lemma_output(sides.reserve_in, sides.reserve_out, state.fee_bps, more);
    let kept = BPS - state.fee_bps;
    let (n1, n2) = (less * kept, more * kept);
    let d = ri * BPS;
    let o1 = state.quote_out(token_in, less)->Ok_0 as int;
    let o2 = state.quote_out(token_in, more)->Ok_0 as int;
    assert(n1 <= n2) by (nonlinear_arith)
        requires
            n1 == less * kept,
            n2 == more * kept,
            less <= more,
            kept >= 0,
    ;
    if o2 < o1 {
        assert(o1 * (d + n2) <= n2 * ro) by (nonlinear_arith)
            requires
                o1 * (d + n1) <= n1 * ro,
                n1 <= n2,
                o1 < ro,
        ;
        assert((o2 + 1) * (d + n2) <= o1 * (d + n2)) by (nonlinear_arith)
            requires
                o2 + 1 <= o1,
                d + n2 > 0,
        ;
    }
}

/// Without a fee a swap pays out by the bare curve: `amount_in * y / (x + amount_in)`.
pub proof fn law_no_fee_is_the_bare_curve(state: PoolState, token_in: Address, amount_in: i128)
    requires
        state.wf(),
        state.fee_bps == 0,
        amount_in >= 0,
        state.quote_out(token_in, amount_in) is Ok,
    ensures
        ({
            let sides = state.sides_selling(token_in)->0;
            state.quote_out(token_in, amount_in)->Ok_0 == (amount_in * sides.reserve_out) / (
            sides.reserve_in + amount_in)
        }),
{
    let sides = state.sides_selling(token_in)->0;
    let (ri, ro) = (sides.reserve_in as int, sides.reserve_out as int);
    let x = amount_in as int;
    lemma_output(sides.reserve_in, sides.reserve_out, state.fee_bps, amount_in);
    let out = state.quote_out(token_in, amount_in)->Ok_0 as int;
    assert(out * (ri + x) <= x * ro < (out + 1) * (ri + x)) by (nonlinear_arith)
        requires
            out * (ri * BPS + x * BPS) <= x * BPS * ro < (out + 1) * (ri * BPS + x * BPS),
            BPS == 10_000,
    ;
    assert((out + 1) * (ri + x) == out * (ri + x) + (ri + x)) by (nonlinear_arith);
    vstd::arithmetic::div_mod::lemma_fundamental_div_mod_converse(
        x * ro,
        ri + x,
        out,
        x * ro - out * (ri + x),
    );
}

/// With a fee of the whole amount a swap pays out nothing.
pub proof fn law_full_fee_pays_nothing(state: PoolState, token_in: Address, amount_in: i128)
    requires
        state.wf(),
        state.fee_bps == BPS,
        state.quote_out(token_in, amount_in) is Ok,
    ensures
        state.quote_out(token_in, amount_in)->Ok_0 == 0,
{
    let sides = state.sides_selling(token_in)->0;
    assert(amount_in * 0 == 0);
    assert(0 * sides.reserve_out == 0);
    assert(ratio_of(0, sides.reserve_in * BPS + 0)->Ok_0 == 0) by {
        lemma_ratio(0, sides.reserve_in * BPS);
        vstd::arithmetic::div_mod::lemma_div_of0(sides.reserve_in * BPS);
    }
}

/// What `get_amount_in` quotes, in numbers: the exact cost rounded down, and one more.
proof fn lemma_input(reserve_in: i128, reserve_out: i128, fee_bps: i128, amount_out: i128)
    requires
        reserve_in > 0,
        0 <= fee_bps <= BPS,
        0 <= amount_out < reserve_out,
        input_of(reserve_in, reserve_out, fee_bps, amount_out) is Ok,
    ensures
        ({
            let cost = input_of(reserve_in, reserve_out, fee_bps, amount_out)->Ok_0;
            let value = reserve_in * amount_out * BPS;
            let depth = (reserve_out - amount_out) * (BPS - fee_bps);
            &&& cost >= 1
            &&& fee_bps < BPS
            &&& depth > 0
            &&& (cost - 1) * depth <= value < cost * depth
        }),
{
    let value = reserve_in * amount_out * BPS;
    let left = reserve_out - amount_out;
    let kept = BPS - fee_bps;
    let depth = left * kept;
    assert(value >= 0 && depth >= 0) by (nonlinear_arith)
        requires
            value == reserve_in * amount_out * BPS,
            depth == left * kept,
            reserve_in > 0,
            amount_out >= 0,
            BPS == 10_000,
            left > 0,
            kept >= 0,
    ;
    assert(kept == 0 ==> depth == 0) by (nonlinear_arith)
        requires
            depth == left * kept,
    ;
    lemma_ratio(value, depth);
}

/// Paying in what `get_amount_in` quotes pays out at least the amount asked for.
pub proof fn law_quoted_input_suffices(state: PoolState, token_out: Address, amount_out: i128)
    requires
        state.wf(),
        amount_out >= 0,
        state.quote_in(token_out, amount_out) is Ok,
    ensures
        ({
            let token_in = state.sides_buying(token_out)->0.token_in;
            let cost = state.quote_in(token_out, amount_out)->Ok_0;
            &&& cost >= 1
            &&& state.quote_out(token_in, cost) matches Ok(out) ==> out >= amount_out
        }),
{
    let sides = state.sides_buying(token_out)->0;
    let (ri, ro) = (sides.reserve_in as int, sides.reserve_out as int);
    let cost = state.quote_in(token_out, amount_out)->Ok_0;
    lemma_input(sides.reserve_in, sides.reserve_out, state.fee_bps, amount_out);
    if let Ok(out) = state.quote_out(sides.token_in, cost) {
        lemma_output(sides.reserve_in, sides.reserve_out, state.fee_bps, cost);
        let kept = BPS - state.fee_bps;
        let net = cost * kept;
        let want = amount_out as int;
        let depth = ri * BPS + net;
        assert(net * (ro - want) == cost * ((ro - want) * kept)) by (nonlinear_arith)
            requires
                net == cost * kept,
        ;
        assert(net * ro >= want * depth) by (nonlinear_arith)
            requires
                net * (ro - want) > ri * want * BPS,
                depth == ri * BPS + net,
        ;
        assert(out >= want) by (nonlinear_arith)
            requires
                net * ro < (out + 1) * depth,
                net * ro >= want * depth,
                depth > 0,
        ;
    }
}

/// Paying in less than `get_amount_in` quotes never pays out more than the amount asked for.
pub proof fn law_quoted_input_is_tight(
    state: PoolState,
    token_out: Address,
    amount_out: i128,
    amount_in: i128,
)
    requires
        state.wf(),
        amount_out >= 0,
        state.quote_in(token_out, amount_out) is Ok,
        0 <= amount_in < state.quote_in(token_out, amount_out)->Ok_0,
        state.quote_out(state.sides_buying(token_out)->0.token_in, amount_in) is Ok,
    ensures
        state.quote_out(state.sides_buying(token_out)->0.token_in, amount_in)->Ok_0 <= amount_out,
{
    let sides = state.sides_buying(token_out)->0;
    let (ri, ro) = (sides.reserve_in as int, sides.reserve_out as int);
    let cost = state.quote_in(token_out, amount_out)->Ok_0 as int;
    lemma_input(sides.reserve_in, sides.reserve_out, state.fee_bps, amount_out);
    lemma_output(sides.reserve_in, sides.reserve_out, state.fee_bps, amount_in);
    let out = state.quote_out(sides.token_in, amount_in)->Ok_0 as int;
    let kept = BPS - state.fee_bps;
    let net = amount_in * kept;
    let want = amount_out as int;
    let left = (ro - want) * kept;
    assert(net * (ro - want) <= (cost - 1) * left) by (nonlinear_arith)
        requires
            net == amount_in * kept,
            left == (ro - want) * kept,
            amount_in <= cost - 1,
            left > 0,
    ;
    assert(out <= want) by (nonlinear_arith)
        requires
            out * (ri * BPS + net) <= net * ro,
            net * (ro - want) <= ri * want * BPS,
            ri * BPS + net > 0,
    ;
}

/// Asking for the cost of what an amount was quoted to pay out gives at most one more than that
/// amount.
pub proof fn law_quotes_round_trip(state: PoolState, token_in: Address, amount_in: i128)
    requires
        state.wf(),
        amount_in >= 0,
        state.quote_out(token_in, amount_in) is Ok,
    ensures
        ({
            let token_out = state.sides_selling(token_in)->0.token_out;
            let out = state.quote_out(token_in, amount_in)->Ok_0;
            state.quote_in(token_out, out) matches Ok(cost) ==> cost <= amount_in + 1
        }),
{
    let sides = state.sides_selling(token_in)->0;
    let (ri, ro) = (sides.reserve_in as int, sides.reserve_out as int);
    lemma_output(sides.reserve_in, sides.reserve_out, state.fee_bps, amount_in);
    let out = state.quote_out(token_in, amount_in)->Ok_0;
    if let Ok(cost) = state.quote_in(sides.token_out, out) {
        lemma_input(sides.reserve_in, sides.reserve_out, state.fee_bps, out);
        let kept = BPS - state.fee_bps;
        let net = amount_in * kept;
        let left = (ro - out) * kept;
        assert(ri * out * BPS <= amount_in * left) by (nonlinear_arith)
            requires
                out * (ri * BPS + net) <= net * ro,
                net == amount_in * kept,
                left == (ro - out) * kept,
        ;
        assert(cost - 1 <= amount_in) by (nonlinear_arith)
            requires
                (cost - 1) * left <= ri * out * BPS,
                ri * out * BPS <= amount_in * left,
                left > 0,
        ;
    }
}

/// Asking for the cost of what an amount was quoted to pay out gives at least that amount, where
/// selling one less would have been worth no more than that output, before rounding.
pub proof fn law_quotes_round_trip_from_below(state: PoolState, token_in: Address, amount_in: i128)
    requires
        state.wf(),
        amount_in >= 0,
        state.quote_out(token_in, amount_in) is Ok,
        ({
            let sides = state.sides_selling(token_in)->0;
            let net = (amount_in - 1) * (BPS - state.fee_bps);
            let out = state.quote_out(token_in, amount_in)->Ok_0;
            net * sides.reserve_out <= out * (sides.reserve_in * BPS + net)
        }),
    ensures
        ({
            let token_out = state.sides_selling(token_in)->0.token_out;
            let out = state.quote_out(token_in, amount_in)->Ok_0;
            state.quote_in(token_out, out) matches Ok(cost) ==> amount_in <= cost
        }),
{
    let sides = state.sides_selling(token_in)->0;
    let (ri, ro) = (sides.reserve_in as int, sides.reserve_out as int);
    lemma_output(sides.reserve_in, sides.reserve_out, state.fee_bps, amount_in);
    let out = state.quote_out(token_in, amount_in)->Ok_0;
    if let Ok(cost) = state.quote_in(sides.token_out, out) {
        lemma_input(sides.reserve_in, sides.reserve_out, state.fee_bps, out);
        let kept = BPS - state.fee_bps;
        let less = amount_in - 1;
        let net = less * kept;
        let left = (ro - out) * kept;
        assert(less * left <= ri * out * BPS) by (nonlinear_arith)
            requires
                net * ro <= out * (ri * BPS + net),
                net == less * kept,
                left == (ro - out) * kept,
        ;
        assert(less < cost) by (nonlinear_arith)
            requires
                less * left <= ri * out * BPS,
                ri * out * BPS < cost * left,
                left > 0,
        ;
    }
}

/// Selling an amount and selling back what it paid out never returns more than the amount.
pub proof fn law_trading_back_gains_nothing(
    state: PoolState,
    token_in: Address,
    amount_in: i128,
    min_out: i128,
    min_back: i128,
)
    requires
        state.wf(),
        amount_in > 0,
        state.swap_refusal(token_in, amount_in, min_out) is None,
    ensures
        ({
            let token_out = state.sides_selling(token_in)->0.token_out;
            let out = state.quote_out(token_in, amount_in)->Ok_0;
            let after = state.after_swap(token_in, amount_in, out);
            out > 0 && after.swap_refusal(token_out, out, min_back) is None ==> after.quote_out(
                token_out,
                out,
            )->Ok_0 <= amount_in
        }),
{
    let sides = state.sides_selling(token_in)->0;
    let (ri, ro) = (sides.reserve_in as int, sides.reserve_out as int);
    let out = state.quote_out(token_in, amount_in)->Ok_0;
    let after = state.after_swap(token_in, amount_in, out);
    law_swap_keeps_the_product(state, token_in, amount_in, min_out);
    if out > 0 && after.swap_refusal(sides.token_out, out, min_back) is None {
        let back = after.quote_out(sides.token_out, out)->Ok_0;
        let last = after.after_swap(sides.token_out, out, back);
        law_swap_keeps_the_product(after, sides.token_out, out, min_back);
        assert(ri * ro == state.k() && (ri + amount_in - back) * ro == last.k()) by (
        nonlinear_arith)
            requires
                state.k() == state.reserve_a * state.reserve_b,
                last.k() == last.reserve_a * last.reserve_b,
                (ri == state.reserve_a && ro == state.reserve_b && last.reserve_a == ri + amount_in
                    - back && last.reserve_b == ro) || (ri == state.reserve_b && ro
                    == state.reserve_a && last.reserve_b == ri + amount_in - back && last.reserve_a
                    == ro),
        ;
        assert(back <= amount_in) by (nonlinear_arith)
            requires
                (ri + amount_in - back) * ro >= ri * ro,
                ro > 0,
        ;
    }
}

/// What a deposit into a pool with shares is worth: no more than either amount is worth in its
/// own reserve.
proof fn lemma_later_shares(state: PoolState, amount_a: i128, amount_b: i128)
    requires
        state.wf(),
        state.total_shares > 0,
        amount_a > 0,
        amount_b > 0,
        state.shares_for(amount_a, amount_b) is Ok,
    ensures
        ({
            let shares = state.shares_for(amount_a, amount_b)->Ok_0;
            &&& shares >= 0
            &&& shares * state.reserve_a <= amount_a * state.total_shares
            &&& shares * state.reserve_b <= amount_b * state.total_shares
        }),
{
    let total = state.total_shares;
    let shares = state.shares_for(amount_a, amount_b)->Ok_0;
    assert(amount_a * total >= 0 && amount_b * total >= 0) by (nonlinear_arith)
        requires
            amount_a > 0,
            amount_b > 0,
            total > 0,
    ;
    lemma_ratio(amount_a * total, state.reserve_a as int);
    lemma_ratio(amount_b * total, state.reserve_b as int);
    let shares_a = mul_div_of(amount_a, total, state.reserve_a)->Ok_0;
    let shares_b = mul_div_of(amount_b, total, state.reserve_b)->Ok_0;
    assert(shares * state.reserve_a <= shares_a * state.reserve_a && shares * state.reserve_b
        <= shares_b * state.reserve_b) by (nonlinear_arith)
        requires
            shares <= shares_a,
            shares <= shares_b,
            state.reserve_a > 0,
            state.reserve_b > 0,
    ;
}

/// The shares of the first deposit are the geometric mean of the amounts, rounded down.
pub proof fn law_first_shares_are_the_geometric_mean(
    state: PoolState,
    amount_a: i128,
    amount_b: i128,
)
    requires
        state.total_shares == 0,
        amount_a > 0,
        amount_b > 0,
        state.shares_for(amount_a, amount_b) is Ok,
    ensures
        is_sqrt(
            amount_a * amount_b,
            state.shares_for(amount_a, amount_b)->Ok_0 as int,
        ),
{
    let value = amount_a * amount_b;
    assert(value > 0) by (nonlinear_arith)
        requires
            value == amount_a * amount_b,
            amount_a > 0,
            amount_b > 0,
    ;
    lemma_isqrt_exists(value);
    let root = isqrt(value);
    assert(root <= value) by (nonlinear_arith)
        requires
            0 <= root,
            root * root <= value,
    ;
}

/// A deposit into a pool with shares is credited with no more than either of the two amounts is
/// worth, and with all that the lesser of the two is worth.
pub proof fn law_later_shares_are_the_lesser_worth(
    state: PoolState,
    amount_a: i128,
    amount_b: i128,
)
    requires
        state.wf(),
        state.total_shares > 0,
        amount_a > 0,
        amount_b > 0,
        state.shares_for(amount_a, amount_b) is Ok,
    ensures
        ({
            let shares = state.shares_for(amount_a, amount_b)->Ok_0;
            let worth_a = amount_a * state.total_shares / (state.reserve_a as int);
            let worth_b = amount_b * state.total_shares / (state.reserve_b as int);
            &&& shares <= worth_a
            &&& shares <= worth_b
            &&& shares == worth_a || shares == worth_b
        }),
{
    let total = state.total_shares;
    assert(amount_a * total >= 0 && amount_b * total >= 0) by (nonlinear_arith)
        requires
            amount_a > 0,
            amount_b > 0,
            total > 0,
    ;
    lemma_ratio(amount_a * total, state.reserve_a as int);
    lemma_ratio(amount_b * total, state.reserve_b as int);
}

/// The first deposit is accepted in any ratio, as long as there is room for the product of the
/// amounts.
pub proof fn law_first_deposit_takes_any_ratio(state: PoolState, amount_a: i128, amount_b: i128)
    requires
        state.wf(),
        state.total_shares == 0,
        amount_a > 0,
        amount_b > 0,
        amount_a * amount_b <= i128::MAX,
    ensures
        state.deposit_refusal(amount_a, amount_b, 0) is None,
{
    let value = amount_a * amount_b;
    assert(value > 0) by (nonlinear_arith)
        requires
            value == amount_a * amount_b,
            amount_a > 0,
            amount_b > 0,
    ;
    law_first_shares_are_the_geometric_mean(state, amount_a, amount_b);
    let root = state.shares_for(amount_a, amount_b)->Ok_0 as int;
    assert(root > 0) by (nonlinear_arith)
        requires
            root >= 0,
            value > 0,
            value < (root + 1) * (root + 1),
    ;
}

/// An accepted deposit never mints less than the provider asked for, and never nothing.
pub proof fn law_deposit_respects_the_minimum(
    state: PoolState,
    amount_a: i128,
    amount_b: i128,
    min_shares: i128,
)
    requires
        state.deposit_refusal(amount_a, amount_b, min_shares) is None,
    ensures
        state.shares_for(amount_a, amount_b) is Ok,
        state.shares_for(amount_a, amount_b)->Ok_0 > 0,
        state.shares_for(amount_a, amount_b)->Ok_0 >= min_shares,
{
}

/// An accepted deposit keeps the pool as it should be, and does not dilute the shares that are
/// there: no share stands for less of either reserve than before.
pub proof fn law_deposit_does_not_dilute(
    state: PoolState,
    amount_a: i128,
    amount_b: i128,
    min_shares: i128,
)
    requires
        state.wf(),
        amount_a > 0,
        amount_b > 0,
        state.deposit_refusal(amount_a, amount_b, min_shares) is None,
    ensures
        ({
            let shares = state.shares_for(amount_a, amount_b)->Ok_0;
            let after = state.after_deposit(amount_a, amount_b, shares);
            &&& after.wf()
            &&& after.reserve_a * state.total_shares >= state.reserve_a * after.total_shares
            &&& after.reserve_b * state.total_shares >= state.reserve_b * after.total_shares
        }),
{
    let shares = state.shares_for(amount_a, amount_b)->Ok_0;
    let after = state.after_deposit(amount_a, amount_b, shares);
    let total = state.total_shares;
    if total > 0 {
        lemma_later_shares(state, amount_a, amount_b);
        assert((state.reserve_a + amount_a) * total >= state.reserve_a * (total + shares) && (
        state.reserve_b + amount_b) * total >= state.reserve_b * (total + shares)) by (
        nonlinear_arith)
            requires
                shares * state.reserve_a <= amount_a * total,
                shares * state.reserve_b <= amount_b * total,
        ;
    } else {
        assert(after.reserve_a * 0 == 0 && after.reserve_b * 0 == 0);
        assert(0 * after.total_shares == 0);
    }
}

/// What an accepted withdrawal pays out: the part `shares / total_shares` of each reserve,
/// rounded down.
proof fn lemma_amounts(state: PoolState, shares: i128)
    requires
        state.wf(),
        0 < shares <= state.total_shares,
        state.amounts_for(shares) is Ok,
    ensures
        ({
            let (amount_a, amount_b) = state.amounts_for(shares)->Ok_0;
            let total = state.total_shares;
            &&& 0 <= amount_a <= state.reserve_a
            &&& 0 <= amount_b <= state.reserve_b
            &&& amount_a * total <= shares * state.reserve_a < (amount_a + 1) * total
            &&& amount_b * total <= shares * state.reserve_b < (amount_b + 1) * total
            &&& shares < total ==> amount_a < state.reserve_a && amount_b < state.reserve_b
            &&& shares == total ==> amount_a == state.reserve_a && amount_b == state.reserve_b
        }),
{
    let (amount_a, amount_b) = state.amounts_for(shares)->Ok_0;
    let total = state.total_shares;
    let (ra, rb) = (state.reserve_a, state.reserve_b);
    assert(shares * ra >= 0 && shares * rb >= 0) by (nonlinear_arith)
        requires
            shares > 0,
            ra > 0,
            rb > 0,
    ;
    lemma_ratio(shares * ra, total as int);
    lemma_ratio(shares * rb, total as int);
    lemma_part(shares as int, total as int, ra as int, amount_a as int);
    lemma_part(shares as int, total as int, rb as int, amount_b as int);
}

/// A part of a reserve is no more than the reserve, and is less where it is not the whole.
proof fn lemma_part(shares: int, total: int, reserve: int, amount: int)
    requires
        0 < shares <= total,
        reserve > 0,
        amount * total <= shares * reserve < (amount + 1) * total,
    ensures
        amount <= reserve,
        shares < total ==> amount < reserve,
        shares == total ==> amount == reserve,
{
    assert(amount <= reserve) by (nonlinear_arith)
        requires
            0 < shares <= total,
            reserve > 0,
            amount * total <= shares * reserve,
    ;
    if shares < total {
        assert(amount < reserve) by (nonlinear_arith)
            requires
                0 < shares < total,
                reserve > 0,
                amount * total <= shares * reserve,
        ;
    } else {
        assert(amount >= reserve) by (nonlinear_arith)
            requires
                total > 0,
                total * reserve < (amount + 1) * total,
        ;
    }
}

/// A withdrawal of shares that exist pays out no more than the pool has, keeps the pool as it
/// should be, and does not dilute the shares that remain: none stands for less of either reserve
/// than before.
pub proof fn law_withdrawal_does_not_dilute(
    state: PoolState,
    owned: i128,
    shares: i128,
    min_a: i128,
    min_b: i128,
)
    requires
        state.wf(),
        0 < shares <= state.total_shares,
        state.withdrawal_refusal(owned, shares, min_a, min_b) is None,
    ensures
        ({
            let (amount_a, amount_b) = state.amounts_for(shares)->Ok_0;
            let after = state.after_withdrawal(shares, amount_a, amount_b);
            &&& 0 <= amount_a <= state.reserve_a
            &&& 0 <= amount_b <= state.reserve_b
            &&& after.wf()
            &&& after.reserve_a * state.total_shares >= state.reserve_a * after.total_shares
            &&& after.reserve_b * state.total_shares >= state.reserve_b * after.total_shares
        }),
{
    lemma_amounts(state, shares);
    let (amount_a, amount_b) = state.amounts_for(shares)->Ok_0;
    let total = state.total_shares;
    assert((state.reserve_a - amount_a) * total >= state.reserve_a * (total - shares) && (
    state.reserve_b - amount_b) * total >= state.reserve_b * (total - shares)) by (nonlinear_arith)
        requires
            amount_a * total <= shares * state.reserve_a,
            amount_b * total <= shares * state.reserve_b,
    ;
}

/// Shares that exist and are owned can be withdrawn, as long as there is room for their products
/// with the reserves.
pub proof fn law_shares_can_be_withdrawn(state: PoolState, owned: i128, shares: i128)
    requires
        state.wf(),
        0 < shares <= state.total_shares,
        shares <= owned,
        fits(shares * state.reserve_a),
        fits(shares * state.reserve_b),
    ensures
        state.withdrawal_refusal(owned, shares, 0, 0) is None,
{
    let total = state.total_shares as int;
    lemma_part_fits(shares as int, total, state.reserve_a as int);
    lemma_part_fits(shares as int, total, state.reserve_b as int);
    lemma_amounts(state, shares);
}

/// There is room for a part of a reserve.
proof fn lemma_part_fits(shares: int, total: int, reserve: int)
    requires
        0 < shares <= total,
        reserve > 0,
        fits(shares * reserve),
    ensures
        ratio_of(shares * reserve, total) is Ok,
{
    assert(shares * reserve >= 0) by (nonlinear_arith)
        requires
            shares > 0,
            reserve > 0,
    ;
    vstd::arithmetic::div_mod::lemma_div_pos_is_pos(shares * reserve, total);
    vstd::arithmetic::div_mod::lemma_div_nonincreasing(shares * reserve, total);
}

/// An accepted withdrawal never pays out less than the provider asked for, and never burns more
/// than the provider owns.
pub proof fn law_withdrawal_respects_the_minimum(
    state: PoolState,
    owned: i128,
    shares: i128,
    min_a: i128,
    min_b: i128,
)
    requires
        state.withdrawal_refusal(owned, shares, min_a, min_b) is None,
    ensures
        state.amounts_for(shares) is Ok,
        state.amounts_for(shares)->Ok_0.0 >= min_a,
        state.amounts_for(shares)->Ok_0.1 >= min_b,
        shares <= owned,
{
}

/// Withdrawing all shares pays out both reserves and leaves the pool empty.
pub proof fn law_last_withdrawal_empties_the_pool(
    state: PoolState,
    owned: i128,
    min_a: i128,
    min_b: i128,
)
    requires
        state.wf(),
        state.total_shares > 0,
        state.withdrawal_refusal(owned, state.total_shares, min_a, min_b) is None,
    ensures
        ({
            let (amount_a, amount_b) = state.amounts_for(state.total_shares)->Ok_0;
            let after = state.after_withdrawal(state.total_shares, amount_a, amount_b);
            &&& (amount_a, amount_b) == (state.reserve_a, state.reserve_b)
            &&& (after.reserve_a, after.reserve_b, after.total_shares) == (0i128, 0i128, 0i128)
        }),
{
    lemma_amounts(state, state.total_shares);
}

/// Depositing and withdrawing the shares again never pays out more than was deposited, and pays
/// out all of it where the deposit was the first.
pub proof fn law_deposit_and_withdrawal_gain_nothing(
    state: PoolState,
    amount_a: i128,
    amount_b: i128,
    min_shares: i128,
)
    requires
        state.wf(),
        amount_a > 0,
        amount_b > 0,
        state.deposit_refusal(amount_a, amount_b, min_shares) is None,
    ensures
        ({
            let shares = state.shares_for(amount_a, amount_b)->Ok_0;
            let after = state.after_deposit(amount_a, amount_b, shares);
            after.amounts_for(shares) matches Ok(amounts) ==> {
                &&& amounts.0 <= amount_a
                &&& amounts.1 <= amount_b
                &&& state.total_shares == 0 ==> amounts == (amount_a, amount_b)
            }
        }),
{
    let shares = state.shares_for(amount_a, amount_b)->Ok_0;
    let after = state.after_deposit(amount_a, amount_b, shares);
    law_deposit_does_not_dilute(state, amount_a, amount_b, min_shares);
    if let Ok(amounts) = after.amounts_for(shares) {
        lemma_amounts(after, shares);
        let total = state.total_shares;
        if total > 0 {
            lemma_later_shares(state, amount_a, amount_b);
            lemma_paid_back(
                shares as int,
                total as int,
                state.reserve_a as int,
                amount_a as int,
                amounts.0 as int,
            );
            lemma_paid_back(
                shares as int,
                total as int,
                state.reserve_b as int,
                amount_b as int,
                amounts.1 as int,
            );
        }
    }
}

/// Shares that are worth no more than an amount do not pay it back with a gain.
proof fn lemma_paid_back(shares: int, total: int, reserve: int, amount: int, paid: int)
    requires
        shares > 0,
        total > 0,
        shares * reserve <= amount * total,
        paid * (total + shares) <= shares * (reserve + amount),
    ensures
        paid <= amount,
{
    assert(shares * (reserve + amount) <= amount * (total + shares)) by (nonlinear_arith)
        requires
            shares * reserve <= amount * total,
    ;
    assert(paid <= amount) by (nonlinear_arith)
        requires
            paid * (total + shares) <= amount * (total + shares),
            total + shares > 0,
    ;
}

/// A pool that has just been set up has its shares covered, as it has none.
pub proof fn law_new_pool_has_shares_covered(state: PoolState)
    requires
        state.reserve_a == 0,
        state.reserve_b == 0,
        state.total_shares == 0,
    ensures
        state.shares_covered(),
{
}

/// A swap keeps the shares covered by the reserves.
pub proof fn law_swap_keeps_shares_covered(
    state: PoolState,
    token_in: Address,
    amount_in: i128,
    min_out: i128,
)
    requires
        state.wf(),
        state.shares_covered(),
        amount_in > 0,
        state.swap_refusal(token_in, amount_in, min_out) is None,
    ensures
        state.after_swap(
            token_in,
            amount_in,
            state.quote_out(token_in, amount_in)->Ok_0,
        ).shares_covered(),
{
    law_swap_keeps_the_product(state, token_in, amount_in, min_out);
}

/// Shares that stand for no less of either reserve than before are covered as they were before.
proof fn lemma_still_covered(t0: int, a0: int, b0: int, t1: int, a1: int, b1: int)
    requires
        t0 > 0,
        t1 >= 0,
        a0 > 0,
        b0 > 0,
        a1 >= 0,
        b1 >= 0,
        t0 * t0 <= a0 * b0,
        a1 * t0 >= a0 * t1,
        b1 * t0 >= b0 * t1,
    ensures
        t1 * t1 <= a1 * b1,
{
    let sq = t0 * t0;
    assert((a1 * t0) * (b1 * t0) >= (a0 * t1) * (b0 * t1)) by (nonlinear_arith)
        requires
            a1 * t0 >= a0 * t1,
            b1 * t0 >= b0 * t1,
            a0 * t1 >= 0,
            b0 * t1 >= 0,
    {
        vstd::arithmetic::mul::lemma_mul_upper_bound(a0 * t1, a1 * t0, b0 * t1, b1 * t0);
    }
    assert((a1 * t0) * (b1 * t0) == (a1 * b1) * sq) by (nonlinear_arith)
        requires
            sq == t0 * t0,
    ;
    assert((a0 * t1) * (b0 * t1) == (a0 * b0) * (t1 * t1)) by (nonlinear_arith);
    assert((a0 * b0) * (t1 * t1) >= sq * (t1 * t1)) by (nonlinear_arith)
        requires
            a0 * b0 >= sq,
            t1 * t1 >= 0,
    ;
    assert(sq > 0) by (nonlinear_arith)
        requires
            sq == t0 * t0,
            t0 > 0,
    ;
    let (x, y) = (a1 * b1, t1 * t1);
    assert(x >= y) by (nonlinear_arith)
        requires
            x * sq >= sq * y,
            sq > 0,
    ;
}

/// A deposit keeps the shares covered by the reserves.
pub proof fn law_deposit_keeps_shares_covered(
    state: PoolState,
    amount_a: i128,
    amount_b: i128,
    min_shares: i128,
)
    requires
        state.wf(),
        state.shares_covered(),
        amount_a > 0,
        amount_b > 0,
        state.deposit_refusal(amount_a, amount_b, min_shares) is None,
    ensures
        state.after_deposit(
            amount_a,
            amount_b,
            state.shares_for(amount_a, amount_b)->Ok_0,
        ).shares_covered(),
{
    let shares = state.shares_for(amount_a, amount_b)->Ok_0;
    let after = state.after_deposit(amount_a, amount_b, shares);
    if state.total_shares == 0 {
        law_first_shares_are_the_geometric_mean(state, amount_a, amount_b);
    } else {
        law_deposit_does_not_dilute(state, amount_a, amount_b, min_shares);
        lemma_still_covered(
            state.total_shares as int,
            state.reserve_a as int,
            state.reserve_b as int,
            after.total_shares as int,
            after.reserve_a as int,
            after.reserve_b as int,
        );
    }
}

/// A withdrawal of shares that exist keeps the shares that remain covered by the reserves.
pub proof fn law_withdrawal_keeps_shares_covered(
    state: PoolState,
    owned: i128,
    shares: i128,
    min_a: i128,
    min_b: i128,
)
    requires
        state.wf(),
        state.shares_covered(),
        0 < shares <= state.total_shares,
        state.withdrawal_refusal(owned, shares, min_a, min_b) is None,
    ensures
        ({
            let (amount_a, amount_b) = state.amounts_for(shares)->Ok_0;
            state.after_withdrawal(shares, amount_a, amount_b).shares_covered()
        }),
{
    let (amount_a, amount_b) = state.amounts_for(shares)->Ok_0;
    let after = state.after_withdrawal(shares, amount_a, amount_b);
    law_withdrawal_does_not_dilute(state, owned, shares, min_a, min_b);
    lemma_still_covered(
        state.total_shares as int,
        state.reserve_a as int,
        state.reserve_b as int,
        after.total_shares as int,
        after.reserve_a as int,
        after.reserve_b as int,
    );
}

/// A pool that has been set up cannot be set up again.
pub proof fn law_initialize_works_once(
    pool: AmmPool,
    token_a: Address,
    token_b: Address,
    fee_bps: i128,
)
    requires
        pool.state is Some,
    ensures
        pool.initialize_refusal(token_a, token_b, fee_bps) == Some(
            AmmError::AlreadyInitialized { contract: pool.address },
        ),
{
}

/// No operation changes the tokens, the LP token or the fee of a pool, and a swap changes no
/// shares.
pub proof fn law_setup_is_final(
    state: PoolState,
    token_in: Address,
    amount_a: i128,
    amount_b: i128,
    shares: i128,
)
    ensures
        state.after_deposit(amount_a, amount_b, shares).same_setup(state),
        state.after_withdrawal(shares, amount_a, amount_b).same_setup(state),
        state.after_swap(token_in, amount_a, amount_b).same_setup(state),
        state.after_swap(token_in, amount_a, amount_b).total_shares == state.total_shares,
{
}

/// An empty pool quotes no price, sells nothing and buys nothing.
pub proof fn law_empty_pool_does_not_trade(
    pool: AmmPool,
    token: Address,
    amount: i128,
    minimum: i128,
)
    requires
        pool.wf(),
        pool.total_shares() == 0,
    ensures
        pool.prices() == Err::<(i128, i128), AmmError>(
            AmmError::EmptyPool { reserve_in: 0, reserve_out: 0 },
        ),
        pool.state matches Some(state) ==> {
            &&& state.quote_out(token, amount) is Err
            &&& state.quote_in(token, amount) is Err
            &&& state.swap_refusal(token, amount, minimum) is Some
        },
{
}

/// The two prices of a pool are reciprocal, but for rounding down: their product is at most one.
pub proof fn law_prices_are_reciprocal(pool: AmmPool)
    requires
        pool.prices() is Ok,
    ensures
        ({
            let (price_a, price_b) = pool.prices()->Ok_0;
            &&& price_a >= 0
            &&& price_b >= 0
            &&& price_a * price_b <= PRICE_SCALE * PRICE_SCALE
        }),
{
    let (price_a, price_b) = pool.prices()->Ok_0;
    let (ra, rb) = (pool.reserve_a() as int, pool.reserve_b() as int);
    let one = PRICE_SCALE as int;
    assert(rb * one >= 0 && ra * one >= 0 && ra * rb > 0) by (nonlinear_arith)
        requires
            ra > 0,
            rb > 0,
            one == 1_000_000,
    ;
    lemma_ratio(rb * one, ra);
    lemma_ratio(ra * one, rb);
    assert((price_a * ra) * (price_b * rb) <= (rb * one) * (ra * one)) by {
        assert(price_a * ra >= 0 && price_b * rb >= 0) by (nonlinear_arith)
            requires
                price_a >= 0,
                price_b >= 0,
                ra > 0,
                rb > 0,
        ;
        vstd::arithmetic::mul::lemma_mul_upper_bound(
            price_a * ra,
            rb * one,
            price_b * rb,
            ra * one,
        );
    }
    let (pp, kk, oo) = (price_a * price_b, ra * rb, one * one);
    assert((price_a * ra) * (price_b * rb) == pp * kk && (rb * one) * (ra * one) == oo * kk) by (
    nonlinear_arith)
        requires
            pp == price_a * price_b,
            kk == ra * rb,
            oo == one * one,
    ;
    assert(pp <= oo) by (nonlinear_arith)
        requires
            pp * kk <= oo * kk,
            kk > 0,
    ;
}

} // verus!
