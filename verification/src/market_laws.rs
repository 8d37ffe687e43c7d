//! What holds of a pool together with the tokens that it calls.

use crate::address::Address;
use crate::arith::fits;
use crate::ledger::DataKey;
use crate::pool::{AmmPool, Call};
use crate::pool_laws::{
    law_deposit_does_not_dilute, law_shares_can_be_withdrawn, law_withdrawal_does_not_dilute,
};
use crate::token::{
    approve_step, burn_step, mint_step, transfer_from_step, transfer_step, LpToken,
};
use crate::token_laws::{
    law_approve_conserves_tokens, law_burn_keeps_supply_backed, law_burn_makes_no_debts,
    law_mint_keeps_supply_backed, law_mint_makes_no_debts, law_new_token_is_backed,
    law_nobody_holds_more_than_the_supply, law_only_the_admin_mints_and_burns,
    law_transfer_conserves_tokens, law_transfer_from_conserves_tokens,
    law_transfer_from_makes_no_debts, law_transfer_makes_no_debts, law_transfer_moves_the_amount,
};
use vstd::prelude::*;

verus! {

/// What a call adds to the holdings of `holder` in `token`.
pub open spec fn received_by_call(call: Call, token: Address, holder: Address) -> int {
    match call {
        Call::Transfer { token: moved, from, to, amount } => if moved != token || from == to {
            0
        } else if to == holder {
            amount as int
        } else if from == holder {
            -amount
        } else {
            0
        },
        Call::Mint { token: minted, to, amount } => if minted == token && to == holder {
            amount as int
        } else {
            0
        },
        Call::Burn { token: burned, from, amount } => if burned == token && from == holder {
            -amount
        } else {
            0
        },
    }
}

/// What calls add to the holdings of `holder` in `token`.
pub open spec fn received(calls: Seq<Call>, token: Address, holder: Address) -> int
    decreases calls.len(),
{
    if calls.len() == 0 {
        0
    } else {
        received(calls.drop_last(), token, holder) + received_by_call(calls.last(), token, holder)
    }
}

/// What calls add to the supply of `token`.
pub open spec fn issued(calls: Seq<Call>, token: Address) -> int
    decreases calls.len(),
{
    if calls.len() == 0 {
        0
    } else {
        issued(calls.drop_last(), token) + match calls.last() {
            Call::Transfer { .. } => 0,
            Call::Mint { token: minted, to: _, amount } => if minted == token {
                amount as int
            } else {
                0
            },
            Call::Burn { token: burned, from: _, amount } => if burned == token {
                -amount
            } else {
                0
            },
        }
    }
}

/// Three calls, one after the other.
proof fn lemma_three_calls(calls: Seq<Call>, token: Address, holder: Address)
    requires
        calls.len() == 3,
    ensures
        received(calls, token, holder) == received_by_call(calls[0], token, holder)
            + received_by_call(calls[1], token, holder) + received_by_call(
            calls[2],
            token,
            holder,
        ),
        issued(calls, token) == issued(seq![calls[0]], token) + issued(seq![calls[1]], token)
            + issued(seq![calls[2]], token),
{
    reveal_with_fuel(received, 4);
    reveal_with_fuel(issued, 4);
    assert(calls.drop_last().drop_last() =~= seq![calls[0]]);
    assert(seq![calls[0]].drop_last() =~= Seq::<Call>::empty());
    assert(seq![calls[1]].drop_last() =~= Seq::<Call>::empty());
    assert(seq![calls[2]].drop_last() =~= Seq::<Call>::empty());
}

/// Two calls, one after the other.
proof fn lemma_two_calls(calls: Seq<Call>, token: Address, holder: Address)
    requires
        calls.len() == 2,
    ensures
        received(calls, token, holder) == received_by_call(calls[0], token, holder)
            + received_by_call(calls[1], token, holder),
        issued(calls, token) == issued(seq![calls[0]], token) + issued(seq![calls[1]], token),
{
    reveal_with_fuel(received, 3);
    reveal_with_fuel(issued, 3);
    assert(calls.drop_last() =~= seq![calls[0]]);
    assert(seq![calls[0]].drop_last() =~= Seq::<Call>::empty());
    assert(seq![calls[1]].drop_last() =~= Seq::<Call>::empty());
}

/// A deposit moves into the pool what it adds to the reserves, and mints the shares that it adds.
/// Where the LP token is neither of its tokens, the provider receives just these shares. The
/// provider is somebody else than the pool.
pub proof fn law_deposit_calls_match_the_state(
    pool: AmmPool,
    provider: Address,
    amount_a: i128,
    amount_b: i128,
    min_shares: i128,
)
    requires
        pool.wf(),
        pool.state is Some,
        provider != pool.address,
        pool.add_liquidity_refusal(provider, provider, amount_a, amount_b, min_shares) is None,
    ensures
        ({
            let state = pool.state->0;
            let shares = state.shares_for(amount_a, amount_b)->Ok_0;
            let after = state.after_deposit(amount_a, amount_b, shares);
            let calls = pool.deposit_calls(provider, amount_a, amount_b, shares);
            &&& received(calls, state.token_a, pool.address) == after.reserve_a - state.reserve_a
            &&& received(calls, state.token_b, pool.address) == after.reserve_b - state.reserve_b
            &&& issued(calls, state.lp_token) == after.total_shares - state.total_shares
            &&& state.lp_token != state.token_a && state.lp_token != state.token_b ==> received(
                calls,
                state.lp_token,
                provider,
            ) == shares
        }),
{
    let state = pool.state->0;
    let shares = state.shares_for(amount_a, amount_b)->Ok_0;
    let calls = pool.deposit_calls(provider, amount_a, amount_b, shares);
    lemma_three_calls(calls, state.token_a, pool.address);
    lemma_three_calls(calls, state.token_b, pool.address);
    lemma_three_calls(calls, state.lp_token, provider);
    reveal_with_fuel(issued, 2);
}

/// A withdrawal moves out of the pool what it takes off the reserves, and burns the shares that
/// it takes off. Where the LP token is neither of its tokens, the provider receives just the two
/// amounts and loses just the shares. The provider is somebody else than the pool.
pub proof fn law_withdrawal_calls_match_the_state(
    pool: AmmPool,
    provider: Address,
    owned: i128,
    shares: i128,
    min_a: i128,
    min_b: i128,
)
    requires
        pool.wf(),
        pool.state is Some,
        provider != pool.address,
        pool.remove_liquidity_refusal(provider, provider, owned, shares, min_a, min_b) is None,
    ensures
        ({
            let state = pool.state->0;
            let (amount_a, amount_b) = state.amounts_for(shares)->Ok_0;
            let after = state.after_withdrawal(shares, amount_a, amount_b);
            let calls = pool.withdrawal_calls(provider, shares, amount_a, amount_b);
            &&& received(calls, state.token_a, pool.address) == after.reserve_a - state.reserve_a
            &&& received(calls, state.token_b, pool.address) == after.reserve_b - state.reserve_b
            &&& issued(calls, state.lp_token) == after.total_shares - state.total_shares
            &&& state.lp_token != state.token_a && state.lp_token != state.token_b ==> {
                &&& received(calls, state.token_a, provider) == amount_a
                &&& received(calls, state.token_b, provider) == amount_b
                &&& received(calls, state.lp_token, provider) == -shares
            }
        }),
{
    let state = pool.state->0;
    let (amount_a, amount_b) = state.amounts_for(shares)->Ok_0;
    let calls = pool.withdrawal_calls(provider, shares, amount_a, amount_b);
    lemma_three_calls(calls, state.token_a, pool.address);
    lemma_three_calls(calls, state.token_b, pool.address);
    lemma_three_calls(calls, state.token_a, provider);
    lemma_three_calls(calls, state.token_b, provider);
    lemma_three_calls(calls, state.lp_token, provider);
    reveal_with_fuel(issued, 2);
}

/// A swap moves into the pool and out of it what it adds to the one reserve and takes off the
/// other, and touches no shares. The trader is somebody else than the pool.
pub proof fn law_swap_calls_match_the_state(
    pool: AmmPool,
    trader: Address,
    token_in: Address,
    amount_in: i128,
    min_out: i128,
)
    requires
        pool.wf(),
        pool.state is Some,
        trader != pool.address,
        pool.swap_refusal(trader, trader, token_in, amount_in, min_out) is None,
    ensures
        ({
            let state = pool.state->0;
            let token_out = state.sides_selling(token_in)->0.token_out;
            let amount_out = state.quote_out(token_in, amount_in)->Ok_0;
            let after = state.after_swap(token_in, amount_in, amount_out);
            let calls = pool.swap_calls(trader, token_in, amount_in, amount_out);
            &&& received(calls, state.token_a, pool.address) == after.reserve_a - state.reserve_a
            &&& received(calls, state.token_b, pool.address) == after.reserve_b - state.reserve_b
            &&& received(calls, token_in, trader) == -amount_in
            &&& received(calls, token_out, trader) == amount_out
            &&& issued(calls, state.lp_token) == 0
        }),
{
    let state = pool.state->0;
    let token_out = state.sides_selling(token_in)->0.token_out;
    let amount_out = state.quote_out(token_in, amount_in)->Ok_0;
    let calls = pool.swap_calls(trader, token_in, amount_in, amount_out);
    lemma_two_calls(calls, state.token_a, pool.address);
    lemma_two_calls(calls, state.token_b, pool.address);
    lemma_two_calls(calls, token_in, trader);
    lemma_two_calls(calls, token_out, trader);
    lemma_two_calls(calls, state.lp_token, trader);
    reveal_with_fuel(issued, 2);
}

/// What is due of `amount` in `token` where the amount is one of `paid`.
pub open spec fn due(token: Address, paid: Address, amount: i128) -> int {
    if token == paid {
        amount as int
    } else {
        0
    }
}

/// A deposit makes the provider pay both amounts to the pool and be credited with the shares, and
/// does nothing to any other holder or token. The shares are issued last. The provider is somebody
/// else than the pool.
pub proof fn law_deposit_calls_touch_nobody_else(
    pool: AmmPool,
    provider: Address,
    amount_a: i128,
    amount_b: i128,
    shares: i128,
    token: Address,
    holder: Address,
)
    requires
        pool.state is Some,
        provider != pool.address,
    ensures
        ({
            let state = pool.state->0;
            let calls = pool.deposit_calls(provider, amount_a, amount_b, shares);
            let paid = due(token, state.token_a, amount_a) + due(token, state.token_b, amount_b);
            let minted = due(token, state.lp_token, shares);
            &&& received(calls, token, pool.address) == paid
            &&& received(calls, token, provider) == minted - paid
            &&& holder != provider && holder != pool.address ==> received(calls, token, holder) == 0
            &&& issued(calls, token) == minted
            &&& calls.len() == 3
            &&& calls.last() is Mint
        }),
{
    let calls = pool.deposit_calls(provider, amount_a, amount_b, shares);
    lemma_three_calls(calls, token, pool.address);
    lemma_three_calls(calls, token, provider);
    lemma_three_calls(calls, token, holder);
    reveal_with_fuel(issued, 2);
}

/// A withdrawal makes the pool pay both amounts to the provider, who gives up the shares, and does
/// nothing to any other holder or token. The shares are burned first. The provider is somebody else
/// than the pool.
pub proof fn law_withdrawal_calls_touch_nobody_else(
    pool: AmmPool,
    provider: Address,
    shares: i128,
    amount_a: i128,
    amount_b: i128,
    token: Address,
    holder: Address,
)
    requires
        pool.state is Some,
        provider != pool.address,
    ensures
        ({
            let state = pool.state->0;
            let calls = pool.withdrawal_calls(provider, shares, amount_a, amount_b);
            let paid = due(token, state.token_a, amount_a) + due(token, state.token_b, amount_b);
            let burned = due(token, state.lp_token, shares);
            &&& received(calls, token, pool.address) == -paid
            &&& received(calls, token, provider) == paid - burned
            &&& holder != provider && holder != pool.address ==> received(calls, token, holder) == 0
            &&& issued(calls, token) == -burned
            &&& calls.len() == 3
            &&& calls[0] is Burn
        }),
{
    let calls = pool.withdrawal_calls(provider, shares, amount_a, amount_b);
    lemma_three_calls(calls, token, pool.address);
    lemma_three_calls(calls, token, provider);
    lemma_three_calls(calls, token, holder);
    reveal_with_fuel(issued, 2);
}

/// A swap makes the trader pay the amount sold to the pool and the pool pay the amount bought, in
/// the other of its two tokens, to the trader, and does nothing to any other holder or token. The
/// trader pays first. The trader is somebody else than the pool.
pub proof fn law_swap_calls_touch_nobody_else(
    pool: AmmPool,
    trader: Address,
    token_in: Address,
    amount_in: i128,
    amount_out: i128,
    token: Address,
    holder: Address,
)
    requires
        pool.state is Some,
        trader != pool.address,
        token_in == pool.state->0.token_a || token_in == pool.state->0.token_b,
    ensures
        ({
            let state = pool.state->0;
            let token_out = if token_in == state.token_a {
                state.token_b
            } else {
                state.token_a
            };
            let calls = pool.swap_calls(trader, token_in, amount_in, amount_out);
            let gained = due(token, token_in, amount_in) - due(token, token_out, amount_out);
            &&& received(calls, token, pool.address) == gained
            &&& received(calls, token, trader) == -gained
            &&& holder != trader && holder != pool.address ==> received(calls, token, holder) == 0
            &&& issued(calls, token) == 0
            &&& calls.len() == 2
            &&& received_by_call(calls[0], token_in, trader) == -amount_in
        }),
{
    let calls = pool.swap_calls(trader, token_in, amount_in, amount_out);
    lemma_two_calls(calls, token, pool.address);
    lemma_two_calls(calls, token, trader);
    lemma_two_calls(calls, token, holder);
    reveal_with_fuel(issued, 2);
}

/// A pool and its LP token: the pool is the admin, the supply is the number of shares, and it is
/// what the holders hold together, none of them less than nothing.
pub open spec fn in_step(pool: AmmPool, lp: LpToken) -> bool {
    &&& lp.config is Some
    &&& lp.config->0.admin == pool.address
    &&& lp.total_supply == pool.total_shares()
    &&& lp.supply_backed()
    &&& lp.no_debts()
}

/// A pool that has just been set up is in step with a token that has just been set up with the pool
/// as its admin.
pub proof fn law_market_starts_in_step(pool: AmmPool, lp: LpToken)
    requires
        pool.total_shares() == 0,
        lp.config is Some,
        lp.config->0.admin == pool.address,
        lp.total_supply == 0,
        lp.ledger@ == Map::<DataKey, i128>::empty(),
    ensures
        in_step(pool, lp),
{
    law_new_token_is_backed(lp);
}

/// A swap leaves the LP token alone, and the two in step.
pub proof fn law_swap_keeps_shares_in_step(
    pool: AmmPool,
    after_pool: AmmPool,
    lp: LpToken,
    token_in: Address,
    amount_in: i128,
    amount_out: i128,
)
    requires
        pool.state is Some,
        in_step(pool, lp),
        after_pool.address == pool.address,
        after_pool.state == Some(pool.state->0.after_swap(token_in, amount_in, amount_out)),
    ensures
        in_step(after_pool, lp),
{
}

/// Spending an allowance in the LP token, of an amount that is not negative, keeps it in step with
/// the pool.
pub proof fn law_spending_keeps_shares_in_step(
    pool: AmmPool,
    lp: LpToken,
    after_lp: LpToken,
    spender: Address,
    from: Address,
    to: Address,
    amount: i128,
)
    requires
        in_step(pool, lp),
        amount >= 0,
        lp.transfer_from_refusal(spender, spender, from, to, amount) is None,
        transfer_from_step(lp, after_lp, spender, from, to, amount),
    ensures
        in_step(pool, after_lp),
{
    law_transfer_from_conserves_tokens(lp, after_lp, spender, spender, from, to, amount);
    law_transfer_from_makes_no_debts(lp, after_lp, spender, spender, from, to, amount);
}

/// Setting an allowance in the LP token keeps it in step with the pool.
pub proof fn law_approving_keeps_shares_in_step(
    pool: AmmPool,
    lp: LpToken,
    after_lp: LpToken,
    from: Address,
    spender: Address,
    amount: i128,
)
    requires
        in_step(pool, lp),
        approve_step(lp, after_lp, from, spender, amount),
    ensures
        in_step(pool, after_lp),
{
    law_approve_conserves_tokens(lp, after_lp, from, spender, amount);
    assert forall|id: Address| #[trigger] after_lp.balance_of(id) >= 0 by {
        assert(lp.balance_of(id) >= 0);
    }
}

/// Nobody but the pool mints or burns an LP token that is in step with it.
pub proof fn law_only_the_pool_issues_shares(
    pool: AmmPool,
    lp: LpToken,
    signer: Address,
    id: Address,
    amount: i128,
)
    requires
        in_step(pool, lp),
        signer != pool.address,
    ensures
        lp.mint_refusal(signer, id, amount) is Some,
        lp.burn_refusal(signer, id, amount) is Some,
{
    law_only_the_admin_mints_and_burns(lp, signer, id, amount);
}

/// The LP token mints the shares of every deposit that the pool accepts, and the supply stays the
/// number of shares.
pub proof fn law_deposit_keeps_shares_in_step(
    pool: AmmPool,
    after_pool: AmmPool,
    lp: LpToken,
    after_lp: LpToken,
    provider: Address,
    amount_a: i128,
    amount_b: i128,
    min_shares: i128,
)
    requires
        pool.wf(),
        in_step(pool, lp),
        pool.add_liquidity_refusal(provider, provider, amount_a, amount_b, min_shares) is None,
        after_pool.address == pool.address,
        after_pool.state == Some(
            pool.state->0.after_deposit(
                amount_a,
                amount_b,
                pool.state->0.shares_for(amount_a, amount_b)->Ok_0,
            ),
        ),
        mint_step(lp, after_lp, provider, pool.state->0.shares_for(amount_a, amount_b)->Ok_0),
    ensures
        lp.mint_refusal(
            pool.address,
            provider,
            pool.state->0.shares_for(amount_a, amount_b)->Ok_0,
        ) is None,
        after_pool.wf(),
        in_step(after_pool, after_lp),
{
    let shares = pool.state->0.shares_for(amount_a, amount_b)->Ok_0;
    law_deposit_does_not_dilute(pool.state->0, amount_a, amount_b, min_shares);
    law_nobody_holds_more_than_the_supply(lp, provider);
    law_mint_keeps_supply_backed(lp, after_lp, pool.address, provider, shares);
    law_mint_makes_no_debts(lp, after_lp, pool.address, provider, shares);
}

/// The LP token burns the shares of every withdrawal that the pool accepts from a provider who
/// owns what the LP token says, and the supply stays the number of shares.
pub proof fn law_withdrawal_keeps_shares_in_step(
    pool: AmmPool,
    after_pool: AmmPool,
    lp: LpToken,
    after_lp: LpToken,
    provider: Address,
    shares: i128,
    min_a: i128,
    min_b: i128,
)
    requires
        pool.wf(),
        in_step(pool, lp),
        pool.remove_liquidity_refusal(
            provider,
            provider,
            lp.balance_of(provider),
            shares,
            min_a,
            min_b,
        ) is None,
        after_pool.address == pool.address,
        after_pool.state == Some(
            pool.state->0.after_withdrawal(
                shares,
                pool.state->0.amounts_for(shares)->Ok_0.0,
                pool.state->0.amounts_for(shares)->Ok_0.1,
            ),
        ),
        burn_step(lp, after_lp, provider, shares),
    ensures
        lp.burn_refusal(pool.address, provider, shares) is None,
        shares <= pool.total_shares(),
        after_pool.wf(),
        in_step(after_pool, after_lp),
{
    law_nobody_holds_more_than_the_supply(lp, provider);
    law_withdrawal_does_not_dilute(
        pool.state->0,
        lp.balance_of(provider),
        shares,
        min_a,
        min_b,
    );
    law_burn_keeps_supply_backed(lp, after_lp, pool.address, provider, shares);
    law_burn_makes_no_debts(lp, after_lp, pool.address, provider, shares);
}

/// A holder of shares can withdraw them, whoever they were minted to, as long as there is room for
/// their products with the reserves.
pub proof fn law_holders_can_withdraw(pool: AmmPool, lp: LpToken, holder: Address, shares: i128)
    requires
        pool.wf(),
        pool.state is Some,
        in_step(pool, lp),
        0 < shares <= lp.balance_of(holder),
        fits(shares * pool.reserve_a()),
        fits(shares * pool.reserve_b()),
    ensures
        pool.remove_liquidity_refusal(holder, holder, lp.balance_of(holder), shares, 0, 0) is None,
{
    law_nobody_holds_more_than_the_supply(lp, holder);
    law_shares_can_be_withdrawn(pool.state->0, lp.balance_of(holder), shares);
}

/// Transferring shares hands the right to withdraw them over: the receiver holds them in addition,
/// the sender no longer does, and the LP token stays in step with the pool.
pub proof fn law_transfer_hands_shares_over(
    pool: AmmPool,
    lp: LpToken,
    after_lp: LpToken,
    from: Address,
    to: Address,
    shares: i128,
)
    requires
        in_step(pool, lp),
        shares >= 0,
        lp.transfer_refusal(from, from, to, shares) is None,
        transfer_step(lp, after_lp, from, to, shares),
    ensures
        in_step(pool, after_lp),
        from != to ==> after_lp.balance_of(from) == lp.balance_of(from) - shares,
        from != to ==> after_lp.balance_of(to) == lp.balance_of(to) + shares,
        after_lp.balance_of(to) >= shares,
{
    law_transfer_conserves_tokens(lp, after_lp, from, from, to, shares);
    law_transfer_makes_no_debts(lp, after_lp, from, from, to, shares);
    law_transfer_moves_the_amount(lp, after_lp, from, from, to, shares);
    assert(lp.balance_of(to) >= 0);
}

} // verus!
