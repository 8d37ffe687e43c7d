//! When each operation of a token succeeds, and what it then comes to, in terms of balances,
//! allowances and the supply.

use crate::address::Address;
use crate::exact_pool_laws::has_room;
use crate::ledger::DataKey;
use crate::token::{burn_step, mint_step, transfer_from_step, transfer_step, LpToken, TokenError};
use vstd::prelude::*;

verus! {

/// A balance or an allowance is what was stored for it last, and zero where nothing was.
pub proof fn law_amounts_start_at_zero(token: LpToken, id: Address, spender: Address)
    ensures
        ({
            let stored = token.ledger@;
            let (balance, allowance) = (DataKey::Balance(id), DataKey::Allowance(id, spender));
            &&& stored.dom().contains(balance) ==> token.balance_of(id) == stored[balance]
            &&& !stored.dom().contains(balance) ==> token.balance_of(id) == 0
            &&& stored.dom().contains(allowance) ==> token.allowance_of(id, spender)
                == stored[allowance]
            &&& !stored.dom().contains(allowance) ==> token.allowance_of(id, spender) == 0
        }),
{
}

/// `mint` succeeds exactly when the token is set up, the admin has authorized it, and there is room
/// for the new supply and the new balance. It raises just these two, and leaves the setup alone.
pub proof fn law_mint_is_exact(
    before: LpToken,
    after: LpToken,
    signer: Address,
    to: Address,
    amount: i128,
)
    ensures
        ({
            let refusal = before.mint_refusal(signer, to, amount);
            let ready = before.config is Some;
            let admin = before.config->0.admin;
            let room = has_room(before.total_supply + amount) && has_room(
                before.balance_of(to) + amount,
            );
            &&& refusal is None <==> ready && signer == admin && room
            &&& refusal == Some(TokenError::NotInitialized) <==> !ready
            &&& refusal == Some(TokenError::Unauthorized { required: admin, signer }) <==> ready
                && signer != admin
            &&& refusal == Some(TokenError::Overflow) <==> ready && signer == admin && !room
            &&& refusal is None && mint_step(before, after, to, amount) ==> {
                &&& after.config == before.config
                &&& after.total_supply == before.total_supply + amount
                &&& after.balance_of(to) == before.balance_of(to) + amount
                &&& forall|id: Address|
                    id != to ==> #[trigger] after.balance_of(id) == before.balance_of(id)
            }
        }),
{
}

/// `burn` succeeds exactly when the token is set up, the admin has authorized it, the holder has at
/// least the amount, and there is room for the new supply and the new balance. It lowers just these
/// two, and leaves the setup alone.
pub proof fn law_burn_is_exact(
    before: LpToken,
    after: LpToken,
    signer: Address,
    from: Address,
    amount: i128,
)
    ensures
        ({
            let refusal = before.burn_refusal(signer, from, amount);
            let ready = before.config is Some;
            let admin = before.config->0.admin;
            let available = before.balance_of(from);
            let room = has_room(before.total_supply - amount) && has_room(available - amount);
            &&& refusal is None <==> ready && signer == admin && amount <= available && room
            &&& refusal == Some(TokenError::NotInitialized) <==> !ready
            &&& refusal == Some(TokenError::Unauthorized { required: admin, signer }) <==> ready
                && signer != admin
            &&& refusal == Some(
                TokenError::InsufficientBalance { available, requested: amount },
            ) <==> ready && signer == admin && available < amount
            &&& refusal == Some(TokenError::Overflow) <==> ready && signer == admin && amount
                <= available && !room
            &&& refusal is None && burn_step(before, after, from, amount) ==> {
                &&& after.config == before.config
                &&& after.total_supply == before.total_supply - amount
                &&& after.balance_of(from) == available - amount
                &&& forall|id: Address|
                    id != from ==> #[trigger] after.balance_of(id) == before.balance_of(id)
            }
        }),
{
}

/// Whether there is room for the balances after `amount` has moved from `from` to `to`.
pub open spec fn move_has_room(
    token: LpToken,
    from: Address,
    to: Address,
    amount: i128,
) -> bool {
    &&& has_room(token.balance_of(from) - amount)
    &&& from != to ==> has_room(token.balance_of(to) + amount)
}

/// `transfer` succeeds exactly when the holder has authorized it and has at least the amount, and
/// there is room for the new balances. It needs no setup, and leaves it and the supply alone.
pub proof fn law_transfer_is_exact(
    before: LpToken,
    after: LpToken,
    signer: Address,
    from: Address,
    to: Address,
    amount: i128,
)
    ensures
        ({
            let refusal = before.transfer_refusal(signer, from, to, amount);
            let available = before.balance_of(from);
            let room = move_has_room(before, from, to, amount);
            &&& refusal is None <==> signer == from && amount <= available && room
            &&& refusal == Some(TokenError::Unauthorized { required: from, signer }) <==> signer
                != from
            &&& refusal == Some(
                TokenError::InsufficientBalance { available, requested: amount },
            ) <==> signer == from && available < amount
            &&& refusal == Some(TokenError::Overflow) <==> signer == from && amount <= available
                && !room
            &&& transfer_step(before, after, from, to, amount) ==> after.config == before.config
                && after.total_supply == before.total_supply
        }),
{
}

/// `transfer_from` succeeds exactly when the spender has authorized it and is allowed at least the
/// amount, the holder has at least the amount, and there is room for the new allowance and the new
/// balances. It needs no setup, and leaves it and the supply alone.
pub proof fn law_transfer_from_is_exact(
    before: LpToken,
    after: LpToken,
    signer: Address,
    spender: Address,
    from: Address,
    to: Address,
    amount: i128,
)
    ensures
        ({
            let refusal = before.transfer_from_refusal(signer, spender, from, to, amount);
            let allowance = before.allowance_of(from, spender);
            let balance = before.balance_of(from);
            let room = move_has_room(before, from, to, amount);
            let may = signer == spender && amount <= allowance;
            let left = has_room(allowance - amount);
            &&& refusal is None <==> may && left && amount <= balance && room
            &&& refusal == Some(TokenError::Unauthorized { required: spender, signer }) <==> signer
                != spender
            &&& refusal == Some(
                TokenError::InsufficientAllowance { available: allowance, requested: amount },
            ) <==> signer == spender && allowance < amount
            &&& refusal == Some(
                TokenError::InsufficientBalance { available: balance, requested: amount },
            ) <==> may && left && balance < amount
            &&& refusal == Some(TokenError::Overflow) <==> may && (!left || (amount <= balance
                && !room))
            &&& transfer_from_step(before, after, spender, from, to, amount) ==> after.config
                == before.config && after.total_supply == before.total_supply
        }),
{
}

} // verus!
