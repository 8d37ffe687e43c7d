//! What holds of every token, whatever is done with it.

use crate::address::Address;
use crate::ledger::{amount_at, DataKey};
use crate::token::{
    allowed, approve_step, burn_step, debited, mint_step, move_refusal, moved, transfer_from_step,
    transfer_step, LpToken, TokenError,
};
use vstd::prelude::*;

verus! {

/// What the amount under `key` adds to the balances.
pub open spec fn balance_under(ledger: Map<DataKey, i128>, key: DataKey) -> int {
    match key {
        DataKey::Balance(_) => ledger[key] as int,
        DataKey::Allowance(_, _) => 0,
    }
}

/// The sum of all balances in a finite ledger.
pub open spec fn held(ledger: Map<DataKey, i128>) -> int
    decreases ledger.dom().len(),
{
    if ledger.dom().finite() && ledger.dom().len() > 0 {
        let key = ledger.dom().choose();
        balance_under(ledger, key) + held(ledger.remove(key))
    } else {
        0
    }
}

impl LpToken {
    /// The supply is what the holders hold together.
    pub open spec fn supply_backed(self) -> bool {
        self.total_supply == held(self.ledger@)
    }

    /// Nobody holds less than nothing.
    pub open spec fn no_debts(self) -> bool {
        forall|id: Address| #[trigger] self.balance_of(id) >= 0
    }
}

/// The sum of all balances can be taken apart at any key.
proof fn lemma_held_at(ledger: Map<DataKey, i128>, key: DataKey)
    requires
        ledger.dom().finite(),
        ledger.dom().contains(key),
    ensures
        held(ledger) == balance_under(ledger, key) + held(ledger.remove(key)),
    decreases ledger.dom().len(),
{
    let first = ledger.dom().choose();
    assert(ledger.dom().contains(first));
    if first != key {
        let rest = ledger.remove(first);
        lemma_held_at(rest, key);
        let other = ledger.remove(key);
        assert(other.dom().contains(first));
        lemma_held_at(other, first);
        assert(rest.remove(key) =~= other.remove(first));
    }
}

/// Storing an amount under a key changes the sum of all balances by what it changes there.
proof fn lemma_held_after(ledger: Map<DataKey, i128>, key: DataKey, amount: i128)
    requires
        ledger.dom().finite(),
    ensures
        held(ledger.insert(key, amount)) == held(ledger) + (match key {
            DataKey::Balance(_) => amount - amount_at(ledger, key),
            DataKey::Allowance(_, _) => 0,
        }),
{
    let stored = ledger.insert(key, amount);
    lemma_held_at(stored, key);
    if ledger.dom().contains(key) {
        lemma_held_at(ledger, key);
        assert(stored.remove(key) =~= ledger.remove(key));
    } else {
        assert(stored.remove(key) =~= ledger);
    }
}

/// Nobody holds more than all holders together, where nobody holds less than nothing.
proof fn lemma_balance_at_most_held(ledger: Map<DataKey, i128>, id: Address)
    requires
        ledger.dom().finite(),
        forall|other: Address| #[trigger] amount_at(ledger, DataKey::Balance(other)) >= 0,
    ensures
        0 <= amount_at(ledger, DataKey::Balance(id)) <= held(ledger),
    decreases ledger.dom().len(),
{
    assert(amount_at(ledger, DataKey::Balance(id)) >= 0);
    if ledger.dom().len() > 0 {
        let key = ledger.dom().choose();
        assert(ledger.dom().contains(key));
        let rest = ledger.remove(key);
        assert forall|other: Address| #[trigger]
            amount_at(rest, DataKey::Balance(other)) >= 0 by {
            assert(amount_at(ledger, DataKey::Balance(other)) >= 0);
        }
        lemma_balance_at_most_held(rest, id);
        if key == DataKey::Balance(id) {
        } else if let DataKey::Balance(other) = key {
            assert(amount_at(ledger, DataKey::Balance(other)) >= 0);
        }
    } else {
        assert(!ledger.dom().contains(DataKey::Balance(id))) by {
            if ledger.dom().contains(DataKey::Balance(id)) {
                assert(ledger.dom().remove(DataKey::Balance(id)).len() == ledger.dom().len() - 1);
            }
        }
    }
}

/// A token that nobody has used yet has a supply of what its holders hold, which is nothing.
pub proof fn law_new_token_is_backed(token: LpToken)
    requires
        token.total_supply == 0,
        token.ledger@ == Map::<DataKey, i128>::empty(),
    ensures
        token.supply_backed(),
        token.no_debts(),
{
    assert(token.ledger@.dom() =~= Set::empty());
}

/// `initialize` keeps the supply what the holders hold together.
pub proof fn law_initialize_keeps_supply_backed(before: LpToken, after: LpToken)
    requires
        before.config is None,
        before.supply_backed(),
        before.total_supply == 0,
        after.config is Some,
        after.total_supply == 0,
        after.ledger == before.ledger,
    ensures
        after.supply_backed(),
{
}

/// `mint` keeps the supply what the holders hold together.
pub proof fn law_mint_keeps_supply_backed(
    before: LpToken,
    after: LpToken,
    signer: Address,
    to: Address,
    amount: i128,
)
    requires
        before.supply_backed(),
        before.mint_refusal(signer, to, amount) is None,
        mint_step(before, after, to, amount),
    ensures
        after.supply_backed(),
{
    before.ledger.lemma_finite();
    lemma_held_after(
        before.ledger@,
        DataKey::Balance(to),
        (before.balance_of(to) + amount) as i128,
    );
}

/// `burn` keeps the supply what the holders hold together.
pub proof fn law_burn_keeps_supply_backed(
    before: LpToken,
    after: LpToken,
    signer: Address,
    from: Address,
    amount: i128,
)
    requires
        before.supply_backed(),
        before.burn_refusal(signer, from, amount) is None,
        burn_step(before, after, from, amount),
    ensures
        after.supply_backed(),
{
    before.ledger.lemma_finite();
    lemma_held_after(
        before.ledger@,
        DataKey::Balance(from),
        (before.balance_of(from) - amount) as i128,
    );
}

/// Moving an amount leaves the sum of all balances as it is.
proof fn lemma_move_keeps_held(
    ledger: Map<DataKey, i128>,
    from: Address,
    to: Address,
    amount: i128,
)
    requires
        ledger.dom().finite(),
        move_refusal(ledger, from, to, amount) is None,
    ensures
        held(moved(ledger, from, to, amount)) == held(ledger),
{
    let taken = debited(ledger, from, amount);
    lemma_held_after(
        ledger,
        DataKey::Balance(from),
        (amount_at(ledger, DataKey::Balance(from)) - amount) as i128,
    );
    lemma_held_after(
        taken,
        DataKey::Balance(to),
        (amount_at(taken, DataKey::Balance(to)) + amount) as i128,
    );
}

/// `transfer` moves tokens and neither makes nor destroys any: the sum of all balances and the
/// supply stay as they are.
pub proof fn law_transfer_conserves_tokens(
    before: LpToken,
    after: LpToken,
    signer: Address,
    from: Address,
    to: Address,
    amount: i128,
)
    requires
        before.transfer_refusal(signer, from, to, amount) is None,
        transfer_step(before, after, from, to, amount),
    ensures
        held(after.ledger@) == held(before.ledger@),
        after.total_supply == before.total_supply,
        before.supply_backed() ==> after.supply_backed(),
{
    before.ledger.lemma_finite();
    lemma_move_keeps_held(before.ledger@, from, to, amount);
}

/// `transfer_from` moves tokens and neither makes nor destroys any: the sum of all balances and
/// the supply stay as they are.
pub proof fn law_transfer_from_conserves_tokens(
    before: LpToken,
    after: LpToken,
    signer: Address,
    spender: Address,
    from: Address,
    to: Address,
    amount: i128,
)
    requires
        before.transfer_from_refusal(signer, spender, from, to, amount) is None,
        transfer_from_step(before, after, spender, from, to, amount),
    ensures
        held(after.ledger@) == held(before.ledger@),
        after.total_supply == before.total_supply,
        before.supply_backed() ==> after.supply_backed(),
{
    before.ledger.lemma_finite();
    let left = before.allowance_of(from, spender) - amount;
    let spent = allowed(before.ledger@, from, spender, left);
    lemma_held_after(before.ledger@, DataKey::Allowance(from, spender), left as i128);
    assert(debited(spent, from, amount) =~= allowed(
        debited(before.ledger@, from, amount),
        from,
        spender,
        left,
    ));
    lemma_move_keeps_held(spent, from, to, amount);
}

/// `approve` touches no balance, and so keeps the supply what the holders hold together.
pub proof fn law_approve_conserves_tokens(
    before: LpToken,
    after: LpToken,
    from: Address,
    spender: Address,
    amount: i128,
)
    requires
        approve_step(before, after, from, spender, amount),
    ensures
        forall|id: Address| #[trigger] after.balance_of(id) == before.balance_of(id),
        held(after.ledger@) == held(before.ledger@),
        before.supply_backed() ==> after.supply_backed(),
{
    before.ledger.lemma_finite();
    lemma_held_after(before.ledger@, DataKey::Allowance(from, spender), amount);
}

/// Where nobody holds less than nothing, minting an amount that is not negative keeps it so.
pub proof fn law_mint_makes_no_debts(
    before: LpToken,
    after: LpToken,
    signer: Address,
    to: Address,
    amount: i128,
)
    requires
        before.no_debts(),
        amount >= 0,
        before.mint_refusal(signer, to, amount) is None,
        mint_step(before, after, to, amount),
    ensures
        after.no_debts(),
{
    assert(before.balance_of(to) >= 0);
    assert forall|id: Address| #[trigger] after.balance_of(id) >= 0 by {
        assert(before.balance_of(id) >= 0);
    }
}

/// Where nobody holds less than nothing, burning any amount keeps it so.
pub proof fn law_burn_makes_no_debts(
    before: LpToken,
    after: LpToken,
    signer: Address,
    from: Address,
    amount: i128,
)
    requires
        before.no_debts(),
        before.burn_refusal(signer, from, amount) is None,
        burn_step(before, after, from, amount),
    ensures
        after.no_debts(),
{
    assert(before.balance_of(from) >= 0);
    assert forall|id: Address| #[trigger] after.balance_of(id) >= 0 by {
        assert(before.balance_of(id) >= 0);
    }
}

/// Where nobody holds less than nothing, transferring an amount that is not negative keeps it so.
pub proof fn law_transfer_makes_no_debts(
    before: LpToken,
    after: LpToken,
    signer: Address,
    from: Address,
    to: Address,
    amount: i128,
)
    requires
        before.no_debts(),
        amount >= 0,
        before.transfer_refusal(signer, from, to, amount) is None,
        transfer_step(before, after, from, to, amount),
    ensures
        after.no_debts(),
{
    assert(before.balance_of(from) >= 0);
    assert(before.balance_of(to) >= 0);
    assert forall|id: Address| #[trigger] after.balance_of(id) >= 0 by {
        assert(before.balance_of(id) >= 0);
    }
}

/// Where nobody holds less than nothing, spending an amount that is not negative keeps it so.
pub proof fn law_transfer_from_makes_no_debts(
    before: LpToken,
    after: LpToken,
    signer: Address,
    spender: Address,
    from: Address,
    to: Address,
    amount: i128,
)
    requires
        before.no_debts(),
        amount >= 0,
        before.transfer_from_refusal(signer, spender, from, to, amount) is None,
        transfer_from_step(before, after, spender, from, to, amount),
    ensures
        after.no_debts(),
{
    assert(before.balance_of(from) >= 0);
    assert(before.balance_of(to) >= 0);
    assert forall|id: Address| #[trigger] after.balance_of(id) >= 0 by {
        assert(before.balance_of(id) >= 0);
    }
}

/// A supply that is what the holders hold together is never exceeded by what one of them holds,
/// where nobody holds less than nothing.
pub proof fn law_nobody_holds_more_than_the_supply(token: LpToken, id: Address)
    requires
        token.supply_backed(),
        token.no_debts(),
    ensures
        0 <= token.balance_of(id) <= token.total_supply,
{
    token.ledger.lemma_finite();
    assert forall|other: Address| #[trigger]
        amount_at(token.ledger@, DataKey::Balance(other)) >= 0 by {
        assert(token.balance_of(other) >= 0);
    }
    lemma_balance_at_most_held(token.ledger@, id);
}

/// `mint` credits exactly the receiver, by exactly the amount.
pub proof fn law_mint_credits_the_receiver(
    before: LpToken,
    after: LpToken,
    signer: Address,
    to: Address,
    amount: i128,
)
    requires
        before.mint_refusal(signer, to, amount) is None,
        mint_step(before, after, to, amount),
    ensures
        after.balance_of(to) == before.balance_of(to) + amount,
        forall|id: Address| id != to ==> #[trigger] after.balance_of(id) == before.balance_of(id),
        forall|from: Address, spender: Address| #[trigger]
            after.allowance_of(from, spender) == before.allowance_of(from, spender),
{
}

/// `burn` debits exactly the holder, by exactly the amount.
pub proof fn law_burn_debits_the_holder(
    before: LpToken,
    after: LpToken,
    signer: Address,
    from: Address,
    amount: i128,
)
    requires
        before.burn_refusal(signer, from, amount) is None,
        burn_step(before, after, from, amount),
    ensures
        after.balance_of(from) == before.balance_of(from) - amount,
        forall|id: Address| id != from ==> #[trigger] after.balance_of(id) == before.balance_of(id),
        forall|owner: Address, spender: Address| #[trigger]
            after.allowance_of(owner, spender) == before.allowance_of(owner, spender),
{
}

/// What was just minted to a holder who owes nothing can be burned again, and that leaves every
/// balance, every allowance and the supply as they were.
pub proof fn law_burn_undoes_mint(
    before: LpToken,
    minted: LpToken,
    after: LpToken,
    signer: Address,
    id: Address,
    amount: i128,
)
    requires
        before.balance_of(id) >= 0,
        before.mint_refusal(signer, id, amount) is None,
        mint_step(before, minted, id, amount),
        burn_step(minted, after, id, amount),
    ensures
        minted.burn_refusal(signer, id, amount) is None,
        after.config == before.config,
        after.total_supply == before.total_supply,
        forall|other: Address| #[trigger] after.balance_of(other) == before.balance_of(other),
        forall|from: Address, spender: Address| #[trigger]
            after.allowance_of(from, spender) == before.allowance_of(from, spender),
{
}

/// `transfer` takes the amount from one holder and gives it to another, and touches nobody else
/// and no allowance. A transfer to oneself changes no balance.
pub proof fn law_transfer_moves_the_amount(
    before: LpToken,
    after: LpToken,
    signer: Address,
    from: Address,
    to: Address,
    amount: i128,
)
    requires
        before.transfer_refusal(signer, from, to, amount) is None,
        transfer_step(before, after, from, to, amount),
    ensures
        from != to ==> after.balance_of(from) == before.balance_of(from) - amount,
        from != to ==> after.balance_of(to) == before.balance_of(to) + amount,
        from == to ==> after.balance_of(from) == before.balance_of(from),
        forall|id: Address|
            id != from && id != to ==> #[trigger] after.balance_of(id) == before.balance_of(id),
        forall|owner: Address, spender: Address| #[trigger]
            after.allowance_of(owner, spender) == before.allowance_of(owner, spender),
{
}

/// A transfer of an amount that is not negative takes tokens from nobody but its signer.
pub proof fn law_transfer_takes_only_from_the_signer(
    before: LpToken,
    after: LpToken,
    signer: Address,
    from: Address,
    to: Address,
    amount: i128,
)
    requires
        amount >= 0,
        before.transfer_refusal(signer, from, to, amount) is None,
        transfer_step(before, after, from, to, amount),
    ensures
        forall|id: Address|
            id != signer ==> #[trigger] after.balance_of(id) >= before.balance_of(id),
{
    law_transfer_moves_the_amount(before, after, signer, from, to, amount);
    assert forall|id: Address| id != signer implies #[trigger] after.balance_of(id)
        >= before.balance_of(id) by {
        if id != to {
            assert(after.balance_of(id) == before.balance_of(id));
        }
    }
}

/// Spending an amount that is not negative takes tokens from nobody but the holder who allowed it,
/// and no more of them than were allowed.
pub proof fn law_transfer_from_takes_only_what_was_allowed(
    before: LpToken,
    after: LpToken,
    signer: Address,
    spender: Address,
    from: Address,
    to: Address,
    amount: i128,
)
    requires
        amount >= 0,
        before.transfer_from_refusal(signer, spender, from, to, amount) is None,
        transfer_from_step(before, after, spender, from, to, amount),
    ensures
        forall|id: Address|
            id != from ==> #[trigger] after.balance_of(id) >= before.balance_of(id),
        before.balance_of(from) - after.balance_of(from) <= before.allowance_of(from, signer),
{
    law_transfer_from_spends_the_allowance(before, after, signer, spender, from, to, amount);
    assert forall|id: Address| id != from implies #[trigger] after.balance_of(id)
        >= before.balance_of(id) by {
        if id != to {
            assert(after.balance_of(id) == before.balance_of(id));
        }
    }
}

/// `transfer_from` moves the amount as `transfer` does, and takes it off the allowance of the
/// spender, and off no other allowance.
pub proof fn law_transfer_from_spends_the_allowance(
    before: LpToken,
    after: LpToken,
    signer: Address,
    spender: Address,
    from: Address,
    to: Address,
    amount: i128,
)
    requires
        before.transfer_from_refusal(signer, spender, from, to, amount) is None,
        transfer_from_step(before, after, spender, from, to, amount),
    ensures
        after.allowance_of(from, spender) == before.allowance_of(from, spender) - amount,
        forall|owner: Address, other: Address|
            (owner, other) != (from, spender) ==> #[trigger] after.allowance_of(owner, other)
                == before.allowance_of(owner, other),
        from != to ==> after.balance_of(from) == before.balance_of(from) - amount,
        from != to ==> after.balance_of(to) == before.balance_of(to) + amount,
        from == to ==> after.balance_of(from) == before.balance_of(from),
        forall|id: Address|
            id != from && id != to ==> #[trigger] after.balance_of(id) == before.balance_of(id),
{
}

/// After `approve`, the allowance is the amount approved, and no other allowance has changed.
pub proof fn law_approve_sets_the_allowance(
    before: LpToken,
    after: LpToken,
    from: Address,
    spender: Address,
    amount: i128,
)
    requires
        approve_step(before, after, from, spender, amount),
    ensures
        after.allowance_of(from, spender) == amount,
        forall|owner: Address, other: Address|
            (owner, other) != (from, spender) ==> #[trigger] after.allowance_of(owner, other)
                == before.allowance_of(owner, other),
{
}

/// Approving zero takes an allowance back: the spender can then transfer no positive amount.
pub proof fn law_approving_zero_revokes(
    before: LpToken,
    after: LpToken,
    from: Address,
    spender: Address,
    to: Address,
    amount: i128,
)
    requires
        approve_step(before, after, from, spender, 0),
        amount > 0,
    ensures
        after.transfer_from_refusal(spender, spender, from, to, amount) == Some(
            TokenError::InsufficientAllowance { available: 0, requested: amount },
        ),
{
}

/// Only the admin mints and burns: what anybody else has authorized is refused.
pub proof fn law_only_the_admin_mints_and_burns(
    token: LpToken,
    signer: Address,
    id: Address,
    amount: i128,
)
    requires
        token.config is Some,
        signer != token.config->0.admin,
    ensures
        token.mint_refusal(signer, id, amount) == Some(
            TokenError::Unauthorized { required: token.config->0.admin, signer },
        ),
        token.burn_refusal(signer, id, amount) == Some(
            TokenError::Unauthorized { required: token.config->0.admin, signer },
        ),
{
}

} // verus!
