//! The LP token: a fungible token whose admin mints and burns it.

use crate::address::Address;
use crate::arith::fits;
use crate::ledger::{amount_at, DataKey, Ledger};
use vstd::prelude::*;

verus! {

/// What a token is set up with. The texts are those of the host, which need not be UTF-8.
#[derive(Debug)]
pub struct TokenConfig {
    pub admin: Address,
    pub name: Vec<u8>,
    pub symbol: Vec<u8>,
    pub decimals: u32,
}

/// A deployed token contract: what it was set up with, if it was, and who holds what.
#[derive(Debug)]
pub struct LpToken {
    pub config: Option<TokenConfig>,
    pub total_supply: i128,
    pub ledger: Ledger,
}

/// Why a token refuses a call.
#[derive(Debug, Clone, Copy, PartialEq, Eq)]
pub enum TokenError {
    AlreadyInitialized,
    NotInitialized,
    Unauthorized { required: Address, signer: Address },
    InsufficientBalance { available: i128, requested: i128 },
    InsufficientAllowance { available: i128, requested: i128 },
    Overflow,
}

/// What the token announces once a transfer has gone through.
#[derive(Debug, Clone, Copy, PartialEq, Eq)]
pub struct TransferEvent {
    pub from: Address,
    pub to: Address,
    pub amount: i128,
}

/// The ledger after `amount` has been taken from the balance of `from`.
pub open spec fn debited(ledger: Map<DataKey, i128>, from: Address, amount: i128) -> Map<
    DataKey,
    i128,
> {
    ledger.insert(
        DataKey::Balance(from),
        (amount_at(ledger, DataKey::Balance(from)) - amount) as i128,
    )
}

/// The ledger after `amount` has been added to the balance of `to`.
pub open spec fn credited(ledger: Map<DataKey, i128>, to: Address, amount: i128) -> Map<
    DataKey,
    i128,
> {
    ledger.insert(
        DataKey::Balance(to),
        (amount_at(ledger, DataKey::Balance(to)) + amount) as i128,
    )
}

/// The ledger after `amount` has moved from `from` to `to`.
pub open spec fn moved(
    ledger: Map<DataKey, i128>,
    from: Address,
    to: Address,
    amount: i128,
) -> Map<DataKey, i128> {
    credited(debited(ledger, from, amount), to, amount)
}

/// The ledger in which `spender` may transfer `amount` on behalf of `from`.
pub open spec fn allowed(
    ledger: Map<DataKey, i128>,
    from: Address,
    spender: Address,
    amount: int,
) -> Map<DataKey, i128> {
    ledger.insert(DataKey::Allowance(from, spender), amount as i128)
}

/// Why `amount` cannot move from `from` to `to`, if it cannot.
pub open spec fn move_refusal(
    ledger: Map<DataKey, i128>,
    from: Address,
    to: Address,
    amount: i128,
) -> Option<TokenError> {
    let available = amount_at(ledger, DataKey::Balance(from));
    if available < amount {
        Some(TokenError::InsufficientBalance { available, requested: amount })
    } else if !fits(available - amount) {
        Some(TokenError::Overflow)
    } else if !fits(
        amount_at(debited(ledger, from, amount), DataKey::Balance(to)) + amount,
    ) {
        Some(TokenError::Overflow)
    } else {
        None
    }
}

/// What `mint` makes of a token.
pub open spec fn mint_step(before: LpToken, after: LpToken, to: Address, amount: i128) -> bool {
    &&& after.config == before.config
    &&& after.total_supply == before.total_supply + amount
    &&& after.ledger@ == credited(before.ledger@, to, amount)
}

/// What `burn` makes of a token.
pub open spec fn burn_step(before: LpToken, after: LpToken, from: Address, amount: i128) -> bool {
    &&& after.config == before.config
    &&& after.total_supply == before.total_supply - amount
    &&& after.ledger@ == debited(before.ledger@, from, amount)
}

/// What `transfer` makes of a token.
pub open spec fn transfer_step(
    before: LpToken,
    after: LpToken,
    from: Address,
    to: Address,
    amount: i128,
) -> bool {
    &&& after.config == before.config
    &&& after.total_supply == before.total_supply
    &&& after.ledger@ == moved(before.ledger@, from, to, amount)
}

/// What `transfer_from` makes of a token.
pub open spec fn transfer_from_step(
    before: LpToken,
    after: LpToken,
    spender: Address,
    from: Address,
    to: Address,
    amount: i128,
) -> bool {
    let left = before.allowance_of(from, spender) - amount;
    &&& after.config == before.config
    &&& after.total_supply == before.total_supply
    &&& after.ledger@ == moved(
        allowed(before.ledger@, from, spender, left),
        from,
        to,
        amount,
    )
}

/// What `approve` makes of a token.
pub open spec fn approve_step(
    before: LpToken,
    after: LpToken,
    from: Address,
    spender: Address,
    amount: i128,
) -> bool {
    &&& after.config == before.config
    &&& after.total_supply == before.total_supply
    &&& after.ledger@ == allowed(before.ledger@, from, spender, amount as int)
}

impl LpToken {
    /// What `id` holds.
    pub open spec fn balance_of(self, id: Address) -> i128 {
        amount_at(self.ledger@, DataKey::Balance(id))
    }

    /// What `spender` may still transfer on behalf of `from`.
    pub open spec fn allowance_of(self, from: Address, spender: Address) -> i128 {
        amount_at(self.ledger@, DataKey::Allowance(from, spender))
    }

    /// Why the call that `signer` has authorized cannot act as the admin, if it cannot.
    pub open spec fn admin_refusal(self, signer: Address) -> Option<TokenError> {
        match self.config {
            None => Some(TokenError::NotInitialized),
            Some(config) => if signer != config.admin {
                Some(TokenError::Unauthorized { required: config.admin, signer })
            } else {
                None
            },
        }
    }

    /// Why `mint` refuses, if it does.
    pub open spec fn mint_refusal(self, signer: Address, to: Address, amount: i128) -> Option<
        TokenError,
    > {
        match self.admin_refusal(signer) {
            Some(refusal) => Some(refusal),
            None => if !fits(self.total_supply + amount) || !fits(self.balance_of(to) + amount) {
                Some(TokenError::Overflow)
            } else {
                None
            },
        }
    }

    /// Why `burn` refuses, if it does.
    pub open spec fn burn_refusal(self, signer: Address, from: Address, amount: i128) -> Option<
        TokenError,
    > {
        match self.admin_refusal(signer) {
            Some(refusal) => Some(refusal),
            None => {
                let available = self.balance_of(from);
                if available < amount {
                    Some(TokenError::InsufficientBalance { available, requested: amount })
                } else if !fits(available - amount) || !fits(self.total_supply - amount) {
                    Some(TokenError::Overflow)
                } else {
                    None
                }
            },
        }
    }

    /// Why `transfer` refuses, if it does.
    pub open spec fn transfer_refusal(
        self,
        signer: Address,
        from: Address,
        to: Address,
        amount: i128,
    ) -> Option<TokenError> {
        if signer != from {
            Some(TokenError::Unauthorized { required: from, signer })
        } else {
            move_refusal(self.ledger@, from, to, amount)
        }
    }

    /// Why `transfer_from` refuses, if it does.
    pub open spec fn transfer_from_refusal(
        self,
        signer: Address,
        spender: Address,
        from: Address,
        to: Address,
        amount: i128,
    ) -> Option<TokenError> {
        let available = self.allowance_of(from, spender);
        if signer != spender {
            Some(TokenError::Unauthorized { required: spender, signer })
        } else if available < amount {
            Some(TokenError::InsufficientAllowance { available, requested: amount })
        } else if !fits(available - amount) {
            Some(TokenError::Overflow)
        } else {
            move_refusal(self.ledger@, from, to, amount)
        }
    }

    /// Set the token up with an admin and metadata.
    ///
    /// This can be done once. `admin` is the only address that can authorize `mint` and `burn`.
    pub fn initialize(
        &mut self,
        admin: Address,
        name: Vec<u8>,
        symbol: Vec<u8>,
        decimals: u32,
    ) -> (r: Result<(), TokenError>)
        ensures
            old(self).config is Some ==> {
                &&& r == Err::<(), TokenError>(TokenError::AlreadyInitialized)
                &&& *final(self) == *old(self)
            },
            old(self).config is None ==> {
                &&& r == Ok::<(), TokenError>(())
                &&& final(self).config == Some(TokenConfig { admin, name, symbol, decimals })
                &&& final(self).total_supply == 0
                &&& final(self).ledger == old(self).ledger
            },
    {
        if self.config.is_some() {
            return Err(TokenError::AlreadyInitialized);
        }
        self.config = Some(TokenConfig { admin, name, symbol, decimals });
        self.total_supply = 0;
        Ok(())
    }

    /// The token name.
    pub fn name(&self) -> (r: Result<Vec<u8>, TokenError>)
        ensures
            match self.config {
                None => r == Err::<Vec<u8>, TokenError>(TokenError::NotInitialized),
                Some(config) => r is Ok && r->Ok_0@ == config.name@,
            },
    {
        match &self.config {
            None => Err(TokenError::NotInitialized),
            Some(config) => Ok(config.name.clone()),
        }
    }

    /// The token symbol.
    pub fn symbol(&self) -> (r: Result<Vec<u8>, TokenError>)
        ensures
            match self.config {
                None => r == Err::<Vec<u8>, TokenError>(TokenError::NotInitialized),
                Some(config) => r is Ok && r->Ok_0@ == config.symbol@,
            },
    {
        match &self.config {
            None => Err(TokenError::NotInitialized),
            Some(config) => Ok(config.symbol.clone()),
        }
    }

    /// The number of decimal places in which amounts are shown.
    pub fn decimals(&self) -> (r: Result<u32, TokenError>)
        ensures
            r == match self.config {
                None => Err(TokenError::NotInitialized),
                Some(config) => Ok(config.decimals),
            },
    {
        match &self.config {
            None => Err(TokenError::NotInitialized),
            Some(config) => Ok(config.decimals),
        }
    }

    /// The address that authorizes `mint` and `burn`.
    pub fn admin(&self) -> (r: Result<Address, TokenError>)
        ensures
            r == match self.config {
                None => Err(TokenError::NotInitialized),
                Some(config) => Ok(config.admin),
            },
    {
        match &self.config {
            None => Err(TokenError::NotInitialized),
            Some(config) => Ok(config.admin),
        }
    }

    /// The number of tokens in circulation.
    pub fn total_supply(&self) -> (supply: i128)
        ensures
            supply == self.total_supply,
    {
        self.total_supply
    }

    /// What `id` holds; zero if it never held any.
    pub fn balance(&self, id: Address) -> (amount: i128)
        ensures
            amount == self.balance_of(id),
    {
        self.ledger.get_or_zero(DataKey::Balance(id))
    }

    /// What `spender` may still transfer on behalf of `from`; zero if that was never set.
    pub fn allowance(&self, from: Address, spender: Address) -> (amount: i128)
        ensures
            amount == self.allowance_of(from, spender),
    {
        self.ledger.get_or_zero(DataKey::Allowance(from, spender))
    }

    /// Transfer `amount` tokens from `from` to `to`.
    ///
    /// `signer` is the address that has authorized the call; it has to be `from`. The sign of
    /// `amount` is not tested: a negative amount is taken from `to` and given to `from`, on the
    /// authorization of `from` alone and whatever `to` holds.
    pub fn transfer(&mut self, signer: Address, from: Address, to: Address, amount: i128) -> (r: Result<
        TransferEvent,
        TokenError,
    >)
        ensures
            match old(self).transfer_refusal(signer, from, to, amount) {
                Some(refusal) => {
                    &&& r == Err::<TransferEvent, TokenError>(refusal)
                    &&& *final(self) == *old(self)
                },
                None => {
                    &&& r == Ok::<TransferEvent, TokenError>(TransferEvent { from, to, amount })
                    &&& transfer_step(*old(self), *final(self), from, to, amount)
                },
            },
    {
        if signer != from {
            return Err(TokenError::Unauthorized { required: from, signer });
        }
        self._transfer(from, to, amount)
    }

    /// Transfer `amount` tokens from `from` to `to` out of what `spender` is allowed.
    ///
    /// `signer` is the address that has authorized the call; it has to be `spender`. The sign of
    /// `amount` is not tested: a negative amount is taken from `to` and given to `from`, whatever
    /// `to` holds, and raises the allowance of `spender`.
    pub fn transfer_from(
        &mut self,
        signer: Address,
        spender: Address,
        from: Address,
        to: Address,
        amount: i128,
    ) -> (r: Result<TransferEvent, TokenError>)
        ensures
            match old(self).transfer_from_refusal(signer, spender, from, to, amount) {
                Some(refusal) => {
                    &&& r == Err::<TransferEvent, TokenError>(refusal)
                    &&& *final(self) == *old(self)
                },
                None => {
                    &&& r == Ok::<TransferEvent, TokenError>(TransferEvent { from, to, amount })
                    &&& transfer_from_step(*old(self), *final(self), spender, from, to, amount)
                },
            },
    {
        if signer != spender {
            return Err(TokenError::Unauthorized { required: spender, signer });
        }
        let available: i128 = self.allowance(from, spender);
        if available < amount {
            return Err(TokenError::InsufficientAllowance { available, requested: amount });
        }
        let left: i128 = available.checked_sub(amount).ok_or(TokenError::Overflow)?;
        let event: TransferEvent = self._transfer(from, to, amount)?;
        self.ledger.set(DataKey::Allowance(from, spender), left);
        assert(self.ledger@ =~= moved(
            allowed(old(self).ledger@, from, spender, left as int),
            from,
            to,
            amount,
        ));
        Ok(event)
    }

    /// Allow `spender` to transfer up to `amount` tokens on behalf of `from`.
    ///
    /// `signer` is the address that has authorized the call; it has to be `from`. An `amount` of
    /// zero takes the allowance back.
    pub fn approve(&mut self, signer: Address, from: Address, spender: Address, amount: i128) -> (r:
        Result<(), TokenError>)
        ensures
            signer != from ==> {
                &&& r == Err::<(), TokenError>(
                    TokenError::Unauthorized { required: from, signer },
                )
                &&& *final(self) == *old(self)
            },
            signer == from ==> {
                &&& r == Ok::<(), TokenError>(())
                &&& approve_step(*old(self), *final(self), from, spender, amount)
            },
    {
        if signer != from {
            return Err(TokenError::Unauthorized { required: from, signer });
        }
        self.ledger.set(DataKey::Allowance(from, spender), amount);
        Ok(())
    }

    /// Mint `amount` new tokens to `to`.
    ///
    /// `signer` is the address that has authorized the call; it has to be the admin. The sign of
    /// `amount` is not tested: a negative amount is taken off the balance of `to`, whatever `to`
    /// holds, and off the supply.
    pub fn mint(&mut self, signer: Address, to: Address, amount: i128) -> (r: Result<(), TokenError>)
        ensures
            match old(self).mint_refusal(signer, to, amount) {
                Some(refusal) => {
                    &&& r == Err::<(), TokenError>(refusal)
                    &&& *final(self) == *old(self)
                },
                None => {
                    &&& r == Ok::<(), TokenError>(())
                    &&& mint_step(*old(self), *final(self), to, amount)
                },
            },
    {
        let admin: Address = self.admin()?;
        if signer != admin {
            return Err(TokenError::Unauthorized { required: admin, signer });
        }
        let supply: i128 = self.total_supply.checked_add(amount).ok_or(TokenError::Overflow)?;
        let balance: i128 = self.balance(to).checked_add(amount).ok_or(TokenError::Overflow)?;
        self.total_supply = supply;
        self.ledger.set(DataKey::Balance(to), balance);
        Ok(())
    }

    /// Burn `amount` tokens of `from`.
    ///
    /// `signer` is the address that has authorized the call; it has to be the admin. The sign of
    /// `amount` is not tested: a negative amount is added to the balance of `from` and to the supply,
    /// where the balance is not less than the amount.
    pub fn burn(&mut self, signer: Address, from: Address, amount: i128) -> (r: Result<
        (),
        TokenError,
    >)
        ensures
            match old(self).burn_refusal(signer, from, amount) {
                Some(refusal) => {
                    &&& r == Err::<(), TokenError>(refusal)
                    &&& *final(self) == *old(self)
                },
                None => {
                    &&& r == Ok::<(), TokenError>(())
                    &&& burn_step(*old(self), *final(self), from, amount)
                },
            },
    {
        let admin: Address = self.admin()?;
        if signer != admin {
            return Err(TokenError::Unauthorized { required: admin, signer });
        }
        let available: i128 = self.balance(from);
        if available < amount {
            return Err(TokenError::InsufficientBalance { available, requested: amount });
        }
        let balance: i128 = available.checked_sub(amount).ok_or(TokenError::Overflow)?;
        let supply: i128 = self.total_supply.checked_sub(amount).ok_or(TokenError::Overflow)?;
        self.ledger.set(DataKey::Balance(from), balance);
        self.total_supply = supply;
        Ok(())
    }

    /// Move `amount` tokens from `from` to `to`.
    fn _transfer(&mut self, from: Address, to: Address, amount: i128) -> (r: Result<
        TransferEvent,
        TokenError,
    >)
        ensures
            match move_refusal(old(self).ledger@, from, to, amount) {
                Some(refusal) => {
                    &&& r == Err::<TransferEvent, TokenError>(refusal)
                    &&& *final(self) == *old(self)
                },
                None => {
                    &&& r == Ok::<TransferEvent, TokenError>(TransferEvent { from, to, amount })
                    &&& transfer_step(*old(self), *final(self), from, to, amount)
                },
            },
    {
        let available: i128 = self.balance(from);
        if available < amount {
            return Err(TokenError::InsufficientBalance { available, requested: amount });
        }
        let from_balance: i128 = available.checked_sub(amount).ok_or(TokenError::Overflow)?;
        let held: i128 = if from == to {
            from_balance
        } else {
            self.balance(to)
        };
        let to_balance: i128 = held.checked_add(amount).ok_or(TokenError::Overflow)?;
        self.ledger.set(DataKey::Balance(from), from_balance);
        self.ledger.set(DataKey::Balance(to), to_balance);
        Ok(TransferEvent { from, to, amount })
    }
}

impl TransferEvent {
    /// The name under which the event is published.
    pub fn topic(&self) -> (name: &'static str)
        ensures
            name@ == "transfer"@,
    {
        "transfer"
    }
}

} // verus!
